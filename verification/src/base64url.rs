use vstd::prelude::*;

use base64::Engine;

verus! {

/// The URL-safe base64 text of a byte sequence, unpadded. The full digit
/// table is left unstated; `encode_base64_url` pins its length and its
/// alphabet, and the encoding depends on the input bytes alone.
pub uninterp spec fn base64_url(bytes: Seq<u8>) -> Seq<char>;

/// Membership in the URL-safe base64 alphabet: letters, digits, `-`, `_`.
/// Note `+` and `/` are not in it.
pub open spec fn is_base64_url_char(c: char) -> bool {
    ('A' <= c && c <= 'Z') || ('a' <= c && c <= 'z') || ('0' <= c && c <= '9') || c == '-' || c
        == '_'
}

/// Relies on base64's `URL_SAFE_NO_PAD` engine: it encodes the bytes with
/// the URL-safe alphabet (`-` and `_` in place of `+` and `/`) and writes
/// no padding, so the output holds exactly ceil(4n/3) alphabet characters
/// for n input bytes. The length bound keeps the engine's internal size
/// computation from overflowing, on which it would panic.
#[verifier::external_body]
pub(crate) fn encode_base64_url(data: &[u8]) -> (r: String)
    requires
        data@.len() <= usize::MAX / 4,
    ensures
        r@ == base64_url(data@),
        r@.len() == (data@.len() * 4 + 2) / 3,
        forall|i: int| 0 <= i < r@.len() ==> is_base64_url_char(#[trigger] r@[i]),
{
    base64::engine::general_purpose::URL_SAFE_NO_PAD.encode(data)
}

} // verus!
