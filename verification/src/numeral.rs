use vstd::prelude::*;

verus! {

/// The decimal digit character for `d` (meaningful for `d < 10`).
pub open spec fn dec_digit(d: nat) -> char {
    if d == 0 {
        '0'
    } else if d == 1 {
        '1'
    } else if d == 2 {
        '2'
    } else if d == 3 {
        '3'
    } else if d == 4 {
        '4'
    } else if d == 5 {
        '5'
    } else if d == 6 {
        '6'
    } else if d == 7 {
        '7'
    } else if d == 8 {
        '8'
    } else {
        '9'
    }
}

/// The decimal digit string of a natural number, most significant digit
/// first, with no leading zeros (except for the number zero itself).
pub open spec fn dec_nat(n: nat) -> Seq<char>
    decreases n,
{
    if n < 10 {
        seq![dec_digit(n)]
    } else {
        dec_nat(n / 10) + seq![dec_digit(n % 10)]
    }
}

/// The decimal string of an integer: a leading minus sign when negative,
/// then the digits of its absolute value.
pub open spec fn dec_int(n: int) -> Seq<char> {
    if n < 0 {
        seq!['-'] + dec_nat((-n) as nat)
    } else {
        dec_nat(n as nat)
    }
}

/// Relies on itoa's `Buffer::format`: it prints a signed integer as its
/// decimal digits with a leading minus sign when negative, exactly as
/// libcore's formatting does.
#[verifier::external_body]
pub(crate) fn fmt_i64(n: i64) -> (r: String)
    ensures
        r@ == dec_int(n as int),
{
    let mut buf = itoa::Buffer::new();
    buf.format(n).to_owned()
}

/// Relies on itoa's `Buffer::format`: it prints an unsigned integer as its
/// decimal digits, exactly as libcore's formatting does.
#[verifier::external_body]
pub(crate) fn fmt_u64(n: u64) -> (r: String)
    ensures
        r@ == dec_nat(n as nat),
{
    let mut buf = itoa::Buffer::new();
    buf.format(n).to_owned()
}

} // verus!
