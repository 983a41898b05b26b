use vstd::prelude::*;

use crate::base64url::base64_url;
use crate::numeral::{dec_int, dec_nat};

verus! {

/// One named field of a record.
pub struct Field {
    pub name: &'static str,
    pub value: Value,
}

/// The shapes a value handed to the encoder can take. The first group is
/// what the flat format can represent; the trailing, payload-free shapes
/// exist so that the dispatcher can name what it rejects.
pub enum Value {
    Bool(bool),
    Int(i64),
    Uint(u64),
    Character(char),
    Text(String),
    Bytes(Vec<u8>),
    /// An absent optional value.
    Absent,
    /// A present optional value: encoded exactly as its content.
    Present(Box<Value>),
    /// A record, encoded field by field in declaration order.
    Record(Vec<Field>),
    Sequence,
    Mapping,
    Tuple,
    Unit,
    EnumVariant,
    Formatted,
}

/// The observable state of one encoding pass: the text accumulated so far
/// and whether no append has completed yet.
#[verifier::ext_equal]
pub ghost struct EncState {
    pub buf: Seq<char>,
    pub start: bool,
}

/// The state in which every encoding pass begins.
pub open spec fn initial_state() -> EncState {
    EncState { buf: Seq::<char>::empty(), start: true }
}

/// What one append writes before its segment: nothing for the very first
/// segment, the delimiter for every later one.
pub open spec fn sep(st: EncState, d: Seq<char>) -> Seq<char> {
    if st.start {
        Seq::<char>::empty()
    } else {
        d
    }
}

/// The state after appending one text segment `s`.
pub open spec fn after_text(st: EncState, d: Seq<char>, s: Seq<char>) -> EncState {
    EncState { buf: st.buf + sep(st, d) + s, start: false }
}

/// The state after appending an absent value: the delimiter alone is
/// written, unconditionally, and `start` is left as it was.
pub open spec fn after_absent(st: EncState, d: Seq<char>) -> EncState {
    EncState { buf: st.buf + d, start: st.start }
}

/// The result of one encoding step: the state it leaves behind and, when a
/// shape was rejected, that shape's name. On rejection the state holds
/// whatever was already written before the rejected shape was met.
#[verifier::ext_equal]
pub ghost struct EncOutcome {
    pub state: EncState,
    pub err: Option<Seq<char>>,
}

/// The text form of a boolean: "1" or "0".
pub open spec fn bool_text(b: bool) -> Seq<char> {
    if b {
        "1"@
    } else {
        "0"@
    }
}

/// What encoding one value does to the encoder state, and whether it
/// succeeds. This is the whole semantics of the format: primitives become
/// one delimited segment each, an absent value writes a bare delimiter,
/// a present optional is transparent, records fold over their fields
/// (name first in map-like mode) and stop at the first rejection, and the
/// trailing shapes are rejected under their names with the state untouched.
pub open spec fn enc_value(st: EncState, d: Seq<char>, map_like: bool, v: Value) -> EncOutcome
    decreases v,
{
    match v {
        Value::Bool(b) => EncOutcome { state: after_text(st, d, bool_text(b)), err: None },
        Value::Int(n) => EncOutcome { state: after_text(st, d, dec_int(n as int)), err: None },
        Value::Uint(n) => EncOutcome { state: after_text(st, d, dec_nat(n as nat)), err: None },
        Value::Character(c) => EncOutcome { state: after_text(st, d, seq![c]), err: None },
        Value::Text(s) => EncOutcome { state: after_text(st, d, s@), err: None },
        Value::Bytes(b) => EncOutcome { state: after_text(st, d, base64_url(b@)), err: None },
        Value::Absent => EncOutcome { state: after_absent(st, d), err: None },
        Value::Present(inner) => enc_value(st, d, map_like, *inner),
        Value::Record(fields) => enc_fields(st, d, map_like, fields@),
        Value::Sequence => EncOutcome { state: st, err: Some("sequence"@) },
        Value::Mapping => EncOutcome { state: st, err: Some("map"@) },
        Value::Tuple => EncOutcome { state: st, err: Some("tuple"@) },
        Value::Unit => EncOutcome { state: st, err: Some("unit"@) },
        Value::EnumVariant => EncOutcome { state: st, err: Some("variant"@) },
        Value::Formatted => EncOutcome { state: st, err: Some("formatted"@) },
    }
}

/// What encoding one record field does: in map-like mode the field's name
/// is appended as a segment of its own, then the value is encoded.
pub open spec fn enc_field(st: EncState, d: Seq<char>, map_like: bool, f: Field) -> EncOutcome
    decreases f,
{
    let st1 = if map_like {
        after_text(st, d, f.name@)
    } else {
        st
    };
    enc_value(st1, d, map_like, f.value)
}

/// What encoding a run of record fields does: fields in order, stopping
/// at the first rejection.
pub open spec fn enc_fields(st: EncState, d: Seq<char>, map_like: bool, fs: Seq<Field>) -> EncOutcome
    decreases fs,
{
    if fs.len() == 0 {
        EncOutcome { state: st, err: None }
    } else {
        let o = enc_field(st, d, map_like, fs[0]);
        if o.err is Some {
            o
        } else {
            enc_fields(o.state, d, map_like, fs.subrange(1, fs.len() as int))
        }
    }
}

/// Whether a value is one of the primitive shapes, each of which encodes
/// to exactly one segment of text.
pub open spec fn is_primitive(v: Value) -> bool {
    match v {
        Value::Bool(_)
        | Value::Int(_)
        | Value::Uint(_)
        | Value::Character(_)
        | Value::Text(_)
        | Value::Bytes(_) => true,
        _ => false,
    }
}

/// The single segment of text a primitive value encodes to: its direct
/// text form.
pub open spec fn primitive_text(v: Value) -> Seq<char> {
    match v {
        Value::Bool(b) => bool_text(b),
        Value::Int(n) => dec_int(n as int),
        Value::Uint(n) => dec_nat(n as nat),
        Value::Character(c) => seq![c],
        Value::Text(s) => s@,
        Value::Bytes(b) => base64_url(b@),
        _ => Seq::<char>::empty(),
    }
}

/// Whether the format can represent a value: every shape but the rejected
/// composites, recursively through optionals and record fields.
pub open spec fn supported(v: Value) -> bool
    decreases v,
{
    match v {
        Value::Present(inner) => supported(*inner),
        Value::Record(fields) => fields_supported(fields@),
        Value::Sequence
        | Value::Mapping
        | Value::Tuple
        | Value::Unit
        | Value::EnumVariant
        | Value::Formatted => false,
        _ => true,
    }
}

/// Whether every field of a record holds a representable value.
pub open spec fn fields_supported(fs: Seq<Field>) -> bool
    decreases fs,
{
    if fs.len() == 0 {
        true
    } else {
        supported(fs[0].value) && fields_supported(fs.subrange(1, fs.len() as int))
    }
}

/// Whether every byte blob inside a value is small enough for its base64
/// text length to be computed without overflow (a machine limit, not a
/// rule of the format).
pub open spec fn value_fits(v: Value) -> bool
    decreases v,
{
    match v {
        Value::Bytes(b) => b@.len() <= usize::MAX / 4,
        Value::Present(inner) => value_fits(*inner),
        Value::Record(fields) => fields_fit(fields@),
        _ => true,
    }
}

/// Whether every field value of a record fits the machine limit above.
pub open spec fn fields_fit(fs: Seq<Field>) -> bool
    decreases fs,
{
    if fs.len() == 0 {
        true
    } else {
        value_fits(fs[0].value) && fields_fit(fs.subrange(1, fs.len() as int))
    }
}

} // verus!
