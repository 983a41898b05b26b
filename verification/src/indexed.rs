use vstd::prelude::*;
use vstd::string::StringExecFns;

use crate::base64url::{base64_url, encode_base64_url, is_base64_url_char};
use crate::error::Error;
use crate::numeral::{dec_int, dec_nat, fmt_i64, fmt_u64};
use crate::value::{
    after_absent, after_text, bool_text, enc_field, enc_fields, enc_value, initial_state, sep,
    value_fits, fields_fit, EncState, Field, Value,
};

verus! {

/// Relies on std's `String::with_capacity`: it returns an empty string;
/// the capacity is only a reservation.
#[verifier::external_body]
fn string_with_capacity(capacity: usize) -> (r: String)
    ensures
        r@ == Seq::<char>::empty(),
{
    String::with_capacity(capacity)
}

/// Relies on std's `String::push`: it appends exactly the one character.
#[verifier::external_body]
fn push_char(s: &mut String, c: char)
    ensures
        final(s)@ == old(s)@ + seq![c],
{
    s.push(c)
}

/// The encoder: one instance accumulates the flat text of one value and is
/// consumed by `finish`. The delimiter and the map-like flag are fixed at
/// construction; `is_start` records whether no append has completed yet
/// (buffer emptiness cannot stand in for it, because appending an absent
/// value writes only a delimiter and may leave the buffer non-empty while
/// a later append must still count as the first).
pub struct IndexedSerializer {
    pub delimiter: &'static str,
    pub buffer: String,
    pub map_like: bool,
    pub is_start: bool,
}

impl IndexedSerializer {
    /// The mathematical state of this encoder: the accumulated text and
    /// whether no append has completed yet.
    pub open spec fn st(self) -> EncState {
        EncState { buf: self.buffer@, start: self.is_start }
    }

    /// The construction-time configuration, which no operation changes.
    pub open spec fn same_config(self, other: Self) -> bool {
        self.delimiter@ == other.delimiter@ && self.map_like == other.map_like
    }

    /// A fresh encoder over the given delimiter and field mode.
    pub fn new(delimiter: &'static str, map_like: bool) -> (r: IndexedSerializer)
        ensures
            r.delimiter@ == delimiter@,
            r.map_like == map_like,
            r.st() == initial_state(),
    {
        let r = IndexedSerializer { delimiter, buffer: String::new(), map_like, is_start: true };
        proof {
            assert(r.st() =~= initial_state());
        }
        r
    }

    /// A fresh encoder whose buffer starts with room for `capacity` bytes.
    /// The hint has no semantic effect: the encoder starts empty.
    pub fn with_capacity(delimiter: &'static str, map_like: bool, capacity: usize) -> (r:
        IndexedSerializer)
        ensures
            r.delimiter@ == delimiter@,
            r.map_like == map_like,
            r.st() == initial_state(),
    {
        let r = IndexedSerializer {
            delimiter,
            buffer: string_with_capacity(capacity),
            map_like,
            is_start: true,
        };
        proof {
            assert(r.st() =~= initial_state());
        }
        r
    }

    /// Consumes the encoder and hands back everything appended so far.
    pub fn finish(self) -> (r: String)
        ensures
            r@ == self.st().buf,
    {
        self.buffer
    }

    /// Opens the next segment: writes the delimiter unless nothing has been
    /// appended yet, and marks the encoder as started.
    fn begin_segment(&mut self)
        ensures
            final(self).buffer@ == old(self).buffer@ + sep(old(self).st(), old(self).delimiter@),
            final(self).is_start == false,
            final(self).same_config(*old(self)),
    {
        if self.is_start {
            self.is_start = false;
            proof {
                assert(self.buffer@ =~= old(self).buffer@ + sep(
                    old(self).st(),
                    old(self).delimiter@,
                ));
            }
        } else {
            let d = self.delimiter;
            self.buffer.append(d);
        }
    }

    /// Appends one text segment verbatim, preceded by the delimiter unless
    /// it is the first segment.
    pub fn append(&mut self, s: &str) -> (r: Result<(), Error>)
        ensures
            r is Ok,
            final(self).st() == after_text(old(self).st(), old(self).delimiter@, s@),
            final(self).same_config(*old(self)),
    {
        self.begin_segment();
        self.buffer.append(s);
        proof {
            assert(self.st() =~= after_text(old(self).st(), old(self).delimiter@, s@));
        }
        Ok(())
    }

    /// Appends the segment for an absent optional value: the delimiter
    /// alone, written unconditionally — even as the very first operation —
    /// and without marking the encoder as started. The asymmetry is the
    /// format's way of keeping a leading absent field distinguishable from
    /// no field at all.
    pub fn append_absent(&mut self) -> (r: Result<(), Error>)
        ensures
            r is Ok,
            final(self).st() == after_absent(old(self).st(), old(self).delimiter@),
            final(self).same_config(*old(self)),
    {
        let d = self.delimiter;
        self.buffer.append(d);
        proof {
            assert(self.st() =~= after_absent(old(self).st(), old(self).delimiter@));
        }
        Ok(())
    }

    /// Appends the decimal text of a signed integer as one segment.
    pub fn append_i64(&mut self, n: i64) -> (r: Result<(), Error>)
        ensures
            r is Ok,
            final(self).st() == after_text(old(self).st(), old(self).delimiter@, dec_int(n as int)),
            final(self).same_config(*old(self)),
    {
        let t = fmt_i64(n);
        self.append(t.as_str())
    }

    /// Appends the decimal text of an unsigned integer as one segment.
    pub fn append_u64(&mut self, n: u64) -> (r: Result<(), Error>)
        ensures
            r is Ok,
            final(self).st() == after_text(old(self).st(), old(self).delimiter@, dec_nat(n as nat)),
            final(self).same_config(*old(self)),
    {
        let t = fmt_u64(n);
        self.append(t.as_str())
    }

    /// Appends "1" for true and "0" for false as one segment.
    pub fn append_bool(&mut self, b: bool) -> (r: Result<(), Error>)
        ensures
            r is Ok,
            final(self).st() == after_text(old(self).st(), old(self).delimiter@, bool_text(b)),
            final(self).same_config(*old(self)),
    {
        if b {
            self.append("1")
        } else {
            self.append("0")
        }
    }

    /// Appends one character as one segment.
    pub fn append_char(&mut self, c: char) -> (r: Result<(), Error>)
        ensures
            r is Ok,
            final(self).st() == after_text(old(self).st(), old(self).delimiter@, seq![c]),
            final(self).same_config(*old(self)),
    {
        self.begin_segment();
        push_char(&mut self.buffer, c);
        proof {
            assert(self.st() =~= after_text(old(self).st(), old(self).delimiter@, seq![c]));
        }
        Ok(())
    }

    /// Appends the URL-safe base64 text of a byte blob as one segment,
    /// under the same delimiter discipline as any other text. The length
    /// bound is a machine limit of the base64 engine.
    pub fn append_bytes(&mut self, data: &[u8]) -> (r: Result<(), Error>)
        requires
            data@.len() <= usize::MAX / 4,
        ensures
            r is Ok,
            final(self).st() == after_text(
                old(self).st(),
                old(self).delimiter@,
                base64_url(data@),
            ),
            base64_url(data@).len() == (data@.len() * 4 + 2) / 3,
            forall|i: int|
                0 <= i < base64_url(data@).len() ==> is_base64_url_char(
                    #[trigger] base64_url(data@)[i],
                ),
            final(self).same_config(*old(self)),
    {
        let encoded = encode_base64_url(data);
        self.append(encoded.as_str())
    }

    /// Encodes one value of any shape: a primitive becomes one segment, an
    /// absent optional a bare delimiter, a present optional its content, a
    /// record its fields in order (names first in map-like mode). The
    /// composite shapes the format cannot represent are rejected under
    /// their names; the buffer then keeps exactly what was written before
    /// the rejected shape was met, as `enc_value` states.
    pub fn serialize_value(&mut self, v: &Value) -> (r: Result<(), Error>)
        requires
            value_fits(*v),
        ensures
            final(self).same_config(*old(self)),
            ({
                let o = enc_value(old(self).st(), old(self).delimiter@, old(self).map_like, *v);
                &&& final(self).st() == o.state
                &&& (r is Ok <==> o.err is None)
                &&& (r matches Err(e) ==> e matches Error::Unsupported(m) && o.err == Some(m@))
            }),
        decreases *v,
    {
        match v {
            Value::Bool(b) => self.append_bool(*b),
            Value::Int(n) => self.append_i64(*n),
            Value::Uint(n) => self.append_u64(*n),
            Value::Character(c) => self.append_char(*c),
            Value::Text(s) => self.append(s.as_str()),
            Value::Bytes(b) => self.append_bytes(b.as_slice()),
            Value::Absent => self.append_absent(),
            Value::Present(inner) => self.serialize_value(inner),
            Value::Record(fields) => {
                let ghost st0 = self.st();
                let ghost d = self.delimiter@;
                let ghost ml = self.map_like;
                let n = fields.len();
                proof {
                    assert(fields@.subrange(0, n as int) =~= fields@);
                }
                for i in 0..n
                    invariant
                        n == fields@.len(),
                        *v == Value::Record(*fields),
                        self.delimiter@ == d,
                        self.map_like == ml,
                        d == old(self).delimiter@,
                        ml == old(self).map_like,
                        st0 == old(self).st(),
                        fields_fit(fields@.subrange(i as int, n as int)),
                        enc_fields(st0, d, ml, fields@) == enc_fields(
                            self.st(),
                            d,
                            ml,
                            fields@.subrange(i as int, n as int),
                        ),
                {
                    let ghost rest = fields@.subrange(i as int, n as int);
                    proof {
                        assert(rest[0] == fields@[i as int]);
                        assert(rest.subrange(1, rest.len() as int) =~= fields@.subrange(
                            i as int + 1,
                            n as int,
                        ));
                    }
                    let ghost st_i = self.st();
                    let f = &fields[i];
                    if self.map_like {
                        match self.append(f.name) {
                            Ok(_) => (),
                            Err(e) => {
                                return Err(e);
                            },
                        }
                    }
                    proof {
                        assert(decreases_to!(*v => *fields));
                        assert(decreases_to!(*fields => fields@));
                        assert(decreases_to!(fields@ => fields@[i as int]));
                        assert(decreases_to!(*v => fields@[i as int].value));
                    }
                    match self.serialize_value(&f.value) {
                        Ok(_) => (),
                        Err(e) => {
                            proof {
                                assert(enc_fields(st0, d, ml, fields@) == enc_field(
                                    st_i,
                                    d,
                                    ml,
                                    rest[0],
                                ));
                            }
                            return Err(e);
                        },
                    }
                }
                proof {
                    assert(fields@.subrange(n as int, n as int).len() == 0);
                }
                Ok(())
            },
            Value::Sequence => Err(Error::Unsupported("sequence")),
            Value::Mapping => Err(Error::Unsupported("map")),
            Value::Tuple => Err(Error::Unsupported("tuple")),
            Value::Unit => Err(Error::Unsupported("unit")),
            Value::EnumVariant => Err(Error::Unsupported("variant")),
            Value::Formatted => Err(Error::Unsupported("formatted")),
        }
    }

    /// Encodes one record field through the protocol the traversal drives:
    /// in map-like mode the field's name first as a segment of its own,
    /// then the field's value.
    pub fn serialize_field(&mut self, key: &'static str, value: &Value) -> (r: Result<(), Error>)
        requires
            value_fits(*value),
        ensures
            final(self).same_config(*old(self)),
            ({
                let o = enc_field(
                    old(self).st(),
                    old(self).delimiter@,
                    old(self).map_like,
                    Field { name: key, value: *value },
                );
                &&& final(self).st() == o.state
                &&& (r is Ok <==> o.err is None)
                &&& (r matches Err(e) ==> e matches Error::Unsupported(m) && o.err == Some(m@))
            }),
    {
        if self.map_like {
            match self.append(key) {
                Ok(_) => (),
                Err(e) => {
                    return Err(e);
                },
            }
        }
        self.serialize_value(value)
    }

    /// Signals that a record's fields are complete. The protocol asks for
    /// the call; it has no buffer effect and cannot fail.
    pub fn end(&self) -> (r: Result<(), Error>)
        ensures
            r is Ok,
    {
        Ok(())
    }
}

/// Encodes one whole value with a fresh encoder: the segments of `v`
/// joined by `delimiter`, with field names as their own segments when
/// `map_like` is set.
pub fn encode_value(delimiter: &'static str, map_like: bool, v: &Value) -> (r: Result<
    String,
    Error,
>)
    requires
        value_fits(*v),
    ensures
        ({
            let o = enc_value(initial_state(), delimiter@, map_like, *v);
            &&& (r is Ok <==> o.err is None)
            &&& (r matches Ok(s) ==> s@ == o.state.buf)
            &&& (r matches Err(e) ==> e matches Error::Unsupported(m) && o.err == Some(m@))
        }),
{
    let mut enc = IndexedSerializer::new(delimiter, map_like);
    match enc.serialize_value(v) {
        Ok(_) => Ok(enc.finish()),
        Err(e) => Err(e),
    }
}

} // verus!
