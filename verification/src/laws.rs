use vstd::prelude::*;

use crate::value::{
    after_text, enc_field, enc_fields, enc_value, fields_supported, initial_state, is_primitive,
    primitive_text, sep, supported, EncOutcome, EncState, Field, Value,
};

verus! {

/// Law: encoding reports no rejection if and only if the value is made of
/// shapes the format can represent — success is owed on exactly the
/// supported values, whatever state the encoder is in.
pub proof fn law_success_iff_supported(st: EncState, d: Seq<char>, map_like: bool, v: Value)
    ensures
        enc_value(st, d, map_like, v).err is None <==> supported(v),
    decreases v,
{
    match v {
        Value::Present(inner) => law_success_iff_supported(st, d, map_like, *inner),
        Value::Record(fields) => {
            assert(decreases_to!(v => fields));
            law_fields_success_iff_supported(st, d, map_like, fields@);
        },
        _ => {},
    }
}

/// Law: a run of record fields encodes without rejection if and only if
/// every field's value is a supported shape.
pub proof fn law_fields_success_iff_supported(
    st: EncState,
    d: Seq<char>,
    map_like: bool,
    fs: Seq<Field>,
)
    ensures
        enc_fields(st, d, map_like, fs).err is None <==> fields_supported(fs),
    decreases fs,
{
    if fs.len() > 0 {
        let st1 = if map_like {
            after_text(st, d, fs[0].name@)
        } else {
            st
        };
        assert(decreases_to!(fs => fs[0]));
        law_success_iff_supported(st1, d, map_like, fs[0].value);
        let o = enc_field(st, d, map_like, fs[0]);
        if o.err is None {
            law_fields_success_iff_supported(o.state, d, map_like, fs.subrange(1, fs.len() as int));
        }
    }
}

/// A primitive value encodes, from any state, to exactly one appended
/// segment holding its direct text form.
pub proof fn lemma_primitive_segment(st: EncState, d: Seq<char>, map_like: bool, v: Value)
    requires
        is_primitive(v),
    ensures
        enc_value(st, d, map_like, v) == (EncOutcome {
            state: after_text(st, d, primitive_text(v)),
            err: None,
        }),
{
    match v {
        Value::Bool(_) => {},
        Value::Int(_) => {},
        Value::Uint(_) => {},
        Value::Character(_) => {},
        Value::Text(_) => {},
        Value::Bytes(_) => {},
        _ => {},
    }
}

/// Law: a record holding one primitive field, encoded without field names
/// from a fresh encoder, yields exactly that value's direct text form.
pub proof fn law_single_field_is_direct_text(d: Seq<char>, v: Value, f: Field)
    requires
        v matches Value::Record(fields) && fields@ == seq![f],
        is_primitive(f.value),
    ensures
        enc_value(initial_state(), d, false, v).err is None,
        enc_value(initial_state(), d, false, v).state.buf == primitive_text(f.value),
{
    let fs = seq![f];
    assert(fs[0] == f);
    lemma_primitive_segment(initial_state(), d, false, f.value);
    let o = enc_field(initial_state(), d, false, f);
    assert(o.err is None);
    assert(fs.subrange(1, 1) =~= Seq::<Field>::empty());
    assert(enc_fields(o.state, d, false, fs.subrange(1, 1)) == (EncOutcome {
        state: o.state,
        err: None,
    }));
    assert(enc_fields(initial_state(), d, false, fs) == o);
    assert(enc_value(initial_state(), d, false, v) == o);
    assert(o.state.buf =~= primitive_text(f.value));
}

/// Law: between two consecutive fields the delimiter occurs exactly once —
/// from any encoder state, a two-field record of primitives appends the
/// first segment, one delimiter, then the second segment (with each
/// field's name as one more delimited segment in map-like mode), even when
/// a segment's text is empty.
pub proof fn law_one_delimiter_between_fields(
    st: EncState,
    d: Seq<char>,
    map_like: bool,
    v: Value,
    f1: Field,
    f2: Field,
)
    requires
        v matches Value::Record(fields) && fields@ == seq![f1, f2],
        is_primitive(f1.value),
        is_primitive(f2.value),
    ensures
        enc_value(st, d, map_like, v).err is None,
        enc_value(st, d, map_like, v).state.buf == (if map_like {
            st.buf + sep(st, d) + f1.name@ + d + primitive_text(f1.value) + d + f2.name@ + d
                + primitive_text(f2.value)
        } else {
            st.buf + sep(st, d) + primitive_text(f1.value) + d + primitive_text(f2.value)
        }),
{
    let fs = seq![f1, f2];
    assert(fs[0] == f1);
    let st_a = if map_like {
        after_text(st, d, f1.name@)
    } else {
        st
    };
    lemma_primitive_segment(st_a, d, map_like, f1.value);
    let o1 = enc_field(st, d, map_like, f1);
    assert(o1.err is None);
    let st_b = if map_like {
        after_text(o1.state, d, f2.name@)
    } else {
        o1.state
    };
    lemma_primitive_segment(st_b, d, map_like, f2.value);
    let o2 = enc_field(o1.state, d, map_like, f2);
    assert(o2.err is None);
    assert(fs.subrange(1, 2) =~= seq![f2]);
    assert(fs.subrange(1, 2)[0] == f2);
    assert(fs.subrange(1, 2).subrange(1, 1) =~= Seq::<Field>::empty());
    assert(enc_fields(o2.state, d, map_like, fs.subrange(1, 2).subrange(1, 1)) == (EncOutcome {
        state: o2.state,
        err: None,
    }));
    assert(enc_fields(o1.state, d, map_like, fs.subrange(1, 2)) == o2);
    assert(enc_fields(st, d, map_like, fs) == o2);
    assert(enc_value(st, d, map_like, v) == o2);
    if map_like {
        assert(o2.state.buf =~= st.buf + sep(st, d) + f1.name@ + d + primitive_text(f1.value) + d
            + f2.name@ + d + primitive_text(f2.value));
    } else {
        assert(o2.state.buf =~= st.buf + sep(st, d) + primitive_text(f1.value) + d
            + primitive_text(f2.value));
    }
}

/// Law: an absent optional always writes the delimiter, even as the very
/// first operation, and leaves the started flag as it was — which is why a
/// record whose first field is absent encodes with a leading delimiter.
pub proof fn law_absent_always_delimits(st: EncState, d: Seq<char>, map_like: bool)
    ensures
        enc_value(st, d, map_like, Value::Absent).err is None,
        enc_value(st, d, map_like, Value::Absent).state.buf == st.buf + d,
        enc_value(st, d, map_like, Value::Absent).state.start == st.start,
{
}

/// Law: each composite shape the format cannot represent — a sequence, a
/// map, a tuple, a unit value, an enum payload, a display-formatted value —
/// is rejected under its name and leaves the encoder's state exactly as it
/// was.
pub proof fn law_unsupported_leaves_state(st: EncState, d: Seq<char>, map_like: bool, v: Value)
    requires
        v is Sequence || v is Mapping || v is Tuple || v is Unit || v is EnumVariant
            || v is Formatted,
    ensures
        enc_value(st, d, map_like, v).state == st,
        enc_value(st, d, map_like, v).err is Some,
        !supported(v),
{
}

} // verus!
