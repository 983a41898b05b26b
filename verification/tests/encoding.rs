use indexed_ser::error::Error;
use indexed_ser::indexed::{encode_value, IndexedSerializer};
use indexed_ser::value::{Field, Value};

fn record(fields: Vec<Field>) -> Value {
    Value::Record(fields)
}

fn field(name: &'static str, value: Value) -> Field {
    Field { name, value }
}

#[test]
fn single_integer_field_is_direct_text() {
    let v = record(vec![field("a", Value::Int(42))]);
    assert_eq!(encode_value(",", false, &v).unwrap(), "42");
}

#[test]
fn single_negative_integer() {
    let v = record(vec![field("a", Value::Int(-7))]);
    assert_eq!(encode_value(",", false, &v).unwrap(), "-7");
}

#[test]
fn extreme_integers() {
    let v = record(vec![
        field("lo", Value::Int(i64::MIN)),
        field("hi", Value::Uint(u64::MAX)),
    ]);
    assert_eq!(
        encode_value(",", false, &v).unwrap(),
        "-9223372036854775808,18446744073709551615"
    );
}

#[test]
fn booleans_are_one_and_zero() {
    let v = record(vec![
        field("t", Value::Bool(true)),
        field("f", Value::Bool(false)),
    ]);
    assert_eq!(encode_value(",", false, &v).unwrap(), "1,0");
}

#[test]
fn single_char_field() {
    let v = record(vec![field("c", Value::Character('x'))]);
    assert_eq!(encode_value(",", false, &v).unwrap(), "x");
}

#[test]
fn multibyte_char_field() {
    let v = record(vec![field("c", Value::Character('é'))]);
    assert_eq!(encode_value(",", false, &v).unwrap(), "é");
}

#[test]
fn text_is_appended_verbatim() {
    let v = record(vec![field("s", Value::Text(String::from("hello world")))]);
    assert_eq!(encode_value(",", false, &v).unwrap(), "hello world");
}

#[test]
fn empty_segment_still_delimited() {
    let v = record(vec![
        field("a", Value::Text(String::new())),
        field("b", Value::Text(String::from("x"))),
    ]);
    assert_eq!(encode_value(",", false, &v).unwrap(), ",x");
    let w = record(vec![
        field("a", Value::Text(String::from("a"))),
        field("b", Value::Text(String::new())),
    ]);
    assert_eq!(encode_value(",", false, &w).unwrap(), "a,");
}

#[test]
fn leading_absent_field_keeps_delimiter() {
    let v = record(vec![
        field("a", Value::Absent),
        field("b", Value::Int(5)),
    ]);
    assert_eq!(encode_value(",", false, &v).unwrap(), ",5");
}

#[test]
fn absent_only_record_is_one_delimiter() {
    let v = record(vec![field("a", Value::Absent)]);
    assert_eq!(encode_value(",", false, &v).unwrap(), ",");
}

#[test]
fn map_like_names_and_values_alternate() {
    let v = record(vec![
        field("x", Value::Int(1)),
        field("y", Value::Int(2)),
    ]);
    assert_eq!(encode_value(":", true, &v).unwrap(), "x:1:y:2");
}

#[test]
fn map_like_absent_value() {
    let v = record(vec![field("a", Value::Absent)]);
    assert_eq!(encode_value(",", true, &v).unwrap(), "a,");
}

#[test]
fn present_optional_is_transparent() {
    let v = record(vec![
        field("a", Value::Present(Box::new(Value::Int(1)))),
        field("b", Value::Int(2)),
    ]);
    assert_eq!(encode_value(",", false, &v).unwrap(), "1,2");
}

#[test]
fn bytes_encode_to_url_safe_base64() {
    let v = record(vec![field("b", Value::Bytes(vec![0, 1, 2]))]);
    let s = encode_value(",", false, &v).unwrap();
    assert_eq!(s.len(), 4);
    assert!(!s.contains('+'));
    assert!(!s.contains('/'));
    assert_eq!(s, "AAEC");
}

#[test]
fn bytes_use_url_safe_alphabet() {
    let v = record(vec![field("b", Value::Bytes(vec![0xff, 0xff]))]);
    assert_eq!(encode_value(",", false, &v).unwrap(), "__8");
    let w = record(vec![field("b", Value::Bytes(vec![0xfb, 0xf0]))]);
    let s = encode_value(",", false, &w).unwrap();
    assert!(!s.contains('+'));
    assert!(!s.contains('/'));
}

#[test]
fn empty_bytes_encode_to_nothing() {
    let v = record(vec![
        field("b", Value::Bytes(vec![])),
        field("n", Value::Int(9)),
    ]);
    assert_eq!(encode_value(",", false, &v).unwrap(), ",9");
}

#[test]
fn sequences_are_rejected() {
    match encode_value(",", false, &Value::Sequence) {
        Err(Error::Unsupported(name)) => assert_eq!(name, "sequence"),
        _ => panic!("a sequence must be rejected"),
    }
}

#[test]
fn maps_are_rejected() {
    match encode_value(",", false, &Value::Mapping) {
        Err(Error::Unsupported(name)) => assert_eq!(name, "map"),
        _ => panic!("a map must be rejected"),
    }
}

#[test]
fn unit_values_are_rejected() {
    match encode_value(",", false, &Value::Unit) {
        Err(Error::Unsupported(name)) => assert_eq!(name, "unit"),
        _ => panic!("a unit value must be rejected"),
    }
}

#[test]
fn other_composites_are_rejected() {
    for (v, expected) in [
        (Value::Tuple, "tuple"),
        (Value::EnumVariant, "variant"),
        (Value::Formatted, "formatted"),
    ] {
        match encode_value(",", false, &v) {
            Err(e) => assert_eq!(e.shape(), expected),
            Ok(_) => panic!("an unsupported shape must be rejected"),
        }
    }
}

#[test]
fn rejection_leaves_buffer_unchanged() {
    let mut enc = IndexedSerializer::new(",", false);
    enc.serialize_value(&Value::Int(1)).unwrap();
    assert!(enc.serialize_value(&Value::Sequence).is_err());
    assert!(enc.serialize_value(&Value::Mapping).is_err());
    assert!(enc.serialize_value(&Value::Unit).is_err());
    assert_eq!(enc.finish(), "1");
}

#[test]
fn rejection_inside_record_names_the_shape() {
    let v = record(vec![
        field("a", Value::Int(1)),
        field("b", Value::Mapping),
    ]);
    match encode_value(",", false, &v) {
        Err(Error::Unsupported(name)) => assert_eq!(name, "map"),
        _ => panic!("the nested map must be rejected"),
    }
}

#[test]
fn nested_record_flattens() {
    let inner = record(vec![
        field("p", Value::Int(1)),
        field("q", Value::Int(2)),
    ]);
    let v = record(vec![
        field("inner", inner),
        field("r", Value::Int(3)),
    ]);
    assert_eq!(encode_value(",", false, &v).unwrap(), "1,2,3");
}

#[test]
fn finish_without_appends_is_empty() {
    let enc = IndexedSerializer::new(",", false);
    assert_eq!(enc.finish(), "");
}

#[test]
fn with_capacity_changes_nothing_observable() {
    let enc = IndexedSerializer::with_capacity(",", false, 128);
    assert_eq!(enc.finish(), "");
    let v = record(vec![field("a", Value::Int(42))]);
    let mut enc = IndexedSerializer::with_capacity(",", false, 128);
    enc.serialize_value(&v).unwrap();
    assert_eq!(enc.finish(), "42");
}

#[test]
fn multi_character_delimiter() {
    let v = record(vec![
        field("a", Value::Text(String::from("a"))),
        field("b", Value::Text(String::from("b"))),
    ]);
    assert_eq!(encode_value("::", false, &v).unwrap(), "a::b");
}

#[test]
fn field_protocol_drives_the_encoder() {
    let mut enc = IndexedSerializer::new(",", false);
    enc.serialize_field("a", &Value::Uint(10)).unwrap();
    enc.serialize_field("b", &Value::Bool(true)).unwrap();
    enc.end().unwrap();
    assert_eq!(enc.finish(), "10,1");
}

#[test]
fn appends_compose_like_one_traversal() {
    let mut enc = IndexedSerializer::new(",", false);
    enc.append("head").unwrap();
    enc.append_i64(-3).unwrap();
    enc.append_u64(8).unwrap();
    enc.append_bool(false).unwrap();
    enc.append_char('z').unwrap();
    enc.append_bytes(&[0, 1, 2]).unwrap();
    enc.append_absent().unwrap();
    assert_eq!(enc.finish(), "head,-3,8,0,z,AAEC,");
}
