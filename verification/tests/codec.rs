//! The value codec: lossless round trips for every row value variant,
//! and rejection of unsupported host shapes.

use query_bridge::error::DataError;
use query_bridge::value::decode_value;
use query_bridge::value::encode_value;
use query_bridge::value::HostValue;
use query_bridge::value::RowValue;

fn every_variant() -> RowValue {
    RowValue::Record(vec![
        ("nothing".to_owned(), RowValue::Null),
        ("flag".to_owned(), RowValue::Bool(true)),
        ("count".to_owned(), RowValue::Int(-40)),
        ("title".to_owned(), RowValue::Text("hello".to_owned())),
        ("raw".to_owned(), RowValue::Bytes(vec![0, 255, 7])),
        ("born".to_owned(), RowValue::DateTime(1_650_000_000)),
        (
            "tags".to_owned(),
            RowValue::List(vec![
                RowValue::Int(1),
                RowValue::Text("x".to_owned()),
                RowValue::List(vec![RowValue::Bool(false)]),
            ]),
        ),
        (
            "owner".to_owned(),
            RowValue::Record(vec![("id".to_owned(), RowValue::Int(1))]),
        ),
    ])
}

#[test]
fn round_trip_of_every_variant() {
    let v = every_variant();
    let encoded = encode_value(&v);
    let decoded = decode_value(&encoded).expect("decode");
    assert_eq!(decoded, v);
}

#[test]
fn round_trip_of_each_scalar() {
    for v in [
        RowValue::Null,
        RowValue::Bool(false),
        RowValue::Int(i64::MIN),
        RowValue::Int(i64::MAX),
        RowValue::Text(String::new()),
        RowValue::Bytes(Vec::new()),
        RowValue::DateTime(-1),
        RowValue::List(Vec::new()),
        RowValue::Record(Vec::new()),
    ] {
        let encoded = encode_value(&v);
        let decoded = decode_value(&encoded).expect("decode");
        assert_eq!(decoded, v);
    }
}

#[test]
fn encoding_shapes_are_the_host_ones() {
    assert_eq!(encode_value(&RowValue::Null), HostValue::Null);
    assert_eq!(encode_value(&RowValue::Int(5)), HostValue::Int(5));
    assert_eq!(
        encode_value(&RowValue::Bytes(vec![1, 2])),
        HostValue::Blob(vec![1, 2])
    );
    assert_eq!(encode_value(&RowValue::DateTime(99)), HostValue::Time(99));
    assert_eq!(
        encode_value(&RowValue::List(vec![RowValue::Bool(true)])),
        HostValue::Array(vec![HostValue::Bool(true)])
    );
}

#[test]
fn undefined_is_rejected_not_coerced() {
    assert!(matches!(
        decode_value(&HostValue::Undefined),
        Err(DataError::ConversionError)
    ));
}

#[test]
fn nested_undefined_is_rejected() {
    let h = HostValue::Array(vec![HostValue::Int(1), HostValue::Undefined]);
    assert!(matches!(decode_value(&h), Err(DataError::ConversionError)));
    let h = HostValue::Object(vec![("k".to_owned(), HostValue::Undefined)]);
    assert!(matches!(decode_value(&h), Err(DataError::ConversionError)));
}

#[test]
fn supported_host_values_decode() {
    let h = HostValue::Object(vec![
        ("a".to_owned(), HostValue::Text("b".to_owned())),
        ("c".to_owned(), HostValue::Array(vec![HostValue::Null])),
    ]);
    let v = decode_value(&h).expect("decode");
    assert_eq!(
        v,
        RowValue::Record(vec![
            ("a".to_owned(), RowValue::Text("b".to_owned())),
            ("c".to_owned(), RowValue::List(vec![RowValue::Null])),
        ])
    );
}
