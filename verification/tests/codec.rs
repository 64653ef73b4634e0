use iotdb::client::{CodecError, Value};

fn encode_of(v: &Value) -> Vec<u8> {
    v.encode()
}

#[test]
fn test_value_into() {
    let values = vec![
        Value::Bool(true),
        Value::Int32(1),
        Value::Int64(2),
        Value::Float(3.1_f32.to_bits()),
        Value::Double(4.1_f64.to_bits()),
        Value::Text("iotdb".as_bytes().to_vec()),
    ];

    let bytes = vec![
        vec![0u8, 1u8],
        vec![vec![1u8], 1_i32.to_be_bytes().to_vec()]
            .into_iter()
            .flatten()
            .collect(),
        vec![vec![2u8], 2_i64.to_be_bytes().to_vec()]
            .into_iter()
            .flatten()
            .collect(),
        vec![vec![3u8], 3.1_f32.to_be_bytes().to_vec()]
            .into_iter()
            .flatten()
            .collect(),
        vec![vec![4u8], 4.1_f64.to_be_bytes().to_vec()]
            .into_iter()
            .flatten()
            .collect(),
        vec![
            vec![5u8],
            5_i32.to_be_bytes().to_vec(),
            "iotdb".to_string().as_bytes().to_vec(),
        ]
        .into_iter()
        .flatten()
        .collect(),
    ];

    for (v, bys) in values.into_iter().zip(bytes.into_iter()) {
        let value_bys: Vec<u8> = encode_of(&v);
        assert_eq!(value_bys, bys);
    }
}

#[test]
fn encode_scenario_text_and_int32() {
    let text = Value::text_from_str("iotdb");
    assert_eq!(
        text.encode(),
        vec![5u8, 0, 0, 0, 5, b'i', b'o', b't', b'd', b'b']
    );
    assert_eq!(Value::Int32(1).encode(), vec![1u8, 0, 0, 0, 1]);
}

#[test]
fn encode_null_is_empty() {
    assert_eq!(Value::Null.encode(), Vec::<u8>::new());
}

#[test]
fn round_trip_every_non_null_variant() {
    let values = vec![
        Value::Bool(true),
        Value::Bool(false),
        Value::Int32(-123456789),
        Value::Int32(i32::MAX),
        Value::Int32(i32::MIN),
        Value::Int64(-1),
        Value::Int64(i64::MAX),
        Value::Int64(i64::MIN),
        Value::Float(3.1_f32.to_bits()),
        Value::Double(4.1_f64.to_bits()),
        Value::Text(Vec::new()),
        Value::Text("time series".as_bytes().to_vec()),
    ];
    for v in values {
        let encoded = v.encode();
        let (decoded, used) = Value::decode(&encoded).unwrap();
        assert_eq!(decoded, v);
        assert_eq!(used, encoded.len());
    }
}

#[test]
fn decode_unknown_tag_yields_null() {
    let bytes = vec![9u8, 1, 2, 3];
    let (decoded, used) = Value::decode(&bytes).unwrap();
    assert_eq!(decoded, Value::Null);
    assert_eq!(used, 1);
}

#[test]
fn decode_empty_is_truncated() {
    assert_eq!(Value::decode(&Vec::new()), Err(CodecError::Truncated));
}

#[test]
fn decode_short_payload_is_truncated() {
    // An Int32 needs four payload bytes.
    let bytes = vec![1u8, 0, 0];
    assert_eq!(Value::decode(&bytes), Err(CodecError::Truncated));
}

#[test]
fn decode_negative_text_length_is_truncated() {
    let bytes = vec![5u8, 0xff, 0xff, 0xff, 0xff];
    assert_eq!(Value::decode(&bytes), Err(CodecError::Truncated));
}

#[test]
fn decode_short_text_payload_is_truncated() {
    let bytes = vec![5u8, 0, 0, 0, 4, b'a', b'b'];
    assert_eq!(Value::decode(&bytes), Err(CodecError::Truncated));
}

#[test]
fn encode_row_values_concatenates_wire_forms() {
    let row = vec![Value::Int32(1), Value::Bool(true), Value::Null];
    let buf = iotdb::client::encode_row_values(&row);
    assert_eq!(buf, vec![1u8, 0, 0, 0, 1, 0, 1]);
}
