use iotdb::client::{ClientError, MeasurementSchema, Tablet, Value};
use iotdb::protocal::{TSCompressionType, TSDataType, TSEncoding};

fn schema(name: &str, data_type: TSDataType) -> MeasurementSchema {
    MeasurementSchema::new(
        name.to_string(),
        data_type,
        TSEncoding::Plain,
        TSCompressionType::SNAPPY,
        None,
    )
}

fn two_column_tablet() -> Tablet {
    Tablet::new(
        "root.sg.d1",
        vec![schema("s1", TSDataType::Int32), schema("s2", TSDataType::Boolean)],
    )
}

#[test]
fn add_row_keeps_arrays_synchronized() {
    let mut tablet = two_column_tablet();
    assert_eq!(tablet.get_row_count(), 0);
    assert_eq!(tablet.get_column_count(), 2);
    tablet
        .add_row(vec![Value::Int32(7), Value::Bool(true)], 100)
        .unwrap();
    tablet
        .add_row(vec![Value::Int32(8), Value::Bool(false)], 200)
        .unwrap();
    assert_eq!(tablet.get_row_count(), 2);
    assert_eq!(tablet.get_timestamps_at(0), 100);
    assert_eq!(tablet.get_timestamps_at(1), 200);
    assert_eq!(tablet.get_value_at(0, 0), Value::Int32(7));
    assert_eq!(tablet.get_value_at(1, 1), Value::Bool(false));
    assert_eq!(tablet.get_prefix_path(), "root.sg.d1".to_string());
}

#[test]
fn add_row_rejects_wrong_width() {
    let mut tablet = two_column_tablet();
    let r = tablet.add_row(vec![Value::Int32(7)], 100);
    assert_eq!(r, Err(ClientError::SchemaMismatch));
    assert_eq!(tablet.get_row_count(), 0);
}

#[test]
fn add_row_rejects_null() {
    let mut tablet = two_column_tablet();
    let r = tablet.add_row(vec![Value::Int32(7), Value::Null], 100);
    assert_eq!(r, Err(ClientError::NullNotSupported));
    assert_eq!(tablet.get_row_count(), 0);
}

#[test]
fn sort_orders_timestamps_and_keeps_rows_whole() {
    let mut tablet = two_column_tablet();
    tablet
        .add_row(vec![Value::Int32(3), Value::Bool(true)], 300)
        .unwrap();
    tablet
        .add_row(vec![Value::Int32(1), Value::Bool(false)], 100)
        .unwrap();
    tablet
        .add_row(vec![Value::Int32(2), Value::Bool(true)], 200)
        .unwrap();
    tablet.sort();
    assert_eq!(tablet.get_timestamps_at(0), 100);
    assert_eq!(tablet.get_timestamps_at(1), 200);
    assert_eq!(tablet.get_timestamps_at(2), 300);
    // Each row keeps its values with its original timestamp.
    assert_eq!(tablet.get_value_at(0, 0), Value::Int32(1));
    assert_eq!(tablet.get_value_at(1, 0), Value::Bool(false));
    assert_eq!(tablet.get_value_at(0, 1), Value::Int32(2));
    assert_eq!(tablet.get_value_at(1, 1), Value::Bool(true));
    assert_eq!(tablet.get_value_at(0, 2), Value::Int32(3));
    assert_eq!(tablet.get_value_at(1, 2), Value::Bool(true));
}

#[test]
fn sort_is_stable_for_equal_timestamps() {
    let mut tablet = Tablet::new("root.sg.d1", vec![schema("s1", TSDataType::Int32)]);
    tablet.add_row(vec![Value::Int32(10)], 7).unwrap();
    tablet.add_row(vec![Value::Int32(11)], 3).unwrap();
    tablet.add_row(vec![Value::Int32(12)], 7).unwrap();
    tablet.add_row(vec![Value::Int32(13)], 7).unwrap();
    tablet.sort();
    assert_eq!(tablet.get_timestamps_at(0), 3);
    assert_eq!(tablet.get_value_at(0, 0), Value::Int32(11));
    // The three rows with timestamp 7 keep their insertion order.
    assert_eq!(tablet.get_value_at(0, 1), Value::Int32(10));
    assert_eq!(tablet.get_value_at(0, 2), Value::Int32(12));
    assert_eq!(tablet.get_value_at(0, 3), Value::Int32(13));
}

#[test]
fn wire_value_buffer_is_column_major_without_tags() {
    let mut tablet = two_column_tablet();
    tablet
        .add_row(vec![Value::Int32(1), Value::Bool(true)], 5)
        .unwrap();
    tablet
        .add_row(vec![Value::Int32(2), Value::Bool(false)], 6)
        .unwrap();
    let buf = tablet.to_wire_value_buffer();
    assert_eq!(buf, vec![0u8, 0, 0, 1, 0, 0, 0, 2, 1, 0]);
}

#[test]
fn wire_timestamp_buffer_is_big_endian() {
    let mut tablet = Tablet::new("root.sg.d1", vec![schema("s1", TSDataType::Int64)]);
    tablet.add_row(vec![Value::Int64(1)], 5).unwrap();
    tablet.add_row(vec![Value::Int64(2)], -1).unwrap();
    let buf = tablet.to_wire_timestamp_buffer();
    let mut expected = 5_i64.to_be_bytes().to_vec();
    expected.extend((-1_i64).to_be_bytes().to_vec());
    assert_eq!(buf, expected);
}

#[test]
fn measurement_schemas_are_copied_whole() {
    let mut props = std::collections::BTreeMap::new();
    props.insert("unit".to_string(), "celsius".to_string());
    let schemas = vec![MeasurementSchema::new(
        "temperature".to_string(),
        TSDataType::Float,
        TSEncoding::Gorilla,
        TSCompressionType::LZ4,
        Some(props.clone()),
    )];
    let tablet = Tablet::new("root.sg.d1", schemas);
    let copied = tablet.get_measurement_schemas();
    assert_eq!(copied.len(), 1);
    assert_eq!(copied[0].measurement, "temperature");
    assert_eq!(copied[0].data_type, TSDataType::Float);
    assert_eq!(copied[0].encoding, TSEncoding::Gorilla);
    assert_eq!(copied[0].compressor, TSCompressionType::LZ4);
    assert_eq!(copied[0].properties, Some(props));
}
