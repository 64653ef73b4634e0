use iotdb::client::direct::DirectSession;
use iotdb::client::remote::{
    check_status, fire_closed_error, sort_records_of_one_device, Config, SubStatus,
    TSProtocolVersion, TSStatus,
};
use iotdb::client::{ClientError, MeasurementSchema, Value};
use iotdb::protocal::{TSCompressionType, TSDataType, TSEncoding};

fn status(code: i32, message: Option<&str>, sub_status: Option<Vec<SubStatus>>) -> TSStatus {
    TSStatus { code, message: message.map(|m| m.to_string()), sub_status }
}

#[test]
fn check_status_accepts_success_and_redirect() {
    assert_eq!(check_status(status(200, None, None)), Ok(()));
    assert_eq!(check_status(status(707, Some("moved"), None)), Ok(()));
}

#[test]
fn check_status_surfaces_code_and_message() {
    let r = check_status(status(500, Some("boom"), None));
    assert_eq!(
        r,
        Err(ClientError::ProtocolStatus { code: 500, message: "boom".to_string() })
    );
    let silent = check_status(status(401, None, None));
    assert_eq!(
        silent,
        Err(ClientError::ProtocolStatus { code: 401, message: String::new() })
    );
}

#[test]
fn check_status_aggregates_failing_sub_messages() {
    let subs = vec![
        SubStatus { code: 200, message: Some("fine".to_string()) },
        SubStatus { code: 500, message: Some("first".to_string()) },
        SubStatus { code: 707, message: Some("redirected".to_string()) },
        SubStatus { code: 501, message: None },
        SubStatus { code: 502, message: Some("second".to_string()) },
    ];
    let r = check_status(status(506, None, Some(subs)));
    assert_eq!(
        r,
        Err(ClientError::ProtocolStatus { code: 506, message: "first;second;".to_string() })
    );
}

#[test]
fn check_status_multiple_error_without_failing_messages_is_ok() {
    let subs = vec![
        SubStatus { code: 200, message: Some("fine".to_string()) },
        SubStatus { code: 501, message: None },
    ];
    assert_eq!(check_status(status(506, None, Some(subs))), Ok(()));
    assert_eq!(check_status(status(506, None, None)), Ok(()));
}

#[test]
fn closed_session_error_is_typed() {
    assert_eq!(fire_closed_error(), Err(ClientError::SessionClosed));
}

#[test]
fn default_config_matches_local_server() {
    let c = Config::default();
    assert_eq!(c.host, "127.0.0.1");
    assert_eq!(c.port, 6667);
    assert_eq!(c.username, "root");
    assert_eq!(c.password, "root");
    assert_eq!(c.timeout_ms, Some(30000));
    assert_eq!(c.fetch_size, 1000);
    assert_eq!(c.timezone, Some("Asia/Shanghai".to_string()));
    assert!(!c.enable_compression);
    assert_eq!(c.protocol_version, TSProtocolVersion::IotdbServiceProtocolV3);
    assert!(c.is_align);
}

#[test]
fn data_type_names_resolve() {
    assert_eq!(
        TSDataType::from_name(&"BOOLEAN".to_string()),
        Some(TSDataType::Boolean)
    );
    assert_eq!(
        TSDataType::from_name(&"INT32".to_string()),
        Some(TSDataType::Int32)
    );
    assert_eq!(
        TSDataType::from_name(&"INT64".to_string()),
        Some(TSDataType::Int64)
    );
    assert_eq!(
        TSDataType::from_name(&"FLOAT".to_string()),
        Some(TSDataType::Float)
    );
    assert_eq!(
        TSDataType::from_name(&"DOUBLE".to_string()),
        Some(TSDataType::Double)
    );
    assert_eq!(
        TSDataType::from_name(&"TEXT".to_string()),
        Some(TSDataType::Text)
    );
    assert_eq!(TSDataType::from_name(&"DECIMAL".to_string()), None);
}

#[test]
fn protocol_enums_map_to_wire_codes() {
    assert_eq!(TSDataType::Boolean.to_i32(), 0);
    assert_eq!(TSDataType::Text.to_i32(), 5);
    assert_eq!(TSDataType::Double.tag_byte(), 4);
    assert_eq!(TSEncoding::Gorilla.to_i32(), 8);
    assert_eq!(TSEncoding::Plain.to_i32(), 0);
    assert_eq!(TSCompressionType::SNAPPY.to_i32(), 1);
    assert_eq!(TSCompressionType::LZ4.to_i32(), 7);
}

#[test]
fn measurement_schema_new_keeps_fields() {
    let s = MeasurementSchema::new(
        "s1".to_string(),
        TSDataType::Int64,
        TSEncoding::RLE,
        TSCompressionType::GZIP,
        None,
    );
    assert_eq!(s.measurement, "s1");
    assert_eq!(s.data_type, TSDataType::Int64);
    assert_eq!(s.encoding, TSEncoding::RLE);
    assert_eq!(s.compressor, TSCompressionType::GZIP);
    assert_eq!(s.properties, None);
}

#[test]
fn direct_session_remembers_home_directory() {
    let s = DirectSession::new("/data/server-home");
    assert_eq!(s.iotdb_home_directory, "/data/server-home");
}

#[test]
fn records_of_one_device_sort_together() {
    let timestamps = vec![30_i64, 10, 20, 10];
    let measurements = vec![
        vec!["a".to_string()],
        vec!["b".to_string()],
        vec!["c".to_string()],
        vec!["d".to_string()],
    ];
    let values = vec![
        vec![Value::Int32(3)],
        vec![Value::Int32(1)],
        vec![Value::Int32(2)],
        vec![Value::Int32(4)],
    ];
    let (ts, ms, vs) = sort_records_of_one_device(&timestamps, &measurements, &values).unwrap();
    assert_eq!(ts, vec![10, 10, 20, 30]);
    // Equal timestamps keep their original order: "b" before "d".
    assert_eq!(
        ms,
        vec![
            vec!["b".to_string()],
            vec!["d".to_string()],
            vec!["c".to_string()],
            vec!["a".to_string()],
        ]
    );
    assert_eq!(
        vs,
        vec![
            vec![Value::Int32(1)],
            vec![Value::Int32(4)],
            vec![Value::Int32(2)],
            vec![Value::Int32(3)],
        ]
    );
}

#[test]
fn records_of_one_device_rejects_ragged_lists() {
    let timestamps = vec![1_i64, 2];
    let measurements = vec![vec!["a".to_string()]];
    let values = vec![vec![Value::Int32(1)], vec![Value::Int32(2)]];
    let r = sort_records_of_one_device(&timestamps, &measurements, &values);
    assert!(matches!(r, Err(ClientError::SchemaMismatch)));
}
