use iotdb::client::remote::{CursorStep, QueryPage, RpcDataSet};
use iotdb::client::{ClientError, CodecError, DataSet, RowRecord, Value};
use iotdb::protocal::TSDataType;

fn int32_page(values: &[i32], timestamps: &[i64]) -> QueryPage {
    assert_eq!(values.len(), timestamps.len());
    let mut time = Vec::new();
    for ts in timestamps {
        time.extend(ts.to_be_bytes().to_vec());
    }
    let mut value_buf = Vec::new();
    for v in values {
        value_buf.extend(v.to_be_bytes().to_vec());
    }
    // Every row non-null: one set bit per row, most significant first.
    let mut bitmap = Vec::new();
    let mut i = 0;
    while i < values.len() {
        let rows_here = std::cmp::min(8, values.len() - i);
        let mut byte = 0u8;
        for b in 0..rows_here {
            byte |= 0x80 >> b;
        }
        bitmap.push(byte);
        i += rows_here;
    }
    QueryPage { time, value_list: vec![value_buf], bitmap_list: vec![bitmap] }
}

fn drain_rows(cursor: &mut RpcDataSet, mut more_pages: Vec<QueryPage>) -> (Vec<RowRecord>, usize, usize) {
    let mut rows = Vec::new();
    let mut fetches_with_page = 0;
    let mut fetches_empty = 0;
    more_pages.reverse();
    loop {
        match cursor.next_row().unwrap() {
            CursorStep::Row(rec) => rows.push(rec),
            CursorStep::NeedFetch => match more_pages.pop() {
                Some(page) => {
                    fetches_with_page += 1;
                    cursor.feed_page(page).unwrap();
                }
                None => {
                    // The server reports no further results: release once.
                    fetches_empty += 1;
                    assert!(cursor.close());
                }
            },
            CursorStep::End => break,
        }
    }
    (rows, fetches_with_page, fetches_empty)
}

#[test]
fn null_bitmap_scenario_two_rows() {
    // Bitmap byte 0x40 = 0100_0000: row 0 absent, row 1 present.
    let page = QueryPage {
        time: {
            let mut t = 10_i64.to_be_bytes().to_vec();
            t.extend(11_i64.to_be_bytes().to_vec());
            t
        },
        value_list: vec![42_i32.to_be_bytes().to_vec()],
        bitmap_list: vec![vec![0x40u8]],
    };
    let mut cursor = RpcDataSet::new_with_default_order(
        vec!["s1".to_string()],
        vec![TSDataType::Int32],
        None,
        page,
    )
    .unwrap();
    let first = cursor.next_row().unwrap();
    match first {
        CursorStep::Row(rec) => {
            assert_eq!(rec.timestamp, 10);
            assert_eq!(rec.values, vec![Value::Int64(10), Value::Null]);
        }
        _ => panic!("expected a row"),
    }
    let second = cursor.next_row().unwrap();
    match second {
        CursorStep::Row(rec) => {
            assert_eq!(rec.timestamp, 11);
            assert_eq!(rec.values, vec![Value::Int64(11), Value::Int32(42)]);
        }
        _ => panic!("expected a row"),
    }
    assert!(matches!(cursor.next_row().unwrap(), CursorStep::NeedFetch));
}

#[test]
fn pagination_twenty_rows_in_three_pages() {
    let all_values: Vec<i32> = (0..20).collect();
    let all_ts: Vec<i64> = (0..20).map(|t| t as i64).collect();
    let first = int32_page(&all_values[0..8], &all_ts[0..8]);
    let second = int32_page(&all_values[8..16], &all_ts[8..16]);
    let third = int32_page(&all_values[16..20], &all_ts[16..20]);
    let mut cursor = RpcDataSet::new_with_default_order(
        vec!["s1".to_string()],
        vec![TSDataType::Int32],
        None,
        first,
    )
    .unwrap();
    let (rows, fetches_with_page, fetches_empty) = drain_rows(&mut cursor, vec![second, third]);
    // Exactly two additional fetches deliver pages (8 and 4 rows); the
    // next request reports no more results and the cursor is released.
    assert_eq!(rows.len(), 20);
    assert_eq!(fetches_with_page, 2);
    assert_eq!(fetches_empty, 1);
    assert!(cursor.is_closed());
    for (k, rec) in rows.iter().enumerate() {
        assert_eq!(rec.timestamp, k as i64);
        assert_eq!(rec.values, vec![Value::Int64(k as i64), Value::Int32(k as i32)]);
    }
}

#[test]
fn close_is_idempotent() {
    let page = int32_page(&[1], &[1]);
    let mut cursor = RpcDataSet::new_with_default_order(
        vec!["s1".to_string()],
        vec![TSDataType::Int32],
        None,
        page,
    )
    .unwrap();
    assert!(!cursor.is_closed());
    assert!(cursor.close());
    assert!(cursor.is_closed());
    // The second call asks for no release and changes nothing.
    assert!(!cursor.close());
    assert!(cursor.is_closed());
    assert!(matches!(cursor.next_row().unwrap(), CursorStep::End));
}

#[test]
fn display_order_follows_position_map() {
    // Display columns: a (Int32), b (Boolean); on the wire, b comes
    // first: display-to-wire = [1, 0].
    let page = QueryPage {
        time: 9_i64.to_be_bytes().to_vec(),
        value_list: vec![vec![1u8], 7_i32.to_be_bytes().to_vec()],
        bitmap_list: vec![vec![0x80u8], vec![0x80u8]],
    };
    let mut cursor = RpcDataSet::new(
        vec!["a".to_string(), "b".to_string()],
        vec![TSDataType::Int32, TSDataType::Boolean],
        vec![1, 0],
        None,
        page,
    )
    .unwrap();
    match cursor.next_row().unwrap() {
        CursorStep::Row(rec) => {
            assert_eq!(
                rec.values,
                vec![Value::Int64(9), Value::Int32(7), Value::Bool(true)]
            );
        }
        _ => panic!("expected a row"),
    }
}

#[test]
fn duplicate_position_map_is_rejected() {
    let page = QueryPage {
        time: Vec::new(),
        value_list: vec![Vec::new(), Vec::new()],
        bitmap_list: vec![Vec::new(), Vec::new()],
    };
    let r = RpcDataSet::new(
        vec!["a".to_string(), "b".to_string()],
        vec![TSDataType::Int32, TSDataType::Int32],
        vec![0, 0],
        None,
        page,
    );
    assert!(matches!(r, Err(ClientError::SchemaMismatch)));
}

#[test]
fn truncated_page_poisons_cursor() {
    // Bit set for row 0 but the Int32 value buffer holds two bytes only.
    let page = QueryPage {
        time: 3_i64.to_be_bytes().to_vec(),
        value_list: vec![vec![0u8, 1u8]],
        bitmap_list: vec![vec![0x80u8]],
    };
    let mut cursor = RpcDataSet::new_with_default_order(
        vec!["s1".to_string()],
        vec![TSDataType::Int32],
        None,
        page,
    )
    .unwrap();
    assert_eq!(cursor.next_row().unwrap_err(), CodecError::Truncated);
    assert!(matches!(cursor.next_row().unwrap(), CursorStep::End));
}

#[test]
fn feed_page_rejects_wrong_column_count() {
    let page = int32_page(&[1], &[1]);
    let mut cursor = RpcDataSet::new_with_default_order(
        vec!["s1".to_string()],
        vec![TSDataType::Int32],
        None,
        page,
    )
    .unwrap();
    let bad = QueryPage { time: Vec::new(), value_list: vec![], bitmap_list: vec![] };
    assert!(matches!(cursor.feed_page(bad), Err(ClientError::SchemaMismatch)));
}

#[test]
fn time_column_is_prepended_unless_suppressed() {
    let page = int32_page(&[1], &[1]);
    let cursor = RpcDataSet::new_with_default_order(
        vec!["s1".to_string()],
        vec![TSDataType::Int32],
        None,
        page,
    )
    .unwrap();
    assert!(!cursor.is_ignore_timestamp());
    assert_eq!(
        DataSet::get_column_names(&cursor),
        vec!["Time".to_string(), "s1".to_string()]
    );
    assert_eq!(
        DataSet::get_data_types(&cursor),
        vec![TSDataType::Int64, TSDataType::Int32]
    );

    let page2 = int32_page(&[1], &[1]);
    let suppressed = RpcDataSet::new_with_default_order(
        vec!["s1".to_string()],
        vec![TSDataType::Int32],
        Some(true),
        page2,
    )
    .unwrap();
    assert!(suppressed.is_ignore_timestamp());
    assert_eq!(suppressed.get_column_names(), vec!["s1".to_string()]);
    assert_eq!(suppressed.get_data_types(), vec![TSDataType::Int32]);
}

#[test]
fn second_bitmap_byte_is_pulled_after_eight_rows() {
    // Ten rows in one page: bitmap bytes [0xFF, 0x40] — rows 0..=7
    // present, row 8 absent, row 9 present.
    let mut time = Vec::new();
    for ts in 0..10_i64 {
        time.extend(ts.to_be_bytes().to_vec());
    }
    let mut value_buf = Vec::new();
    for v in 0..8_i32 {
        value_buf.extend(v.to_be_bytes().to_vec());
    }
    value_buf.extend(9_i32.to_be_bytes().to_vec());
    let page = QueryPage {
        time,
        value_list: vec![value_buf],
        bitmap_list: vec![vec![0xffu8, 0x40u8]],
    };
    let mut cursor = RpcDataSet::new_with_default_order(
        vec!["s1".to_string()],
        vec![TSDataType::Int32],
        None,
        page,
    )
    .unwrap();
    let mut rows = Vec::new();
    for _ in 0..10 {
        match cursor.next_row().unwrap() {
            CursorStep::Row(rec) => rows.push(rec),
            _ => panic!("expected a row"),
        }
    }
    for k in 0..8 {
        assert_eq!(rows[k].values[1], Value::Int32(k as i32));
    }
    assert_eq!(rows[8].values[1], Value::Null);
    assert_eq!(rows[9].values[1], Value::Int32(9));
}

#[test]
fn per_column_bitmaps_consume_independently() {
    // Two columns, one row: the first column's value is absent, the
    // second present, so only the second value buffer is consumed.
    let page = QueryPage {
        time: 4_i64.to_be_bytes().to_vec(),
        value_list: vec![Vec::new(), 5_i32.to_be_bytes().to_vec()],
        bitmap_list: vec![vec![0x00u8], vec![0x80u8]],
    };
    let mut cursor = RpcDataSet::new_with_default_order(
        vec!["a".to_string(), "b".to_string()],
        vec![TSDataType::Int32, TSDataType::Int32],
        None,
        page,
    )
    .unwrap();
    match cursor.next_row().unwrap() {
        CursorStep::Row(rec) => {
            assert_eq!(
                rec.values,
                vec![Value::Int64(4), Value::Null, Value::Int32(5)]
            );
        }
        _ => panic!("expected a row"),
    }
}

#[test]
fn text_column_decodes_with_length_prefix() {
    let mut value_buf = 3_i32.to_be_bytes().to_vec();
    value_buf.extend(b"abc".to_vec());
    let page = QueryPage {
        time: 1_i64.to_be_bytes().to_vec(),
        value_list: vec![value_buf],
        bitmap_list: vec![vec![0x80u8]],
    };
    let mut cursor = RpcDataSet::new_with_default_order(
        vec!["s1".to_string()],
        vec![TSDataType::Text],
        None,
        page,
    )
    .unwrap();
    match cursor.next_row().unwrap() {
        CursorStep::Row(rec) => {
            assert_eq!(rec.values[1], Value::Text(b"abc".to_vec()));
        }
        _ => panic!("expected a row"),
    }
}
