use tidb_lake::string_map::StringMap;
use tidb_lake::system_tables::config::TableConfig;
use tidb_lake::system_tables::coprocessor::columns::{
    convert_packed_time_value, ensure_float_value, ensure_numeric_value, get_column_name,
    mysql_type_to_string, process_column_value, safe_int64_value, TableColumn, TableSchema,
};
use tidb_lake::system_tables::coprocessor::rows::{
    parse_data_with_schema_and_encode_type, parse_row_format_with_schema, process_response_chunks,
    validate_select_response, SelectError, SelectResponse,
};
use tidb_lake::system_tables::data_collector::CollectionError;
use tidb_lake::value::{FloatForm, Number, Value};

fn column(name: &str, tp: i32) -> TableColumn {
    TableColumn { id: 1, tp, name: Some(name.to_string()) }
}

fn table() -> TableConfig {
    TableConfig {
        source_schema: "information_schema".to_string(),
        source_table: "CLUSTER_STATEMENTS_SUMMARY".to_string(),
        dest_table: "hist".to_string(),
        collection_interval: "short".to_string(),
        where_clause: None,
        enabled: true,
    }
}

fn text(s: &str) -> Value {
    Value::Text(s.to_string())
}

fn number(n: u64) -> Value {
    Value::Number(Number::PosInt(n))
}

fn pairs(row: &StringMap<Value>) -> Vec<(String, Value)> {
    let mut out = Vec::new();
    for i in 0..row.len() {
        out.push((row.key_at(i).clone(), row.value_at(i).clone()));
    }
    out
}

#[test]
fn columns_have_names() {
    assert_eq!(get_column_name(&column("DIGEST", 15), 3), "DIGEST");
    let unnamed = TableColumn { id: 1, tp: 15, name: None };
    assert_eq!(get_column_name(&unnamed, 30), "col_30");
}

#[test]
fn types_have_names() {
    let names = [
        (1, "tinyint"),
        (2, "smallint"),
        (3, "int"),
        (4, "float"),
        (5, "double"),
        (7, "timestamp"),
        (8, "bigint"),
        (9, "mediumint"),
        (10, "date"),
        (11, "time"),
        (12, "datetime"),
        (15, "varchar"),
        (16, "bit"),
        (246, "decimal"),
        (247, "enum"),
        (248, "set"),
        (249, "tinyblob"),
        (250, "mediumblob"),
        (251, "longblob"),
        (252, "blob"),
        (253, "varchar"),
        (254, "char"),
        (6, "unknown_type_6"),
        (-1, "unknown_type_-1"),
    ];
    for (tp, name) in names {
        assert_eq!(mysql_type_to_string(tp), name);
    }
}

#[test]
fn numeric_columns_hold_integers() {
    assert_eq!(ensure_numeric_value(&text("-17")), Value::Number(Number::NegInt(-17)));
    assert_eq!(ensure_numeric_value(&text("+17")), number(17));
    assert_eq!(ensure_numeric_value(&text("9223372036854775808")), text("9223372036854775808"));
    assert_eq!(ensure_numeric_value(&text("1.5")), text("1.5"));
    assert_eq!(ensure_numeric_value(&number(u64::MAX)), number(u64::MAX));
    assert_eq!(ensure_numeric_value(&Value::Null), Value::Null);
    assert_eq!(safe_int64_value(&number(5)), Some(5));
    assert_eq!(safe_int64_value(&Value::Bool(true)), None);
}

#[test]
fn float_columns_hold_doubles() {
    let half = Value::Number(Number::Float(0.5f64.to_bits()));
    assert_eq!(ensure_float_value(&half), half);
    assert_eq!(ensure_float_value(&number(3)), Value::Deferred(FloatForm::OfInteger(3)));
    assert_eq!(ensure_float_value(&number(u64::MAX)), number(0));
    assert_eq!(
        ensure_float_value(&text("0.25")),
        Value::Deferred(FloatForm::OfText("0.25".to_string()))
    );
    assert_eq!(ensure_float_value(&Value::Null), number(0));
    let broken = Value::Number(Number::Float(f64::NAN.to_bits()));
    assert_eq!(
        process_column_value("x", &broken, &column("x", 5), "i"),
        Value::Number(Number::Float(0))
    );
    assert_eq!(process_column_value("x", &half, &column("x", 4), "i"), half);
    assert_eq!(
        process_column_value("x", &number(2), &column("x", 4), "i"),
        Value::Deferred(FloatForm::OfInteger(2))
    );
}

#[test]
fn packed_times_become_texts() {
    let word: u64 = ((((2024 * 13 + 1) << 5 | 31) << 17) | (23 << 12 | 59 << 6 | 58)) << 24;
    let written = text("2024-01-31 23:59:58");
    assert_eq!(convert_packed_time_value(&number(word)), written);
    assert_eq!(convert_packed_time_value(&text(&word.to_string())), written);
    assert_eq!(
        convert_packed_time_value(&Value::Number(Number::NegInt(-9))),
        text("-9")
    );
    assert_eq!(
        convert_packed_time_value(&Value::Number(Number::Float(7))),
        Value::Deferred(FloatForm::TextOf(7))
    );
    assert_eq!(convert_packed_time_value(&text("-5")), text("-5"));
    assert_eq!(convert_packed_time_value(&text("-0")), text("0000-00-00 00:00:00"));
    assert_eq!(convert_packed_time_value(&text("noon")), text("noon"));
    assert_eq!(convert_packed_time_value(&Value::Null), Value::Null);
    assert_eq!(process_column_value("t", &number(5), &column("t", 7), "i"), number(5));
    assert_eq!(process_column_value("t", &number(word), &column("t", 12), "i"), written);
    assert_eq!(process_column_value("t", &number(5), &column("t", 10), "i"), number(5));
}

#[test]
fn other_columns_are_kept() {
    assert_eq!(process_column_value("s", &text("1"), &column("s", 15), "i"), text("1"));
    assert_eq!(process_column_value("s", &text("1"), &column("s", 8), "i"), number(1));
    assert_eq!(process_column_value("s", &text("1"), &column("s", 16), "i"), number(1));
    assert_eq!(process_column_value("s", &text("1"), &column("s", 246), "i"), number(1));
    assert_eq!(
        process_column_value("INSTANCE", &text("1"), &column("INSTANCE", 8), "tidb-0:10080"),
        text("tidb-0:10080")
    );
}

#[test]
fn rows_are_read_column_by_column() {
    let schema = TableSchema {
        id: 1,
        columns: vec![column("INSTANCE", 15), column("DIGEST", 15), column("EXEC_COUNT", 8)],
    };
    let data = [
        0x02, 0x04, b'x', b'y', 0x02, 0x04, b'd', b'1', 0x09, 100, // first row
        0x00, 0x02, 0x04, b'd', b'2', 0x08, 0x54, // second row
    ];
    let rows = parse_row_format_with_schema(&data, &schema, "10.0.0.1:4000");
    assert_eq!(rows.len(), 2);
    assert_eq!(
        pairs(&rows[0]),
        vec![
            ("INSTANCE".to_string(), text("10.0.0.1:4000")),
            ("DIGEST".to_string(), text("d1")),
            ("EXEC_COUNT".to_string(), number(100)),
        ]
    );
    assert_eq!(rows[1].get("DIGEST"), Some(&text("d2")));
    assert_eq!(rows[1].get("EXEC_COUNT"), Some(&number(42)));
    assert_eq!(rows[1].get("INSTANCE"), Some(&text("10.0.0.1:4000")));
    for encode_type in [0, 1, 2] {
        let same =
            parse_data_with_schema_and_encode_type(&data, &schema, encode_type, "10.0.0.1:4000");
        assert_eq!(same.len(), 2);
        assert_eq!(pairs(&same[1]), pairs(&rows[1]));
    }
}

#[test]
fn rows_end_at_the_first_column_that_cannot_be_read() {
    let schema = TableSchema { id: 1, columns: vec![column("A", 8), column("B", 15)] };
    let rows = parse_row_format_with_schema(&[0x09, 1, 0x02, 0x7E, 0x09, 2], &schema, "i");
    assert_eq!(rows.len(), 1);
    assert_eq!(
        pairs(&rows[0]),
        vec![("INSTANCE".to_string(), text("i")), ("A".to_string(), number(1))]
    );
    let short = parse_row_format_with_schema(&[0x09, 1], &schema, "i");
    assert_eq!(short.len(), 1);
    assert!(!short[0].contains_key("B"));
    assert_eq!(parse_row_format_with_schema(&[], &schema, "i").len(), 0);
    let bare = TableSchema { id: 1, columns: vec![] };
    assert_eq!(parse_row_format_with_schema(&[0x09, 1], &bare, "i").len(), 0);
}

#[test]
fn there_are_no_more_rows_than_bytes() {
    let schema = TableSchema { id: 1, columns: vec![column("A", 8)] };
    let nils = [0u8; 5];
    assert_eq!(parse_row_format_with_schema(&nils, &schema, "i").len(), 5);
}

#[test]
fn chunks_follow_each_other() {
    let schema = TableSchema { id: 1, columns: vec![column("A", 8)] };
    let response = SelectResponse {
        error: None,
        chunks: vec![vec![0x09, 1, 0x09, 2], vec![], vec![0x09, 3]],
        encode_type: 0,
    };
    let rows = process_response_chunks(&response, &schema, "i");
    let values: Vec<Option<&Value>> = rows.iter().map(|r| r.get("A")).collect();
    assert_eq!(values, vec![Some(&number(1)), Some(&number(2)), Some(&number(3))]);
    assert_eq!(validate_select_response(&response, &table()), Ok(()));
}

#[test]
fn an_execution_error_is_reported() {
    let response = SelectResponse {
        error: Some(SelectError { code: -1105, msg: "other error".to_string() }),
        chunks: vec![],
        encode_type: 0,
    };
    assert_eq!(
        validate_select_response(&response, &table()),
        Err(CollectionError::QueryError(
            "TiDB execution error for table information_schema.CLUSTER_STATEMENTS_SUMMARY [-1105]: other error"
                .to_string()
        ))
    );
}
