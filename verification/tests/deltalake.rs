use std::sync::Arc;

use arrow::array::{ArrayRef, Float64Array, Int64Array, StringArray};
use arrow::datatypes::{DataType, Field as ArrowField, Schema, TimeUnit};
use tidb_lake::deltalake::batch::{BatchError, RecordBatch};
use tidb_lake::deltalake::column::{
    create_column, event_date, try_create_column, Column, FloatCell,
};
use tidb_lake::deltalake::config::{
    default_batch_size, default_compression, default_credentials_file, default_force_path_style,
    default_timeout_secs, AwsAuthentication, CompressionFormat, DeltaLakeConfig, DeltaTableConfig,
    HealthcheckKind, RegionOrEndpoint, WriteConfig,
};
use tidb_lake::deltalake::event::{Event, LogEntry, LogEvent, LogValue};
use tidb_lake::deltalake::processor::{
    group_events, table_for, write_failure, DeltaLakeSink, WriteFailure,
};
use tidb_lake::deltalake::schema::{
    arrow_type_to_delta_type, mysql_type_to_arrow_type, type_text, ArrowType, DeltaType, Field,
};
use tidb_lake::deltalake::steps::{WriteAction, WriteOutcome};
use tidb_lake::deltalake::writer::{infer_arrow_type, DeltaLakeWriter};
use tidb_lake::string_map::StringMap;

fn bytes(s: &str) -> LogValue {
    LogValue::Bytes(s.as_bytes().to_vec())
}

fn display(value: &LogValue) -> String {
    match value {
        LogValue::Bytes(b) => format!("\"{}\"", String::from_utf8_lossy(b)),
        LogValue::Integer(i) => format!("{}", i),
        LogValue::Float(bits) => format!("{}", f64::from_bits(*bits)),
        LogValue::Boolean(b) => format!("{}", b),
        LogValue::Null => "null".to_string(),
        _ => "{}".to_string(),
    }
}

fn entry(path: &str, value: LogValue) -> LogEntry {
    let display = display(&value);
    LogEntry { path: path.to_string(), value, display }
}

fn log(fields: Vec<(&str, LogValue)>) -> Event {
    let mut entries = Vec::new();
    for (path, value) in fields {
        entries.push(entry(path, value));
    }
    Event::Log(LogEvent { entries, leaves: vec![] })
}

/// A log event from a table, with more fields.
fn row(fields: Vec<(&str, LogValue)>) -> Event {
    let mut all = vec![
        ("_vector_table", bytes("t")),
        ("_vector_source_table", bytes("T")),
        ("_vector_source_schema", bytes("s")),
        ("_vector_instance", bytes("db:4000")),
        ("_vector_timestamp", bytes("2024-05-06T07:08:09+00:00")),
    ];
    all.extend(fields);
    log(all)
}

fn log_event(event: Event) -> LogEvent {
    match event {
        Event::Log(log) => log,
        Event::Other => panic!("no log event"),
    }
}

fn field(name: &str, data_type: ArrowType) -> Field {
    Field { name: name.to_string(), data_type, nullable: true }
}

fn column(name: &str, data_type: ArrowType, values: Vec<LogValue>) -> Column {
    let events: Vec<Event> = values.into_iter().map(|v| log(vec![(name, v)])).collect();
    create_column(&field(name, data_type), &events, "2030-01-01")
}

fn texts(values: Vec<Option<&str>>) -> Column {
    Column::Text(values.into_iter().map(|v| v.map(|s| s.to_string())).collect())
}

fn table_config(name: &str) -> DeltaTableConfig {
    DeltaTableConfig { name: name.to_string(), partition_by: None, schema_evolution: None }
}

fn write_config() -> WriteConfig {
    WriteConfig { batch_size: 10, timeout_secs: 3, compression: "snappy".to_string() }
}

fn writer(path: &str) -> DeltaLakeWriter {
    DeltaLakeWriter::new(path.to_string(), table_config("t"), write_config(), None)
}

fn described(types: Vec<(&str, &str)>) -> LogValue {
    LogValue::Object(
        types
            .into_iter()
            .map(|(name, sql_type)| {
                (
                    name.to_string(),
                    LogValue::Object(vec![
                        ("is_nullable".to_string(), LogValue::Boolean(true)),
                        ("mysql_type".to_string(), bytes(sql_type)),
                    ]),
                )
            })
            .collect(),
    )
}

fn names(fields: &Vec<Field>) -> Vec<&str> {
    fields.iter().map(|f| f.name.as_str()).collect()
}

const SYSTEM: [&str; 6] = [
    "_vector_table",
    "_vector_source_table",
    "_vector_source_schema",
    "_vector_instance",
    "_vector_timestamp",
    "date",
];

#[test]
fn sql_types_have_types_in_memory() {
    let types = [
        ("tinyint(1)", ArrowType::Boolean),
        ("tinyint(1) unsigned", ArrowType::Boolean),
        ("BIGINT(20)", ArrowType::Int64),
        ("bigint(20) unsigned", ArrowType::UInt64),
        ("tinyint", ArrowType::Int8),
        ("smallint(6)", ArrowType::Int16),
        ("mediumint", ArrowType::Int32),
        ("int", ArrowType::Int32),
        ("int(10) unsigned", ArrowType::UInt32),
        ("float", ArrowType::Float32),
        ("double", ArrowType::Float64),
        ("REAL", ArrowType::Float64),
        ("decimal(10,2)", ArrowType::Float64),
        ("numeric", ArrowType::Float64),
        ("timestamp", ArrowType::Utf8),
        ("datetime(6)", ArrowType::Utf8),
        ("date", ArrowType::Date32),
        ("time", ArrowType::Time64Microsecond),
        ("varchar(64)", ArrowType::Utf8),
        ("longtext", ArrowType::Utf8),
        ("json", ArrowType::Utf8),
        ("", ArrowType::Utf8),
    ];
    for (sql_type, arrow_type) in types {
        assert_eq!(mysql_type_to_arrow_type(sql_type), arrow_type);
    }
}

#[test]
fn types_in_memory_have_table_types() {
    let types = [
        (ArrowType::Boolean, DeltaType::Boolean),
        (ArrowType::Int8, DeltaType::Byte),
        (ArrowType::Int16, DeltaType::Short),
        (ArrowType::Int32, DeltaType::Integer),
        (ArrowType::UInt32, DeltaType::Integer),
        (ArrowType::Int64, DeltaType::Long),
        (ArrowType::UInt64, DeltaType::Long),
        (ArrowType::Float32, DeltaType::Float),
        (ArrowType::Float64, DeltaType::Double),
        (ArrowType::Utf8, DeltaType::Text),
        (ArrowType::LargeUtf8, DeltaType::Text),
        (ArrowType::Binary, DeltaType::Binary),
        (ArrowType::LargeBinary, DeltaType::Binary),
        (ArrowType::TimestampMicrosecond, DeltaType::Timestamp),
        (ArrowType::TimestampOther, DeltaType::Timestamp),
        (ArrowType::Date32, DeltaType::Date),
        (ArrowType::Date64, DeltaType::Date),
        (ArrowType::Time64Microsecond, DeltaType::Text),
        (ArrowType::Other, DeltaType::Text),
    ];
    for (arrow_type, delta_type) in types {
        assert_eq!(arrow_type_to_delta_type(&arrow_type), delta_type);
    }
}

#[test]
fn values_have_types() {
    assert_eq!(infer_arrow_type(&LogValue::Integer(1)), ArrowType::Int64);
    assert_eq!(infer_arrow_type(&LogValue::Float(0)), ArrowType::Float64);
    assert_eq!(infer_arrow_type(&LogValue::Boolean(true)), ArrowType::Boolean);
    assert_eq!(infer_arrow_type(&bytes("x")), ArrowType::Utf8);
    assert_eq!(infer_arrow_type(&LogValue::Null), ArrowType::Utf8);
    assert_eq!(infer_arrow_type(&LogValue::Other), ArrowType::Utf8);
}

#[test]
fn integer_columns_hold_what_fits() {
    assert_eq!(
        column(
            "n",
            ArrowType::Int64,
            vec![
                LogValue::Integer(i64::MIN),
                bytes("-9223372036854775808"),
                bytes("9223372036854775808"),
                LogValue::Float(0),
            ]
        ),
        Column::Int64(vec![Some(i64::MIN), Some(i64::MIN), None, None])
    );
    assert_eq!(
        column(
            "n",
            ArrowType::Int32,
            vec![LogValue::Integer(2147483647), LogValue::Integer(2147483648), bytes("+7")]
        ),
        Column::Int32(vec![Some(i32::MAX), None, Some(7)])
    );
    assert_eq!(
        column(
            "n",
            ArrowType::Int16,
            vec![LogValue::Integer(-32768), LogValue::Integer(-32769), bytes("32768")]
        ),
        Column::Int16(vec![Some(i16::MIN), None, None])
    );
    assert_eq!(
        column("n", ArrowType::Int8, vec![LogValue::Integer(127), bytes("128"), bytes("-128")]),
        Column::Int8(vec![Some(127), None, Some(-128)])
    );
    assert_eq!(
        column(
            "n",
            ArrowType::UInt64,
            vec![LogValue::Integer(-1), LogValue::Integer(5), bytes("18446744073709551615")]
        ),
        Column::UInt64(vec![None, Some(5), Some(u64::MAX)])
    );
    assert_eq!(
        column(
            "n",
            ArrowType::UInt32,
            vec![
                LogValue::Integer(4294967295),
                LogValue::Integer(4294967296),
                bytes("-1"),
                LogValue::Bytes(vec![0xFF]),
            ]
        ),
        Column::UInt32(vec![Some(u32::MAX), None, None, None])
    );
}

#[test]
fn the_identifier_is_never_read_from_a_text() {
    assert_eq!(
        column("_vector_id", ArrowType::Int64, vec![LogValue::Integer(4), bytes("4")]),
        Column::Int64(vec![Some(4), None])
    );
}

#[test]
fn other_columns_hold_what_they_can() {
    let bits = 1.5f64.to_bits();
    assert_eq!(
        column(
            "f",
            ArrowType::Float64,
            vec![
                LogValue::Float(bits),
                LogValue::Integer(2),
                bytes("2.5"),
                LogValue::Bytes(vec![0xFF]),
                LogValue::Null,
            ]
        ),
        Column::Float64(vec![
            Some(FloatCell::Bits(bits)),
            Some(FloatCell::OfInteger(2)),
            Some(FloatCell::OfText("2.5".to_string())),
            None,
            None,
        ])
    );
    assert_eq!(
        column("b", ArrowType::Boolean, vec![LogValue::Boolean(true), LogValue::Integer(1)]),
        Column::Boolean(vec![Some(true), None])
    );
    assert_eq!(
        column("t", ArrowType::Date32, vec![bytes("2024-01-01"), LogValue::Integer(3)]),
        texts(vec![Some("2024-01-01"), Some("3")])
    );
}

#[test]
fn timestamp_columns_hold_microseconds() {
    assert_eq!(
        column(
            "t",
            ArrowType::TimestampMicrosecond,
            vec![
                LogValue::Integer(-5),
                bytes("2024-02-29T23:58:57.000001Z"),
                bytes("2024-03-01T00:58:57+01:00"),
                bytes("2024-02-29 23:58:57"),
                bytes("yesterday"),
                LogValue::Bytes(vec![0xFF]),
                LogValue::Null,
                LogValue::Boolean(true),
            ]
        ),
        Column::Timestamp(vec![
            Some(-5),
            Some(1_709_251_137_000_001),
            Some(1_709_251_137_000_000),
            Some(1_709_251_137_000_000),
            None,
            None,
            None,
            None,
        ])
    );
}

#[test]
fn text_columns_hold_displayed_values_without_quotes() {
    assert_eq!(
        column(
            "s",
            ArrowType::Utf8,
            vec![bytes("a"), bytes("\"quoted\""), LogValue::Integer(7), LogValue::Null]
        ),
        texts(vec![Some("a"), Some("quoted"), Some("7"), Some("null")])
    );
    assert_eq!(
        column("_vector_instance", ArrowType::Utf8, vec![bytes("h:1"), LogValue::Integer(1)]),
        texts(vec![Some("h:1"), None])
    );
}

#[test]
fn text_columns_are_found_whatever_the_case() {
    let event = Event::Log(LogEvent {
        entries: vec![],
        leaves: vec![entry("other", bytes("x")), entry("Digest", bytes("d"))],
    });
    let events = vec![event, Event::Other];
    assert_eq!(
        create_column(&field("DIGEST", ArrowType::Utf8), &events, "2030-01-01"),
        texts(vec![Some("d"), None])
    );
    assert_eq!(
        create_column(&field("DIGEST", ArrowType::Date32), &events, "2030-01-01"),
        texts(vec![None, None])
    );
}

#[test]
fn every_event_has_a_date() {
    let events = vec![
        log(vec![("_vector_timestamp", bytes("2024-02-29T23:58:57+05:00"))]),
        log(vec![("_vector_timestamp", bytes("2024/02/29 noon"))]),
        log(vec![("_vector_timestamp", bytes("today"))]),
        log(vec![]),
        Event::Other,
    ];
    assert_eq!(
        create_column(&field("date", ArrowType::Utf8), &events, "2030-01-01"),
        texts(vec![
            Some("2024-02-29"),
            Some("2024/02/29"),
            Some("2030-01-01"),
            Some("2030-01-01"),
            None,
        ])
    );
    assert_eq!(event_date("éééééé", "2030-01-01"), "ééééé");
}

#[test]
fn a_timestamp_that_cannot_be_cut_has_no_date() {
    let events = vec![log(vec![("_vector_timestamp", bytes("123456789é"))])];
    assert_eq!(try_create_column(&field("date", ArrowType::Utf8), &events, "2030-01-01"), None);
    assert_eq!(
        try_create_column(&field("day", ArrowType::Utf8), &events, "2030-01-01"),
        Some(texts(vec![None]))
    );
    let mut w = writer("/t");
    assert!(matches!(
        w.events_to_record_batch(&events, "2030-01-01"),
        Err(BatchError::NoDate)
    ));
}

#[test]
fn schemas_come_from_descriptions() {
    let mut w = writer("/t");
    let events = vec![row(vec![
        (
            "_schema_metadata",
            described(vec![
                ("b", "bigint"),
                ("a", "text"),
                ("date", "date"),
                ("_schema_metadata_x", "int"),
                ("C", "double"),
            ]),
        ),
        ("a", bytes("x")),
        ("b", LogValue::Integer(3)),
    ])];
    let batch = match w.events_to_record_batch(&events, "2030-01-01") {
        Ok(batch) => batch,
        Err(_) => panic!("no batch"),
    };
    assert_eq!(names(&batch.fields)[..6], SYSTEM);
    assert_eq!(names(&batch.fields)[6..], ["C", "a", "b"]);
    assert!(batch.fields[..6].iter().all(|f| !f.nullable && f.data_type == ArrowType::Utf8));
    assert!(batch.fields[6..].iter().all(|f| f.nullable));
    assert_eq!(batch.fields[6].data_type, ArrowType::Float64);
    assert_eq!(batch.fields[8].data_type, ArrowType::Int64);
    assert_eq!(batch.columns.len(), 9);
    assert_eq!(batch.columns[0], texts(vec![Some("t")]));
    assert_eq!(batch.columns[1], texts(vec![Some("T")]));
    assert_eq!(batch.columns[5], texts(vec![Some("2024-05-06")]));
    assert_eq!(batch.columns[6], Column::Float64(vec![None]));
    assert_eq!(batch.columns[7], texts(vec![Some("x")]));
    assert_eq!(batch.columns[8], Column::Int64(vec![Some(3)]));
    match w.creation_columns() {
        Some(columns) => {
            assert_eq!(columns.len(), 9);
            assert_eq!(columns[8].name, "b");
            assert_eq!(columns[8].data_type, DeltaType::Long);
            assert!(columns[8].nullable);
            assert!(!columns[5].nullable);
        }
        None => panic!("no columns"),
    }
}

#[test]
fn schemas_come_from_events_without_description() {
    let mut w = writer("/t");
    let event = Event::Log(LogEvent {
        entries: vec![],
        leaves: vec![
            entry("z", LogValue::Integer(1)),
            entry("_vector_table", bytes("t")),
            entry("_schema_metadata.x", bytes("int")),
            entry("a", LogValue::Null),
            entry("z", bytes("again")),
            entry("m", LogValue::Boolean(true)),
        ],
    });
    let fields = match w.build_fixed_schema(&event) {
        Ok(fields) => fields,
        Err(_) => panic!("no schema"),
    };
    assert_eq!(names(&fields)[6..], ["a", "m", "z"]);
    assert_eq!(fields[6].data_type, ArrowType::Utf8);
    assert_eq!(fields[7].data_type, ArrowType::Boolean);
    assert_eq!(fields[8].data_type, ArrowType::Int64);
}

#[test]
fn a_schema_is_fixed_by_the_first_batch() {
    let mut w = writer("/t");
    let first = vec![row(vec![("_schema_metadata", described(vec![("a", "int")]))])];
    let later = vec![
        row(vec![("_schema_metadata", described(vec![("b", "int")])), ("a", LogValue::Integer(2))]),
        row(vec![]),
    ];
    assert!(w.events_to_record_batch(&first, "2030-01-01").is_ok());
    match w.events_to_record_batch(&later, "2030-01-01") {
        Ok(batch) => {
            assert_eq!(names(&batch.fields)[6..], ["a"]);
            assert_eq!(batch.columns[6], Column::Int32(vec![Some(2), None]));
        }
        Err(_) => panic!("no batch"),
    }
    assert!(matches!(
        w.events_to_record_batch(&vec![], "2030-01-01"),
        Err(BatchError::NoEvents)
    ));
}

#[test]
fn a_schema_needs_a_log_event() {
    let mut w = writer("/t");
    assert!(matches!(
        w.events_to_record_batch(&vec![Event::Other], "2030-01-01"),
        Err(BatchError::NotALogEvent)
    ));
    assert_eq!(BatchError::NoEvents.to_text(), "No events to convert");
    assert_eq!(BatchError::NotALogEvent.to_text(), "Event is not a log event");
    assert_eq!(BatchError::NoDate.to_text(), "Timestamp cannot be cut down to a date");
}

/// What the arrays of these columns, one for each field, are refused for.
fn refusal(fields: Vec<ArrowField>, arrays: Vec<ArrayRef>) -> String {
    match arrow::record_batch::RecordBatch::try_new(Arc::new(Schema::new(fields)), arrays) {
        Ok(_) => panic!("a batch"),
        Err(error) => error.to_string(),
    }
}

#[test]
fn a_value_must_not_be_missing() {
    let mut w = writer("/t");
    let events = vec![row(vec![]), log(vec![("_vector_table", bytes("t"))])];
    match w.events_to_record_batch(&events, "2030-01-01") {
        Ok(_) => panic!("a batch"),
        Err(error) => {
            assert_eq!(error, BatchError::MissingValue("_vector_source_table".to_string()));
            let name = "_vector_source_table";
            let texts: ArrayRef = Arc::new(StringArray::from(vec![Some("T"), None]));
            let field = ArrowField::new(name, DataType::Utf8, false);
            assert_eq!(error.to_text(), refusal(vec![field], vec![texts]));
        }
    }
    match w.events_to_record_batch(&vec![row(vec![]), Event::Other], "2030-01-01") {
        Ok(_) => panic!("a batch"),
        Err(error) => {
            assert_eq!(error, BatchError::MissingValue("_vector_table".to_string()));
        }
    }
}

#[test]
fn a_column_must_have_the_type_of_its_field() {
    let mut w = writer("/t");
    let events = vec![row(vec![
        ("_schema_metadata", described(vec![("a", "int"), ("b", "float"), ("c", "date")])),
        ("b", LogValue::Float(1.5f64.to_bits())),
    ])];
    match w.events_to_record_batch(&events, "2030-01-01") {
        Ok(_) => panic!("a batch"),
        Err(error) => {
            assert_eq!(
                error,
                BatchError::TypeMismatch {
                    expected: ArrowType::Float32,
                    found: ArrowType::Utf8,
                    index: 7,
                }
            );
            assert_eq!(
                error.to_text(),
                "Invalid argument error: column types must match schema types, \
                 expected Float32 but found Utf8 at column index 7"
            );
        }
    }
    assert!(w.fixed_arrow_schema.is_some());
}

#[test]
fn batches_are_refused_with_the_same_words() {
    let integers: ArrayRef = Arc::new(Int64Array::from(vec![Some(1), None]));
    let doubles: ArrayRef = Arc::new(Float64Array::from(vec![Some(1.5), None]));
    assert_eq!(BatchError::NoColumns.to_text(), refusal(vec![], vec![]));
    assert_eq!(
        BatchError::TypeMismatch {
            expected: ArrowType::Float64,
            found: ArrowType::Int64,
            index: 1,
        }
        .to_text(),
        refusal(
            vec![
                ArrowField::new("d", DataType::Float64, true),
                ArrowField::new("i", DataType::Float64, true),
            ],
            vec![doubles, integers.clone()]
        )
    );
    for (name, data_type) in [
        (ArrowType::TimestampMicrosecond, DataType::Timestamp(TimeUnit::Microsecond, None)),
        (ArrowType::Time64Microsecond, DataType::Time64(TimeUnit::Microsecond)),
        (ArrowType::Date32, DataType::Date32),
        (ArrowType::LargeUtf8, DataType::LargeUtf8),
    ] {
        assert_eq!(type_text(&name), format!("{:?}", data_type));
        assert_eq!(
            BatchError::TypeMismatch { expected: name, found: ArrowType::Int64, index: 0 }
                .to_text(),
            refusal(vec![ArrowField::new("x", data_type, true)], vec![integers.clone()])
        );
    }
}

#[test]
fn batches_are_made_of_columns_that_fit() {
    let fields = |nullable: bool| {
        vec![Field { name: "x".to_string(), data_type: ArrowType::Int64, nullable }]
    };
    let whole = Column::Int64(vec![Some(1), Some(2)]);
    assert!(RecordBatch::try_new(fields(false), vec![whole]).is_ok());
    let partial = || Column::Int64(vec![Some(1), None]);
    assert!(RecordBatch::try_new(fields(true), vec![partial()]).is_ok());
    assert_eq!(
        RecordBatch::try_new(fields(false), vec![partial()]).err(),
        Some(BatchError::MissingValue("x".to_string()))
    );
    assert_eq!(RecordBatch::try_new(vec![], vec![]).err(), Some(BatchError::NoColumns));
}

#[test]
fn types_are_remembered_by_table() {
    let mut w = writer("/t");
    let first = log_event(log(vec![
        ("_vector_table", bytes("t")),
        ("_schema_metadata", described(vec![("a", "int")])),
    ]));
    w.extract_and_cache_mysql_schema(&first);
    let second = log_event(log(vec![
        ("_vector_table", bytes("t")),
        ("_schema_metadata", described(vec![("a", "text"), ("b", "double")])),
    ]));
    w.extract_and_cache_mysql_schema(&second);
    let value = LogValue::Boolean(true);
    assert_eq!(w.get_arrow_type_from_schema(&second, "a", &value), ArrowType::Int32);
    assert_eq!(w.get_arrow_type_from_schema(&second, "b", &value), ArrowType::Float64);
    assert_eq!(w.get_arrow_type_from_schema(&second, "a", &value), ArrowType::Utf8);
    assert_eq!(w.get_arrow_type_from_schema(&second, "c", &value), ArrowType::Boolean);
    let bare = log_event(log(vec![("_vector_table", bytes("u"))]));
    assert_eq!(w.get_arrow_type_from_schema(&bare, "a", &value), ArrowType::Boolean);
}

fn walk(w: &DeltaLakeWriter, outcomes: Vec<WriteOutcome>) -> Vec<WriteAction> {
    let mut seen = Vec::new();
    let mut action = w.begin_write();
    for outcome in outcomes {
        let next = w.continue_write(
            match &action {
                WriteAction::CreateDirectory => WriteAction::CreateDirectory,
                WriteAction::Connect => WriteAction::Connect,
                WriteAction::LoadTable => WriteAction::LoadTable,
                WriteAction::ProbeLogDirectory => WriteAction::ProbeLogDirectory,
                WriteAction::CreateTable => WriteAction::CreateTable,
                WriteAction::Reconnect => WriteAction::Reconnect,
                WriteAction::WriteBatch => WriteAction::WriteBatch,
                WriteAction::Finish => WriteAction::Finish,
                WriteAction::Fail(m) => WriteAction::Fail(m.clone()),
            },
            outcome,
        );
        seen.push(action);
        action = next;
    }
    seen.push(action);
    seen
}

fn with_schema(path: &str) -> DeltaLakeWriter {
    let mut w = writer(path);
    assert!(w.events_to_record_batch(&vec![row(vec![])], "2030-01-01").is_ok());
    w
}

#[test]
fn a_local_table_is_found_by_its_log() {
    let w = with_schema("/data/t");
    assert_eq!(
        walk(
            &w,
            vec![
                WriteOutcome::Done,
                WriteOutcome::Done,
                WriteOutcome::Done,
                WriteOutcome::Done,
                WriteOutcome::Done,
            ]
        ),
        vec![
            WriteAction::CreateDirectory,
            WriteAction::Connect,
            WriteAction::ProbeLogDirectory,
            WriteAction::Reconnect,
            WriteAction::WriteBatch,
            WriteAction::Finish,
        ]
    );
    assert_eq!(
        walk(
            &w,
            vec![
                WriteOutcome::Done,
                WriteOutcome::Done,
                WriteOutcome::Missing,
                WriteOutcome::Done,
                WriteOutcome::Done,
                WriteOutcome::Done,
            ]
        ),
        vec![
            WriteAction::CreateDirectory,
            WriteAction::Connect,
            WriteAction::ProbeLogDirectory,
            WriteAction::CreateTable,
            WriteAction::Reconnect,
            WriteAction::WriteBatch,
            WriteAction::Finish,
        ]
    );
}

#[test]
fn a_remote_table_is_loaded() {
    let failed = |m: &str| WriteOutcome::Failed(m.to_string());
    let w = with_schema("s3://bucket/t");
    assert_eq!(
        walk(&w, vec![WriteOutcome::Done, failed("table does not exist"), WriteOutcome::Done]),
        vec![
            WriteAction::Connect,
            WriteAction::LoadTable,
            WriteAction::CreateTable,
            WriteAction::Reconnect,
        ]
    );
    assert_eq!(
        walk(&w, vec![WriteOutcome::Done, failed("object not found")])[2],
        WriteAction::CreateTable
    );
    assert_eq!(
        walk(&w, vec![WriteOutcome::Done, failed("access denied"), WriteOutcome::Done])[3],
        WriteAction::Fail("access denied".to_string())
    );
    assert_eq!(
        walk(&w, vec![WriteOutcome::Done, WriteOutcome::Done])[2],
        WriteAction::Reconnect
    );
    assert_eq!(
        walk(&w, vec![failed("no network")])[1],
        WriteAction::Fail("no network".to_string())
    );
}

#[test]
fn a_table_is_not_created_without_a_schema() {
    let w = writer("/data/t");
    assert!(w.creation_columns().is_none());
    assert_eq!(
        walk(&w, vec![WriteOutcome::Done, WriteOutcome::Done, WriteOutcome::Missing])[3],
        WriteAction::Fail("Schema not available".to_string())
    );
    assert!(DeltaLakeWriter::table_exists("/data/t", true));
    assert!(!DeltaLakeWriter::table_exists("/data/t", false));
    assert!(!DeltaLakeWriter::table_exists("s3://bucket/t", true));
}

#[test]
fn a_table_is_created_with_its_partition_columns() {
    let mut w = writer("/data/t");
    w.table_config.partition_by = Some(vec!["date".to_string(), "a".to_string()]);
    assert_eq!(w.creation_partitions(), vec!["date", "a"]);
    w.table_config.partition_by = None;
    assert!(w.creation_partitions().is_empty());
}

#[test]
fn events_are_grouped_by_table() {
    let events = vec![
        log(vec![("_vector_table", bytes("b"))]),
        log(vec![("dest_table", bytes("a"))]),
        Event::Other,
        log(vec![("table", bytes("b")), ("other", bytes("x"))]),
        log(vec![("x", bytes("a"))]),
        log(vec![("_vector_table", LogValue::Integer(1)), ("table", bytes("a"))]),
        log(vec![("table", bytes("z")), ("dest_table", bytes("b"))]),
    ];
    let groups: Vec<(String, Vec<usize>)> =
        group_events(&events).into_iter().map(|g| (g.table, g.places)).collect();
    assert_eq!(
        groups,
        vec![("b".to_string(), vec![0, 3, 6]), ("a".to_string(), vec![1, 5])]
    );
    assert_eq!(table_for(&events[4]), None);
    assert_eq!(group_events(&vec![]).len(), 0);
}

#[test]
fn damaged_tables_stop_the_sink() {
    for message in [
        "No log segment",
        "missing log segment 3",
        "Invalid table version: 7",
        "object not found",
        "No such file or directory (os error 2)",
    ] {
        assert_eq!(
            write_failure("t", message),
            WriteFailure::Corruption(format!(
                "Delta Lake corruption detected for table t: {}",
                message
            ))
        );
    }
    assert_eq!(
        write_failure("t", "timeout"),
        WriteFailure::Reported("Failed to write events to table t: timeout".to_string())
    );
}

#[test]
fn writers_are_made_once() {
    let mut options = StringMap::new();
    options.insert("k".to_string(), "v".to_string());
    let known = DeltaTableConfig {
        name: "known".to_string(),
        partition_by: Some(vec!["day".to_string()]),
        schema_evolution: Some(false),
    };
    let mut sink = DeltaLakeSink::new(
        "s3://bucket/base".to_string(),
        vec![table_config("x"), known.clone()],
        write_config(),
        Some(options),
    );
    assert_eq!(sink.remote_table_path("t"), Some("s3://bucket/base/t".to_string()));
    assert_eq!(sink.table_config("known"), known);
    let mut w = sink.take_writer("t", "s3://bucket/base/t".to_string());
    assert_eq!(w.table_path, "s3://bucket/base/t");
    assert_eq!(w.table_config.name, "t");
    assert_eq!(w.table_config.partition_by, Some(vec!["date".to_string()]));
    assert_eq!(w.table_config.schema_evolution, Some(true));
    assert_eq!(w.write_config, write_config());
    assert_eq!(
        w.storage_options.as_ref().and_then(|o| o.get("k").cloned()),
        Some("v".to_string())
    );
    assert!(w.events_to_record_batch(&vec![row(vec![])], "2030-01-01").is_ok());
    sink.put_writer("t", w);
    let again = sink.take_writer("t", "elsewhere".to_string());
    assert_eq!(again.table_path, "s3://bucket/base/t");
    assert!(again.fixed_arrow_schema.is_some());
    let local = DeltaLakeSink::new("/base".to_string(), vec![], write_config(), None);
    assert_eq!(local.remote_table_path("t"), None);
}

#[test]
fn mod_generate_config() {
    let config = DeltaLakeConfig::generate_config();
    assert_eq!(config.base_path, "./delta-tables");
    assert_eq!(config.batch_size, 1000);
    assert_eq!(config.timeout_secs, 30);
    assert_eq!(config.compression, "snappy");
    assert!(config.storage_options.is_none());
    assert_eq!(config.bucket, None);
    assert_eq!(config.region, None);
    assert_eq!(config.auth, AwsAuthentication::Default);
    assert_eq!(config.force_path_style, None);
    assert_eq!(config.write_config().batch_size, 1000);
}

#[test]
fn sink_defaults() {
    assert_eq!(default_batch_size(), 1000);
    assert_eq!(default_timeout_secs(), 30);
    assert_eq!(default_compression(), "snappy");
    assert_eq!(default_force_path_style(), None);
    assert_ne!(CompressionFormat::Snappy, CompressionFormat::Uncompressed);
}

fn env(pairs: &[(&str, &str)]) -> StringMap<String> {
    let mut map = StringMap::new();
    for (k, v) in pairs {
        map.insert(k.to_string(), v.to_string());
    }
    map
}

fn sorted(options: &StringMap<String>) -> Vec<(String, String)> {
    let mut out: Vec<(String, String)> = Vec::new();
    for i in 0..options.len() {
        out.push((options.key_at(i).clone(), options.value_at(i).clone()));
    }
    out.sort();
    out
}

fn pairs(list: &[(&str, &str)]) -> Vec<(String, String)> {
    list.iter().map(|(k, v)| (k.to_string(), v.to_string())).collect()
}

#[test]
fn a_role_is_assumed() {
    let mut config = DeltaLakeConfig::generate_config();
    config.region = Some(RegionOrEndpoint {
        region: Some("eu-west-1".to_string()),
        endpoint: Some("http://minio:9000".to_string()),
    });
    config.force_path_style = Some(true);
    config.auth = AwsAuthentication::Role {
        assume_role: "arn:role".to_string(),
        external_id: Some("ext".to_string()),
    };
    let mut options = env(&[("mine", "kept"), ("AWS_REGION", "old")]);
    config.apply_s3_storage_options(&mut options, &env(&[("AWS_PROFILE", "p")]), &None);
    assert_eq!(
        sorted(&options),
        pairs(&[
            ("AWS_ENDPOINT_URL", "http://minio:9000"),
            ("AWS_IAM_ROLE_ARN", "arn:role"),
            ("AWS_IAM_ROLE_EXTERNAL_ID", "ext"),
            ("AWS_IAM_ROLE_SESSION_NAME", "vector-deltalake"),
            ("AWS_REGION", "eu-west-1"),
            ("AWS_S3_ADDRESSING_STYLE", "path"),
            ("AWS_STORAGE_ALLOW_HTTP", "true"),
            ("mine", "kept"),
        ])
    );
    let once = sorted(&options);
    config.apply_s3_storage_options(&mut options, &env(&[]), &None);
    assert_eq!(sorted(&options), once);
}

#[test]
fn keys_and_profiles_are_passed_on() {
    let mut config = DeltaLakeConfig::generate_config();
    config.force_path_style = Some(false);
    config.auth = AwsAuthentication::AccessKey {
        access_key_id: "id".to_string(),
        secret_access_key: "key".to_string(),
        session_token: Some("token".to_string()),
        assume_role: Some("arn".to_string()),
    };
    let options = config.sink_storage_options(true, &env(&[]), &None);
    assert_eq!(
        sorted(&options),
        pairs(&[
            ("AWS_ACCESS_KEY_ID", "id"),
            ("AWS_IAM_ROLE_ARN", "arn"),
            ("AWS_IAM_ROLE_SESSION_NAME", "vector-deltalake"),
            ("AWS_S3_ADDRESSING_STYLE", "virtual"),
            ("AWS_SECRET_ACCESS_KEY", "key"),
            ("AWS_SESSION_TOKEN", "token"),
            ("AWS_STORAGE_ALLOW_HTTP", "true"),
        ])
    );
    config.force_path_style = None;
    config.auth = AwsAuthentication::File {
        credentials_file: "/creds".to_string(),
        profile: "prod".to_string(),
    };
    let options = config.sink_storage_options(true, &env(&[]), &Some("/other".to_string()));
    assert_eq!(
        sorted(&options),
        pairs(&[
            ("AWS_PROFILE", "prod"),
            ("AWS_SHARED_CREDENTIALS_FILE", "/creds"),
            ("AWS_STORAGE_ALLOW_HTTP", "true"),
        ])
    );
}

#[test]
fn the_environment_authorizes_by_default() {
    let config = DeltaLakeConfig::generate_config();
    let vars = env(&[
        ("AWS_ACCESS_KEY_ID", "id"),
        ("AWS_SECRET_ACCESS_KEY", "key"),
        ("AWS_SESSION_TOKEN", "token"),
        ("AWS_PROFILE", "prod"),
        ("HOME", "/home/me"),
    ]);
    assert_eq!(default_credentials_file(&vars), Some("/home/me/.aws/credentials".to_string()));
    assert_eq!(default_credentials_file(&env(&[])), None);
    let options = config.sink_storage_options(true, &vars, &default_credentials_file(&vars));
    assert_eq!(
        sorted(&options),
        pairs(&[
            ("AWS_ACCESS_KEY_ID", "id"),
            ("AWS_PROFILE", "prod"),
            ("AWS_SECRET_ACCESS_KEY", "key"),
            ("AWS_SESSION_TOKEN", "token"),
            ("AWS_SHARED_CREDENTIALS_FILE", "/home/me/.aws/credentials"),
            ("AWS_STORAGE_ALLOW_HTTP", "true"),
        ])
    );
    assert_eq!(config.sink_storage_options(false, &vars, &None).len(), 0);
}

#[test]
fn stores_have_settings() {
    let mut config = DeltaLakeConfig::generate_config();
    let (region, path_style) = config.service_settings();
    assert_eq!(region.region, Some("us-east-1".to_string()));
    assert_eq!(region.endpoint, None);
    assert!(path_style);
    assert!(!config.uses_store());
    assert_eq!(config.build_healthcheck(true), HealthcheckKind::LocalDirectory);
    config.bucket = Some("b".to_string());
    config.force_path_style = Some(false);
    config.region = Some(RegionOrEndpoint { region: None, endpoint: Some("http://m".to_string()) });
    assert!(config.uses_store());
    assert!(!config.service_settings().1);
    assert_eq!(config.service_settings().0.endpoint, Some("http://m".to_string()));
    assert_eq!(config.build_healthcheck(true), HealthcheckKind::Skip);
    assert_eq!(config.build_healthcheck(false), HealthcheckKind::LocalDirectory);
}
