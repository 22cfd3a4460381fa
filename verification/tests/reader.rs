use datafusion_log_reader::schema::ColumnType;
use datafusion_log_reader::{DataFusionLogError, LogBatchStream, LogReader};

/// A well-formed fixture of 15 lines, one record each.
fn fixture_15() -> String {
    let mut s = String::new();
    for i in 0..15 {
        s.push_str(&format!(
            "[2023-01-01T10:{:02}:00Z] [INFO] [module::func] message number {}\n",
            i, i
        ));
    }
    s
}

#[test]
fn lib_should_not_exist() {
    let path = "data_not_exits.log";

    let reader = LogReader::new(path);

    assert!(reader.is_err());
}

#[test]
fn reader_should_not_exist() {
    let path = "data_not_exits.log";

    let reader = LogReader::new(path);

    assert!(reader.is_err());
    assert!(matches!(
        reader,
        Err(DataFusionLogError::NotFound { path: p }) if p == path
    ));
}

#[test]
fn directory_is_not_a_file() {
    let reader = LogReader::new("src");

    assert!(matches!(
        reader,
        Err(DataFusionLogError::NotFound { path }) if path == "src"
    ));
}

#[test]
fn should_have_proper_schema() {
    let reader = LogReader::new("src/lib.rs").unwrap();

    let schema = reader.schema();

    assert_eq!(4, schema.num_fields());
    assert_eq!("time", schema.fields[0].name);
    assert_eq!(ColumnType::TimestampMicrosecond, schema.fields[0].column_type);
    assert!(!schema.fields[0].nullable);
    assert_eq!("level", schema.fields[1].name);
    assert_eq!(ColumnType::Utf8, schema.fields[1].column_type);
    assert!(!schema.fields[1].nullable);
    assert_eq!("location", schema.fields[2].name);
    assert_eq!(ColumnType::Utf8, schema.fields[2].column_type);
    assert!(schema.fields[2].nullable);
    assert_eq!("message", schema.fields[3].name);
    assert_eq!(ColumnType::Utf8, schema.fields[3].column_type);
    assert!(schema.fields[3].nullable);
}

#[test]
fn lib_should_read_all() {
    let reader = LogReader::new("src/lib.rs").unwrap();

    let _schema = reader.schema();
    let result = reader.read_all(&fixture_15()).unwrap();

    assert_eq!(4, result.num_columns());
    assert_eq!(15, result.num_rows());
}

#[test]
fn reader_should_read_all() {
    let reader = LogReader::new("src/lib.rs").unwrap();

    let _schema = reader.schema();
    let result = reader.read_all(&fixture_15()).unwrap();

    assert_eq!(4, result.num_columns());
    assert_eq!(15, result.num_rows());
    assert_eq!(reader.schema(), result.schema());
}

#[test]
fn schema_is_independent_of_contents() {
    let reader_a = LogReader::new("src/lib.rs").unwrap();
    let reader_b = LogReader::new("src/parser.rs").unwrap();

    assert_eq!(reader_a.schema(), reader_b.schema());
}

#[test]
fn read_all_is_idempotent() {
    let reader = LogReader::new("src/lib.rs").unwrap();
    let text = fixture_15();

    let first = reader.read_all(&text).unwrap();
    let second = reader.read_all(&text).unwrap();

    assert_eq!(first.num_rows(), second.num_rows());
    assert_eq!(first, second);
}

#[test]
fn row_count_equals_nonempty_lines() {
    let reader = LogReader::new("src/lib.rs").unwrap();
    let text = "[2023-01-01T10:00:00Z] [INFO] [a] one\n\n[2023-01-01T10:01:00Z] [WARN] [b] two\n\n\n";

    let batch = reader.read_all(text).unwrap();

    assert_eq!(2, batch.num_rows());
}

#[test]
fn malformed_line_fails_the_scan() {
    let reader = LogReader::new("src/lib.rs").unwrap();
    let text = "[2023-01-01T10:00:00Z] [INFO] [a] ok\n[only] [two]\n[2023-01-01T10:02:00Z] [INFO] [c] fine\n";

    let result = reader.read_all(text);

    assert!(matches!(
        result,
        Err(DataFusionLogError::Format { line }) if line == "[only] [two]"
    ));
}

#[test]
fn batch_stream_yields_once_and_restarts() {
    let reader = LogReader::new("src/lib.rs").unwrap();
    let text = fixture_15();
    let mut stream = LogBatchStream::new(reader);

    let first = stream.next(&text);
    assert!(matches!(first, Some(Ok(_))));
    let batch = first.unwrap().unwrap();
    assert_eq!(15, batch.num_rows());

    assert!(stream.next(&text).is_none());
    assert!(stream.next(&text).is_none());

    stream.restart();
    let again = stream.next(&text);
    assert!(matches!(again, Some(Ok(_))));
    assert_eq!(batch, again.unwrap().unwrap());
}

#[test]
fn io_error_message() {
    let err = DataFusionLogError::Io {
        detail: String::from("boom"),
    };
    assert_eq!("io error: boom", err.message());
}
