use datafusion_log_reader::batch::Column;
use datafusion_log_reader::datasource::{FilterPushDown, LogDataSource, TableType};
use datafusion_log_reader::reader_options::LogReaderOptions;
use datafusion_log_reader::schema::{ColumnType, Schema};
use datafusion_log_reader::DataFusionLogError;

fn sample_text() -> String {
    String::from(
        "[2023-01-01T10:00:00Z] [INFO] [app::start] started\n\
         [2023-01-01T10:00:01Z] [WARN] [app::db] slow query\n\
         [2023-01-01T10:00:02Z] [ERROR] [app::db] lost connection\n",
    )
}

#[test]
fn datasource_exposes_base_table_and_schema() {
    let ds = LogDataSource::new("logs", "src/lib.rs").unwrap();

    assert_eq!(TableType::Base, ds.table_type());
    assert_eq!(Schema::log_schema(), ds.schema());
    assert_eq!("logs", ds.name);
    assert_eq!("src/lib.rs", ds.path);
}

#[test]
fn datasource_missing_path_is_not_found() {
    let ds = LogDataSource::new("logs", "data_not_exits.log");

    assert!(matches!(
        ds,
        Err(DataFusionLogError::NotFound { path }) if path == "data_not_exits.log"
    ));
}

#[test]
fn pushdown_is_declared_inexact_for_every_filter() {
    let ds = LogDataSource::new("logs", "src/lib.rs").unwrap();

    let decl = ds.supports_filters_pushdown(3);

    assert_eq!(vec![FilterPushDown::Inexact; 3], decl);
    assert!(ds.supports_filters_pushdown(0).is_empty());
}

#[test]
fn projection_scenario_keeps_requested_fields_in_order() {
    let ds = LogDataSource::new("logs", "src/lib.rs").unwrap();

    let plan = ds.scan(Some(&vec![0, 1]), None).unwrap();
    let props = plan.properties();

    assert_eq!(2, props.schema.num_fields());
    assert_eq!("time", props.schema.fields[0].name);
    assert_eq!(ColumnType::TimestampMicrosecond, props.schema.fields[0].column_type);
    assert_eq!("level", props.schema.fields[1].name);
    assert_eq!(ColumnType::Utf8, props.schema.fields[1].column_type);
    assert_eq!(1, props.partition_count);
}

#[test]
fn projection_can_reorder() {
    let ds = LogDataSource::new("logs", "src/lib.rs").unwrap();

    let plan = ds.scan(Some(&vec![3, 0]), None).unwrap();
    let schema = plan.schema();

    assert_eq!("message", schema.fields[0].name);
    assert_eq!("time", schema.fields[1].name);
}

#[test]
fn invalid_projection_is_schema_mismatch() {
    let ds = LogDataSource::new("logs", "src/lib.rs").unwrap();

    let plan = ds.scan(Some(&vec![0, 9]), None);

    assert!(matches!(
        plan,
        Err(DataFusionLogError::SchemaMismatch { index: 9 })
    ));
}

#[test]
fn execute_projects_the_batch() {
    let ds = LogDataSource::new("logs", "src/lib.rs").unwrap();
    let plan = ds.scan(Some(&vec![0, 1]), None).unwrap();

    let batch = plan.execute(0, &sample_text()).unwrap();

    assert_eq!(2, batch.num_columns());
    assert_eq!(3, batch.num_rows());
    match &batch.columns[0] {
        Column::TimestampMicros(times) => {
            assert_eq!(
                &vec![
                    1_672_567_200_000_000i64,
                    1_672_567_201_000_000i64,
                    1_672_567_202_000_000i64
                ],
                times
            );
        }
        other => panic!("expected a timestamp column, got {other:?}"),
    }
    match &batch.columns[1] {
        Column::Utf8(levels) => {
            assert_eq!(&vec!["INFO", "WARN", "ERROR"], levels);
        }
        other => panic!("expected a text column, got {other:?}"),
    }
}

#[test]
fn execute_without_projection_returns_full_batch() {
    let ds = LogDataSource::new("logs", "src/lib.rs").unwrap();
    let plan = ds.scan(None, Some(2)).unwrap();

    // The limit hint does not reduce the work: all rows come back and the
    // host engine post-limits.
    let batch = plan.execute(0, &sample_text()).unwrap();

    assert_eq!(4, batch.num_columns());
    assert_eq!(3, batch.num_rows());
    match &batch.columns[2] {
        Column::Utf8(locations) => {
            assert_eq!(&vec!["app::start", "app::db", "app::db"], locations);
        }
        other => panic!("expected a text column, got {other:?}"),
    }
}

#[test]
fn execute_propagates_format_errors() {
    let ds = LogDataSource::new("logs", "src/lib.rs").unwrap();
    let plan = ds.scan(None, None).unwrap();

    let result = plan.execute(0, "[broken]\n");

    assert!(matches!(
        result,
        Err(DataFusionLogError::Format { line }) if line == "[broken]"
    ));
}

#[test]
fn plan_is_a_leaf() {
    let ds = LogDataSource::new("logs", "src/lib.rs").unwrap();
    let plan = ds.scan(None, None).unwrap();

    assert_eq!("LogExecutionPlan", plan.name());
    assert!(plan.children().is_empty());

    let same = plan.with_new_children(Vec::new()).unwrap();
    assert_eq!("LogExecutionPlan", same.name());
    assert_eq!(4, same.schema().num_fields());
}

#[test]
fn batch_projection_selects_columns() {
    let ds = LogDataSource::new("logs", "src/lib.rs").unwrap();
    let batch = ds.reader.read_all(&sample_text()).unwrap();

    let projected = batch.project(&vec![1]).unwrap();
    assert_eq!(1, projected.num_columns());
    assert_eq!(3, projected.num_rows());
    assert_eq!("level", projected.fields[0].name);

    let bad = batch.project(&vec![4]);
    assert!(matches!(
        bad,
        Err(DataFusionLogError::SchemaMismatch { index: 4 })
    ));
}

#[test]
fn reader_options_defaults_and_overrides() {
    let options = LogReaderOptions::default();

    assert!(options.schema.is_none());
    assert_eq!(".log", options.file_extension);
    assert!(options.table_partition_cols.is_empty());
    assert_eq!("info", options.minimum_level);

    let schema = Schema::log_schema();
    let options = options
        .table_partition_cols(vec![(String::from("day"), ColumnType::Utf8)])
        .schema(&schema);

    assert_eq!(1, options.table_partition_cols.len());
    assert_eq!("day", options.table_partition_cols[0].0);
    assert_eq!(Some(schema), options.schema);
}
