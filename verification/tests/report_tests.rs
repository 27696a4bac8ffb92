use datafusion::prelude::{CsvReadOptions, SessionContext};

use csv_report::csv::{load_csv, split_str};
use csv_report::error::Failure;
use csv_report::fs_model::FileSystem;
use csv_report::report::{csv_data, read_csv_file_with_inferred_schema, run_report};
use csv_report::table::{extract_headers, RecordBatch};

#[test]
fn fixed_payload_is_the_expected_text() {
    assert_eq!(csv_data(), "heading,value\nbasic,1\ncsv,2\nhere,3");
}

#[test]
fn load_fixed_content_yields_heading_and_value() {
    let mut fs = FileSystem::new();
    fs.write_file("temp_file.csv".to_string(), csv_data());
    let table = load_csv(&fs, "temp_file.csv").unwrap();
    assert_eq!(table.batches.len(), 1);
    let header = extract_headers(&table.batches);
    assert_eq!(header, vec!["heading".to_string(), "value".to_string()]);
}

#[test]
fn load_missing_path_fails_with_load_failure() {
    let fs = FileSystem::new();
    let r = load_csv(&fs, "temp_file.csv");
    assert!(matches!(r, Err(Failure::FileLoadFailure)));
}

#[test]
fn load_empty_content_fails() {
    let mut fs = FileSystem::new();
    fs.write_file("temp_file.csv".to_string(), String::new());
    let r = load_csv(&fs, "temp_file.csv");
    assert!(matches!(r, Err(Failure::FileLoadFailure)));
}

#[test]
fn load_ragged_rows_fails() {
    let mut fs = FileSystem::new();
    fs.write_file("temp_file.csv".to_string(), "heading,value\nbasic".to_string());
    let r = load_csv(&fs, "temp_file.csv");
    assert!(matches!(r, Err(Failure::FileLoadFailure)));
}

#[test]
fn load_trailing_line_break_fails() {
    let mut fs = FileSystem::new();
    fs.write_file("temp_file.csv".to_string(), "heading,value\nbasic,1\n".to_string());
    let r = load_csv(&fs, "temp_file.csv");
    assert!(matches!(r, Err(Failure::FileLoadFailure)));
}

#[test]
fn load_reads_rows_in_order() {
    let mut fs = FileSystem::new();
    fs.write_file("temp_file.csv".to_string(), csv_data());
    let table = load_csv(&fs, "temp_file.csv").unwrap();
    let batch = &table.batches[0];
    assert_eq!(batch.num_rows(), 3);
    assert_eq!(batch.num_columns(), 2);
    assert_eq!(batch.rows[0], vec!["basic".to_string(), "1".to_string()]);
    assert_eq!(batch.rows[1], vec!["csv".to_string(), "2".to_string()]);
    assert_eq!(batch.rows[2], vec!["here".to_string(), "3".to_string()]);
}

#[test]
fn split_str_separates_on_the_delimiter() {
    assert_eq!(split_str("heading,value", ','), vec!["heading".to_string(), "value".to_string()]);
    assert_eq!(split_str("", ','), vec![String::new()]);
    assert_eq!(
        split_str("a,,b", ','),
        vec!["a".to_string(), String::new(), "b".to_string()]
    );
    assert_eq!(split_str(",", ','), vec![String::new(), String::new()]);
    assert_eq!(split_str("abc", ','), vec!["abc".to_string()]);
}

#[test]
fn extract_headers_appends_per_batch() {
    let batches = vec![
        RecordBatch {
            fields: vec!["heading".to_string(), "value".to_string()],
            rows: Vec::new(),
        },
        RecordBatch { fields: vec!["heading".to_string()], rows: Vec::new() },
    ];
    let header = extract_headers(&batches);
    assert_eq!(
        header,
        vec!["heading".to_string(), "value".to_string(), "heading".to_string()]
    );
}

#[test]
fn extract_headers_of_no_batches_is_empty() {
    let batches: Vec<RecordBatch> = Vec::new();
    assert_eq!(extract_headers(&batches), Vec::<String>::new());
}

#[test]
fn read_csv_file_leaves_the_file_in_place() {
    let mut fs = FileSystem::new();
    let table = read_csv_file_with_inferred_schema(&mut fs, "temp_file.csv".to_string()).unwrap();
    assert!(fs.file_exists("temp_file.csv"));
    assert_eq!(fs.read_file("temp_file.csv"), Some(&csv_data()));
    assert_eq!(table.batches.len(), 1);
    assert_eq!(table.batches[0].num_rows(), 3);
    assert_eq!(table.batches[0].num_columns(), 2);
}

#[test]
fn end_to_end_report_on_fixed_payload() {
    let mut fs = FileSystem::new();
    let report = run_report(&mut fs, "temp_file.csv".to_string()).unwrap();
    assert_eq!(report.header, vec!["heading".to_string(), "value".to_string()]);
    assert_eq!(report.num_rows, 3);
    assert_eq!(report.num_columns, 2);
    assert!(!fs.file_exists("temp_file.csv"));
}

#[test]
fn engine_load_of_missing_path_fails() {
    let rt = tokio::runtime::Builder::new_current_thread()
        .enable_all()
        .build()
        .unwrap();
    let r = rt.block_on(async {
        let ctx = SessionContext::new();
        ctx.read_csv("no_such_file.csv", CsvReadOptions::default()).await
    });
    assert!(r.is_err());
}

#[test]
fn end_to_end_report_keeps_unrelated_files() {
    let mut fs = FileSystem::new();
    fs.write_file("other.csv".to_string(), "a,b".to_string());
    let report = run_report(&mut fs, "temp_file.csv".to_string()).unwrap();
    assert_eq!(report.num_rows, 3);
    assert!(fs.file_exists("other.csv"));
    assert!(!fs.file_exists("temp_file.csv"));
}
