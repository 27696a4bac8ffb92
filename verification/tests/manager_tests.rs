use csv_report::error::Failure;
use csv_report::fs_model::FileSystem;
use csv_report::manager::{create_or_delete_csv_file, str_eq};

#[test]
fn create_then_exists_then_delete() {
    let mut fs = FileSystem::new();
    let r = create_or_delete_csv_file(
        &mut fs,
        "temp_file.csv".to_string(),
        Some("heading,value\nbasic,1".to_string()),
        "create",
    );
    assert_eq!(r, Ok(()));
    assert!(fs.file_exists("temp_file.csv"));
    let r = create_or_delete_csv_file(&mut fs, "temp_file.csv".to_string(), None, "delete");
    assert_eq!(r, Ok(()));
    assert!(!fs.file_exists("temp_file.csv"));
}

#[test]
fn create_without_content_is_noop() {
    let mut fs = FileSystem::new();
    let r = create_or_delete_csv_file(&mut fs, "temp_file.csv".to_string(), None, "create");
    assert_eq!(r, Ok(()));
    assert!(!fs.file_exists("temp_file.csv"));
}

#[test]
fn create_without_content_keeps_other_files() {
    let mut fs = FileSystem::new();
    fs.write_file("other.csv".to_string(), "a,b".to_string());
    let r = create_or_delete_csv_file(&mut fs, "temp_file.csv".to_string(), None, "create");
    assert_eq!(r, Ok(()));
    assert!(!fs.file_exists("temp_file.csv"));
    assert!(fs.file_exists("other.csv"));
    assert_eq!(fs.read_file("other.csv"), Some(&"a,b".to_string()));
}

#[test]
fn delete_missing_path_fails() {
    let mut fs = FileSystem::new();
    let r = create_or_delete_csv_file(&mut fs, "temp_file.csv".to_string(), None, "delete");
    assert_eq!(r, Err(Failure::FileDeleteFailure));
}

#[test]
fn invalid_operation_is_noop() {
    let mut fs = FileSystem::new();
    let r = create_or_delete_csv_file(
        &mut fs,
        "temp_file.csv".to_string(),
        Some("a,b".to_string()),
        "rename",
    );
    assert_eq!(r, Ok(()));
    assert!(!fs.file_exists("temp_file.csv"));
}

#[test]
fn create_overwrites_existing_file() {
    let mut fs = FileSystem::new();
    fs.write_file("temp_file.csv".to_string(), "old".to_string());
    let r = create_or_delete_csv_file(
        &mut fs,
        "temp_file.csv".to_string(),
        Some("new".to_string()),
        "create",
    );
    assert_eq!(r, Ok(()));
    assert_eq!(fs.read_file("temp_file.csv"), Some(&"new".to_string()));
}

#[test]
fn read_file_returns_what_was_written() {
    let mut fs = FileSystem::new();
    assert_eq!(fs.read_file("temp_file.csv"), None);
    fs.write_file("temp_file.csv".to_string(), "heading,value".to_string());
    assert_eq!(fs.read_file("temp_file.csv"), Some(&"heading,value".to_string()));
    fs.remove_file("temp_file.csv");
    assert_eq!(fs.read_file("temp_file.csv"), None);
}

#[test]
fn str_eq_compares_by_content() {
    assert!(str_eq("create", "create"));
    assert!(!str_eq("create", "delete"));
    assert!(!str_eq("create", "creates"));
    assert!(str_eq("", ""));
    assert!(!str_eq("", "a"));
}

#[test]
fn failure_descriptions_name_the_step() {
    assert_eq!(Failure::FileWriteFailure.describe(), "problem with writing file");
    assert_eq!(Failure::FileDeleteFailure.describe(), "problem with deleting file");
    assert_eq!(Failure::FileLoadFailure.describe(), "problem with loading the CSV file");
    assert_eq!(
        Failure::EngineExecutionFailure.describe(),
        "problem while executing the engine"
    );
}
