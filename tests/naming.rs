use data_vault::{
    archive_file_name, bare_entry_name, document_file_name, has_zip_extension, is_flat_name, is_plain_key, locate_archive,
    require_present, BackupError, StorageRoots,
};

#[test]
fn document_name_appends_json() {
    let name = document_file_name("students").unwrap();
    assert_eq!(name, "students.json");
}

#[test]
fn document_key_with_separator_is_rejected() {
    for key in ["../escape", "a/b", "a\\b", "nul\0"] {
        let r = document_file_name(key);
        assert!(matches!(r, Err(BackupError::Validation { ref path }) if path == key));
    }
}

#[test]
fn plain_keys() {
    assert!(is_plain_key("courses"));
    assert!(is_plain_key(".."));
    assert!(!is_plain_key("x/y"));
    assert!(is_plain_key(""));
    assert_eq!(document_file_name("").unwrap(), ".json");
}

#[test]
fn flat_names() {
    assert!(is_flat_name("backup.zip"));
    assert!(!is_flat_name("."));
    assert!(!is_flat_name(".."));
    assert!(!is_flat_name("../backup.zip"));
    assert!(!is_flat_name(""));
    assert!(is_flat_name("..."));
}

#[test]
fn zip_extension() {
    assert!(has_zip_extension("a.zip"));
    assert!(has_zip_extension("..zip"));
    assert!(has_zip_extension("백업_20240101_120000.zip"));
    assert!(!has_zip_extension(".zip"));
    assert!(!has_zip_extension("a.txt"));
    assert!(!has_zip_extension("a.zip.bak"));
    assert!(!has_zip_extension("zip"));
}

#[test]
fn backup_name_without_label() {
    assert_eq!(archive_file_name("", "20240102_030405", false), "백업_20240102_030405.zip");
}

#[test]
fn backup_name_with_label() {
    assert_eq!(archive_file_name("school", "20240102_030405", false), "school_백업_20240102_030405.zip");
}

#[test]
fn imported_names() {
    assert_eq!(archive_file_name("", "20240102_030405", true), "백업_외부_20240102_030405.zip");
    assert_eq!(archive_file_name("org", "20240102_030405", true), "org_백업_외부_20240102_030405.zip");
}

#[test]
fn roots_under_base() {
    let roots = StorageRoots::under("/srv/app");
    assert_eq!(roots.data, "/srv/app/data");
    assert_eq!(roots.backups, "/srv/app/backups");
    assert_eq!(roots.document_path("courses").unwrap(), "/srv/app/data/courses.json");
    assert_eq!(roots.archive_path("b.zip").unwrap(), "/srv/app/backups/b.zip");
}

#[test]
fn archive_outside_backups_root_is_not_found() {
    let roots = StorageRoots::under("/srv/app");
    let r = locate_archive(&roots, "../data/courses.json");
    assert!(matches!(r, Err(BackupError::NotFound { ref path }) if path == "../data/courses.json"));
    assert!(matches!(roots.archive_path(".."), Err(BackupError::NotFound { .. })));
}

#[test]
fn delete_of_absent_archive_is_not_found() {
    assert!(require_present("gone.zip", true).is_ok());
    let r = require_present("gone.zip", false);
    assert!(matches!(r, Err(BackupError::NotFound { ref path }) if path == "gone.zip"));
}

#[test]
fn error_kind_and_path() {
    let e = BackupError::ArchiveFormat { path: String::from("x.zip") };
    assert_eq!(e.kind(), "archive format");
    assert_eq!(e.path(), "x.zip");
    assert_eq!(BackupError::Io { path: String::new() }.kind(), "io");
    assert_eq!(BackupError::Directory { path: String::new() }.kind(), "directory");
    assert_eq!(BackupError::NotFound { path: String::new() }.kind(), "not found");
    assert_eq!(BackupError::Validation { path: String::new() }.kind(), "validation");
}

#[test]
fn bare_names_of_entries() {
    assert_eq!(bare_entry_name("students.json"), "students.json");
    assert_eq!(bare_entry_name("sub/a.json"), "a.json");
    assert_eq!(bare_entry_name("../x.json"), "x.json");
    assert_eq!(bare_entry_name("a\\b\\c.json"), "c.json");
    assert_eq!(bare_entry_name("dir/"), "");
    assert_eq!(bare_entry_name(""), "");
}
