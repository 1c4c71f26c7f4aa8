use data_vault::{
    build_archive, check_import, create_backup, extract_documents, import_backup, is_recognized_entry,
    recognized_entries, BackupError, Document,
};

fn doc(name: &str, content: &[u8]) -> Document {
    Document { name: name.to_string(), content: content.to_vec() }
}

fn zip_of(names: &[&str]) -> Vec<u8> {
    let docs: Vec<Document> = names.iter().map(|n| doc(n, b"[]")).collect();
    build_archive(&docs).unwrap()
}

#[test]
fn backup_reproduces_documents() {
    let docs = vec![doc("students.json", b"[{\"id\":1}]"), doc("courses.json", b"[1,2]")];
    assert_eq!(docs[0].content.len(), 10);
    assert_eq!(docs[1].content.len(), 5);
    let (name, bytes) = create_backup("", "20240102_030405", &docs).unwrap();
    assert_eq!(name, "백업_20240102_030405.zip");
    assert!(bytes.len() > 0);
    let back = extract_documents(bytes, "b.zip").unwrap();
    assert_eq!(back.len(), 2);
    assert_eq!(back[0].name, "students.json");
    assert_eq!(back[0].content, b"[{\"id\":1}]".to_vec());
    assert_eq!(back[1].name, "courses.json");
    assert_eq!(back[1].content, b"[1,2]".to_vec());
}

#[test]
fn archive_of_no_documents_is_a_valid_empty_zip() {
    let bytes = build_archive(&Vec::new()).unwrap();
    assert!(!bytes.is_empty());
    assert!(extract_documents(bytes, "e.zip").unwrap().is_empty());
}

#[test]
fn archive_bytes_are_compressed_not_raw() {
    let content = vec![b'a'; 4096];
    let bytes = build_archive(&vec![doc("courses.json", &content)]).unwrap();
    assert!(bytes.len() < content.len());
    assert_eq!(&bytes[0..2], b"PK");
}

#[test]
fn extract_of_non_zip_is_format_error() {
    let r = extract_documents(b"not a zip at all".to_vec(), "bad.zip");
    assert!(matches!(r, Err(BackupError::ArchiveFormat { ref path }) if path == "bad.zip"));
}

fn raw_zip(names: &[&str]) -> Vec<u8> {
    let mut w = zip::ZipWriter::new(std::io::Cursor::new(Vec::new()));
    for n in names {
        w.start_file(*n, zip::write::SimpleFileOptions::default()).unwrap();
        std::io::Write::write_all(&mut w, n.as_bytes()).unwrap();
    }
    w.finish().unwrap().into_inner()
}

#[test]
fn extract_keeps_bare_names_of_nested_entries() {
    let docs = extract_documents(raw_zip(&["../evil.json", "sub/students.json", "c.json"]), "x.zip").unwrap();
    let names: Vec<&str> = docs.iter().map(|d| d.name.as_str()).collect();
    assert_eq!(names, vec!["evil.json", "students.json", "c.json"]);
    assert_eq!(docs[1].content, b"sub/students.json".to_vec());
}

#[test]
fn extract_rejects_entries_without_a_file_name() {
    for name in ["dir/", "a/..", "."] {
        let r = extract_documents(raw_zip(&[name]), "x.zip");
        assert!(matches!(r, Err(BackupError::Validation { ref path }) if path == name), "{}", name);
    }
}

#[test]
fn backup_rejects_names_that_cannot_be_stored() {
    for names in [vec!["../evil.json"], vec!["a/b.json"], vec!["a.json", "a.json"], vec![""]] {
        let docs: Vec<Document> = names.iter().map(|n| doc(n, b"[]")).collect();
        assert!(matches!(build_archive(&docs), Err(BackupError::Validation { .. })), "{:?}", names);
        assert!(matches!(create_backup("", "1", &docs), Err(BackupError::Validation { .. })));
    }
}

#[test]
fn recognized_names() {
    assert!(is_recognized_entry("courses.json"));
    assert!(is_recognized_entry("students.json"));
    assert!(is_recognized_entry("enrollments.json"));
    assert!(!is_recognized_entry("grades.json"));
    assert!(!is_recognized_entry("Courses.json"));
    assert!(recognized_entries(&vec!["a".to_string(), "enrollments.json".to_string()]));
    assert!(!recognized_entries(&vec!["a".to_string()]));
    assert!(!recognized_entries(&Vec::new()));
}

#[test]
fn import_of_non_zip_is_format_error() {
    let r = check_import(b"plain text".to_vec(), "/tmp/in.zip");
    assert!(matches!(r, Err(BackupError::ArchiveFormat { ref path }) if path == "/tmp/in.zip"));
}

#[test]
fn import_without_recognized_entry_is_validation_error() {
    let r = check_import(zip_of(&["grades.json", "notes.json"]), "/tmp/in.zip");
    assert!(matches!(r, Err(BackupError::Validation { ref path }) if path == "/tmp/in.zip"));
}

#[test]
fn import_with_one_recognized_entry_succeeds() {
    assert!(check_import(zip_of(&["students.json"]), "/tmp/in.zip").is_ok());
    let name = import_backup(zip_of(&["grades.json", "courses.json"]), "/tmp/in.zip", "org", "20240102_030405");
    assert_eq!(name.unwrap(), "org_백업_외부_20240102_030405.zip");
}

#[test]
fn import_of_empty_zip_is_validation_error() {
    let r = import_backup(zip_of(&[]), "in.zip", "", "20240102_030405");
    assert!(matches!(r, Err(BackupError::Validation { .. })));
}

#[test]
fn label_that_leaves_backups_root_is_rejected() {
    let r = create_backup("../x", "20240102_030405", &Vec::new());
    assert!(matches!(r, Err(BackupError::Validation { ref path }) if path == "../x_백업_20240102_030405.zip"));
    let r = import_backup(zip_of(&["courses.json"]), "in.zip", "a/b", "1");
    assert!(matches!(r, Err(BackupError::Validation { ref path }) if path == "a/b_백업_외부_1.zip"));
}

#[test]
fn labelled_backup_name() {
    let (name, _) = create_backup("school", "20240102_030405", &vec![doc("courses.json", b"[]")]).unwrap();
    assert_eq!(name, "school_백업_20240102_030405.zip");
}

#[test]
fn backup_entries_are_deflated_and_flat() {
    let docs = vec![doc("students.json", b"[{\"id\":1}]"), doc("courses.json", b"[1,2]")];
    let (_, bytes) = create_backup("", "1", &docs).unwrap();
    let mut archive = zip::ZipArchive::new(std::io::Cursor::new(bytes)).unwrap();
    assert_eq!(archive.len(), 2);
    for i in 0..archive.len() {
        let entry = archive.by_index(i).unwrap();
        assert_eq!(entry.compression(), zip::CompressionMethod::Deflated);
        assert!(!entry.name().contains('/'));
    }
}

#[test]
fn empty_document_is_stored_and_read_back() {
    let docs = vec![doc("enrollments.json", b"")];
    let bytes = build_archive(&docs).unwrap();
    let back = extract_documents(bytes, "e.zip").unwrap();
    assert_eq!(back[0].name, "enrollments.json");
    assert!(back[0].content.is_empty());
}
