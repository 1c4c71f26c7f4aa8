use std::collections::HashMap;

use data_vault::{content_or_default, document_file_name};

fn save(dir: &mut HashMap<String, String>, key: &str, content: &str) {
    dir.insert(document_file_name(key).unwrap(), content.to_string());
}

fn load(dir: &HashMap<String, String>, key: &str) -> String {
    content_or_default(dir.get(&document_file_name(key).unwrap()).cloned())
}

#[test]
fn save_then_load_students() {
    let mut dir = HashMap::new();
    save(&mut dir, "students", "[{\"id\":1}]");
    assert_eq!(load(&dir, "students"), "[{\"id\":1}]");
}

#[test]
fn save_then_load_round_trips_exactly() {
    let mut dir = HashMap::new();
    save(&mut dir, "courses", "[]");
    save(&mut dir, "notes", "  {\"k\": \"한글\"}\n");
    save(&mut dir, "courses", "[1,2]");
    assert_eq!(load(&dir, "notes"), "  {\"k\": \"한글\"}\n");
    assert_eq!(load(&dir, "courses"), "[1,2]");
}

#[test]
fn load_of_never_saved_key_is_empty_array() {
    let mut dir = HashMap::new();
    save(&mut dir, "students", "[1]");
    assert_eq!(load(&dir, "courses"), "[]");
    assert_eq!(content_or_default(None), "[]");
}

#[test]
fn load_of_present_empty_file_is_empty() {
    assert_eq!(content_or_default(Some(String::new())), "");
}
