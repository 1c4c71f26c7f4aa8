use data_vault::{build_archive, BackupError, Document, RestoreAction, RestoreEvent, RestoreMachine, RestoreStage, StorageRoots};

fn roots() -> StorageRoots {
    StorageRoots::under("/base")
}

fn archive() -> Vec<u8> {
    build_archive(&vec![
        Document { name: "students.json".to_string(), content: b"[{\"id\":1}]".to_vec() },
        Document { name: "courses.json".to_string(), content: b"[1,2]".to_vec() },
    ])
    .unwrap()
}

#[test]
fn restore_runs_every_step_in_order() {
    let (m, a) = RestoreMachine::start(&roots(), "b.zip");
    assert!(matches!(a, RestoreAction::CheckArchive { ref path } if path == "/base/backups/b.zip"));
    let (m, a) = m.step(RestoreEvent::ArchivePresent { present: true });
    assert!(matches!(a, RestoreAction::TakeSafetyBackup));
    let (m, a) = m.step(RestoreEvent::SafetyBackupMade { outcome: Ok("백업_1.zip".to_string()) });
    assert!(matches!(a, RestoreAction::ReadArchive { ref path } if path == "/base/backups/b.zip"));
    assert_eq!(m.safety_backup.as_deref(), Some("백업_1.zip"));
    let (m, a) = m.step(RestoreEvent::ArchiveRead { outcome: Ok(archive()) });
    assert!(matches!(a, RestoreAction::ClearDataRoot));
    let (m, a) = m.step(RestoreEvent::DataCleared { outcome: Ok(()) });
    match a {
        RestoreAction::WriteDocuments { documents } => {
            assert_eq!(documents.len(), 2);
            assert_eq!(documents[0].name, "students.json");
            assert_eq!(documents[0].content, b"[{\"id\":1}]".to_vec());
            assert_eq!(documents[1].name, "courses.json");
            assert_eq!(documents[1].content, b"[1,2]".to_vec());
        }
        _ => panic!("expected documents to write"),
    }
    let (m, a) = m.step(RestoreEvent::DocumentsWritten { outcome: Ok(()) });
    assert!(matches!(a, RestoreAction::Finish { outcome: Ok(()) }));
    assert_eq!(m.stage, RestoreStage::Finished);
}

#[test]
fn restore_of_missing_archive_is_not_found_and_touches_nothing() {
    let (m, _) = RestoreMachine::start(&roots(), "missing.zip");
    let (m, a) = m.step(RestoreEvent::ArchivePresent { present: false });
    assert!(matches!(a, RestoreAction::Finish { outcome: Err(BackupError::NotFound { ref path }) } if path == "missing.zip"));
    assert_eq!(m.stage, RestoreStage::Failed);
    let (m, a) = m.step(RestoreEvent::DataCleared { outcome: Ok(()) });
    assert!(matches!(a, RestoreAction::Ignore));
    let (_, a) = m.step(RestoreEvent::SafetyBackupMade { outcome: Ok("x.zip".to_string()) });
    assert!(matches!(a, RestoreAction::Ignore));
}

#[test]
fn restore_of_name_outside_backups_root_is_not_found() {
    let (m, a) = RestoreMachine::start(&roots(), "../data/students.json");
    assert!(matches!(a, RestoreAction::Finish { outcome: Err(BackupError::NotFound { .. }) }));
    assert_eq!(m.stage, RestoreStage::Failed);
}

#[test]
fn failed_safety_backup_stops_before_clearing() {
    let (m, _) = RestoreMachine::start(&roots(), "b.zip");
    let (m, _) = m.step(RestoreEvent::ArchivePresent { present: true });
    let (m, a) = m.step(RestoreEvent::SafetyBackupMade { outcome: Err(BackupError::Io { path: "x".to_string() }) });
    assert!(matches!(a, RestoreAction::Finish { outcome: Err(BackupError::Io { .. }) }));
    assert_eq!(m.stage, RestoreStage::Failed);
    assert!(m.safety_backup.is_none());
}

#[test]
fn damaged_archive_fails_before_clearing() {
    let (m, _) = RestoreMachine::start(&roots(), "b.zip");
    let (m, _) = m.step(RestoreEvent::ArchivePresent { present: true });
    let (m, _) = m.step(RestoreEvent::SafetyBackupMade { outcome: Ok("s.zip".to_string()) });
    let (m, a) = m.step(RestoreEvent::ArchiveRead { outcome: Ok(b"garbage".to_vec()) });
    assert!(matches!(a, RestoreAction::Finish { outcome: Err(BackupError::ArchiveFormat { ref path }) } if path == "b.zip"));
    assert_eq!(m.stage, RestoreStage::Failed);
}

#[test]
fn event_out_of_turn_is_ignored() {
    let (m, _) = RestoreMachine::start(&roots(), "b.zip");
    let (m, a) = m.step(RestoreEvent::DataCleared { outcome: Ok(()) });
    assert!(matches!(a, RestoreAction::Ignore));
    assert_eq!(m.stage, RestoreStage::Locate);
}

#[test]
fn safety_backup_over_the_archive_itself_stops_the_restore() {
    let (m, _) = RestoreMachine::start(&roots(), "백업_20240102_030405.zip");
    let (m, _) = m.step(RestoreEvent::ArchivePresent { present: true });
    let (m, a) = m.step(RestoreEvent::SafetyBackupMade { outcome: Ok("백업_20240102_030405.zip".to_string()) });
    assert!(matches!(a, RestoreAction::Finish { outcome: Err(BackupError::Validation { .. }) }));
    assert_eq!(m.stage, RestoreStage::Failed);
}
