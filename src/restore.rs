use vstd::prelude::*;

use crate::archive::{all_readable, entries_of, extract_documents, restorable_names, unpacked, zip_contents};
use crate::error::BackupError;
use crate::naming::{child_path, flat_text, locate_archive, StorageRoots};
use crate::store::Document;

verus! {

/// Where a restore stands.
#[derive(Clone, Copy, Debug, PartialEq, Eq, Structural)]
pub enum RestoreStage {
    /// Waiting to learn whether the archive exists.
    Locate,
    /// Waiting for the safety backup of the current documents.
    Snapshot,
    /// Waiting for the archive's bytes.
    Unpack,
    /// Waiting for the data root to be cleared.
    Clear,
    /// Waiting for the archive's documents to be written.
    Extract,
    /// Restored.
    Finished,
    /// Stopped on an error.
    Failed,
}

/// What the caller is to do next.
pub enum RestoreAction {
    /// Tell whether the file at `path` exists.
    CheckArchive { path: String },
    /// Create a backup of the current documents, as `create_backup` does.
    TakeSafetyBackup,
    /// Read the archive's bytes from `path`.
    ReadArchive { path: String },
    /// Remove every regular file of the data root.
    ClearDataRoot,
    /// Write each document into the data root under its name.
    WriteDocuments { documents: Vec<Document> },
    /// The restore is over, with this outcome.
    Finish { outcome: Result<(), BackupError> },
    /// The event did not fit the stage; nothing to do.
    Ignore,
}

/// What the caller observed when it carried out the last action.
#[allow(inconsistent_fields)]
pub enum RestoreEvent {
    ArchivePresent { present: bool },
    /// The safety backup's file name, or why it could not be made.
    SafetyBackupMade { outcome: Result<String, BackupError> },
    ArchiveRead { outcome: Result<Vec<u8>, BackupError> },
    DataCleared { outcome: Result<(), BackupError> },
    DocumentsWritten { outcome: Result<(), BackupError> },
}

/// The restore of one archive into the data root, as a sequence of steps.
pub struct RestoreMachine {
    pub stage: RestoreStage,
    pub filename: String,
    pub archive_path: String,
    /// The file name of the safety backup, once it is made.
    pub safety_backup: Option<String>,
    /// The archive's documents, between unpacking and writing them.
    pub documents: Vec<Document>,
}

impl RestoreMachine {
    /// A safety backup is made at the snapshot stage, and the data root is
    /// touched only once it exists.
    pub open spec fn wf(&self) -> bool {
        &&& (self.stage is Locate || self.stage is Snapshot) ==> self.safety_backup is None
        &&& (self.stage is Unpack || self.stage is Clear || self.stage is Extract || self.stage is Finished)
            ==> self.safety_backup is Some
    }

    pub open spec fn is_over(&self) -> bool {
        self.stage is Finished || self.stage is Failed
    }

    /// Begins the restore of the archive `filename` of the backups root.
    pub fn start(roots: &StorageRoots, filename: &str) -> (r: (RestoreMachine, RestoreAction))
        ensures
            r.0.wf(),
            r.0.filename@ == filename@,
            r.0.safety_backup is None,
            flat_text(filename@) ==> r.0.stage is Locate && r.0.archive_path@ == child_path(roots.backups@, filename@)
                && (r.1 matches RestoreAction::CheckArchive { path } && path@ == r.0.archive_path@),
            !flat_text(filename@) ==> r.0.stage is Failed
                && r.1 matches RestoreAction::Finish { outcome: Err(BackupError::NotFound { .. }) },
    {
        match locate_archive(roots, filename) {
            Ok(path) => {
                let m = RestoreMachine {
                    stage: RestoreStage::Locate,
                    filename: String::from_str(filename),
                    archive_path: path.clone(),
                    safety_backup: None,
                    documents: Vec::new(),
                };
                (m, RestoreAction::CheckArchive { path })
            },
            Err(e) => {
                let m = RestoreMachine {
                    stage: RestoreStage::Failed,
                    filename: String::from_str(filename),
                    archive_path: String::new(),
                    safety_backup: None,
                    documents: Vec::new(),
                };
                (m, RestoreAction::Finish { outcome: Err(e) })
            },
        }
    }

    /// Takes the event that the last action produced and gives the next
    /// action. An error ends the restore; an event that does not fit the
    /// stage changes nothing.
    pub fn step(self, event: RestoreEvent) -> (r: (RestoreMachine, RestoreAction))
        requires
            self.wf(),
        ensures
            r.0.wf(),
            r.0.filename == self.filename,
            r.0.archive_path == self.archive_path,
            self.safety_backup is Some ==> r.0.safety_backup == self.safety_backup,
            // an archive that is not there fails the restore before anything else
            self.stage is Locate ==> (event matches RestoreEvent::ArchivePresent { present } ==> if present {
                r.0.stage is Snapshot && r.1 is TakeSafetyBackup
            } else {
                r.0.stage is Failed && (r.1 matches RestoreAction::Finish {
                    outcome: Err(BackupError::NotFound { .. }),
                })
            }),
            // a safety backup that took the archive's own name has replaced it
            self.stage is Snapshot ==> (event matches RestoreEvent::SafetyBackupMade { outcome } ==> match outcome {
                Ok(name) => if name@ == self.filename@ {
                    r.0.stage is Failed && r.1 matches RestoreAction::Finish { outcome: Err(BackupError::Validation { .. }) }
                } else {
                    r.0.stage is Unpack && r.0.safety_backup == Some(name) && (r.1 matches RestoreAction::ReadArchive { path } && path == self.archive_path)
                },
                Err(_) => r.0.stage is Failed && r.1 is Finish,
            }),
            self.stage is Unpack ==> (event matches RestoreEvent::ArchiveRead { outcome } ==> match outcome {
                Ok(bytes) => {
                    &&& (r.0.stage is Clear <==> (zip_contents(bytes@) is Some && restorable_names(
                        zip_contents(bytes@)->0,
                    ) && all_readable(zip_contents(bytes@)->0)))
                    &&& (r.0.stage is Clear ==> (r.1 is ClearDataRoot && entries_of(r.0.documents@) == unpacked(
                        zip_contents(bytes@)->0,
                    )))
                    &&& (zip_contents(bytes@) is None ==> (r.0.stage is Failed && r.1 matches RestoreAction::Finish {
                        outcome: Err(BackupError::ArchiveFormat { .. }),
                    }))
                    &&& ((zip_contents(bytes@) is Some && !restorable_names(zip_contents(bytes@)->0)) ==> (r.0.stage is Failed
                        && r.1 matches RestoreAction::Finish { outcome: Err(BackupError::Validation { .. }) }))
                    &&& (r.0.stage is Clear || r.0.stage is Failed)
                },
                Err(_) => r.0.stage is Failed && r.1 is Finish,
            }),
            self.stage is Clear ==> (event matches RestoreEvent::DataCleared { outcome } ==> match outcome {
                Ok(_) => r.0.stage is Extract && (r.1 matches RestoreAction::WriteDocuments { documents } && documents@ == self.documents@),
                Err(_) => r.0.stage is Failed && r.1 is Finish,
            }),
            self.stage is Extract ==> (event matches RestoreEvent::DocumentsWritten { outcome } ==> match outcome {
                Ok(_) => r.0.stage is Finished && r.1 matches RestoreAction::Finish { outcome: Ok(_) },
                Err(_) => r.0.stage is Failed && r.1 is Finish,
            }),
            // the data root is cleared or written only after a safety backup
            (r.1 is ClearDataRoot || r.1 is WriteDocuments) ==> r.0.safety_backup is Some,
            // a restore that is over stays over
            self.is_over() ==> r.0.stage == self.stage && r.1 is Ignore,
            !fits(self.stage, event) ==> r.0.stage == self.stage && r.1 is Ignore,
    {
        let RestoreMachine { stage, filename, archive_path, safety_backup, documents } = self;
        match (stage, event) {
            (RestoreStage::Locate, RestoreEvent::ArchivePresent { present }) => {
                if present {
                    let m = RestoreMachine {
                        stage: RestoreStage::Snapshot,
                        filename,
                        archive_path,
                        safety_backup,
                        documents,
                    };
                    (m, RestoreAction::TakeSafetyBackup)
                } else {
                    let e = BackupError::NotFound { path: filename.clone() };
                    let m = RestoreMachine {
                        stage: RestoreStage::Failed,
                        filename,
                        archive_path,
                        safety_backup,
                        documents,
                    };
                    (m, RestoreAction::Finish { outcome: Err(e) })
                }
            },
            (RestoreStage::Snapshot, RestoreEvent::SafetyBackupMade { outcome }) => match outcome {
                Ok(name) if name == filename => {
                    let m = RestoreMachine {
                        stage: RestoreStage::Failed,
                        filename,
                        archive_path,
                        safety_backup,
                        documents,
                    };
                    (m, RestoreAction::Finish { outcome: Err(BackupError::Validation { path: name }) })
                },
                Ok(name) => {
                    let path = archive_path.clone();
                    let m = RestoreMachine {
                        stage: RestoreStage::Unpack,
                        filename,
                        archive_path,
                        safety_backup: Some(name),
                        documents,
                    };
                    (m, RestoreAction::ReadArchive { path })
                },
                Err(e) => {
                    let m = RestoreMachine {
                        stage: RestoreStage::Failed,
                        filename,
                        archive_path,
                        safety_backup,
                        documents,
                    };
                    (m, RestoreAction::Finish { outcome: Err(e) })
                },
            },
            (RestoreStage::Unpack, RestoreEvent::ArchiveRead { outcome }) => {
                let extracted = match outcome {
                    Ok(bytes) => extract_documents(bytes, filename.as_str()),
                    Err(e) => Err(e),
                };
                match extracted {
                    Ok(docs) => {
                        let m = RestoreMachine {
                            stage: RestoreStage::Clear,
                            filename,
                            archive_path,
                            safety_backup,
                            documents: docs,
                        };
                        (m, RestoreAction::ClearDataRoot)
                    },
                    Err(e) => {
                        let m = RestoreMachine {
                            stage: RestoreStage::Failed,
                            filename,
                            archive_path,
                            safety_backup,
                            documents,
                        };
                        (m, RestoreAction::Finish { outcome: Err(e) })
                    },
                }
            },
            (RestoreStage::Clear, RestoreEvent::DataCleared { outcome }) => match outcome {
                Ok(()) => {
                    let m = RestoreMachine {
                        stage: RestoreStage::Extract,
                        filename,
                        archive_path,
                        safety_backup,
                        documents: Vec::new(),
                    };
                    (m, RestoreAction::WriteDocuments { documents })
                },
                Err(e) => {
                    let m = RestoreMachine {
                        stage: RestoreStage::Failed,
                        filename,
                        archive_path,
                        safety_backup,
                        documents,
                    };
                    (m, RestoreAction::Finish { outcome: Err(e) })
                },
            },
            (RestoreStage::Extract, RestoreEvent::DocumentsWritten { outcome }) => {
                let done = match outcome {
                    Ok(()) => RestoreStage::Finished,
                    Err(_) => RestoreStage::Failed,
                };
                let m = RestoreMachine { stage: done, filename, archive_path, safety_backup, documents };
                (m, RestoreAction::Finish { outcome })
            },
            (stage, _) => {
                let m = RestoreMachine { stage, filename, archive_path, safety_backup, documents };
                (m, RestoreAction::Ignore)
            },
        }
    }
}

/// Whether `event` answers the action that a machine at `stage` asked for.
pub open spec fn fits(stage: RestoreStage, event: RestoreEvent) -> bool {
    match stage {
        RestoreStage::Locate => event is ArchivePresent,
        RestoreStage::Snapshot => event is SafetyBackupMade,
        RestoreStage::Unpack => event is ArchiveRead,
        RestoreStage::Clear => event is DataCleared,
        RestoreStage::Extract => event is DocumentsWritten,
        _ => false,
    }
}

} // verus!
