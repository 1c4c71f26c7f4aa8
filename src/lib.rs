//! Storage of named JSON documents and the lifecycle of the zip archives
//! that snapshot them: naming, catalog, archive building, import checks and
//! the restore sequence. Filesystem access is left to the caller, which hands
//! the library plain values and carries out what it decides.

pub mod archive;
pub mod catalog;
pub mod error;
pub mod naming;
pub mod restore;
pub mod store;

pub use archive::{build_archive, check_import, create_backup, extract_documents, import_backup, is_recognized_entry, recognized_entries};
pub use catalog::{catalog, is_catalog_candidate, BackupInfo, DirEntry};
pub use error::BackupError;
pub use naming::{archive_file_name, bare_entry_name, document_file_name, has_zip_extension, is_flat_name, is_plain_key, locate_archive, require_present, StorageRoots};
pub use restore::{RestoreAction, RestoreEvent, RestoreMachine, RestoreStage};
pub use store::{content_or_default, Document};
