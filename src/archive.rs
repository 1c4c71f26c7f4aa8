use vstd::prelude::*;

use std::io::Cursor;
use zip::result::ZipError;
use zip::write::SimpleFileOptions;
use zip::{CompressionMethod, ZipArchive, ZipWriter};

use crate::error::BackupError;
use crate::naming::{
    archive_file_name, archive_name, bare_entry_name, bare_name, document_name, flat_text, is_flat_name,
    lemma_plain_is_bare,
};
use crate::store::Document;

verus! {

#[verifier::external_type_specification]
#[verifier::external_body]
#[verifier::reject_recursive_types(T)]
pub struct ExCursor<T>(Cursor<T>);

#[verifier::external_type_specification]
#[verifier::external_body]
#[verifier::reject_recursive_types(R)]
pub struct ExZipArchive<R>(ZipArchive<R>);

/// An archive being written into memory. Verus refuses to declare
/// zip::ZipWriter itself (its `Write + Seek` bound), so it is held here.
#[verifier::external_body]
pub struct ArchiveWriter {
    inner: ZipWriter<Cursor<Vec<u8>>>,
}

#[verifier::external_type_specification]
#[verifier::external_body]
pub struct ExZipError(ZipError);

/// The entries that zip reads from `bytes`, each a name and, where the
/// entry can be read, its decompressed bytes; none where the bytes are not a
/// zip archive.
pub uninterp spec fn zip_contents(bytes: Seq<u8>) -> Option<Seq<(Seq<char>, Option<Seq<u8>>)>>;

/// The entries of an opened archive, each a name and, where the entry can
/// be read, its decompressed bytes.
pub uninterp spec fn archive_entries(a: ZipArchive<Cursor<Vec<u8>>>) -> Seq<(Seq<char>, Option<Seq<u8>>)>;

/// The entries, name and bytes each, added so far to an archive being written.
pub uninterp spec fn written_entries(w: ArchiveWriter) -> Seq<(Seq<char>, Seq<u8>)>;

/// The compression method of each entry added so far, as zip numbers it.
pub uninterp spec fn written_methods(w: ArchiveWriter) -> Seq<u16>;

/// The compression method of each entry that zip reads from `bytes`, as zip
/// numbers it.
pub uninterp spec fn zip_methods(bytes: Seq<u8>) -> Seq<u16>;

/// zip's number for the deflate method.
pub open spec fn deflate_method() -> u16 {
    8
}

/// The largest entry that a backup writes: half of zip's 32-bit size field,
/// so that deflate's small overhead on incompressible data still fits.
pub open spec fn entry_size_limit() -> nat {
    0x8000_0000
}

/// The longest entry name, in characters, whose UTF-8 form fits zip's
/// 16-bit name length field.
pub open spec fn entry_name_limit() -> nat {
    16383
}

/// Entries as a reader sees them once written: each one readable.
pub open spec fn as_read(es: Seq<(Seq<char>, Seq<u8>)>) -> Seq<(Seq<char>, Option<Seq<u8>>)> {
    es.map_values(|e: (Seq<char>, Seq<u8>)| (e.0, Some(e.1)))
}

pub open spec fn has_name(es: Seq<(Seq<char>, Seq<u8>)>, name: Seq<char>) -> bool {
    exists|k: int| 0 <= k < es.len() && (#[trigger] es[k]).0 == name
}

/// Whether the entry opened last can still grow by `extra` bytes.
pub open spec fn last_fits(es: Seq<(Seq<char>, Seq<u8>)>, extra: nat) -> bool {
    es.len() == 0 || es.last().1.len() + extra <= entry_size_limit()
}

/// Relies on zip::ZipArchive::new: it reads the central directory of the
/// bytes, or fails where they are no zip archive.
#[verifier::external_body]
fn open_archive(bytes: Vec<u8>) -> (r: Result<ZipArchive<Cursor<Vec<u8>>>, ZipError>)
    ensures
        r is Ok <==> zip_contents(bytes@) is Some,
        r matches Ok(a) ==> zip_contents(bytes@) == Some(archive_entries(a)),
{
    ZipArchive::new(Cursor::new(bytes))
}

/// Relies on zip::ZipArchive::len: the number of entries.
#[verifier::external_body]
fn entry_count(a: &ZipArchive<Cursor<Vec<u8>>>) -> (r: usize)
    ensures
        r == archive_entries(*a).len(),
{
    a.len()
}

/// Relies on zip::ZipArchive::name_for_index: the name of an entry, none
/// past the last one.
#[verifier::external_body]
fn entry_name(a: &ZipArchive<Cursor<Vec<u8>>>, i: usize) -> (r: Option<String>)
    ensures
        r is Some <==> i < archive_entries(*a).len(),
        r matches Some(n) ==> n@ == archive_entries(*a)[i as int].0,
{
    a.name_for_index(i).map(String::from)
}

/// Relies on zip::ZipArchive::by_index and the `Read` impl of the entry it
/// hands out: the decompressed bytes of an entry, or an error where the
/// entry is missing or cannot be read (an unsupported method, encryption,
/// damaged data).
#[verifier::external_body]
fn entry_bytes(a: &mut ZipArchive<Cursor<Vec<u8>>>, i: usize) -> (r: Result<Vec<u8>, ZipError>)
    ensures
        archive_entries(*final(a)) == archive_entries(*old(a)),
        r is Ok <==> i < archive_entries(*old(a)).len() && archive_entries(*old(a))[i as int].1 is Some,
        r matches Ok(c) ==> archive_entries(*old(a))[i as int].1 == Some(c@),
{
    let mut entry = a.by_index(i)?;
    let mut out = Vec::new();
    std::io::Read::read_to_end(&mut entry, &mut out)?;
    Ok(out)
}

/// Relies on zip::ZipWriter::new: a writer with no entries yet, over a
/// buffer in memory.
#[verifier::external_body]
fn new_writer() -> (r: ArchiveWriter)
    ensures
        written_entries(r) == Seq::<(Seq<char>, Seq<u8>)>::empty(),
        written_methods(r) == Seq::<u16>::empty(),
{
    ArchiveWriter { inner: ZipWriter::new(Cursor::new(Vec::new())) }
}

/// Relies on zip::ZipWriter::start_file, with the deflate method and unix
/// mode 0o755: closes the entry opened last and opens a new, empty one
/// named `name`. It fails on a name already written, and on an entry left
/// too large for zip's 32-bit size field; writes into memory do not fail.
/// A name longer than zip's 16-bit length field would panic.
#[verifier::external_body]
fn start_entry(w: &mut ArchiveWriter, name: &str) -> (r: Result<(), ZipError>)
    requires
        name@.len() <= entry_name_limit(),
    ensures
        !has_name(written_entries(*old(w)), name@) && last_fits(written_entries(*old(w)), 0) ==> r is Ok,
        r is Ok ==> written_entries(*final(w)) == written_entries(*old(w)).push((name@, Seq::<u8>::empty())),
        r is Ok ==> written_methods(*final(w)) == written_methods(*old(w)).push(deflate_method()),
{
    let options = SimpleFileOptions::default()
        .compression_method(CompressionMethod::Deflated)
        .unix_permissions(0o755);
    w.inner.start_file(name, options)
}

/// Relies on the `Write` impl of zip::ZipWriter (`write_all` over its
/// `write`): appends the bytes to the entry opened last. No bytes is a
/// success that changes nothing; bytes with no entry open, or past zip's
/// 32-bit size, fail.
#[verifier::external_body]
fn write_entry(w: &mut ArchiveWriter, data: &[u8]) -> (r: Result<(), ZipError>)
    ensures
        written_entries(*old(w)).len() > 0 && last_fits(written_entries(*old(w)), data@.len()) ==> r is Ok,
        r is Ok ==> written_methods(*final(w)) == written_methods(*old(w)),
        r is Ok && data@.len() == 0 ==> written_entries(*final(w)) == written_entries(*old(w)),
        r is Ok && data@.len() > 0 ==> written_entries(*old(w)).len() > 0 && written_entries(*final(w))
            == written_entries(*old(w)).update(
            written_entries(*old(w)).len() - 1,
            (written_entries(*old(w)).last().0, written_entries(*old(w)).last().1 + data@),
        ),
{
    std::io::Write::write_all(&mut w.inner, data)?;
    Ok(())
}

/// Relies on zip::ZipWriter::finish: closes the entry opened last, writes
/// the central directory and hands back the whole archive, which zip reads
/// back as the entries written, in order.
#[verifier::external_body]
fn finish_writer(w: ArchiveWriter) -> (r: Result<Vec<u8>, ZipError>)
    ensures
        last_fits(written_entries(w), 0) ==> r is Ok,
        r matches Ok(b) ==> zip_contents(b@) == Some(as_read(written_entries(w))) && b@.len() > 0,
        r matches Ok(b) ==> zip_methods(b@) == written_methods(w),
{
    let cursor = w.inner.finish()?;
    Ok(cursor.into_inner())
}

/// The entries, name and bytes each, that a list of documents makes.
pub open spec fn entries_of(docs: Seq<Document>) -> Seq<(Seq<char>, Seq<u8>)> {
    docs.map_values(|d: Document| d@)
}

/// Names that a backup can store: each the name of a file directly inside
/// the data root, short enough for zip, and no two alike.
pub open spec fn storable_names(docs: Seq<Document>) -> bool {
    &&& forall|i: int|
        0 <= i < docs.len() ==> flat_text((#[trigger] docs[i]).name@) && docs[i].name@.len()
            <= entry_name_limit()
    &&& forall|i: int, j: int| 0 <= i < j < docs.len() ==> (#[trigger] docs[i]).name@ != (#[trigger] docs[j]).name@
}

pub open spec fn storable_sizes(docs: Seq<Document>) -> bool {
    forall|i: int| 0 <= i < docs.len() ==> (#[trigger] docs[i]).content@.len() <= entry_size_limit()
}

/// One of the documents that an archive must hold to be imported.
pub open spec fn recognized_name(n: Seq<char>) -> bool {
    n == document_name(seq!['c', 'o', 'u', 'r', 's', 'e', 's']) || n == document_name(
        seq!['s', 't', 'u', 'd', 'e', 'n', 't', 's'],
    ) || n == document_name(seq!['e', 'n', 'r', 'o', 'l', 'l', 'm', 'e', 'n', 't', 's'])
}

pub open spec fn holds_recognized(es: Seq<(Seq<char>, Option<Seq<u8>>)>) -> bool {
    exists|i: int| 0 <= i < es.len() && recognized_name(#[trigger] es[i].0)
}

/// Every entry has a bare name that can stand directly in the data root.
pub open spec fn restorable_names(es: Seq<(Seq<char>, Option<Seq<u8>>)>) -> bool {
    forall|i: int| 0 <= i < es.len() ==> flat_text(bare_name(#[trigger] es[i].0))
}

pub open spec fn all_readable(es: Seq<(Seq<char>, Option<Seq<u8>>)>) -> bool {
    forall|i: int| 0 <= i < es.len() ==> (#[trigger] es[i]).1 is Some
}

/// The documents that readable entries restore: each under its bare name.
pub open spec fn unpacked(es: Seq<(Seq<char>, Option<Seq<u8>>)>) -> Seq<(Seq<char>, Seq<u8>)> {
    es.map_values(|e: (Seq<char>, Option<Seq<u8>>)| (bare_name(e.0), e.1->Some_0))
}

/// Whether the documents can be stored under their names in one archive.
pub fn check_storable_names(docs: &Vec<Document>) -> (r: Result<(), BackupError>)
    ensures
        r is Ok <==> storable_names(docs@),
        r matches Err(e) ==> e is Validation,
{
    let mut i: usize = 0;
    while i < docs.len()
        invariant
            i <= docs@.len(),
            forall|k: int|
                0 <= k < i ==> flat_text((#[trigger] docs@[k]).name@) && docs@[k].name@.len()
                    <= entry_name_limit(),
            forall|k: int, l: int| 0 <= k < l < i ==> (#[trigger] docs@[k]).name@ != (#[trigger] docs@[l]).name@,
        decreases docs@.len() - i,
    {
        let name = &docs[i].name;
        if !is_flat_name(name.as_str()) || name.as_str().unicode_len() > 16383 {
            return Err(BackupError::Validation { path: name.clone() });
        }
        let mut k: usize = 0;
        while k < i
            invariant
                i < docs@.len(),
                k <= i,
                name == docs@[i as int].name,
                forall|l: int| 0 <= l < k ==> (#[trigger] docs@[l]).name@ != name@,
            decreases i - k,
        {
            if docs[k].name == *name {
                return Err(BackupError::Validation { path: name.clone() });
            }
            k = k + 1;
        }
        i = i + 1;
    }
    Ok(())
}

/// Zips the documents, in order, each under its own name, deflate-compressed.
pub fn build_archive(docs: &Vec<Document>) -> (r: Result<Vec<u8>, BackupError>)
    ensures
        r matches Err(BackupError::Validation { .. }) <==> !storable_names(docs@),
        storable_names(docs@) && storable_sizes(docs@) ==> r is Ok,
        r matches Ok(b) ==> zip_contents(b@) == Some(as_read(entries_of(docs@))) && b@.len() > 0,
        r matches Ok(b) ==> zip_methods(b@) == Seq::new(docs@.len(), |i: int| deflate_method()),
        r matches Err(e) ==> e is Io || e is Validation,
{
    check_storable_names(docs)?;
    let mut w = new_writer();
    let mut i: usize = 0;
    while i < docs.len()
        invariant
            i <= docs@.len(),
            storable_names(docs@),
            written_entries(w) == entries_of(docs@.subrange(0, i as int)),
            written_methods(w) == Seq::new(i as nat, |k: int| deflate_method()),
            storable_sizes(docs@) ==> last_fits(written_entries(w), 0),
        decreases docs@.len() - i,
    {
        let d = &docs[i];
        let ghost before = written_entries(w);
        proof {
            if has_name(before, d.name@) {
                let k = choose|k: int| 0 <= k < before.len() && (#[trigger] before[k]).0 == d.name@;
                assert(before[k] == docs@[k]@);
            }
        }
        if start_entry(&mut w, d.name.as_str()).is_err() {
            return Err(BackupError::Io { path: d.name.clone() });
        }
        proof {
            if storable_sizes(docs@) {
                assert(docs@[i as int].content@.len() <= entry_size_limit());
            }
        }
        if write_entry(&mut w, d.content.as_slice()).is_err() {
            return Err(BackupError::Io { path: d.name.clone() });
        }
        proof {
            assert(Seq::<u8>::empty() + d.content@ =~= d.content@);
            assert(entries_of(docs@.subrange(0, i + 1)) =~= entries_of(docs@.subrange(0, i as int)).push(d@));
            assert(written_methods(w) =~= Seq::new((i + 1) as nat, |k: int| deflate_method()));
            if d.content@.len() == 0 {
                assert(written_entries(w) =~= entries_of(docs@.subrange(0, i + 1)));
            }
        }
        i = i + 1;
    }
    assert(docs@.subrange(0, i as int) =~= docs@);
    match finish_writer(w) {
        Ok(b) => Ok(b),
        Err(_) => Err(BackupError::Io { path: String::new() }),
    }
}

/// A backup, read back for restoring, yields the documents it was made of,
/// under their own names.
pub proof fn backup_restores_documents(docs: Seq<Document>)
    requires
        storable_names(docs),
    ensures
        restorable_names(as_read(entries_of(docs))),
        all_readable(as_read(entries_of(docs))),
        unpacked(as_read(entries_of(docs))) == entries_of(docs),
{
    let es = as_read(entries_of(docs));
    assert forall|i: int| 0 <= i < es.len() implies flat_text(bare_name(#[trigger] es[i].0)) by {
        lemma_plain_is_bare(docs[i].name@);
    }
    assert forall|i: int| 0 <= i < es.len() implies unpacked(es)[i] == entries_of(docs)[i] by {
        lemma_plain_is_bare(docs[i].name@);
    }
    assert(unpacked(es) =~= entries_of(docs));
}

/// Whether `name` is one of the recognized documents.
pub fn is_recognized_entry(name: &str) -> (r: bool)
    ensures
        r == recognized_name(name@),
{
    proof {
        reveal_strlit("courses.json");
        reveal_strlit("students.json");
        reveal_strlit("enrollments.json");
    }
    let n = String::from_str(name);
    let r = n == String::from_str("courses.json") || n == String::from_str("students.json") || n
        == String::from_str("enrollments.json");
    assert("courses.json"@ =~= document_name(seq!['c', 'o', 'u', 'r', 's', 'e', 's']));
    assert("students.json"@ =~= document_name(seq!['s', 't', 'u', 'd', 'e', 'n', 't', 's']));
    assert("enrollments.json"@ =~= document_name(
        seq!['e', 'n', 'r', 'o', 'l', 'l', 'm', 'e', 'n', 't', 's'],
    ));
    r
}

/// Whether any of the entry names is a recognized document.
pub fn recognized_entries(names: &Vec<String>) -> (r: bool)
    ensures
        r == exists|i: int| 0 <= i < names@.len() && recognized_name(#[trigger] names@[i]@),
{
    let mut i: usize = 0;
    while i < names.len()
        invariant
            i <= names@.len(),
            forall|j: int| 0 <= j < i ==> !recognized_name(#[trigger] names@[j]@),
        decreases names@.len() - i,
    {
        if is_recognized_entry(names[i].as_str()) {
            return true;
        }
        i = i + 1;
    }
    false
}

/// Checks an archive offered for import: it must be a zip archive that
/// holds at least one recognized document. `source` names it in errors.
pub fn check_import(bytes: Vec<u8>, source: &str) -> (r: Result<(), BackupError>)
    ensures
        r is Ok <==> (zip_contents(bytes@) matches Some(es) && holds_recognized(es)),
        zip_contents(bytes@) is None ==> r matches Err(BackupError::ArchiveFormat { .. }),
        zip_contents(bytes@) is Some ==> (r is Ok || r matches Err(BackupError::Validation { .. })),
        r matches Err(e) ==> e.subject() == source@,
{
    let ghost parsed = zip_contents(bytes@);
    let a = match open_archive(bytes) {
        Ok(a) => a,
        Err(_) => return Err(BackupError::ArchiveFormat { path: String::from_str(source) }),
    };
    let n = entry_count(&a);
    let mut i: usize = 0;
    while i < n
        invariant
            n == archive_entries(a).len(),
            parsed == Some(archive_entries(a)),
            parsed == zip_contents(bytes@),
            i <= n,
            forall|j: int| 0 <= j < i ==> !recognized_name(#[trigger] archive_entries(a)[j].0),
        decreases n - i,
    {
        match entry_name(&a, i) {
            Some(name) => {
                if is_recognized_entry(name.as_str()) {
                    assert(recognized_name(archive_entries(a)[i as int].0));
                    return Ok(());
                }
            },
            None => {},
        }
        i = i + 1;
    }
    Err(BackupError::Validation { path: String::from_str(source) })
}

/// Reads every entry of an archive, in order, for restoring into the data
/// root: each under its bare name, the last component of its path, which
/// must denote a file directly inside that root. `source` names the archive
/// in format errors.
pub fn extract_documents(bytes: Vec<u8>, source: &str) -> (r: Result<Vec<Document>, BackupError>)
    ensures
        r is Ok <==> (zip_contents(bytes@) is Some && restorable_names(zip_contents(bytes@)->0) && all_readable(
            zip_contents(bytes@)->0,
        )),
        r matches Ok(docs) ==> zip_contents(bytes@) is Some && entries_of(docs@) == unpacked(
            zip_contents(bytes@)->0,
        ),
        r matches Err(BackupError::Validation { .. }) <==> (zip_contents(bytes@) is Some && !restorable_names(
            zip_contents(bytes@)->0,
        )),
        r matches Err(e) ==> e is ArchiveFormat || e is Validation,
{
    let ghost parsed = zip_contents(bytes@);
    let mut a = match open_archive(bytes) {
        Ok(a) => a,
        Err(_) => return Err(BackupError::ArchiveFormat { path: String::from_str(source) }),
    };
    let n = entry_count(&a);
    let mut names: Vec<String> = Vec::new();
    let mut i: usize = 0;
    while i < n
        invariant
            n == archive_entries(a).len(),
            parsed == Some(archive_entries(a)),
            parsed == zip_contents(bytes@),
            i <= n,
            names@.len() == i,
            forall|j: int| 0 <= j < i ==> #[trigger] names@[j]@ == bare_name(archive_entries(a)[j].0),
            forall|j: int| 0 <= j < i ==> flat_text(bare_name(#[trigger] archive_entries(a)[j].0)),
        decreases n - i,
    {
        let full = match entry_name(&a, i) {
            Some(full) => full,
            None => return Err(BackupError::ArchiveFormat { path: String::from_str(source) }),
        };
        let name = bare_entry_name(full.as_str());
        if !is_flat_name(name.as_str()) {
            return Err(BackupError::Validation { path: full });
        }
        names.push(name);
        i = i + 1;
    }
    let mut docs: Vec<Document> = Vec::new();
    let mut k: usize = 0;
    while k < n
        invariant
            n == archive_entries(a).len(),
            parsed == Some(archive_entries(a)),
            parsed == zip_contents(bytes@),
            k <= n,
            names@.len() == n,
            forall|j: int| 0 <= j < n ==> #[trigger] names@[j]@ == bare_name(archive_entries(a)[j].0),
            forall|j: int| 0 <= j < n ==> flat_text(bare_name(#[trigger] archive_entries(a)[j].0)),
            forall|j: int| 0 <= j < k ==> (#[trigger] archive_entries(a)[j]).1 is Some,
            docs@.len() == k,
            forall|j: int| 0 <= j < k ==> #[trigger] docs@[j]@ == unpacked(archive_entries(a))[j],
        decreases n - k,
    {
        let content = match entry_bytes(&mut a, k) {
            Ok(c) => c,
            Err(_) => return Err(BackupError::ArchiveFormat { path: String::from_str(source) }),
        };
        docs.push(Document { name: names[k].clone(), content });
        k = k + 1;
    }
    assert(entries_of(docs@) =~= unpacked(archive_entries(a)));
    Ok(docs)
}

/// A new backup of the documents of the data root, made at `stamp`: its
/// file name in the backups root and its bytes. A label that would take the
/// file name out of the backups root, or documents whose names cannot be
/// stored together, are a validation error.
pub fn create_backup(label: &str, stamp: &str, docs: &Vec<Document>) -> (r: Result<(String, Vec<u8>), BackupError>)
    ensures
        r matches Err(BackupError::Validation { .. }) <==> (!flat_text(archive_name(label@, stamp@, false))
            || !storable_names(docs@)),
        flat_text(archive_name(label@, stamp@, false)) && storable_names(docs@) && storable_sizes(docs@) ==> r is Ok,
        r matches Ok(out) ==> out.0@ == archive_name(label@, stamp@, false) && zip_contents(out.1@) == Some(
            as_read(entries_of(docs@)),
        ) && out.1@.len() > 0,
        r matches Ok(out) ==> zip_methods(out.1@) == Seq::new(docs@.len(), |i: int| deflate_method()),
        r matches Err(e) ==> e is Io || e is Validation,
{
    let name = archive_file_name(label, stamp, false);
    if !is_flat_name(name.as_str()) {
        return Err(BackupError::Validation { path: name });
    }
    let bytes = build_archive(docs)?;
    Ok((name, bytes))
}

/// Admits an archive from outside, read from `source` at `stamp`: the file
/// name under which it joins the backups root, once it proves to be a zip
/// archive that holds a recognized document. A label that would take the
/// file name out of the backups root is a validation error.
pub fn import_backup(bytes: Vec<u8>, source: &str, label: &str, stamp: &str) -> (r: Result<String, BackupError>)
    ensures
        r is Ok <==> (zip_contents(bytes@) matches Some(es) && holds_recognized(es) && flat_text(
            archive_name(label@, stamp@, true),
        )),
        r matches Ok(name) ==> name@ == archive_name(label@, stamp@, true),
        zip_contents(bytes@) is None ==> r matches Err(BackupError::ArchiveFormat { .. }),
        zip_contents(bytes@) is Some ==> (r is Ok || r matches Err(BackupError::Validation { .. })),
        r matches Err(e) ==> e.subject() == if zip_contents(bytes@) is Some && holds_recognized(
            zip_contents(bytes@)->0,
        ) {
            archive_name(label@, stamp@, true)
        } else {
            source@
        },
{
    check_import(bytes, source)?;
    let name = archive_file_name(label, stamp, true);
    if !is_flat_name(name.as_str()) {
        return Err(BackupError::Validation { path: name });
    }
    Ok(name)
}

} // verus!
