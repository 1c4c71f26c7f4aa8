use vstd::prelude::*;

use crate::error::BackupError;

verus! {

/// Characters that would let a name reach outside the directory that holds it.
pub open spec fn is_separator(c: char) -> bool {
    c == '/' || c == '\\' || c == '\0'
}

/// A name free of path separators.
pub open spec fn plain_text(s: Seq<char>) -> bool {
    forall|i: int| 0 <= i < s.len() ==> !is_separator(#[trigger] s[i])
}

/// A name that denotes a file directly inside its directory.
pub open spec fn flat_text(s: Seq<char>) -> bool {
    s.len() > 0 && plain_text(s) && s != seq!['.'] && s != seq!['.', '.']
}

/// The characters that separate the directories of a path inside an archive.
pub open spec fn is_path_separator(c: char) -> bool {
    c == '/' || c == '\\'
}

/// The last component of a path: what follows its last separator.
pub open spec fn bare_name(s: Seq<char>) -> Seq<char>
    decreases s.len(),
{
    if s.len() == 0 {
        s
    } else if is_path_separator(s.last()) {
        Seq::empty()
    } else {
        bare_name(s.drop_last()).push(s.last())
    }
}

/// Past the last separator, at `k`, the rest of the path is its bare name.
pub proof fn lemma_bare_name(s: Seq<char>, k: int)
    requires
        0 <= k <= s.len(),
        k > 0 ==> is_path_separator(s[k - 1]),
        forall|j: int| k <= j < s.len() ==> !is_path_separator(#[trigger] s[j]),
    ensures
        bare_name(s) == s.subrange(k, s.len() as int),
    decreases s.len(),
{
    if s.len() == k {
        if k > 0 {
            assert(s.last() == s[k - 1]);
        }
        assert(s.subrange(k, k) =~= Seq::<char>::empty());
    } else {
        let init = s.drop_last();
        assert(!is_path_separator(s[s.len() - 1]));
        assert forall|j: int| k <= j < init.len() implies !is_path_separator(#[trigger] init[j]) by {
            assert(init[j] == s[j]);
        }
        if k > 0 {
            assert(init[k - 1] == s[k - 1]);
        }
        lemma_bare_name(init, k);
        assert(s.subrange(k, s.len() as int) =~= init.subrange(k, init.len() as int).push(s.last()));
    }
}

/// A name without separators is its own bare name.
pub proof fn lemma_plain_is_bare(s: Seq<char>)
    requires
        plain_text(s),
    ensures
        bare_name(s) == s,
{
    assert forall|j: int| 0 <= j < s.len() implies !is_path_separator(#[trigger] s[j]) by {
        assert(!is_separator(s[j]));
    }
    lemma_bare_name(s, 0);
    assert(s.subrange(0, s.len() as int) =~= s);
}

/// The last component of an entry's path, the name under which it is restored.
pub fn bare_entry_name(name: &str) -> (r: String)
    ensures
        r@ == bare_name(name@),
{
    let n = name.unicode_len();
    let mut k: usize = n;
    let mut found = false;
    while k > 0 && !found
        invariant
            n == name@.len(),
            k <= n,
            found ==> k > 0 && is_path_separator(name@[k - 1]),
            forall|j: int| k <= j < n ==> !is_path_separator(#[trigger] name@[j]),
        decreases k + (if found { 0int } else { 1int }),
    {
        let c = name.get_char(k - 1);
        if c == '/' || c == '\\' {
            found = true;
        } else {
            k = k - 1;
        }
    }
    proof {
        lemma_bare_name(name@, k as int);
    }
    String::from_str(name.substring_char(k, n))
}

pub open spec fn json_suffix() -> Seq<char> {
    seq!['.', 'j', 's', 'o', 'n']
}

pub open spec fn zip_suffix() -> Seq<char> {
    seq!['.', 'z', 'i', 'p']
}

/// The file that holds the document stored under `key`.
pub open spec fn document_name(key: Seq<char>) -> Seq<char> {
    key + json_suffix()
}

/// A name whose extension is `zip`: a non-empty stem, then `.zip`.
pub open spec fn zip_named(s: Seq<char>) -> bool {
    s.len() > 4 && s.subrange(s.len() - 4, s.len() as int) == zip_suffix()
}

pub open spec fn backup_word() -> Seq<char> {
    seq!['백', '업']
}

pub open spec fn import_word() -> Seq<char> {
    seq!['외', '부']
}

/// The file name of an archive made at `stamp`, marked as imported or not,
/// and prefixed by `label` when that is not empty.
pub open spec fn archive_name(label: Seq<char>, stamp: Seq<char>, imported: bool) -> Seq<char> {
    let kind = if imported {
        backup_word() + seq!['_'] + import_word()
    } else {
        backup_word()
    };
    let tail = kind + seq!['_'] + stamp + zip_suffix();
    if label.len() == 0 {
        tail
    } else {
        label + seq!['_'] + tail
    }
}

pub open spec fn child_path(dir: Seq<char>, name: Seq<char>) -> Seq<char> {
    dir + seq!['/'] + name
}

/// Every archive name carries the `zip` extension.
pub proof fn lemma_archive_name_is_zip(label: Seq<char>, stamp: Seq<char>, imported: bool)
    ensures
        zip_named(archive_name(label, stamp, imported)),
{
    let n = archive_name(label, stamp, imported);
    let kind = if imported {
        backup_word() + seq!['_'] + import_word()
    } else {
        backup_word()
    };
    let head = if label.len() == 0 {
        kind + seq!['_'] + stamp
    } else {
        label + seq!['_'] + (kind + seq!['_'] + stamp)
    };
    assert(n =~= head + zip_suffix());
    assert(n.subrange(n.len() - 4, n.len() as int) =~= zip_suffix());
}

/// Whether `key` may name a document: it must not leave the data root.
pub fn is_plain_key(key: &str) -> (r: bool)
    ensures
        r == plain_text(key@),
{
    let n = key.unicode_len();
    let mut i: usize = 0;
    while i < n
        invariant
            n == key@.len(),
            i <= n,
            forall|j: int| 0 <= j < i ==> !is_separator(#[trigger] key@[j]),
        decreases n - i,
    {
        let c = key.get_char(i);
        if c == '/' || c == '\\' || c == '\0' {
            return false;
        }
        i = i + 1;
    }
    true
}

/// Whether `name` denotes a file directly inside a directory.
pub fn is_flat_name(name: &str) -> (r: bool)
    ensures
        r == flat_text(name@),
{
    let n = name.unicode_len();
    if n == 0 || !is_plain_key(name) {
        return false;
    }
    let first = name.get_char(0);
    if n == 1 && first == '.' {
        assert(name@ =~= seq!['.']);
        return false;
    }
    if n == 2 && first == '.' && name.get_char(1) == '.' {
        assert(name@ =~= seq!['.', '.']);
        return false;
    }
    proof {
        if name@ == seq!['.'] {
            assert(name@[0] == '.');
        }
        if name@ == seq!['.', '.'] {
            assert(name@[0] == '.' && name@[1] == '.');
        }
    }
    true
}

/// The file name of the document stored under `key`, or a validation error
/// where the key would reach outside the data root.
pub fn document_file_name(key: &str) -> (r: Result<String, BackupError>)
    ensures
        r is Ok <==> plain_text(key@),
        r matches Ok(name) ==> name@ == document_name(key@),
        r matches Err(e) ==> e matches BackupError::Validation { path } && path@ == key@,
{
    if !is_plain_key(key) {
        return Err(BackupError::Validation { path: String::from_str(key) });
    }
    let mut name = String::from_str(key);
    name.append(".json");
    proof {
        reveal_strlit(".json");
    }
    Ok(name)
}

/// Whether a file name carries the `zip` extension.
pub fn has_zip_extension(name: &str) -> (r: bool)
    ensures
        r == zip_named(name@),
{
    let n = name.unicode_len();
    if n <= 4 {
        return false;
    }
    let ok = name.get_char(n - 4) == '.' && name.get_char(n - 3) == 'z'
        && name.get_char(n - 2) == 'i' && name.get_char(n - 1) == 'p';
    proof {
        let tail = name@.subrange(n - 4, n as int);
        if ok {
            assert(tail =~= zip_suffix());
        }
        if tail == zip_suffix() {
            assert(tail[0] == '.' && tail[1] == 'z' && tail[2] == 'i' && tail[3] == 'p');
        }
    }
    ok
}

/// The file name of a new archive: `[<label>_]백업_<stamp>.zip`, or
/// `[<label>_]백업_외부_<stamp>.zip` for one brought in from outside.
pub fn archive_file_name(label: &str, stamp: &str, imported: bool) -> (r: String)
    ensures
        r@ == archive_name(label@, stamp@, imported),
{
    proof {
        reveal_strlit("백업");
        reveal_strlit("외부");
        reveal_strlit("_");
        reveal_strlit(".zip");
    }
    let mut name = String::new();
    if label.unicode_len() > 0 {
        name.append(label);
        name.append("_");
    }
    name.append("백업");
    if imported {
        name.append("_");
        name.append("외부");
    }
    name.append("_");
    name.append(stamp);
    name.append(".zip");
    proof {
        let kind = if imported {
            backup_word() + seq!['_'] + import_word()
        } else {
            backup_word()
        };
        let tail = kind + seq!['_'] + stamp@ + zip_suffix();
        if label@.len() == 0 {
            assert(name@ =~= tail);
        } else {
            assert(name@ =~= label@ + seq!['_'] + tail);
        }
    }
    name
}

/// The two directories under a base path: documents live in `data`,
/// archives in `backups`.
pub struct StorageRoots {
    pub data: String,
    pub backups: String,
}

impl StorageRoots {
    /// The roots under `base`; creating the directories is the caller's part.
    pub fn under(base: &str) -> (r: StorageRoots)
        ensures
            r.data@ == child_path(base@, seq!['d', 'a', 't', 'a']),
            r.backups@ == child_path(base@, seq!['b', 'a', 'c', 'k', 'u', 'p', 's']),
    {
        proof {
            reveal_strlit("/data");
            reveal_strlit("/backups");
        }
        let mut data = String::from_str(base);
        data.append("/data");
        let mut backups = String::from_str(base);
        backups.append("/backups");
        assert(data@ =~= child_path(base@, seq!['d', 'a', 't', 'a']));
        assert(backups@ =~= child_path(base@, seq!['b', 'a', 'c', 'k', 'u', 'p', 's']));
        StorageRoots { data, backups }
    }

    /// The path of the document stored under `key`.
    pub fn document_path(&self, key: &str) -> (r: Result<String, BackupError>)
        ensures
            r is Ok <==> plain_text(key@),
            r matches Ok(p) ==> p@ == child_path(self.data@, document_name(key@)),
            r matches Err(e) ==> e matches BackupError::Validation { path } && path@ == key@,
    {
        let name = document_file_name(key)?;
        Ok(join(&self.data, &name))
    }

    /// The path of an archive in the backups root; a name that does not
    /// denote a file directly inside it is not found there.
    pub fn archive_path(&self, filename: &str) -> (r: Result<String, BackupError>)
        ensures
            r is Ok <==> flat_text(filename@),
            r matches Ok(p) ==> p@ == child_path(self.backups@, filename@),
            r matches Err(e) ==> e matches BackupError::NotFound { path } && path@ == filename@,
    {
        locate_archive(self, filename)
    }
}

fn join(dir: &String, name: &str) -> (r: String)
    ensures
        r@ == child_path(dir@, name@),
{
    proof {
        reveal_strlit("/");
    }
    let mut p = dir.clone();
    p.append("/");
    p.append(name);
    p
}

/// `NotFound` for an archive that the backups root does not hold.
pub fn require_present(filename: &str, present: bool) -> (r: Result<(), BackupError>)
    ensures
        r is Ok <==> present,
        r matches Err(e) ==> e matches BackupError::NotFound { path } && path@ == filename@,
{
    if present {
        Ok(())
    } else {
        Err(BackupError::NotFound { path: String::from_str(filename) })
    }
}

/// The path of the archive `filename` under the backups root, or `NotFound`
/// where the name cannot denote a file there.
pub fn locate_archive(roots: &StorageRoots, filename: &str) -> (r: Result<String, BackupError>)
    ensures
        r is Ok <==> flat_text(filename@),
        r matches Ok(p) ==> p@ == child_path(roots.backups@, filename@),
        r matches Err(e) ==> e matches BackupError::NotFound { path } && path@ == filename@,
{
    if !is_flat_name(filename) {
        return Err(BackupError::NotFound { path: String::from_str(filename) });
    }
    Ok(join(&roots.backups, filename))
}

} // verus!
