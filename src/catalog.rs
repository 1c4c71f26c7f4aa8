use vstd::prelude::*;

use crate::naming::{archive_name, has_zip_extension, lemma_archive_name_is_zip, zip_named};

verus! {

/// A directory entry of the backups root, as the caller read it: its name,
/// whether it is a regular file, its size in bytes, its modification time in
/// nanoseconds since the epoch, and that time as display text.
pub struct DirEntry {
    pub name: String,
    pub is_file: bool,
    pub size: u64,
    pub modified: i64,
    pub created_at: String,
}

/// An archive of the catalog.
pub struct BackupInfo {
    pub filename: String,
    pub size: u64,
    pub modified: i64,
    pub created_at: String,
}

impl View for DirEntry {
    type V = (Seq<char>, bool, u64, i64, Seq<char>);

    open spec fn view(&self) -> (Seq<char>, bool, u64, i64, Seq<char>) {
        (self.name@, self.is_file, self.size, self.modified, self.created_at@)
    }
}

impl View for BackupInfo {
    type V = (Seq<char>, u64, i64, Seq<char>);

    open spec fn view(&self) -> (Seq<char>, u64, i64, Seq<char>) {
        (self.filename@, self.size, self.modified, self.created_at@)
    }
}

/// The catalog keeps the regular files with the `zip` extension.
pub open spec fn is_listed(e: (Seq<char>, bool, u64, i64, Seq<char>)) -> bool {
    e.1 && zip_named(e.0)
}

pub open spec fn info_of(e: (Seq<char>, bool, u64, i64, Seq<char>)) -> (Seq<char>, u64, i64, Seq<char>) {
    (e.0, e.2, e.3, e.4)
}

/// Whether the catalog lists a directory entry of this name and kind.
pub fn is_catalog_candidate(name: &str, is_file: bool) -> (r: bool)
    ensures
        r == (is_file && zip_named(name@)),
{
    is_file && has_zip_extension(name)
}

/// The archives among the entries, in the order of the entries.
pub open spec fn listed(es: Seq<(Seq<char>, bool, u64, i64, Seq<char>)>) -> Seq<(Seq<char>, u64, i64, Seq<char>)>
    decreases es.len(),
{
    if es.len() == 0 {
        Seq::empty()
    } else {
        let rest = listed(es.drop_last());
        if is_listed(es.last()) {
            rest.push(info_of(es.last()))
        } else {
            rest
        }
    }
}

pub open spec fn entry_views(es: Seq<DirEntry>) -> Seq<(Seq<char>, bool, u64, i64, Seq<char>)> {
    es.map_values(|e: DirEntry| e@)
}

pub open spec fn info_views(s: Seq<BackupInfo>) -> Seq<(Seq<char>, u64, i64, Seq<char>)> {
    s.map_values(|b: BackupInfo| b@)
}

/// Newest first: modification times never increase along the sequence.
pub open spec fn newest_first(s: Seq<(Seq<char>, u64, i64, Seq<char>)>) -> bool {
    forall|i: int, j: int| 0 <= i < j < s.len() ==> s[i].2 >= s[j].2
}

/// The catalog of the backups root: its regular `.zip` files, newest first.
/// Archives of the same time keep the order of the entries.
pub fn catalog(entries: &Vec<DirEntry>) -> (r: Vec<BackupInfo>)
    ensures
        info_views(r@).to_multiset() == listed(entry_views(entries@)).to_multiset(),
        newest_first(info_views(r@)),
        forall|i: int| 0 <= i < r@.len() ==> zip_named(#[trigger] r@[i].filename@),
{
    let mut out: Vec<BackupInfo> = Vec::new();
    let mut i: usize = 0;
    assert(info_views(out@) =~= Seq::empty());
    assert(entry_views(entries@.subrange(0, 0)) =~= Seq::empty());
    while i < entries.len()
        invariant
            i <= entries@.len(),
            info_views(out@).to_multiset() == listed(entry_views(entries@.subrange(0, i as int))).to_multiset(),
            newest_first(info_views(out@)),
            forall|k: int| 0 <= k < out@.len() ==> zip_named(#[trigger] out@[k].filename@),
        decreases entries@.len() - i,
    {
        let e = &entries[i];
        let ghost before = entry_views(entries@.subrange(0, i as int));
        proof {
            assert(entry_views(entries@.subrange(0, i + 1)).drop_last() =~= before);
            assert(entry_views(entries@.subrange(0, i + 1)).last() == e@);
        }
        if is_catalog_candidate(e.name.as_str(), e.is_file) {
            let m = e.modified;
            let mut p: usize = 0;
            while p < out.len() && out[p].modified >= m
                invariant
                    p <= out@.len(),
                    forall|k: int| 0 <= k < p ==> #[trigger] out@[k].modified >= m,
                decreases out@.len() - p,
            {
                p = p + 1;
            }
            let info = BackupInfo {
                filename: e.name.clone(),
                size: e.size,
                modified: m,
                created_at: e.created_at.clone(),
            };
            let ghost old_views = info_views(out@);
            out.insert(p, info);
            proof {
                assert(info_views(out@) =~= old_views.insert(p as int, info_of(e@)));
                vstd::seq_lib::to_multiset_insert(old_views, p as int, info_of(e@));
                vstd::seq_lib::to_multiset_build(listed(before), info_of(e@));
                let nv = info_views(out@);
                assert forall|a: int, b: int| 0 <= a < b < nv.len() implies nv[a].2 >= nv[b].2 by {
                    if p < old_views.len() {
                        assert(old_views[p as int].2 < m);
                    }
                }
            }
        }
        i = i + 1;
    }
    assert(entries@.subrange(0, i as int) =~= entries@);
    out
}

/// The entries left once every entry named `name` is gone.
pub open spec fn without_name(es: Seq<(Seq<char>, bool, u64, i64, Seq<char>)>, name: Seq<char>) -> Seq<
    (Seq<char>, bool, u64, i64, Seq<char>),
>
    decreases es.len(),
{
    if es.len() == 0 {
        Seq::empty()
    } else {
        let rest = without_name(es.drop_last(), name);
        if es.last().0 == name {
            rest
        } else {
            rest.push(es.last())
        }
    }
}

proof fn lemma_listed_keeps_names(es: Seq<(Seq<char>, bool, u64, i64, Seq<char>)>, name: Seq<char>)
    requires
        forall|i: int| 0 <= i < es.len() ==> (#[trigger] es[i]).0 != name,
    ensures
        forall|i: int| 0 <= i < listed(es).len() ==> (#[trigger] listed(es)[i]).0 != name,
    decreases es.len(),
{
    if es.len() > 0 {
        let init = es.drop_last();
        assert forall|i: int| 0 <= i < init.len() implies (#[trigger] init[i]).0 != name by {
            assert(init[i] == es[i]);
        }
        lemma_listed_keeps_names(init, name);
        assert(es.last() == es[es.len() - 1]);
        let rest = listed(init);
        assert forall|i: int| 0 <= i < listed(es).len() implies (#[trigger] listed(es)[i]).0 != name by {
            if i < rest.len() {
                assert(listed(es)[i] == rest[i]);
            }
        }
    }
}

proof fn lemma_without_name(es: Seq<(Seq<char>, bool, u64, i64, Seq<char>)>, name: Seq<char>)
    ensures
        forall|i: int|
            0 <= i < without_name(es, name).len() ==> (#[trigger] without_name(es, name)[i]).0 != name,
    decreases es.len(),
{
    if es.len() > 0 {
        lemma_without_name(es.drop_last(), name);
        let rest = without_name(es.drop_last(), name);
        let all = without_name(es, name);
        assert forall|i: int| 0 <= i < all.len() implies (#[trigger] all[i]).0 != name by {
            if i < rest.len() {
                assert(all[i] == rest[i]);
            }
        }
    }
}

/// Once the archive `name` is deleted, the catalog no longer lists it.
pub proof fn catalog_after_delete(es: Seq<(Seq<char>, bool, u64, i64, Seq<char>)>, name: Seq<char>)
    ensures
        forall|i: int|
            0 <= i < listed(without_name(es, name)).len() ==> (#[trigger] listed(
                without_name(es, name),
            )[i]).0 != name,
{
    lemma_without_name(es, name);
    lemma_listed_keeps_names(without_name(es, name), name);
}

/// A backup written under a name that the backups root did not hold adds
/// exactly one archive to the catalog: itself, under a `.zip` name.
pub proof fn catalog_after_backup(
    es: Seq<(Seq<char>, bool, u64, i64, Seq<char>)>,
    label: Seq<char>,
    stamp: Seq<char>,
    size: u64,
    modified: i64,
    created_at: Seq<char>,
)
    requires
        forall|i: int| 0 <= i < es.len() ==> (#[trigger] es[i]).0 != archive_name(label, stamp, false),
    ensures
        ({
            let e = (archive_name(label, stamp, false), true, size, modified, created_at);
            &&& listed(es.push(e)).len() == listed(es).len() + 1
            &&& listed(es.push(e)) == listed(es).push(info_of(e))
            &&& zip_named(listed(es.push(e)).last().0)
            &&& forall|i: int| 0 <= i < listed(es).len() ==> (#[trigger] listed(es)[i]).0 != e.0
        }),
{
    let e = (archive_name(label, stamp, false), true, size, modified, created_at);
    lemma_archive_name_is_zip(label, stamp, false);
    assert(es.push(e).drop_last() =~= es);
    lemma_listed_keeps_names(es, e.0);
}

/// Taking entry `i` out of a listing takes its archive, if any, out of the
/// catalog.
proof fn lemma_listed_remove(s: Seq<(Seq<char>, bool, u64, i64, Seq<char>)>, i: int)
    requires
        0 <= i < s.len(),
    ensures
        listed(s).to_multiset() == if is_listed(s[i]) {
            listed(s.remove(i)).to_multiset().insert(info_of(s[i]))
        } else {
            listed(s.remove(i)).to_multiset()
        },
    decreases s.len(),
{
    broadcast use vstd::seq_lib::group_to_multiset_ensures, vstd::multiset::group_multiset_axioms;

    let init = s.drop_last();
    if i == s.len() - 1 {
        assert(s.remove(i) =~= init);
        assert(s.last() == s[i]);
    } else {
        let l = s.last();
        assert(s.remove(i).drop_last() =~= init.remove(i));
        assert(s.remove(i).last() == l);
        assert(init[i] == s[i]);
        lemma_listed_remove(init, i);
        if is_listed(l) {
            assert(listed(s) == listed(init).push(info_of(l)));
            assert(listed(s.remove(i)) == listed(init.remove(i)).push(info_of(l)));
            if is_listed(s[i]) {
                assert(listed(init.remove(i)).to_multiset().insert(info_of(s[i])).insert(info_of(l))
                    =~= listed(init.remove(i)).to_multiset().insert(info_of(l)).insert(info_of(s[i])));
            }
        }
    }
}

/// The catalog does not depend on the order in which the directory lists
/// its entries.
pub proof fn lemma_listed_permutation(
    a: Seq<(Seq<char>, bool, u64, i64, Seq<char>)>,
    b: Seq<(Seq<char>, bool, u64, i64, Seq<char>)>,
)
    requires
        a.to_multiset() == b.to_multiset(),
    ensures
        listed(a).to_multiset() == listed(b).to_multiset(),
    decreases a.len(),
{
    broadcast use vstd::seq_lib::group_to_multiset_ensures, vstd::multiset::group_multiset_axioms;

    if a.len() == 0 {
        assert(a.to_multiset().len() == 0);
        assert(b.to_multiset().len() == b.len());
        assert(b.len() == 0);
        assert(a =~= b);
    } else {
        let x = a.last();
        let init = a.drop_last();
        assert(init.push(x) =~= a);
        assert(a.to_multiset().count(x) > 0);
        assert(b.contains(x));
        let idx = choose|idx: int| 0 <= idx < b.len() && b[idx] == x;
        let rest = b.remove(idx);
        assert(rest.to_multiset() =~= init.to_multiset());
        lemma_listed_permutation(init, rest);
        lemma_listed_remove(b, idx);
    }
}

/// However the directory orders its entries, a backup written under a name
/// that the backups root did not hold adds exactly that archive to the
/// catalog.
pub proof fn catalog_after_backup_any_order(
    before: Seq<(Seq<char>, bool, u64, i64, Seq<char>)>,
    after: Seq<(Seq<char>, bool, u64, i64, Seq<char>)>,
    label: Seq<char>,
    stamp: Seq<char>,
    size: u64,
    modified: i64,
    created_at: Seq<char>,
)
    requires
        forall|i: int| 0 <= i < before.len() ==> (#[trigger] before[i]).0 != archive_name(label, stamp, false),
        after.to_multiset() == before.push((archive_name(label, stamp, false), true, size, modified, created_at)).to_multiset(),
    ensures
        ({
            let e = (archive_name(label, stamp, false), true, size, modified, created_at);
            &&& listed(after).to_multiset() == listed(before).to_multiset().insert(info_of(e))
            &&& listed(after).len() == listed(before).len() + 1
            &&& listed(before).to_multiset().count(info_of(e)) == 0
        }),
{
    broadcast use vstd::seq_lib::group_to_multiset_ensures, vstd::multiset::group_multiset_axioms;

    let e = (archive_name(label, stamp, false), true, size, modified, created_at);
    catalog_after_backup(before, label, stamp, size, modified, created_at);
    lemma_listed_permutation(after, before.push(e));
    if listed(before).contains(info_of(e)) {
        let k = choose|k: int| 0 <= k < listed(before).len() && listed(before)[k] == info_of(e);
        assert(listed(before)[k].0 == e.0);
    }
    assert(listed(before).to_multiset().count(info_of(e)) == 0);
    assert(listed(after).to_multiset() == listed(before.push(e)).to_multiset());
    assert(listed(before.push(e)).to_multiset() == listed(before).push(info_of(e)).to_multiset());
    assert(listed(after).to_multiset().len() == listed(after).len());
    assert(listed(before).push(info_of(e)).to_multiset().len() == listed(before).push(info_of(e)).len());
}

/// However the directory orders its entries, once the archive `name` is
/// deleted the catalog no longer lists it.
pub proof fn catalog_after_delete_any_order(
    before: Seq<(Seq<char>, bool, u64, i64, Seq<char>)>,
    after: Seq<(Seq<char>, bool, u64, i64, Seq<char>)>,
    name: Seq<char>,
)
    requires
        after.to_multiset() == without_name(before, name).to_multiset(),
    ensures
        forall|i: int| 0 <= i < listed(after).len() ==> (#[trigger] listed(after)[i]).0 != name,
{
    broadcast use vstd::seq_lib::group_to_multiset_ensures, vstd::multiset::group_multiset_axioms;

    let kept = listed(without_name(before, name));
    catalog_after_delete(before, name);
    lemma_listed_permutation(after, without_name(before, name));
    assert forall|i: int| 0 <= i < listed(after).len() implies (#[trigger] listed(after)[i]).0 != name by {
        let x = listed(after)[i];
        assert(listed(after).contains(x));
        assert(kept.to_multiset().count(x) > 0);
        assert(kept.contains(x));
        let k = choose|k: int| 0 <= k < kept.len() && kept[k] == x;
        assert(kept[k].0 != name);
    }
}

} // verus!
