//! Per-service scan snapshots for the incremental "what's new" diff. After
//! each scan the manifest `item id -> size` is kept; the next scan compares
//! against it: an item is new when its id is absent or its size changed. The
//! first scan of a service has no manifest and badges nothing.
use vstd::prelude::*;
use crate::ipc::{ScanItem, ServiceId};
use crate::keyed::{find_key, key_get, key_put, keyed, lemma_get_after_put};
use crate::text::{push_str, string_of};

verus! {

/// The stable key a service's snapshot is stored under.
pub open spec fn service_key_of(s: ServiceId) -> Seq<char> {
    match s {
        ServiceId::Temp => "temp"@,
        ServiceId::BigFiles => "big_files"@,
        ServiceId::GitRepos => "git_repos"@,
        ServiceId::DevCache => "dev_cache"@,
        ServiceId::AppCache => "app_cache"@,
    }
}

pub fn service_key(service: ServiceId) -> (r: &'static str)
    ensures
        r@ == service_key_of(service),
{
    match service {
        ServiceId::Temp => "temp",
        ServiceId::BigFiles => "big_files",
        ServiceId::GitRepos => "git_repos",
        ServiceId::DevCache => "dev_cache",
        ServiceId::AppCache => "app_cache",
    }
}

/// The file name of a service's snapshot in the configuration directory.
pub fn manifest_file_name(service: ServiceId) -> (r: String)
    ensures
        r@ == "snapshot-"@ + service_key_of(service) + ".json"@,
{
    let mut v: Vec<char> = Vec::new();
    push_str(&mut v, "snapshot-");
    push_str(&mut v, service_key(service));
    push_str(&mut v, ".json");
    string_of(&v)
}

/// The manifest of a scan: each item's id with its size (a later item with
/// the same id overwrites an earlier one).
pub open spec fn manifest_of(items: Seq<ScanItem>) -> Seq<(Seq<char>, u64)>
    decreases items.len(),
{
    if items.len() == 0 {
        Seq::empty()
    } else {
        key_put(manifest_of(items.drop_last()), items.last().id@, items.last().size_bytes)
    }
}

/// The ids of the items that are absent from manifest `m` or recorded there
/// with another size, in order.
pub open spec fn changed_ids(m: Seq<(Seq<char>, u64)>, items: Seq<ScanItem>) -> Seq<Seq<char>>
    decreases items.len(),
{
    if items.len() == 0 {
        Seq::empty()
    } else {
        let rest = changed_ids(m, items.drop_last());
        if key_get(m, items.last().id@) != Some(items.last().size_bytes) {
            rest.push(items.last().id@)
        } else {
            rest
        }
    }
}

/// The manifest recording `items`.
pub fn manifest(items: &Vec<ScanItem>) -> (r: Vec<(String, u64)>)
    ensures
        keyed(r@) == manifest_of(items@),
{
    let mut m: Vec<(String, u64)> = Vec::new();
    assert(keyed(m@) =~= manifest_of(items@.take(0)));
    for i in 0..items.len()
        invariant
            keyed(m@) == manifest_of(items@.take(i as int)),
    {
        let ghost l = keyed(m@);
        assert(items@.take(i + 1).drop_last() =~= items@.take(i as int));
        assert(items@.take(i + 1).last() == items@[i as int]);
        let it = &items[i];
        match find_key(&m, it.id.as_str()) {
            Some(k) => {
                m.set(k, (it.id.clone(), it.size_bytes));
                assert(keyed(m@) =~= l.update(k as int, (it.id@, it.size_bytes)));
            },
            None => {
                m.push((it.id.clone(), it.size_bytes));
                assert(keyed(m@) =~= l.push((it.id@, it.size_bytes)));
            },
        }
    }
    assert(items@.take(items.len() as int) =~= items@);
    m
}

/// Diff `items` against the `previous` manifest of the service (none on its
/// first scan), and give the manifest to store in its place. Returns whether
/// this is the first scan, the ids of new or changed items (none on a first
/// scan), and the new manifest.
pub fn diff_and_record(previous: &Option<Vec<(String, u64)>>, items: &Vec<ScanItem>) -> (r: (
    bool,
    Vec<String>,
    Vec<(String, u64)>,
))
    ensures
        r.0 == previous is None,
        r.1@.map_values(|s: String| s@) == match *previous {
            None => Seq::empty(),
            Some(m) => changed_ids(keyed(m@), items@),
        },
        keyed(r.2@) == manifest_of(items@),
{
    let mut new_ids: Vec<String> = Vec::new();
    match previous {
        None => {},
        Some(m) => {
            let ghost mk = keyed(m@);
            for i in 0..items.len()
                invariant
                    mk == keyed(m@),
                    new_ids@.map_values(|s: String| s@) == changed_ids(mk, items@.take(i as int)),
            {
                let ghost before = new_ids@.map_values(|s: String| s@);
                assert(items@.take(i + 1).drop_last() =~= items@.take(i as int));
                assert(items@.take(i + 1).last() == items@[i as int]);
                let it = &items[i];
                let same = match find_key(m, it.id.as_str()) {
                    Some(k) => m[k].1 == it.size_bytes,
                    None => false,
                };
                if !same {
                    new_ids.push(it.id.clone());
                    assert(new_ids@.map_values(|s: String| s@) =~= before.push(it.id@));
                }
            }
            assert(items@.take(items.len() as int) =~= items@);
        },
    }
    (previous.is_none(), new_ids, manifest(items))
}

/// Every id of `items` is recorded in their manifest with the size of some
/// item bearing that id.
pub proof fn lemma_manifest_sizes(items: Seq<ScanItem>)
    ensures
        forall|i: int|
            0 <= i < items.len() ==> exists|j: int|
                0 <= j < items.len() && items[j].id@ == items[i].id@ && #[trigger] key_get(
                    manifest_of(items),
                    items[i].id@,
                ) == Some(items[j].size_bytes),
    decreases items.len(),
{
    if items.len() > 0 {
        let d = items.drop_last();
        let n = items.len() - 1;
        lemma_manifest_sizes(d);
        assert forall|i: int|
            0 <= i < items.len() implies exists|j: int|
                0 <= j < items.len() && items[j].id@ == items[i].id@ && #[trigger] key_get(
                    manifest_of(items),
                    items[i].id@,
                ) == Some(items[j].size_bytes) by {
            lemma_get_after_put(manifest_of(d), items[n].id@, items[n].size_bytes, items[i].id@);
            if items[i].id@ == items[n].id@ {
                assert(key_get(manifest_of(items), items[i].id@) == Some(items[n].size_bytes));
            } else {
                assert(d[i] == items[i]);
                let j = choose|j: int|
                    0 <= j < d.len() && d[j].id@ == d[i].id@ && #[trigger] key_get(manifest_of(d), d[i].id@)
                        == Some(d[j].size_bytes);
                assert(d[j] == items[j]);
            }
        }
    }
}

/// Rescanning without change badges nothing: diffing a scan against the
/// manifest recorded from that same scan finds no new item, as long as items
/// that share an id share a size.
pub proof fn law_rescan_finds_nothing_new(items: Seq<ScanItem>)
    requires
        forall|i: int, j: int|
            0 <= i < items.len() && 0 <= j < items.len() && #[trigger] items[i].id@ == #[trigger] items[j].id@
                ==> items[i].size_bytes == items[j].size_bytes,
    ensures
        changed_ids(manifest_of(items), items).len() == 0,
{
    lemma_manifest_sizes(items);
    let m = manifest_of(items);
    assert forall|i: int| 0 <= i < items.len() implies #[trigger] key_get(m, items[i].id@) == Some(
        items[i].size_bytes,
    ) by {
        let j = choose|j: int|
            0 <= j < items.len() && items[j].id@ == items[i].id@ && #[trigger] key_get(m, items[i].id@) == Some(
                items[j].size_bytes,
            );
        assert(items[j].id@ == items[i].id@);
    }
    lemma_unchanged_prefix(m, items, items.len() as int);
    assert(items.take(items.len() as int) =~= items);
}

/// An item is reported as new when the previous manifest does not record its
/// id, or records it with a size that differs from the current one, whether
/// the item grew or shrank.
pub proof fn law_resized_or_unknown_is_reported(m: Seq<(Seq<char>, u64)>, items: Seq<ScanItem>, i: int)
    requires
        0 <= i < items.len(),
    ensures
        (match key_get(m, items[i].id@) {
            None => true,
            Some(s) => s < items[i].size_bytes || s > items[i].size_bytes,
        }) ==> changed_ids(m, items).contains(items[i].id@),
    decreases items.len(),
{
    let n = items.len() - 1;
    let rest = changed_ids(m, items.drop_last());
    if key_get(m, items[i].id@) != Some(items[i].size_bytes) {
        if i == n {
            assert(changed_ids(m, items) == rest.push(items[i].id@));
            assert(changed_ids(m, items)[rest.len() as int] == items[i].id@);
        } else {
            law_resized_or_unknown_is_reported(m, items.drop_last(), i);
            assert(items.drop_last()[i] == items[i]);
            let k = choose|k: int| 0 <= k < rest.len() && rest[k] == items[i].id@;
            if key_get(m, items.last().id@) != Some(items.last().size_bytes) {
                assert(changed_ids(m, items)[k] == rest[k]);
            }
        }
    }
}

/// Every id reported as new is that of an item which the previous manifest
/// does not record, or records with another size.
pub proof fn law_reported_are_new_or_resized(m: Seq<(Seq<char>, u64)>, items: Seq<ScanItem>, k: int)
    requires
        0 <= k < changed_ids(m, items).len(),
    ensures
        exists|j: int|
            0 <= j < items.len() && #[trigger] items[j].id@ == changed_ids(m, items)[k] && (match key_get(
                m,
                items[j].id@,
            ) {
                None => true,
                Some(s) => s != items[j].size_bytes,
            }),
    decreases items.len(),
{
    let n = items.len() - 1;
    let rest = changed_ids(m, items.drop_last());
    if k < rest.len() {
        law_reported_are_new_or_resized(m, items.drop_last(), k);
        let j = choose|j: int|
            0 <= j < items.drop_last().len() && #[trigger] items.drop_last()[j].id@ == rest[k] && (match key_get(
                m,
                items.drop_last()[j].id@,
            ) {
                None => true,
                Some(s) => s != items.drop_last()[j].size_bytes,
            });
        assert(items.drop_last()[j] == items[j]);
        assert(changed_ids(m, items)[k] == rest[k]);
    } else {
        assert(items[n].id@ == changed_ids(m, items)[k]);
    }
}

proof fn lemma_unchanged_prefix(m: Seq<(Seq<char>, u64)>, items: Seq<ScanItem>, k: int)
    requires
        0 <= k <= items.len(),
        forall|i: int| 0 <= i < items.len() ==> #[trigger] key_get(m, items[i].id@) == Some(items[i].size_bytes),
    ensures
        changed_ids(m, items.take(k)).len() == 0,
    decreases k,
{
    if k > 0 {
        lemma_unchanged_prefix(m, items, k - 1);
        assert(items.take(k).drop_last() =~= items.take(k - 1));
        assert(items.take(k).last() == items[k - 1]);
        assert(key_get(m, items[k - 1].id@) == Some(items[k - 1].size_bytes));
    } else {
        assert(items.take(0).len() == 0);
    }
}

} // verus!
