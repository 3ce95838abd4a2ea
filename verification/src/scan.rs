//! Read-only scanning logic: the directory names the file walkers never
//! descend into, per-directory size totals of a walk (each file counted in
//! every ancestor up to the scan root), the largest files and directories, and
//! the mtime-validated directory-size cache.
use vstd::prelude::*;
use crate::keyed::{
    find_key, key_get, key_index, key_put, keyed, lemma_get_after_put, lemma_key_index, lemma_key_index_is,
};
use crate::paths::{eq_path, path_eq};
use crate::ranking::{rank_desc, stable_desc, top_by};
use crate::services::RawEntry;
use crate::text::{chars_of, str_eq, string_of};

verus! {

// ---------------------------------------------------------------------------
// Directories owned by dedicated services
// ---------------------------------------------------------------------------

/// Directory names owned by dedicated services (caches, build outputs, VCS
/// metadata, application folders): file-level walkers do not descend into them.
pub open spec fn is_skipped_name(n: Seq<char>) -> bool {
    ||| n == "node_modules"@
    ||| n == ".cache"@
    ||| n == "target"@
    ||| n == ".venv"@
    ||| n == ".next"@
    ||| n == ".turbo"@
    ||| n == "vendor"@
    ||| n == ".git"@
    ||| n == ".cargo"@
    ||| n == ".gradle"@
    ||| n == "Applications"@
    ||| n == "applications"@
}

/// Whether a walker skips descending into a directory with this name.
pub fn should_skip(name: &str) -> (r: bool)
    ensures
        r == is_skipped_name(name@),
{
    str_eq(name, "node_modules") || str_eq(name, ".cache") || str_eq(name, "target") || str_eq(
        name,
        ".venv",
    ) || str_eq(name, ".next") || str_eq(name, ".turbo") || str_eq(name, "vendor") || str_eq(
        name,
        ".git",
    ) || str_eq(name, ".cargo") || str_eq(name, ".gradle") || str_eq(name, "Applications")
        || str_eq(name, "applications")
}

// ---------------------------------------------------------------------------
// Parent directories
// ---------------------------------------------------------------------------

/// Position of the last `/` of `s`, or -1.
pub open spec fn last_slash(s: Seq<char>) -> int
    decreases s.len(),
{
    if s.len() == 0 {
        -1
    } else if s.last() == '/' {
        s.len() - 1
    } else {
        last_slash(s.drop_last())
    }
}

pub proof fn lemma_last_slash(s: Seq<char>)
    ensures
        -1 <= last_slash(s) < s.len(),
        last_slash(s) >= 0 ==> s[last_slash(s)] == '/',
        forall|j: int| last_slash(s) < j < s.len() ==> s[j] != '/',
    decreases s.len(),
{
    if s.len() > 0 && s.last() != '/' {
        lemma_last_slash(s.drop_last());
        assert forall|j: int| last_slash(s) < j < s.len() implies s[j] != '/' by {
            if j < s.len() - 1 {
                assert(s[j] == s.drop_last()[j]);
            }
        }
    }
}

/// The parent of a normalized path (no `.` component, no repeated or trailing
/// `/`): everything before the last `/`, `/` for a top-level entry, the empty
/// path for a single relative name, and none for `/` or the empty path.
pub open spec fn parent(s: Seq<char>) -> Option<Seq<char>> {
    if s.len() == 0 || s =~= seq!['/'] {
        None
    } else {
        let i = last_slash(s);
        if i < 0 {
            Some(Seq::empty())
        } else if i == 0 {
            Some(seq!['/'])
        } else {
            Some(s.take(i))
        }
    }
}

pub proof fn lemma_parent_shorter(s: Seq<char>)
    ensures
        parent(s) matches Some(p) ==> p.len() < s.len(),
{
    lemma_last_slash(s);
    if s.len() == 1 && last_slash(s) == 0 {
        assert(s =~= seq!['/']);
    }
}

/// The parent of `s` (see `parent`).
pub fn parent_of(s: &Vec<char>) -> (r: Option<Vec<char>>)
    ensures
        match r {
            Some(p) => parent(s@) == Some(p@),
            None => parent(s@) is None,
        },
{
    if s.len() == 0 || (s.len() == 1 && s[0] == '/') {
        assert(s.len() == 1 ==> (s@ =~= seq!['/'] <==> s@[0] == '/'));
        return None;
    }
    assert(!(s@ =~= seq!['/'])) by {
        if s.len() == 1 {
            assert(s@[0] != '/');
        }
    }
    let mut i = s.len();
    assert(s@.take(s@.len() as int) =~= s@);
    while i > 0 && s[i - 1] != '/'
        invariant
            i <= s@.len(),
            last_slash(s@) == last_slash(s@.take(i as int)),
        decreases i,
    {
        assert(s@.take(i - 1) =~= s@.take(i as int).drop_last());
        i = i - 1;
    }
    assert(s@.take(s@.len() as int) =~= s@);
    if i == 0 {
        assert(last_slash(s@.take(0)) == -1);
        Some(Vec::new())
    } else if i == 1 {
        assert(last_slash(s@) == 0);
        let mut p: Vec<char> = Vec::new();
        p.push('/');
        assert(p@ =~= seq!['/']);
        Some(p)
    } else {
        assert(last_slash(s@) == i - 1);
        let mut p: Vec<char> = Vec::new();
        let end = i - 1;
        for j in 0..end
            invariant
                end < s@.len(),
                p@ =~= s@.take(j as int),
        {
            p.push(s[j]);
            assert(s@.take(j + 1) =~= s@.take(j as int).push(s@[j as int]));
        }
        Some(p)
    }
}

/// The ancestors of `path` a walk rooted at `root` credits with a file's size:
/// its parent, the parent's parent, ... up to and including the first one
/// equal to `root` (or the top of the path when none is).
pub open spec fn climb(root: Seq<char>, path: Seq<char>) -> Seq<Seq<char>>
    decreases path.len(),
{
    match parent(path) {
        None => Seq::empty(),
        Some(p) => {
            proof {
                lemma_parent_shorter(path);
            }
            if path_eq(p, root) {
                seq![p]
            } else {
                seq![p] + climb(root, p)
            }
        },
    }
}

// ---------------------------------------------------------------------------
// Directory totals
// ---------------------------------------------------------------------------

/// `len` more bytes credited to directory `k` (created at `len` if new). The
/// total wraps on overflow, as the release build of the walker does.
pub open spec fn bump(l: Seq<(Seq<char>, u64)>, k: Seq<char>, len: u64) -> Seq<(Seq<char>, u64)> {
    key_put(
        l,
        k,
        match key_get(l, k) {
            Some(t) => t.wrapping_add(len),
            None => len,
        },
    )
}

/// `len` bytes credited to each directory of `ks`, in order.
pub open spec fn bump_all(l: Seq<(Seq<char>, u64)>, ks: Seq<Seq<char>>, len: u64) -> Seq<
    (Seq<char>, u64),
>
    decreases ks.len(),
{
    if ks.len() == 0 {
        l
    } else {
        bump_all(bump(l, ks[0], len), ks.drop_first(), len)
    }
}

/// The directory totals of a walk of `root` that met the regular files
/// `files` (path and size), in order, starting from `start`.
pub open spec fn totals_from(
    start: Seq<(Seq<char>, u64)>,
    root: Seq<char>,
    files: Seq<(Seq<char>, u64)>,
) -> Seq<(Seq<char>, u64)>
    decreases files.len(),
{
    if files.len() == 0 {
        start
    } else {
        bump_all(totals_from(start, root, files.drop_last()), climb(root, files.last().0), files.last().1)
    }
}

fn bump_entry(totals: &mut Vec<(String, u64)>, key: &Vec<char>, len: u64)
    ensures
        keyed(final(totals)@) == bump(keyed(old(totals)@), key@, len),
{
    let k = string_of(key);
    let ghost l = keyed(totals@);
    proof {
        lemma_key_index(l, key@);
    }
    match find_key(totals, k.as_str()) {
        Some(i) => {
            let t = totals[i].1;
            let ghost before = totals@;
            totals.set(i, (k, t.wrapping_add(len)));
            assert(keyed(totals@) =~= l.update(i as int, (key@, t.wrapping_add(len))));
        },
        None => {
            totals.push((k, len));
            assert(keyed(totals@) =~= l.push((key@, len)));
        },
    }
}

fn climb_add(totals: &mut Vec<(String, u64)>, root: &Vec<char>, current: &Vec<char>, len: u64)
    ensures
        keyed(final(totals)@) == bump_all(keyed(old(totals)@), climb(root@, current@), len),
    decreases current@.len(),
{
    match parent_of(current) {
        None => {
            assert(climb(root@, current@) =~= Seq::<Seq<char>>::empty());
        },
        Some(p) => {
            proof {
                lemma_parent_shorter(current@);
            }
            let ghost l0 = keyed(totals@);
            bump_entry(totals, &p, len);
            let ghost l1 = keyed(totals@);
            if eq_path(&p, root) {
                assert(climb(root@, current@) =~= seq![p@]);
                assert(seq![p@].drop_first() =~= Seq::<Seq<char>>::empty());
                assert(bump_all(l1, Seq::<Seq<char>>::empty(), len) == l1);
                assert(bump_all(l0, seq![p@], len) == bump_all(bump(l0, p@, len), seq![p@].drop_first(), len));
            } else {
                climb_add(totals, root, &p, len);
                let ghost c = climb(root@, current@);
                assert(c =~= seq![p@] + climb(root@, p@));
                assert(c.drop_first() =~= climb(root@, p@));
                assert(c[0] == p@);
                assert(bump_all(l0, c, len) == bump_all(bump(l0, c[0], len), c.drop_first(), len));
            }
        },
    }
}

/// Credit a regular file of `len` bytes at `path` to every ancestor directory
/// up to `root` (see `climb`).
pub fn add_file(totals: &mut Vec<(String, u64)>, root: &str, path: &str, len: u64)
    ensures
        keyed(final(totals)@) == bump_all(keyed(old(totals)@), climb(root@, path@), len),
{
    let r = chars_of(root);
    let p = chars_of(path);
    climb_add(totals, &r, &p, len);
}

/// The table a walk of `root` starts from: `l`, then every directory of
/// `dirs` not in it yet, in order, at 0.
pub open spec fn with_dirs(l: Seq<(Seq<char>, u64)>, dirs: Seq<Seq<char>>) -> Seq<(Seq<char>, u64)>
    decreases dirs.len(),
{
    if dirs.len() == 0 {
        l
    } else {
        let t = with_dirs(l, dirs.drop_last());
        if key_get(t, dirs.last()) is Some {
            t
        } else {
            key_put(t, dirs.last(), 0u64)
        }
    }
}

/// The directories of a walk as character sequences.
pub open spec fn dir_names(dirs: Seq<String>) -> Seq<Seq<char>> {
    dirs.map_values(|s: String| s@)
}

/// Crediting bytes never removes a directory, and leaves alone those it does
/// not credit.
pub proof fn lemma_bump_all_get(l: Seq<(Seq<char>, u64)>, ks: Seq<Seq<char>>, len: u64, d: Seq<char>)
    ensures
        key_get(l, d) is Some ==> key_get(bump_all(l, ks, len), d) is Some,
        !ks.contains(d) ==> key_get(bump_all(l, ks, len), d) == key_get(l, d),
    decreases ks.len(),
{
    if ks.len() > 0 {
        let v = match key_get(l, ks[0]) {
            Some(t) => t.wrapping_add(len),
            None => len,
        };
        lemma_get_after_put(l, ks[0], v, d);
        lemma_bump_all_get(bump(l, ks[0], len), ks.drop_first(), len, d);
        if !ks.contains(d) {
            assert(ks[0] != d);
            assert forall|j: int| 0 <= j < ks.drop_first().len() implies ks.drop_first()[j] != d by {
                assert(ks.drop_first()[j] == ks[j + 1]);
            }
            assert(!ks.drop_first().contains(d));
        }
    }
}

/// A walk never removes a directory from its table, and a directory no file
/// lies below keeps its starting total.
pub proof fn lemma_totals_get(
    start: Seq<(Seq<char>, u64)>,
    root: Seq<char>,
    files: Seq<(Seq<char>, u64)>,
    d: Seq<char>,
)
    ensures
        key_get(start, d) is Some ==> key_get(totals_from(start, root, files), d) is Some,
        (forall|j: int| 0 <= j < files.len() ==> !(#[trigger] climb(root, files[j].0)).contains(d)) ==> key_get(
            totals_from(start, root, files),
            d,
        ) == key_get(start, d),
    decreases files.len(),
{
    if files.len() > 0 {
        let f = files.drop_last();
        lemma_totals_get(start, root, f, d);
        lemma_bump_all_get(totals_from(start, root, f), climb(root, files.last().0), files.last().1, d);
        if forall|j: int| 0 <= j < files.len() ==> !(#[trigger] climb(root, files[j].0)).contains(d) {
            assert forall|j: int| 0 <= j < f.len() implies !(#[trigger] climb(root, f[j].0)).contains(d) by {
                assert(f[j] == files[j]);
            }
            assert(!climb(root, files[files.len() - 1].0).contains(d));
        }
    }
}

/// Every directory met is in the starting table, at 0 unless it was already
/// there; entries already there are kept.
pub proof fn lemma_with_dirs_get(l: Seq<(Seq<char>, u64)>, dirs: Seq<Seq<char>>, d: Seq<char>)
    ensures
        key_get(l, d) is Some ==> key_get(with_dirs(l, dirs), d) == key_get(l, d),
        key_get(l, d) is None && dirs.contains(d) ==> key_get(with_dirs(l, dirs), d) == Some(0u64),
        dirs.contains(d) ==> key_get(with_dirs(l, dirs), d) is Some,
        key_get(l, d) is None && !dirs.contains(d) ==> key_get(with_dirs(l, dirs), d) is None,
    decreases dirs.len(),
{
    if dirs.len() > 0 {
        let ds = dirs.drop_last();
        lemma_with_dirs_get(l, ds, d);
        let t = with_dirs(l, ds);
        lemma_get_after_put(t, dirs.last(), 0u64, d);
        if dirs.contains(d) && !ds.contains(d) {
            let k = choose|k: int| 0 <= k < dirs.len() && dirs[k] == d;
            if k < ds.len() {
                assert(ds[k] == d);
            }
            assert(dirs.last() == d);
        }
        if ds.contains(d) {
            let k = choose|k: int| 0 <= k < ds.len() && ds[k] == d;
            assert(dirs[k] == d);
        }
        if !dirs.contains(d) {
            assert(dirs.last() != d) by {
                if dirs.last() == d {
                    assert(dirs[dirs.len() - 1] == d);
                }
            }
            assert(!ds.contains(d)) by {
                if ds.contains(d) {
                    let k = choose|k: int| 0 <= k < ds.len() && ds[k] == d;
                    assert(dirs[k] == d);
                }
            }
        }
    }
}

/// The total size of every directory of a walk of `root`: `root` (listed
/// first) and each directory the walk met (`dirs`, in walk order) start at 0;
/// then each regular file the walk met (`files`, in walk order) has its size
/// added to all of its ancestors up to `root`. Every walked directory gets a
/// total, 0 when no file lies below it.
pub fn dir_sizes(root: &str, dirs: &Vec<String>, files: &Vec<(String, u64)>) -> (r: Vec<(String, u64)>)
    ensures
        keyed(r@) == totals_from(with_dirs(seq![(root@, 0u64)], dir_names(dirs@)), root@, keyed(files@)),
        key_get(keyed(r@), root@) is Some,
        forall|i: int| 0 <= i < dirs@.len() ==> (#[trigger] key_get(keyed(r@), dirs@[i]@)) is Some,
        forall|i: int|
            0 <= i < dirs@.len() && (forall|j: int|
                0 <= j < files@.len() ==> !(#[trigger] climb(root@, files@[j].0@)).contains(dirs@[i]@))
                ==> #[trigger] key_get(keyed(r@), dirs@[i]@) == Some(0u64),
{
    let mut totals: Vec<(String, u64)> = Vec::new();
    totals.push((root.to_owned(), 0));
    let ghost first = seq![(root@, 0u64)];
    let ghost dn = dir_names(dirs@);
    assert(keyed(totals@) =~= first);
    for i in 0..dirs.len()
        invariant
            dn == dir_names(dirs@),
            keyed(totals@) == with_dirs(first, dn.take(i as int)),
    {
        assert(dn.take(i + 1).drop_last() =~= dn.take(i as int));
        assert(dn.take(i + 1).last() == dirs@[i as int]@);
        let ghost l = keyed(totals@);
        proof {
            lemma_key_index(l, dirs@[i as int]@);
        }
        match find_key(&totals, dirs[i].as_str()) {
            Some(_) => {},
            None => {
                totals.push((dirs[i].clone(), 0));
                assert(keyed(totals@) =~= l.push((dirs@[i as int]@, 0u64)));
            },
        }
    }
    assert(dn.take(dirs.len() as int) =~= dn);
    let ghost start = with_dirs(first, dn);
    for i in 0..files.len()
        invariant
            keyed(totals@) == totals_from(start, root@, keyed(files@).take(i as int)),
    {
        let ghost fs = keyed(files@).take(i + 1);
        assert(fs.drop_last() =~= keyed(files@).take(i as int));
        assert(fs.last() == (files@[i as int].0@, files@[i as int].1));
        add_file(&mut totals, root, files[i].0.as_str(), files[i].1);
    }
    let ghost kf = keyed(files@);
    assert(kf.take(files.len() as int) =~= kf);
    proof {
        assert(key_get(first, root@) == Some(0u64)) by {
            lemma_key_index_is(first, root@, 0);
        }
        lemma_with_dirs_get(first, dn, root@);
        lemma_totals_get(start, root@, kf, root@);
        assert forall|i: int| 0 <= i < dirs@.len() implies (#[trigger] key_get(keyed(totals@), dirs@[i]@)) is Some by {
            let d = dirs@[i]@;
            assert(dn[i] == d);
            lemma_with_dirs_get(first, dn, d);
            lemma_totals_get(start, root@, kf, d);
        }
        assert forall|i: int|
            0 <= i < dirs@.len() && (forall|j: int|
                0 <= j < files@.len() ==> !(#[trigger] climb(root@, files@[j].0@)).contains(dirs@[i]@))
                implies #[trigger] key_get(keyed(totals@), dirs@[i]@) == Some(0u64) by {
            let d = dirs@[i]@;
            assert(dn[i] == d);
            lemma_with_dirs_get(first, dn, d);
            lemma_totals_get(start, root@, kf, d);
            assert forall|j: int| 0 <= j < kf.len() implies !(#[trigger] climb(root@, kf[j].0)).contains(d) by {
                assert(kf[j].0 == files@[j].0@);
            }
            if key_get(first, d) is Some {
                lemma_key_index(first, d);
                assert(first[0].0 == d);
                lemma_key_index_is(first, d, 0);
            }
        }
    }
    totals
}

// ---------------------------------------------------------------------------
// Largest files and directories
// ---------------------------------------------------------------------------

/// The sizes of a list of entries.
pub open spec fn raw_sizes(files: Seq<RawEntry>) -> Seq<u64> {
    files.map_values(|e: RawEntry| e.size_bytes)
}

/// The path and size of every entry.
pub open spec fn raw_pairs(files: Seq<RawEntry>) -> Seq<(Seq<char>, u64)> {
    files.map_values(|e: RawEntry| (e.path@, e.size_bytes))
}

/// The entries of a totals table other than `root` itself, in order.
pub open spec fn without_root(root: Seq<char>, l: Seq<(Seq<char>, u64)>) -> Seq<(Seq<char>, u64)>
    decreases l.len(),
{
    if l.len() == 0 {
        l
    } else if path_eq(l.last().0, root) {
        without_root(root, l.drop_last())
    } else {
        without_root(root, l.drop_last()).push(l.last())
    }
}

/// The sizes of a totals table.
pub open spec fn pair_sizes(l: Seq<(Seq<char>, u64)>) -> Seq<u64> {
    l.map_values(|e: (Seq<char>, u64)| e.1)
}

impl RawEntry {
    /// A field-by-field copy.
    pub fn duplicate(&self) -> (r: RawEntry)
        ensures
            r == *self,
    {
        RawEntry {
            path: self.path.clone(),
            size_bytes: self.size_bytes,
            last_access: self.last_access,
            is_dir: self.is_dir,
        }
    }
}

/// The first `n` entries of `files` in stable largest-first order.
pub fn largest_files(files: &Vec<RawEntry>, n: usize) -> (r: Vec<RawEntry>)
    ensures
        top_by(files@, raw_sizes(files@), n as int, r@),
{
    let mut keys: Vec<u64> = Vec::new();
    for i in 0..files.len()
        invariant
            keys@ == raw_sizes(files@.take(i as int)),
    {
        keys.push(files[i].size_bytes);
        assert(keys@ =~= raw_sizes(files@.take(i + 1)));
    }
    assert(files@.take(files.len() as int) =~= files@);
    let order = rank_desc(&keys);
    let count = if n < files.len() {
        n
    } else {
        files.len()
    };
    let mut r: Vec<RawEntry> = Vec::new();
    for i in 0..count
        invariant
            count <= files.len(),
            order@.len() == files.len(),
            stable_desc(keys@, order@),
            r@.len() == i,
            forall|j: int| 0 <= j < i ==> #[trigger] r@[j] == files@[order@[j] as int],
    {
        r.push(files[order[i]].duplicate());
    }
    assert(stable_desc(raw_sizes(files@), order@));
    r
}

/// The first `n` entries of a totals table in stable largest-first order.
pub fn largest_dirs(l: &Vec<(String, u64)>, n: usize) -> (r: Vec<(String, u64)>)
    ensures
        top_by(keyed(l@), pair_sizes(keyed(l@)), n as int, keyed(r@)),
{
    let ghost kl = keyed(l@);
    let mut keys: Vec<u64> = Vec::new();
    for i in 0..l.len()
        invariant
            kl == keyed(l@),
            keys@ == pair_sizes(kl.take(i as int)),
    {
        keys.push(l[i].1);
        assert(keys@ =~= pair_sizes(kl.take(i + 1)));
    }
    assert(kl.take(l.len() as int) =~= kl);
    let order = rank_desc(&keys);
    let count = if n < l.len() {
        n
    } else {
        l.len()
    };
    let mut r: Vec<(String, u64)> = Vec::new();
    for i in 0..count
        invariant
            count <= l.len(),
            kl == keyed(l@),
            order@.len() == l.len(),
            stable_desc(keys@, order@),
            keyed(r@).len() == i,
            forall|j: int| 0 <= j < i ==> #[trigger] keyed(r@)[j] == kl[order@[j] as int],
    {
        let e = &l[order[i]];
        let ghost before = keyed(r@);
        r.push((e.0.clone(), e.1));
        assert(keyed(r@) =~= before.push(kl[order@[i as int] as int]));
    }
    assert(stable_desc(pair_sizes(kl), order@));
    r
}

/// The `n` largest files and the `n` largest directories (excluding `root`
/// itself) of a walk of `root`, given the regular files it met in walk order.
/// Files are ranked by size; every directory is credited with the size of
/// every file below it (see `add_file`). Both lists are largest first, equal
/// sizes in walk order.
pub fn top_n(root: &str, files: &Vec<RawEntry>, n: usize) -> (r: (Vec<RawEntry>, Vec<(String, u64)>))
    ensures
        top_by(files@, raw_sizes(files@), n as int, r.0@),
        ({
            let d = without_root(root@, totals_from(Seq::empty(), root@, raw_pairs(files@)));
            top_by(d, pair_sizes(d), n as int, keyed(r.1@))
        }),
{
    let top_files = largest_files(files, n);
    let mut totals: Vec<(String, u64)> = Vec::new();
    let ghost start: Seq<(Seq<char>, u64)> = Seq::empty();
    assert(keyed(totals@) =~= start);
    for i in 0..files.len()
        invariant
            keyed(totals@) == totals_from(start, root@, raw_pairs(files@).take(i as int)),
    {
        let ghost fs = raw_pairs(files@).take(i + 1);
        assert(fs.drop_last() =~= raw_pairs(files@).take(i as int));
        assert(fs.last() == (files@[i as int].path@, files@[i as int].size_bytes));
        add_file(&mut totals, root, files[i].path.as_str(), files[i].size_bytes);
    }
    assert(raw_pairs(files@).take(files.len() as int) =~= raw_pairs(files@));
    let rootc = chars_of(root);
    let ghost all = keyed(totals@);
    let mut dirs: Vec<(String, u64)> = Vec::new();
    for i in 0..totals.len()
        invariant
            all == keyed(totals@),
            rootc@ == root@,
            keyed(dirs@) == without_root(root@, all.take(i as int)),
    {
        let ghost t = all.take(i + 1);
        assert(t.drop_last() =~= all.take(i as int));
        assert(t.last() == all[i as int]);
        let p = chars_of(totals[i].0.as_str());
        if !eq_path(&p, &rootc) {
            let ghost before = keyed(dirs@);
            dirs.push((totals[i].0.clone(), totals[i].1));
            assert(keyed(dirs@) =~= before.push(all[i as int]));
        }
    }
    assert(all.take(totals.len() as int) =~= all);
    let top_dirs = largest_dirs(&dirs, n);
    (top_files, top_dirs)
}

// ---------------------------------------------------------------------------
// Directory-size cache
// ---------------------------------------------------------------------------

/// Only subtrees of at least 16 MiB are cached.
pub const HEAVY: u64 = 16777216;

/// Cached subtree sizes: for each directory path, the modification time
/// (seconds) it had when measured and its total size.
pub struct DirCache {
    pub entries: Vec<(String, (u64, u64))>,
}

impl DirCache {
    /// The cache as a keyed table.
    pub open spec fn table(&self) -> Seq<(Seq<char>, (u64, u64))> {
        keyed(self.entries@)
    }

    /// An empty cache.
    pub fn new() -> (r: DirCache)
        ensures
            r.table().len() == 0,
    {
        DirCache { entries: Vec::new() }
    }

    /// The cached size of `path`, if it was cached with this same mtime.
    pub fn lookup(&self, path: &str, mtime: u64) -> (r: Option<u64>)
        ensures
            r == cache_hit(self.table(), path@, mtime),
    {
        match find_key(&self.entries, path) {
            Some(i) => {
                let (m, size) = self.entries[i].1;
                if m == mtime {
                    Some(size)
                } else {
                    None
                }
            },
            None => None,
        }
    }

    /// Remember the size of `path` measured at `mtime` if the subtree is heavy.
    pub fn record(&mut self, path: &str, mtime: u64, total: u64)
        ensures
            final(self).table() == cache_after(old(self).table(), path@, mtime, total),
    {
        if total >= HEAVY {
            let ghost l = self.table();
            match find_key(&self.entries, path) {
                Some(i) => {
                    self.entries.set(i, (path.to_owned(), (mtime, total)));
                    assert(self.table() =~= l.update(i as int, (path@, (mtime, total))));
                },
                None => {
                    self.entries.push((path.to_owned(), (mtime, total)));
                    assert(self.table() =~= l.push((path@, (mtime, total))));
                },
            }
        }
    }
}

/// The size cached for `path` under `mtime`.
pub open spec fn cache_hit(t: Seq<(Seq<char>, (u64, u64))>, path: Seq<char>, mtime: u64) -> Option<u64> {
    match key_get(t, path) {
        Some(e) => if e.0 == mtime {
            Some(e.1)
        } else {
            None
        },
        None => None,
    }
}

/// The cache after measuring `path` at `mtime` to `total` bytes.
pub open spec fn cache_after(t: Seq<(Seq<char>, (u64, u64))>, path: Seq<char>, mtime: u64, total: u64) -> Seq<
    (Seq<char>, (u64, u64)),
> {
    if total >= HEAVY {
        key_put(t, path, (mtime, total))
    } else {
        t
    }
}

/// A heavy subtree, once measured, is answered from the cache for as long as
/// its mtime is unchanged; measuring one path never changes what the cache
/// answers for another; a light subtree is never cached.
pub proof fn law_cache_read_after_write(
    t: Seq<(Seq<char>, (u64, u64))>,
    path: Seq<char>,
    mtime: u64,
    total: u64,
    other: Seq<char>,
    other_mtime: u64,
)
    ensures
        total >= HEAVY ==> cache_hit(cache_after(t, path, mtime, total), path, mtime) == Some(total),
        other != path ==> cache_hit(cache_after(t, path, mtime, total), other, other_mtime) == cache_hit(
            t,
            other,
            other_mtime,
        ),
        total < HEAVY ==> cache_after(t, path, mtime, total) == t,
{
    lemma_get_after_put(t, path, (mtime, total), other);
}

} // verus!
