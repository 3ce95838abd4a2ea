//! The cleanup services: what each one surfaces from what was found on disk,
//! and the dry-run plan built from a selection. Services never delete
//! anything; walking the disk is done by the caller.
use vstd::prelude::*;
use crate::ipc::{
    any_requires_root, duplicate_items, items_bytes, lemma_items_bytes_push, sum_sizes, any_root,
    DeletionPlan, Destination, ItemKind, ScanItem, ScanResult, ServiceId,
};
use crate::paths::{join, join_str};
use crate::text::{chars_of, chars_eq_str, str_eq};

verus! {

/// A raw filesystem entry produced by a scan.
#[derive(Clone, Debug, PartialEq, Eq)]
pub struct RawEntry {
    pub path: String,
    pub size_bytes: u64,
    /// Unix timestamp (seconds) of last access, when available.
    pub last_access: Option<i64>,
    pub is_dir: bool,
}

/// Options controlling a scan: whether to follow symlinks, and an optional
/// minimum age in days below which entries are left out.
#[derive(Clone, Copy, Debug, Default)]
pub struct ScanOpts {
    pub follow_symlinks: bool,
    pub min_age_days: Option<u32>,
}

pub const SECS_PER_DAY: u64 = 86_400;

/// Whether an entry last modified `age_secs` whole seconds ago survives the age
/// filter (`None` when its modification time is unknown or in the future:
/// such entries are kept).
pub open spec fn kept_by_age(min_age_days: Option<u32>, age_secs: Option<u64>) -> bool {
    match (min_age_days, age_secs) {
        (Some(days), Some(age)) => age >= days * 86_400,
        _ => true,
    }
}

pub fn keep_by_age(min_age_days: Option<u32>, age_secs: Option<u64>) -> (r: bool)
    ensures
        r == kept_by_age(min_age_days, age_secs),
{
    match (min_age_days, age_secs) {
        (Some(days), Some(age)) => age >= days as u64 * SECS_PER_DAY,
        _ => true,
    }
}

/// Stable opaque id derived from a path: the path itself.
pub fn path_id(path: &str) -> (r: String)
    ensures
        r@ == path@,
{
    path.to_owned()
}

/// A scan result whose total is the sum of its items' sizes.
pub fn scan_result(service: ServiceId, items: Vec<ScanItem>) -> (r: ScanResult)
    requires
        items_bytes(items@) <= u64::MAX,
    ensures
        r.service == service,
        r.items@ == items@,
        r.total_bytes == items_bytes(items@),
{
    let total_bytes = sum_sizes(&items);
    ScanResult { service, items, total_bytes }
}

// ---------------------------------------------------------------------------
// Plans
// ---------------------------------------------------------------------------

/// Build a Trash-by-default plan from selected items: the total is the sum of
/// their sizes and root is required as soon as one of them requires it.
pub fn plan_from_items(items: Vec<ScanItem>) -> (r: DeletionPlan)
    requires
        items_bytes(items@) <= u64::MAX,
    ensures
        r.items@ == items@,
        r.destination == Destination::Trash,
        r.total_bytes == items_bytes(items@),
        r.requires_root == any_root(items@),
{
    let total_bytes = sum_sizes(&items);
    let requires_root = any_requires_root(&items);
    DeletionPlan { items, destination: Destination::Trash, total_bytes, requires_root }
}

/// Whether `id` is one of the selected ids.
pub open spec fn selected(selection: Seq<String>, id: Seq<char>) -> bool {
    exists|j: int| 0 <= j < selection.len() && #[trigger] selection[j]@ == id
}

/// The items of `items` whose id is selected, in order.
pub open spec fn selected_items(items: Seq<ScanItem>, selection: Seq<String>) -> Seq<ScanItem>
    decreases items.len(),
{
    if items.len() == 0 {
        Seq::empty()
    } else {
        let rest = selected_items(items.drop_last(), selection);
        if selected(selection, items.last().id@) {
            rest.push(items.last())
        } else {
            rest
        }
    }
}

pub proof fn lemma_selected_bytes(items: Seq<ScanItem>, selection: Seq<String>)
    ensures
        items_bytes(selected_items(items, selection)) <= items_bytes(items),
    decreases items.len(),
{
    if items.len() > 0 {
        lemma_selected_bytes(items.drop_last(), selection);
        lemma_items_bytes_push(selected_items(items.drop_last(), selection), items.last());
    }
}

/// Whether `id` is in `selection`.
pub fn is_selected(selection: &Vec<String>, id: &str) -> (r: bool)
    ensures
        r == selected(selection@, id@),
{
    for j in 0..selection.len()
        invariant
            forall|k: int| 0 <= k < j ==> #[trigger] selection@[k]@ != id@,
    {
        if str_eq(selection[j].as_str(), id) {
            return true;
        }
    }
    false
}

/// Nothing is selected from an empty selection.
pub proof fn lemma_nothing_selected(items: Seq<ScanItem>, selection: Seq<String>)
    requires
        selection.len() == 0,
    ensures
        selected_items(items, selection).len() == 0,
    decreases items.len(),
{
    if items.len() > 0 {
        lemma_nothing_selected(items.drop_last(), selection);
    }
}

/// Dry-run: the plan for the items of a scan whose id is selected, in scan
/// order, to the trash. The planned total must fit in a `u64` (it is at most
/// the scan's total, see `lemma_selected_bytes`).
pub fn preview(scan: &ScanResult, selection: &Vec<String>) -> (r: DeletionPlan)
    requires
        items_bytes(selected_items(scan.items@, selection@)) <= u64::MAX,
    ensures
        r.items@ == selected_items(scan.items@, selection@),
        r.destination == Destination::Trash,
        r.total_bytes == items_bytes(r.items@),
        r.requires_root == any_root(r.items@),
        selection@.len() == 0 ==> r.items@.len() == 0 && r.total_bytes == 0 && !r.requires_root,
{
    let mut kept: Vec<ScanItem> = Vec::new();
    for i in 0..scan.items.len()
        invariant
            kept@ == selected_items(scan.items@.take(i as int), selection@),
    {
        assert(scan.items@.take(i + 1).drop_last() =~= scan.items@.take(i as int));
        let item = &scan.items[i];
        if is_selected(selection, item.id.as_str()) {
            kept.push(item.duplicate());
        }
    }
    assert(scan.items@.take(scan.items.len() as int) =~= scan.items@);
    proof {
        if selection@.len() == 0 {
            lemma_nothing_selected(scan.items@, selection@);
            assert(kept@ =~= Seq::<ScanItem>::empty());
        }
    }
    plan_from_items(kept)
}

// ---------------------------------------------------------------------------
// Temp files
// ---------------------------------------------------------------------------

/// A temp root to scan, and whether removing files there needs root.
#[derive(Clone, Debug)]
pub struct TempRoot {
    pub path: String,
    pub requires_root: bool,
}

/// Scans temporary directories for files older than `min_age_days`.
#[derive(Clone, Debug)]
pub struct TempService {
    pub roots: Vec<TempRoot>,
    pub min_age_days: u32,
}

impl TempService {
    /// Default roots for a home directory: `/tmp` and `/var/tmp` (root-owned)
    /// and the home's `.cache` (user-owned).
    pub fn with_defaults(home: &str, min_age_days: u32) -> (r: TempService)
        ensures
            r.min_age_days == min_age_days,
            r.roots@.len() == 3,
            r.roots@[0].path@ == "/tmp"@ && r.roots@[0].requires_root,
            r.roots@[1].path@ == "/var/tmp"@ && r.roots@[1].requires_root,
            r.roots@[2].path@ == join(home@, ".cache"@) && !r.roots@[2].requires_root,
    {
        let mut roots: Vec<TempRoot> = Vec::new();
        roots.push(TempRoot { path: "/tmp".to_owned(), requires_root: true });
        roots.push(TempRoot { path: "/var/tmp".to_owned(), requires_root: true });
        roots.push(TempRoot { path: join_str(home, ".cache"), requires_root: false });
        TempService { roots, min_age_days }
    }

    /// The scan options of this service: no symlink following, age filter on.
    pub fn scan_opts(&self) -> (r: ScanOpts)
        ensures
            !r.follow_symlinks,
            r.min_age_days == Some(self.min_age_days),
    {
        ScanOpts { follow_symlinks: false, min_age_days: Some(self.min_age_days) }
    }
}

/// The scan item a temp file becomes.
pub open spec fn temp_item_of(e: RawEntry, requires_root: bool, item: ScanItem) -> bool {
    &&& item.id@ == e.path@
    &&& item.path@ == e.path@
    &&& item.size_bytes == e.size_bytes
    &&& item.last_access == e.last_access
    &&& item.kind == ItemKind::File
    &&& item.requires_root == requires_root
}

/// The files (never directories) among `entries`, in order.
pub open spec fn files_only(entries: Seq<RawEntry>) -> Seq<RawEntry>
    decreases entries.len(),
{
    if entries.len() == 0 {
        Seq::empty()
    } else {
        let rest = files_only(entries.drop_last());
        if entries.last().is_dir {
            rest
        } else {
            rest.push(entries.last())
        }
    }
}

/// Temp cleanup targets files only: each file entry found under `root` becomes
/// an item that inherits the root's privilege requirement.
pub fn temp_items(root: &TempRoot, entries: &Vec<RawEntry>) -> (r: Vec<ScanItem>)
    ensures
        r@.len() == files_only(entries@).len(),
        forall|i: int|
            0 <= i < r@.len() ==> temp_item_of(
                files_only(entries@)[i],
                root.requires_root,
                #[trigger] r@[i],
            ),
{
    let mut items: Vec<ScanItem> = Vec::new();
    for i in 0..entries.len()
        invariant
            items@.len() == files_only(entries@.take(i as int)).len(),
            forall|k: int|
                0 <= k < items@.len() ==> temp_item_of(
                    files_only(entries@.take(i as int))[k],
                    root.requires_root,
                    #[trigger] items@[k],
                ),
    {
        assert(entries@.take(i + 1).drop_last() =~= entries@.take(i as int));
        let e = &entries[i];
        if !e.is_dir {
            items.push(
                ScanItem {
                    id: path_id(e.path.as_str()),
                    path: e.path.clone(),
                    size_bytes: e.size_bytes,
                    last_access: e.last_access,
                    kind: ItemKind::File,
                    requires_root: root.requires_root,
                },
            );
        }
    }
    assert(entries@.take(entries.len() as int) =~= entries@);
    items
}

// ---------------------------------------------------------------------------
// Largest files and folders
// ---------------------------------------------------------------------------

/// Surfaces the `top` largest files and directories under `root`.
#[derive(Clone, Debug)]
pub struct BigFilesService {
    pub root: String,
    pub top: usize,
}

/// The result of the largest-files service: the files first, then the
/// directories; the recoverable total counts the files only (directories
/// overlap with them). No item needs root.
pub fn big_files_result(files: &Vec<RawEntry>, dirs: &Vec<(String, u64)>) -> (r: ScanResult)
    requires
        raw_bytes(files@) <= u64::MAX,
    ensures
        r.service == ServiceId::BigFiles,
        r.total_bytes == raw_bytes(files@),
        r.items@.len() == files@.len() + dirs@.len(),
        forall|i: int|
            0 <= i < files@.len() ==> temp_item_of(files@[i], false, #[trigger] r.items@[i]),
        forall|i: int|
            0 <= i < dirs@.len() ==> {
                let it = #[trigger] r.items@[files@.len() + i];
                &&& it.id@ == dirs@[i].0@
                &&& it.path@ == dirs@[i].0@
                &&& it.size_bytes == dirs@[i].1
                &&& it.last_access is None
                &&& it.kind == ItemKind::Dir
                &&& !it.requires_root
            },
{
    let mut items: Vec<ScanItem> = Vec::new();
    let mut total: u64 = 0;
    for i in 0..files.len()
        invariant
            raw_bytes(files@) <= u64::MAX,
            total == raw_bytes(files@.take(i as int)),
            items@.len() == i,
            forall|k: int| 0 <= k < i ==> temp_item_of(files@[k], false, #[trigger] items@[k]),
    {
        proof {
            assert(files@.take(i + 1).drop_last() =~= files@.take(i as int));
            lemma_raw_bytes_prefix(files@, i + 1);
        }
        let e = &files[i];
        total = total + e.size_bytes;
        items.push(
            ScanItem {
                id: path_id(e.path.as_str()),
                path: e.path.clone(),
                size_bytes: e.size_bytes,
                last_access: e.last_access,
                kind: ItemKind::File,
                requires_root: false,
            },
        );
    }
    assert(files@.take(files.len() as int) =~= files@);
    for j in 0..dirs.len()
        invariant
            items@.len() == files@.len() + j,
            forall|k: int| 0 <= k < files@.len() ==> temp_item_of(files@[k], false, #[trigger] items@[k]),
            forall|k: int|
                0 <= k < j ==> {
                    let it = #[trigger] items@[files@.len() + k];
                    &&& it.id@ == dirs@[k].0@
                    &&& it.path@ == dirs@[k].0@
                    &&& it.size_bytes == dirs@[k].1
                    &&& it.last_access is None
                    &&& it.kind == ItemKind::Dir
                    &&& !it.requires_root
                },
    {
        let (p, size) = &dirs[j];
        items.push(
            ScanItem {
                id: path_id(p.as_str()),
                path: p.clone(),
                size_bytes: *size,
                last_access: None,
                kind: ItemKind::Dir,
                requires_root: false,
            },
        );
    }
    ScanResult { service: ServiceId::BigFiles, items, total_bytes: total }
}

/// The sum of the sizes of raw entries.
pub open spec fn raw_bytes(entries: Seq<RawEntry>) -> nat
    decreases entries.len(),
{
    if entries.len() == 0 {
        0
    } else {
        raw_bytes(entries.drop_last()) + (entries.last().size_bytes as nat)
    }
}

pub proof fn lemma_raw_bytes_prefix(entries: Seq<RawEntry>, k: int)
    requires
        0 <= k <= entries.len(),
    ensures
        raw_bytes(entries.take(k)) <= raw_bytes(entries),
    decreases entries.len() - k,
{
    if k < entries.len() {
        lemma_raw_bytes_prefix(entries, k + 1);
        assert(entries.take(k + 1).drop_last() =~= entries.take(k));
    } else {
        assert(entries.take(k) =~= entries);
    }
}

// ---------------------------------------------------------------------------
// Application and browser caches
// ---------------------------------------------------------------------------

/// Directory basenames that hold regenerable cache data inside an app's config
/// (Chromium/Electron family).
pub open spec fn app_cache_names() -> Seq<Seq<char>> {
    seq![
        "Cache"@,
        "Code Cache"@,
        "GPUCache"@,
        "CachedData"@,
        "ShaderCache"@,
        "GrShaderCache"@,
        "DawnCache"@,
        "DawnGraphiteCache"@,
        "DawnWebGPUCache"@,
        "component_crx_cache"@,
        "blob_storage"@,
    ]
}

/// Whether a directory named `name` is an application cache.
pub fn is_app_cache_name(name: &str) -> (r: bool)
    ensures
        r == app_cache_names().contains(name@),
{
    let n = chars_of(name);
    let r = chars_eq_str(&n, "Cache") || chars_eq_str(&n, "Code Cache") || chars_eq_str(
        &n,
        "GPUCache",
    ) || chars_eq_str(&n, "CachedData") || chars_eq_str(&n, "ShaderCache") || chars_eq_str(
        &n,
        "GrShaderCache",
    ) || chars_eq_str(&n, "DawnCache") || chars_eq_str(&n, "DawnGraphiteCache")
        || chars_eq_str(&n, "DawnWebGPUCache") || chars_eq_str(&n, "component_crx_cache")
        || chars_eq_str(&n, "blob_storage");
    proof {
        let names = app_cache_names();
        if r {
            if n@ == "Cache"@ { assert(names[0] == n@); }
            if n@ == "Code Cache"@ { assert(names[1] == n@); }
            if n@ == "GPUCache"@ { assert(names[2] == n@); }
            if n@ == "CachedData"@ { assert(names[3] == n@); }
            if n@ == "ShaderCache"@ { assert(names[4] == n@); }
            if n@ == "GrShaderCache"@ { assert(names[5] == n@); }
            if n@ == "DawnCache"@ { assert(names[6] == n@); }
            if n@ == "DawnGraphiteCache"@ { assert(names[7] == n@); }
            if n@ == "DawnWebGPUCache"@ { assert(names[8] == n@); }
            if n@ == "component_crx_cache"@ { assert(names[9] == n@); }
            if n@ == "blob_storage"@ { assert(names[10] == n@); }
        } else {
            assert(!names.contains(n@)) by {
                if names.contains(n@) {
                    let k = choose|k: int| 0 <= k < names.len() && names[k] == n@;
                    assert(names.len() == 11);
                }
            }
        }
    }
    r
}

/// Package-manager caches that live outside `~/.cache`: npm's, yarn's and
/// bun's.
pub fn package_manager_caches(home: &str) -> (r: Vec<String>)
    ensures
        r@.map_values(|s: String| s@) == seq![
            join(home@, ".npm/_cacache"@),
            join(home@, ".yarn/cache"@),
            join(home@, ".bun/install/cache"@),
        ],
{
    let mut v: Vec<String> = Vec::new();
    v.push(join_str(home, ".npm/_cacache"));
    v.push(join_str(home, ".yarn/cache"));
    v.push(join_str(home, ".bun/install/cache"));
    assert(v@.map_values(|s: String| s@) =~= seq![
        join(home@, ".npm/_cacache"@),
        join(home@, ".yarn/cache"@),
        join(home@, ".bun/install/cache"@),
    ]);
    v
}

/// The cache directories of one snap (`~/snap/<name>`): its `common/.cache`
/// and `current/.cache`.
pub fn snap_cache_dirs(snap_dir: &str) -> (r: Vec<String>)
    ensures
        r@.map_values(|s: String| s@) == seq![join(snap_dir@, "common/.cache"@), join(snap_dir@, "current/.cache"@)],
{
    let mut v: Vec<String> = Vec::new();
    v.push(join_str(snap_dir, "common/.cache"));
    v.push(join_str(snap_dir, "current/.cache"));
    assert(v@.map_values(|s: String| s@) =~= seq![
        join(snap_dir@, "common/.cache"@),
        join(snap_dir@, "current/.cache"@),
    ]);
    v
}

/// How many directory levels under `~/.config` are searched for app caches.
pub const APP_CACHE_CONFIG_DEPTH: usize = 4;

/// Scans well-known application/browser cache locations under the home dir.
#[derive(Clone, Debug)]
pub struct AppCacheService {
    pub home: String,
}

impl AppCacheService {
    pub fn new(home: String) -> (r: AppCacheService)
        ensures
            r.home == home,
    {
        AppCacheService { home }
    }
}

/// The item an application cache directory becomes; empty caches are not
/// surfaced.
pub fn app_cache_item(path: &str, size: u64) -> (r: Option<ScanItem>)
    ensures
        r is None <==> size == 0,
        r matches Some(it) ==> it.id@ == path@ && it.path@ == path@ && it.size_bytes == size
            && it.last_access is None && it.kind == ItemKind::Dir && !it.requires_root,
{
    if size == 0 {
        return None;
    }
    Some(
        ScanItem {
            id: path_id(path),
            path: path.to_owned(),
            size_bytes: size,
            last_access: None,
            kind: ItemKind::Dir,
            requires_root: false,
        },
    )
}

// ---------------------------------------------------------------------------
// Developer caches
// ---------------------------------------------------------------------------

/// Detects developer caches under `search_root`.
#[derive(Clone, Debug)]
pub struct DevCacheService {
    pub search_root: String,
    pub max_depth: usize,
}

impl DevCacheService {
    pub fn new(search_root: String) -> (r: DevCacheService)
        ensures
            r.search_root == search_root,
            r.max_depth == 8,
    {
        DevCacheService { search_root, max_depth: 8 }
    }
}

/// Directory names that are always developer caches.
pub open spec fn always_dev_cache(name: Seq<char>) -> bool {
    name == "node_modules"@ || name == ".next"@ || name == ".turbo"@ || name == ".venv"@ || name
        == ".gradle"@
}

/// Whether a directory named `name` is a developer cache: the unconditional
/// names, `target` next to a `Cargo.toml`, `vendor` next to a `composer.json`.
pub open spec fn dev_cache_dir(name: Seq<char>, has_cargo_toml: bool, has_composer_json: bool) -> bool {
    always_dev_cache(name) || (name == "target"@ && has_cargo_toml) || (name == "vendor"@
        && has_composer_json)
}

pub fn is_cache_dir(name: &str, has_cargo_toml: bool, has_composer_json: bool) -> (r: bool)
    ensures
        r == dev_cache_dir(name@, has_cargo_toml, has_composer_json),
{
    let n = chars_of(name);
    if chars_eq_str(&n, "node_modules") || chars_eq_str(&n, ".next") || chars_eq_str(&n, ".turbo")
        || chars_eq_str(&n, ".venv") || chars_eq_str(&n, ".gradle") {
        return true;
    }
    proof {
        reveal_strlit("target");
        reveal_strlit("vendor");
        reveal_strlit("node_modules");
        reveal_strlit(".next");
        reveal_strlit(".turbo");
        reveal_strlit(".venv");
        reveal_strlit(".gradle");
    }
    if chars_eq_str(&n, "target") {
        assert(n@.len() == 6 && n@[0] == 't');
        assert(!always_dev_cache(n@)) by {
            assert(".turbo"@[0] == '.');
        }
        assert(n@ != "vendor"@) by {
            assert("vendor"@[0] == 'v');
        }
        return has_cargo_toml;
    }
    if chars_eq_str(&n, "vendor") {
        return has_composer_json;
    }
    false
}

/// `node_modules`, `.next`, `.turbo`, `.venv` and `.gradle` are developer
/// caches whatever files sit beside them; `target` is one exactly when a
/// `Cargo.toml` sits beside it, `vendor` exactly when a `composer.json` does.
pub proof fn law_dev_cache_names(name: Seq<char>, has_cargo_toml: bool, has_composer_json: bool)
    ensures
        name == "node_modules"@ || name == ".next"@ || name == ".turbo"@ || name == ".venv"@ || name
            == ".gradle"@ ==> dev_cache_dir(name, has_cargo_toml, has_composer_json),
        name == "target"@ ==> (dev_cache_dir(name, has_cargo_toml, has_composer_json) <==> has_cargo_toml),
        name == "vendor"@ ==> (dev_cache_dir(name, has_cargo_toml, has_composer_json)
            <==> has_composer_json),
{
    reveal_strlit("target");
    reveal_strlit("vendor");
    reveal_strlit("node_modules");
    reveal_strlit(".next");
    reveal_strlit(".turbo");
    reveal_strlit(".venv");
    reveal_strlit(".gradle");
    assert("target"@ != "vendor"@) by {
        assert("target"@[0] != "vendor"@[0]);
    }
    if name == "target"@ || name == "vendor"@ {
        assert(name[0] != '.');
        assert(".next"@[0] == '.' && ".turbo"@[0] == '.' && ".venv"@[0] == '.' && ".gradle"@[0] == '.');
        assert(name != "node_modules"@) by {
            assert(name.len() != "node_modules"@.len());
        }
    }
}

/// Directories the developer-cache search never descends into.
pub open spec fn dev_skip_descent(name: Seq<char>) -> bool {
    name == "node_modules"@ || name == ".git"@ || name == ".next"@ || name == ".turbo"@ || name
        == "target"@ || name == "vendor"@
}

/// The developer-cache search never descends into `node_modules`, `.git`,
/// `.next`, `.turbo`, `target` or `vendor`, and descends into any other
/// directory while depth is left.
pub proof fn law_dev_descent_names(name: Seq<char>)
    ensures
        name == "node_modules"@ || name == ".git"@ || name == ".next"@ || name == ".turbo"@ || name
            == "target"@ || name == "vendor"@ ==> dev_skip_descent(name),
        name != "node_modules"@ && name != ".git"@ && name != ".next"@ && name != ".turbo"@ && name
            != "target"@ && name != "vendor"@ ==> !dev_skip_descent(name),
{
}

/// Whether the developer-cache search descends into a (non-cache) directory
/// named `name` with `depth` levels left.
pub fn dev_should_descend(name: &str, depth: usize) -> (r: bool)
    ensures
        r == (depth > 0 && !dev_skip_descent(name@)),
{
    let n = chars_of(name);
    depth > 0 && !(chars_eq_str(&n, "node_modules") || chars_eq_str(&n, ".git") || chars_eq_str(
        &n,
        ".next",
    ) || chars_eq_str(&n, ".turbo") || chars_eq_str(&n, "target") || chars_eq_str(&n, "vendor"))
}

/// The item a developer cache directory becomes.
pub fn dev_cache_item(path: &str, size: u64, last_access: Option<i64>) -> (r: ScanItem)
    ensures
        r.id@ == path@,
        r.path@ == path@,
        r.size_bytes == size,
        r.last_access == last_access,
        r.kind == ItemKind::DevCache,
        !r.requires_root,
{
    ScanItem {
        id: path_id(path),
        path: path.to_owned(),
        size_bytes: size,
        last_access,
        kind: ItemKind::DevCache,
        requires_root: false,
    }
}

// ---------------------------------------------------------------------------
// Git worktrees
// ---------------------------------------------------------------------------

/// Finds git repositories under `search_root` and surfaces removable worktrees.
#[derive(Clone, Debug)]
pub struct GitService {
    pub search_root: String,
    pub max_depth: usize,
}

impl GitService {
    pub fn new(search_root: String) -> (r: GitService)
        ensures
            r.search_root == search_root,
            r.max_depth == 8,
    {
        GitService { search_root, max_depth: 8 }
    }
}

/// Directories the repository search never descends into.
pub open spec fn git_skip_descent(name: Seq<char>) -> bool {
    name == "node_modules"@ || name == "target"@ || name == ".next"@ || name == ".turbo"@ || name
        == "vendor"@ || name == ".venv"@
}

/// Whether the repository search descends into a directory named `name`
/// (`None` when the name is not valid text: it is searched).
pub fn git_should_descend(name: Option<&str>) -> (r: bool)
    ensures
        r == match name {
            Some(n) => !git_skip_descent(n@),
            None => true,
        },
{
    match name {
        None => true,
        Some(name) => {
            let n = chars_of(name);
            !(chars_eq_str(&n, "node_modules") || chars_eq_str(&n, "target") || chars_eq_str(
                &n,
                ".next",
            ) || chars_eq_str(&n, ".turbo") || chars_eq_str(&n, "vendor") || chars_eq_str(
                &n,
                ".venv",
            ))
        },
    }
}

/// Whether a linked worktree is a safe cleanup candidate. `exists`: its working
/// copy is on disk; `clean`: its status was read and shows no change and no
/// untracked file (`None` when the status could not be read); `prunable`:
/// git reports the worktree as prunable (`None` when unknown).
/// A clean existing worktree, or one git deems prunable, is surfaced; a worktree
/// with changes, or whose status is unknown, never is unless git deems it
/// prunable.
pub fn worktree_is_candidate(exists: bool, clean: Option<bool>, prunable: Option<bool>) -> (r: bool)
    ensures
        r == ((exists && clean == Some(true)) || prunable == Some(true)),
{
    let is_clean = exists && match clean {
        Some(c) => c,
        None => false,
    };
    let is_prunable = match prunable {
        Some(p) => p,
        None => false,
    };
    is_clean || is_prunable
}

/// The item a surfaced worktree becomes.
pub fn worktree_item(path: &str, size: u64) -> (r: ScanItem)
    ensures
        r.id@ == path@,
        r.path@ == path@,
        r.size_bytes == size,
        r.last_access is None,
        r.kind == ItemKind::GitWorktree,
        !r.requires_root,
{
    ScanItem {
        id: path_id(path),
        path: path.to_owned(),
        size_bytes: size,
        last_access: None,
        kind: ItemKind::GitWorktree,
        requires_root: false,
    }
}

// ---------------------------------------------------------------------------
// Services as a whole
// ---------------------------------------------------------------------------

/// A cleanup service: read-only discovery plus a dry-run plan builder.
pub trait Service {
    fn id(&self) -> ServiceId;
}

impl Service for TempService {
    fn id(&self) -> (r: ServiceId)
        ensures
            r == ServiceId::Temp,
    {
        ServiceId::Temp
    }
}

impl Service for BigFilesService {
    fn id(&self) -> (r: ServiceId)
        ensures
            r == ServiceId::BigFiles,
    {
        ServiceId::BigFiles
    }
}

impl Service for GitService {
    fn id(&self) -> (r: ServiceId)
        ensures
            r == ServiceId::GitRepos,
    {
        ServiceId::GitRepos
    }
}

impl Service for DevCacheService {
    fn id(&self) -> (r: ServiceId)
        ensures
            r == ServiceId::DevCache,
    {
        ServiceId::DevCache
    }
}

impl Service for AppCacheService {
    fn id(&self) -> (r: ServiceId)
        ensures
            r == ServiceId::AppCache,
    {
        ServiceId::AppCache
    }
}

/// Runtime configuration.
#[derive(Clone, Debug)]
pub struct Config {
    /// User home: the user-deletion zone and default search root.
    pub home: String,
    /// Root under which the big-files, git and dev-cache services search.
    pub search_root: String,
    /// Minimum age (days) for a temp file to be eligible.
    pub temp_min_age_days: u32,
    /// How many top entries the big-files service returns.
    pub big_files_top: usize,
}

impl Config {
    /// The configuration for a user whose home is `home` (`/` when unknown):
    /// search from the home, temp files older than a week, top fifty.
    pub fn for_home(home: Option<String>) -> (r: Config)
        ensures
            r.home@ == match home {
                Some(h) => h@,
                None => "/"@,
            },
            r.search_root@ == r.home@,
            r.temp_min_age_days == 7,
            r.big_files_top == 50,
    {
        let home = match home {
            Some(h) => h,
            None => "/".to_owned(),
        };
        Config { search_root: home.clone(), home, temp_min_age_days: 7, big_files_top: 50 }
    }
}

/// The configured implementation of one service.
#[derive(Clone, Debug)]
pub enum ConfiguredService {
    Temp(TempService),
    BigFiles(BigFilesService),
    Git(GitService),
    DevCache(DevCacheService),
    AppCache(AppCacheService),
}

/// Maps a service id to its configured implementation.
pub fn make_service(id: ServiceId, cfg: &Config) -> (r: ConfiguredService)
    ensures
        match id {
            ServiceId::Temp => r matches ConfiguredService::Temp(t) && t.min_age_days
                == cfg.temp_min_age_days && t.roots@.len() == 3 && t.roots@[0].path@ == "/tmp"@
                && t.roots@[0].requires_root && t.roots@[1].path@ == "/var/tmp"@ && t.roots@[1].requires_root
                && t.roots@[2].path@ == join(cfg.home@, ".cache"@) && !t.roots@[2].requires_root,
            ServiceId::BigFiles => r matches ConfiguredService::BigFiles(b) && b.root@
                == cfg.search_root@ && b.top == cfg.big_files_top,
            ServiceId::GitRepos => r matches ConfiguredService::Git(g) && g.search_root@
                == cfg.search_root@ && g.max_depth == 8,
            ServiceId::DevCache => r matches ConfiguredService::DevCache(d) && d.search_root@
                == cfg.search_root@ && d.max_depth == 8,
            ServiceId::AppCache => r matches ConfiguredService::AppCache(a) && a.home@
                == cfg.home@,
        },
{
    match id {
        ServiceId::Temp => ConfiguredService::Temp(
            TempService::with_defaults(cfg.home.as_str(), cfg.temp_min_age_days),
        ),
        ServiceId::BigFiles => ConfiguredService::BigFiles(
            BigFilesService { root: cfg.search_root.clone(), top: cfg.big_files_top },
        ),
        ServiceId::GitRepos => ConfiguredService::Git(GitService::new(cfg.search_root.clone())),
        ServiceId::DevCache => ConfiguredService::DevCache(
            DevCacheService::new(cfg.search_root.clone()),
        ),
        ServiceId::AppCache => ConfiguredService::AppCache(AppCacheService::new(cfg.home.clone())),
    }
}

} // verus!
