//! Shared data types exchanged between the user interface, the backend and the
//! privileged helper. Paths are carried as strings.
use vstd::prelude::*;

verus! {

/// Identifies one of the cleanup services.
#[derive(Clone, Copy, Debug, PartialEq, Eq, Hash, Structural)]
pub enum ServiceId {
    Temp,
    BigFiles,
    GitRepos,
    DevCache,
    AppCache,
}

/// Where deleted items go.
#[derive(Clone, Copy, Debug, PartialEq, Eq, Structural)]
pub enum Destination {
    /// Recoverable trash (default).
    Trash,
    /// Irreversible removal (opt-in only).
    Permanent,
}

/// What a scanned item represents.
#[derive(Clone, Copy, Debug, PartialEq, Eq, Structural)]
pub enum ItemKind {
    File,
    Dir,
    GitWorktree,
    GitBranch,
    DevCache,
}

/// A single item surfaced by a scan. `id` is a stable, opaque identifier.
#[derive(Clone, Debug, PartialEq, Eq)]
pub struct ScanItem {
    pub id: String,
    pub path: String,
    pub size_bytes: u64,
    /// Unix timestamp (seconds) of last access, when available.
    pub last_access: Option<i64>,
    pub kind: ItemKind,
    /// True if removing this item requires the privileged helper.
    pub requires_root: bool,
}

/// Result of a read-only scan for a given service.
#[derive(Clone, Debug, PartialEq, Eq)]
pub struct ScanResult {
    pub service: ServiceId,
    pub items: Vec<ScanItem>,
    pub total_bytes: u64,
}

/// A dry-run plan: exactly what will be deleted, where to, and whether root is
/// required.
#[derive(Clone, Debug, PartialEq, Eq)]
pub struct DeletionPlan {
    pub items: Vec<ScanItem>,
    pub destination: Destination,
    pub total_bytes: u64,
    pub requires_root: bool,
}

/// One failure encountered while executing a plan.
#[derive(Clone, Debug, PartialEq, Eq)]
pub struct ItemError {
    pub path: String,
    pub message: String,
}

/// Outcome of executing a `DeletionPlan`.
#[derive(Clone, Debug, PartialEq, Eq)]
pub struct ExecutionReport {
    pub freed_bytes: u64,
    pub deleted_count: usize,
    pub errors: Vec<ItemError>,
}

/// Per-mount disk usage.
#[derive(Clone, Debug, PartialEq, Eq)]
pub struct MountUsage {
    pub mount: String,
    pub total: u64,
    pub used: u64,
}

/// SMART health for one physical device.
#[derive(Clone, Debug, PartialEq, Eq)]
pub struct SmartInfo {
    pub device: String,
    /// False when SMART could not be read.
    pub available: bool,
    /// SMART overall-health self-assessment (true = PASSED).
    pub passed: Option<bool>,
    /// Power-on hours.
    pub power_on_hours: Option<u64>,
    pub temperature_c: Option<i64>,
}

/// Result of a privileged dependency install.
#[derive(Clone, Debug, PartialEq, Eq)]
pub struct InstallReport {
    pub success: bool,
    pub message: String,
}

/// The sum of the sizes of `items`.
pub open spec fn items_bytes(items: Seq<ScanItem>) -> nat
    decreases items.len(),
{
    if items.len() == 0 {
        0
    } else {
        items_bytes(items.drop_last()) + (items.last().size_bytes as nat)
    }
}

/// Whether any of `items` needs the privileged helper.
pub open spec fn any_root(items: Seq<ScanItem>) -> bool {
    exists|i: int| 0 <= i < items.len() && #[trigger] items[i].requires_root
}

pub proof fn lemma_items_bytes_push(items: Seq<ScanItem>, x: ScanItem)
    ensures
        items_bytes(items.push(x)) == items_bytes(items) + x.size_bytes,
{
    assert(items.push(x).drop_last() =~= items);
}

pub proof fn lemma_items_bytes_append(a: Seq<ScanItem>, b: Seq<ScanItem>)
    ensures
        items_bytes(a + b) == items_bytes(a) + items_bytes(b),
    decreases b.len(),
{
    if b.len() == 0 {
        assert(a + b =~= a);
    } else {
        assert((a + b).drop_last() =~= a + b.drop_last());
        lemma_items_bytes_append(a, b.drop_last());
    }
}

impl ScanItem {
    /// A field-by-field copy.
    pub fn duplicate(&self) -> (r: ScanItem)
        ensures
            r == *self,
    {
        ScanItem {
            id: self.id.clone(),
            path: self.path.clone(),
            size_bytes: self.size_bytes,
            last_access: self.last_access,
            kind: self.kind,
            requires_root: self.requires_root,
        }
    }
}

impl ItemError {
    /// A field-by-field copy.
    pub fn duplicate(&self) -> (r: ItemError)
        ensures
            r == *self,
    {
        ItemError { path: self.path.clone(), message: self.message.clone() }
    }
}

impl ExecutionReport {
    /// The report of doing nothing.
    pub fn empty() -> (r: ExecutionReport)
        ensures
            r.freed_bytes == 0,
            r.deleted_count == 0,
            r.errors@.len() == 0,
    {
        ExecutionReport { freed_bytes: 0, deleted_count: 0, errors: Vec::new() }
    }
}

/// Copies of every item of `items`, in order.
pub fn duplicate_items(items: &Vec<ScanItem>) -> (r: Vec<ScanItem>)
    ensures
        r@ == items@,
{
    let mut r: Vec<ScanItem> = Vec::new();
    for i in 0..items.len()
        invariant
            r@ == items@.take(i as int),
    {
        r.push(items[i].duplicate());
        assert(items@.take(i + 1) =~= items@.take(i as int).push(items@[i as int]));
    }
    assert(items@.take(items.len() as int) =~= items@);
    r
}

/// Sum of the sizes of `items`; they must not overflow a `u64` together.
pub fn sum_sizes(items: &Vec<ScanItem>) -> (r: u64)
    requires
        items_bytes(items@) <= u64::MAX,
    ensures
        r == items_bytes(items@),
{
    let mut total: u64 = 0;
    for i in 0..items.len()
        invariant
            total == items_bytes(items@.take(i as int)),
            items_bytes(items@) <= u64::MAX,
    {
        proof {
            assert(items@.take(i + 1) =~= items@.take(i as int).push(items@[i as int]));
            lemma_items_bytes_push(items@.take(i as int), items@[i as int]);
            assert(items@ =~= items@.take(i + 1) + items@.skip(i + 1));
            lemma_items_bytes_append(items@.take(i + 1), items@.skip(i + 1));
        }
        total = total + items[i].size_bytes;
    }
    assert(items@.take(items.len() as int) =~= items@);
    total
}

/// Whether any item requires root.
pub fn any_requires_root(items: &Vec<ScanItem>) -> (r: bool)
    ensures
        r == any_root(items@),
{
    for i in 0..items.len()
        invariant
            forall|j: int| 0 <= j < i ==> !(#[trigger] items@[j]).requires_root,
    {
        if items[i].requires_root {
            return true;
        }
    }
    false
}

} // verus!
