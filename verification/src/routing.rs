//! Execution routing: user-owned items are deleted in-process (validated
//! against the home zone); root-owned items form a separate plan handed to the
//! privileged helper, always for permanent removal.
use vstd::prelude::*;
use crate::ipc::{
    duplicate_items, items_bytes, lemma_items_bytes_append, lemma_items_bytes_push, sum_sizes,
    DeletionPlan, Destination, ExecutionReport, ItemError, ScanItem,
};
use crate::paths::PathStyle;
use crate::smartdeps::Platform;
use crate::zones::{error_view, Zones};

verus! {

/// How paths are read on `p`: Windows paths on Windows, Unix paths elsewhere.
pub fn path_style(p: Platform) -> (r: PathStyle)
    ensures
        r == if p == Platform::Windows {
            PathStyle::Windows
        } else {
            PathStyle::Unix
        },
{
    if p == Platform::Windows {
        PathStyle::Windows
    } else {
        PathStyle::Unix
    }
}

/// User-deletion zone: anything under the user's home, paths read in `style`.
pub fn user_zones(style: PathStyle, home: &str) -> (r: Zones)
    ensures
        r.0@.len() == 1,
        r.0@[0]@ == home@,
        r.1 == style,
{
    let mut v: Vec<String> = Vec::new();
    v.push(home.to_owned());
    Zones(v, style)
}

/// The items of `items` with the given privilege requirement, in order.
pub open spec fn items_with_root(items: Seq<ScanItem>, root: bool) -> Seq<ScanItem>
    decreases items.len(),
{
    if items.len() == 0 {
        Seq::empty()
    } else {
        let rest = items_with_root(items.drop_last(), root);
        if items.last().requires_root == root {
            rest.push(items.last())
        } else {
            rest
        }
    }
}

pub proof fn lemma_split_bytes(items: Seq<ScanItem>)
    ensures
        items_bytes(items_with_root(items, true)) + items_bytes(items_with_root(items, false))
            == items_bytes(items),
        items_with_root(items, true).len() + items_with_root(items, false).len() == items.len(),
    decreases items.len(),
{
    if items.len() > 0 {
        lemma_split_bytes(items.drop_last());
        lemma_items_bytes_push(items_with_root(items.drop_last(), true), items.last());
        lemma_items_bytes_push(items_with_root(items.drop_last(), false), items.last());
    }
}

/// How a plan is carried out.
#[derive(Clone, Debug)]
pub struct Routing {
    /// The paths of the user-owned items, deleted in-process.
    pub user_paths: Vec<String>,
    /// Where the user-owned items go (the plan's destination).
    pub user_destination: Destination,
    /// The plan handed to the privileged helper, if any item requires root.
    pub root_plan: Option<DeletionPlan>,
}

/// Route a plan: the user items (in order) are deleted in-process toward the
/// plan's destination; the root items (in order), if any, form a plan for the
/// helper, always permanent, that requires root and totals their sizes.
pub fn route_plan(plan: &DeletionPlan) -> (r: Routing)
    requires
        items_bytes(plan.items@) <= u64::MAX,
    ensures
        r.user_destination == plan.destination,
        r.user_paths@.len() == items_with_root(plan.items@, false).len(),
        forall|i: int|
            0 <= i < r.user_paths@.len() ==> #[trigger] r.user_paths@[i]@ == items_with_root(
                plan.items@,
                false,
            )[i].path@,
        r.root_plan is None <==> items_with_root(plan.items@, true).len() == 0,
        r.root_plan matches Some(rp) ==> rp.items@ == items_with_root(plan.items@, true)
            && rp.destination == Destination::Permanent && rp.requires_root && rp.total_bytes
            == items_bytes(rp.items@),
{
    let mut root_items: Vec<ScanItem> = Vec::new();
    let mut user_items: Vec<ScanItem> = Vec::new();
    for i in 0..plan.items.len()
        invariant
            root_items@ == items_with_root(plan.items@.take(i as int), true),
            user_items@ == items_with_root(plan.items@.take(i as int), false),
    {
        assert(plan.items@.take(i + 1).drop_last() =~= plan.items@.take(i as int));
        let item = &plan.items[i];
        if item.requires_root {
            root_items.push(item.duplicate());
        } else {
            user_items.push(item.duplicate());
        }
    }
    assert(plan.items@.take(plan.items.len() as int) =~= plan.items@);
    let mut user_paths: Vec<String> = Vec::new();
    for i in 0..user_items.len()
        invariant
            user_paths@.len() == i,
            forall|j: int| 0 <= j < i ==> #[trigger] user_paths@[j]@ == user_items@[j].path@,
    {
        user_paths.push(user_items[i].path.clone());
    }
    let root_plan = if root_items.len() == 0 {
        None
    } else {
        proof {
            lemma_split_bytes(plan.items@);
        }
        let total_bytes = sum_sizes(&root_items);
        Some(
            DeletionPlan {
                items: root_items,
                destination: Destination::Permanent,
                total_bytes,
                requires_root: true,
            },
        )
    };
    Routing { user_paths, user_destination: plan.destination, root_plan }
}

/// Merge `other` into `into`: bytes and counts add up, errors are appended.
pub fn merge(into: &mut ExecutionReport, other: ExecutionReport)
    requires
        old(into).freed_bytes + other.freed_bytes <= u64::MAX,
        old(into).deleted_count + other.deleted_count <= usize::MAX,
    ensures
        final(into).freed_bytes == old(into).freed_bytes + other.freed_bytes,
        final(into).deleted_count == old(into).deleted_count + other.deleted_count,
        final(into).errors@ == old(into).errors@ + other.errors@,
{
    into.freed_bytes = into.freed_bytes + other.freed_bytes;
    into.deleted_count = into.deleted_count + other.deleted_count;
    let mut errs = other.errors;
    let ghost start = into.errors@;
    let ghost theirs = errs@;
    into.errors.append(&mut errs);
    assert(into.errors@ =~= start + theirs);
}

/// The report of a plan: the user part's report, plus the helper's report when
/// the plan had root items.
pub fn execute_plan(user_report: ExecutionReport, helper_report: Option<ExecutionReport>) -> (r:
    ExecutionReport)
    requires
        helper_report matches Some(h) ==> user_report.freed_bytes + h.freed_bytes <= u64::MAX
            && user_report.deleted_count + h.deleted_count <= usize::MAX,
    ensures
        match helper_report {
            None => r == user_report,
            Some(h) => r.freed_bytes == user_report.freed_bytes + h.freed_bytes && r.deleted_count
                == user_report.deleted_count + h.deleted_count && r.errors@ == user_report.errors@
                + h.errors@,
        },
{
    let mut report = user_report;
    match helper_report {
        None => {},
        Some(h) => merge(&mut report, h),
    }
    report
}

/// A report in which every item of `plan` failed with `message`.
pub fn err_report(plan: &DeletionPlan, message: &str) -> (r: ExecutionReport)
    ensures
        r.freed_bytes == 0,
        r.deleted_count == 0,
        r.errors@.len() == plan.items@.len(),
        forall|i: int|
            0 <= i < r.errors@.len() ==> (#[trigger] r.errors@[i]).path@ == plan.items@[i].path@
                && r.errors@[i].message@ == message@,
{
    let mut errors: Vec<ItemError> = Vec::new();
    for i in 0..plan.items.len()
        invariant
            errors@.len() == i,
            forall|j: int|
                0 <= j < i ==> (#[trigger] errors@[j]).path@ == plan.items@[j].path@
                    && errors@[j].message@ == message@,
    {
        errors.push(ItemError { path: plan.items[i].path.clone(), message: message.to_owned() });
    }
    ExecutionReport { freed_bytes: 0, deleted_count: 0, errors }
}

} // verus!
