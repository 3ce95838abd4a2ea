//! Deletion safety: the allowed-zone whitelist, the validation of a path
//! against it, the accounting of a deletion run, and the all-or-nothing
//! acceptance of a privileged plan.
//!
//! Every deletion path is validated against the zones before anything is
//! touched; out-of-zone paths and symlinks whose target escapes the zones are
//! refused. Resolving paths on disk is done by the caller, which hands the
//! resolved locations to these functions.
use vstd::prelude::*;
use crate::ipc::{DeletionPlan, Destination, ExecutionReport, ItemError, ScanItem};
use crate::paths::{starts_with_path_in, style_starts_with, PathStyle};
use crate::text::{chars_of, push_all, push_str, string_of};

verus! {

/// Allowed deletion zones (absolute path prefixes), and how their paths are
/// read (`/` alone on Unix and macOS; `\` or `/` after a drive on Windows). A
/// path is in-zone if its real location starts with one of them, whole
/// components only.
#[derive(Clone, Debug)]
pub struct Zones(pub Vec<String>, pub PathStyle);

/// Whether `path`, read in `style`, lies under one of `zones`.
pub open spec fn in_zones(style: PathStyle, zones: Seq<String>, path: Seq<char>) -> bool {
    exists|i: int| 0 <= i < zones.len() && style_starts_with(style, path, #[trigger] zones[i]@)
}

impl Zones {
    /// Whether `path` starts with one of the zones.
    pub fn contains(&self, path: &str) -> (r: bool)
        ensures
            r == in_zones(self.1, self.0@, path@),
    {
        let p = chars_of(path);
        for i in 0..self.0.len()
            invariant
                p@ == path@,
                forall|j: int| 0 <= j < i ==> !style_starts_with(self.1, path@, #[trigger] self.0@[j]@),
        {
            let z = chars_of(self.0[i].as_str());
            if starts_with_path_in(self.1, &p, &z) {
                return true;
            }
        }
        false
    }
}

/// Why a path was refused.
#[derive(Clone, Debug, PartialEq, Eq)]
pub enum TrashError {
    OutsideZone(String),
    SymlinkEscape(String),
    Io(String),
}

/// The human-readable message of each refusal.
pub open spec fn error_message(e: TrashError) -> Seq<char> {
    match e {
        TrashError::OutsideZone(p) => "path is outside the allowed zones: "@ + p@,
        TrashError::SymlinkEscape(p) => "symlink escapes the allowed zones: "@ + p@,
        TrashError::Io(m) => "io error: "@ + m@,
    }
}

impl TrashError {
    /// The message shown for this refusal.
    pub fn message(&self) -> (r: String)
        ensures
            r@ == error_message(*self),
    {
        let mut v: Vec<char> = Vec::new();
        match self {
            TrashError::OutsideZone(p) => {
                push_str(&mut v, "path is outside the allowed zones: ");
                push_str(&mut v, p.as_str());
            },
            TrashError::SymlinkEscape(p) => {
                push_str(&mut v, "symlink escapes the allowed zones: ");
                push_str(&mut v, p.as_str());
            },
            TrashError::Io(m) => {
                push_str(&mut v, "io error: ");
                push_str(&mut v, m.as_str());
            },
        }
        string_of(&v)
    }
}

/// What the final component of a path turned out to be on disk.
#[derive(Clone, Debug, PartialEq, Eq)]
pub enum LinkTarget {
    /// Not a symbolic link.
    NotALink,
    /// A symbolic link whose fully-resolved target is this path.
    Resolved(String),
    /// A symbolic link whose target could not be resolved (with the reason).
    Unresolved(String),
}

/// The kind of a refusal.
#[derive(Clone, Copy, Debug, PartialEq, Eq, Structural)]
pub enum RefusalKind {
    OutsideZone,
    SymlinkEscape,
    Io,
}

/// A refusal as its kind and its text.
pub open spec fn refusal_view(e: TrashError) -> (RefusalKind, Seq<char>) {
    match e {
        TrashError::OutsideZone(p) => (RefusalKind::OutsideZone, p@),
        TrashError::SymlinkEscape(p) => (RefusalKind::SymlinkEscape, p@),
        TrashError::Io(m) => (RefusalKind::Io, m@),
    }
}

/// The verdict of `validate` for `path`, given where it lies once its parent
/// directory is resolved (`lexical`: the parent's real location joined with
/// the final component, or why it could not be resolved) and what its final
/// component is.
pub open spec fn validation(
    path: Seq<char>,
    style: PathStyle,
    zones: Seq<String>,
    lexical: Result<String, String>,
    link: LinkTarget,
) -> Result<Seq<char>, (RefusalKind, Seq<char>)> {
    match lexical {
        Err(m) => Err((RefusalKind::Io, m@)),
        Ok(lex) => if !in_zones(style, zones, lex@) {
            Err((RefusalKind::OutsideZone, path))
        } else {
            match link {
                LinkTarget::NotALink => Ok(lex@),
                LinkTarget::Unresolved(m) => Err((RefusalKind::Io, m@)),
                LinkTarget::Resolved(t) => if in_zones(style, zones, t@) {
                    Ok(lex@)
                } else {
                    Err((RefusalKind::SymlinkEscape, path))
                },
            }
        },
    }
}

/// A validation result agrees with the verdict.
pub open spec fn agrees(
    r: Result<String, TrashError>,
    v: Result<Seq<char>, (RefusalKind, Seq<char>)>,
) -> bool {
    match (r, v) {
        (Ok(a), Ok(b)) => a@ == b,
        (Err(a), Err(b)) => refusal_view(a) == b,
        _ => false,
    }
}

/// Validate that `path` may be deleted given `zones`: the lexical location (the
/// real parent joined with the final component) must be in a zone, and if the
/// final component is a symlink, its resolved target must be in a zone too.
/// On success the lexical location is returned.
pub fn validate(path: &str, zones: &Zones, lexical: Result<String, String>, link: LinkTarget) -> (r:
    Result<String, TrashError>)
    ensures
        agrees(r, validation(path@, zones.1, zones.0@, lexical, link)),
        // a path that is accepted is inside the zones, and so is its link target
        r is Ok ==> lexical is Ok && in_zones(zones.1, zones.0@, lexical->Ok_0@),
        r is Ok && link is Resolved ==> in_zones(zones.1, zones.0@, link->Resolved_0@),
{
    let lex = match lexical {
        Err(m) => {
            return Err(TrashError::Io(m));
        },
        Ok(lex) => lex,
    };
    if !zones.contains(lex.as_str()) {
        return Err(TrashError::OutsideZone(path.to_owned()));
    }
    match link {
        LinkTarget::NotALink => Ok(lex),
        LinkTarget::Unresolved(m) => Err(TrashError::Io(m)),
        LinkTarget::Resolved(t) => {
            if zones.contains(t.as_str()) {
                Ok(lex)
            } else {
                Err(TrashError::SymlinkEscape(path.to_owned()))
            }
        },
    }
}

// ---------------------------------------------------------------------------
// Accounting of a deletion run
// ---------------------------------------------------------------------------

/// What happened to one path of a deletion run.
#[derive(Clone, Debug, PartialEq, Eq)]
pub enum Outcome {
    /// Validation refused the path; it was never touched.
    Refused(TrashError),
    /// The path was deleted; it occupied this many bytes.
    Deleted(u64),
    /// The deletion itself failed, with this message.
    Failed(String),
}

pub open spec fn deleted_count(outs: Seq<Outcome>) -> nat
    decreases outs.len(),
{
    if outs.len() == 0 {
        0
    } else {
        deleted_count(outs.drop_last()) + if outs.last() is Deleted {
            1nat
        } else {
            0nat
        }
    }
}

pub open spec fn freed_bytes(outs: Seq<Outcome>) -> nat
    decreases outs.len(),
{
    if outs.len() == 0 {
        0
    } else {
        freed_bytes(outs.drop_last()) + match outs.last() {
            Outcome::Deleted(n) => n as nat,
            _ => 0nat,
        }
    }
}

/// The `(path, message)` of every path that was not deleted, in order.
pub open spec fn error_entries(paths: Seq<String>, outs: Seq<Outcome>) -> Seq<(Seq<char>, Seq<char>)>
    decreases outs.len(),
{
    if outs.len() == 0 || paths.len() != outs.len() {
        Seq::empty()
    } else {
        let rest = error_entries(paths.drop_last(), outs.drop_last());
        match outs.last() {
            Outcome::Deleted(_) => rest,
            Outcome::Refused(e) => rest.push((paths.last()@, error_message(e))),
            Outcome::Failed(m) => rest.push((paths.last()@, m@)),
        }
    }
}

/// The `(path, message)` pairs of a list of item errors.
pub open spec fn error_view(errs: Seq<ItemError>) -> Seq<(Seq<char>, Seq<char>)> {
    errs.map_values(|e: ItemError| (e.path@, e.message@))
}

pub proof fn lemma_counts_bounded(outs: Seq<Outcome>)
    ensures
        deleted_count(outs) <= outs.len(),
    decreases outs.len(),
{
    if outs.len() > 0 {
        lemma_counts_bounded(outs.drop_last());
    }
}

/// What acting on a location gave, as the outcome of its path.
pub open spec fn acted(res: Result<u64, String>) -> Outcome {
    match res {
        Ok(n) => Outcome::Deleted(n),
        Err(m) => Outcome::Failed(m),
    }
}

/// `o` is what happens to `path` in a deletion run inside `zones`: `probe`
/// told where it lies and what its final component is; when `validation`
/// refuses it, `o` is that refusal; otherwise `o` is what `act` gave on its
/// validated location, which lies inside the zones.
pub open spec fn outcome_of_path<P, A>(path: String, style: PathStyle, zones: Seq<String>, probe: P, act: A, o: Outcome) -> bool where
    P: Fn(String) -> (Result<String, String>, LinkTarget),
    A: Fn(String) -> Result<u64, String>,
 {
    exists|found: (Result<String, String>, LinkTarget)|
        #[trigger] probe.ensures((path,), found) && match validation(path@, style, zones, found.0, found.1) {
            Err(v) => o matches Outcome::Refused(e) && refusal_view(e) == v,
            Ok(loc) => in_zones(style, zones, loc) && exists|at: String, res: Result<u64, String>|
                at@ == loc && #[trigger] act.ensures((at,), res) && o == acted(res),
        }
}

/// The outcome of each of `paths`, in order, in a deletion run inside
/// `zones`: each path is probed (`probe` gives its lexical location and what
/// its final component is) and validated; a refused path is never touched,
/// and `act` (which measures, then deletes or trashes, and gives the bytes
/// freed or the failure) is only ever run on the location `validation`
/// accepted for a path's own probe (which lies inside the zones): `act` may
/// require no more.
pub fn deletion_outcomes<P, A>(paths: &Vec<String>, zones: &Zones, probe: P, act: A) -> (r: Vec<Outcome>) where
    P: Fn(String) -> (Result<String, String>, LinkTarget),
    A: Fn(String) -> Result<u64, String>,

    requires
        forall|p: String| #[trigger] probe.requires((p,)),
        forall|p: String, found: (Result<String, String>, LinkTarget), at: String|
            #![trigger probe.ensures((p,), found), act.requires((at,))]
            probe.ensures((p,), found) && validation(p@, zones.1, zones.0@, found.0, found.1) == Ok::<
                Seq<char>,
                (RefusalKind, Seq<char>),
            >(at@) ==> act.requires((at,)),
    ensures
        r@.len() == paths@.len(),
        forall|i: int|
            0 <= i < r@.len() ==> outcome_of_path(paths@[i], zones.1, zones.0@, probe, act, #[trigger] r@[i]),
{
    let mut outcomes: Vec<Outcome> = Vec::new();
    for i in 0..paths.len()
        invariant
            forall|p: String| #[trigger] probe.requires((p,)),
            forall|p: String, found: (Result<String, String>, LinkTarget), at: String|
                #![trigger probe.ensures((p,), found), act.requires((at,))]
                probe.ensures((p,), found) && validation(p@, zones.1, zones.0@, found.0, found.1) == Ok::<
                    Seq<char>,
                    (RefusalKind, Seq<char>),
                >(at@) ==> act.requires((at,)),
            outcomes@.len() == i,
            forall|k: int|
                0 <= k < i ==> outcome_of_path(paths@[k], zones.1, zones.0@, probe, act, #[trigger] outcomes@[k]),
    {
        let path = paths[i].clone();
        let found = probe(path.clone());
        let ghost g = found;
        let (lexical, link) = found;
        assert(probe.ensures((paths@[i as int],), g) && lexical == g.0 && link == g.1);
        let o = match validate(path.as_str(), zones, lexical, link) {
            Err(e) => Outcome::Refused(e),
            Ok(loc) => {
                let res = act(loc.clone());
                assert(act.ensures((loc,), res));
                match res {
                    Ok(n) => Outcome::Deleted(n),
                    Err(m) => Outcome::Failed(m),
                }
            },
        };
        assert(outcome_of_path(paths@[i as int], zones.1, zones.0@, probe, act, o));
        outcomes.push(o);
    }
    outcomes
}

/// Report of a deletion run over `paths`, where `outcomes[i]` is what happened
/// to `paths[i]`: every deleted path counts once and adds its size; every other
/// path yields one error under its original path (validation refusals carry
/// the refusal's message). The freed total must fit in a `u64`.
pub fn tally(paths: &Vec<String>, outcomes: &Vec<Outcome>) -> (r: ExecutionReport)
    requires
        paths.len() == outcomes.len(),
        freed_bytes(outcomes@) <= u64::MAX,
    ensures
        r.deleted_count == deleted_count(outcomes@),
        r.freed_bytes == freed_bytes(outcomes@),
        error_view(r.errors@) == error_entries(paths@, outcomes@),
        r.deleted_count + r.errors@.len() == paths.len(),
{
    let mut report = ExecutionReport::empty();
    for i in 0..paths.len()
        invariant
            paths.len() == outcomes.len(),
            freed_bytes(outcomes@) <= u64::MAX,
            report.deleted_count == deleted_count(outcomes@.take(i as int)),
            report.freed_bytes == freed_bytes(outcomes@.take(i as int)),
            error_view(report.errors@) == error_entries(paths@.take(i as int), outcomes@.take(i as int)),
            report.deleted_count + report.errors@.len() == i,
    {
        let ghost before = error_view(report.errors@);
        assert(outcomes@.take(i + 1).drop_last() =~= outcomes@.take(i as int));
        assert(paths@.take(i + 1).drop_last() =~= paths@.take(i as int));
        assert(outcomes@.take(i + 1).last() == outcomes@[i as int]);
        assert(paths@.take(i + 1).last() == paths@[i as int]);
        proof {
            lemma_freed_prefix(outcomes@, i + 1);
            lemma_counts_bounded(outcomes@.take(i as int));
        }
        match &outcomes[i] {
            Outcome::Deleted(size) => {
                report.deleted_count = report.deleted_count + 1;
                report.freed_bytes = report.freed_bytes + *size;
            },
            Outcome::Refused(e) => {
                let msg = e.message();
                report.errors.push(ItemError { path: paths[i].clone(), message: msg });
                assert(error_view(report.errors@) =~= before.push((paths@[i as int]@, error_message(*e))));
            },
            Outcome::Failed(m) => {
                report.errors.push(ItemError { path: paths[i].clone(), message: m.clone() });
                assert(error_view(report.errors@) =~= before.push((paths@[i as int]@, m@)));
            },
        }
    }
    assert(outcomes@.take(paths.len() as int) =~= outcomes@);
    assert(paths@.take(paths.len() as int) =~= paths@);
    report
}

/// Report of moving `paths` to the trash (recoverable), where `outcomes[i]`
/// is what happened to `paths[i]`: refused by `validate` (never touched), or
/// trashed after its size was measured, or failed (see `tally`).
pub fn to_trash(paths: &Vec<String>, outcomes: &Vec<Outcome>) -> (r: ExecutionReport)
    requires
        paths.len() == outcomes.len(),
        freed_bytes(outcomes@) <= u64::MAX,
    ensures
        r.deleted_count == deleted_count(outcomes@),
        r.freed_bytes == freed_bytes(outcomes@),
        error_view(r.errors@) == error_entries(paths@, outcomes@),
{
    tally(paths, outcomes)
}

/// Report of deleting `paths` permanently (irreversible, opt-in only), where
/// `outcomes[i]` is what happened to `paths[i]`: refused by `validate` (never
/// touched), or removed after its size was measured, or failed (see `tally`).
pub fn delete_permanent(paths: &Vec<String>, outcomes: &Vec<Outcome>) -> (r: ExecutionReport)
    requires
        paths.len() == outcomes.len(),
        freed_bytes(outcomes@) <= u64::MAX,
    ensures
        r.deleted_count == deleted_count(outcomes@),
        r.freed_bytes == freed_bytes(outcomes@),
        error_view(r.errors@) == error_entries(paths@, outcomes@),
{
    tally(paths, outcomes)
}

pub proof fn lemma_freed_prefix(outs: Seq<Outcome>, k: int)
    requires
        0 <= k <= outs.len(),
    ensures
        freed_bytes(outs.take(k)) <= freed_bytes(outs),
    decreases outs.len() - k,
{
    if k < outs.len() {
        lemma_freed_prefix(outs, k + 1);
        assert(outs.take(k + 1).drop_last() =~= outs.take(k));
    } else {
        assert(outs.take(k) =~= outs);
    }
}

// ---------------------------------------------------------------------------
// All-or-nothing acceptance of a privileged plan
// ---------------------------------------------------------------------------

/// The refusals among the validation results of `items`, in order, each as
/// `(item path, refusal message)`.
pub open spec fn refusals(items: Seq<ScanItem>, checks: Seq<Result<String, TrashError>>) -> Seq<
    (Seq<char>, Seq<char>),
>
    decreases checks.len(),
{
    if checks.len() == 0 || items.len() != checks.len() {
        Seq::empty()
    } else {
        let rest = refusals(items.drop_last(), checks.drop_last());
        match checks.last() {
            Ok(_) => rest,
            Err(e) => rest.push((items.last().path@, error_message(e))),
        }
    }
}

pub proof fn lemma_no_refusals(items: Seq<ScanItem>, checks: Seq<Result<String, TrashError>>)
    requires
        items.len() == checks.len(),
    ensures
        refusals(items, checks).len() == 0 <==> (forall|i: int|
            0 <= i < checks.len() ==> #[trigger] checks[i] is Ok),
    decreases checks.len(),
{
    if checks.len() > 0 {
        let n = checks.len() - 1;
        let d = checks.drop_last();
        lemma_no_refusals(items.drop_last(), d);
        assert forall|i: int| 0 <= i < n implies #[trigger] d[i] == checks[i] by {}
        if checks[n] is Ok {
            if forall|i: int| 0 <= i < d.len() ==> #[trigger] d[i] is Ok {
                assert forall|i: int| 0 <= i < checks.len() implies #[trigger] checks[i] is Ok by {
                    if i < n {
                        assert(d[i] is Ok);
                    }
                }
            }
            if forall|i: int| 0 <= i < checks.len() ==> #[trigger] checks[i] is Ok {
                assert forall|i: int| 0 <= i < d.len() implies #[trigger] d[i] is Ok by {
                    assert(checks[i] is Ok);
                }
            }
        } else {
            assert(refusals(items, checks).len() > 0);
        }
    }
}

/// What the privileged executor does with a plan once every path has been
/// validated: either the whole batch is accepted (the destination and the
/// paths to act on) or it is refused.
#[derive(Clone, Debug, PartialEq, Eq)]
pub enum RootDecision {
    Accept(Destination, Vec<String>),
    Refuse(ExecutionReport),
}

/// Decide a privileged plan, where `checks[i]` is the validation of
/// `plan.items[i]`. All-or-nothing: if any path was refused, nothing is
/// executed and the refusal report lists every refused path (no bytes freed,
/// nothing deleted); otherwise every path of the plan is executed toward the
/// plan's destination.
pub fn execute_root_plan(plan: &DeletionPlan, checks: &Vec<Result<String, TrashError>>) -> (r:
    RootDecision)
    requires
        checks.len() == plan.items.len(),
    ensures
        (r is Refuse) <==> (exists|i: int| 0 <= i < checks.len() && #[trigger] checks@[i] is Err),
        r matches RootDecision::Refuse(rep) ==> rep.freed_bytes == 0 && rep.deleted_count == 0
            && error_view(rep.errors@) == refusals(plan.items@, checks@) && rep.errors@.len() > 0,
        r matches RootDecision::Accept(dest, paths) ==> dest == plan.destination && paths@.len()
            == plan.items@.len() && (forall|i: int|
            0 <= i < paths@.len() ==> #[trigger] paths@[i]@ == plan.items@[i].path@),
{
    let mut errors: Vec<ItemError> = Vec::new();
    for i in 0..checks.len()
        invariant
            checks.len() == plan.items.len(),
            error_view(errors@) == refusals(plan.items@.take(i as int), checks@.take(i as int)),
    {
        let ghost before = error_view(errors@);
        assert(checks@.take(i + 1).drop_last() =~= checks@.take(i as int));
        assert(plan.items@.take(i + 1).drop_last() =~= plan.items@.take(i as int));
        assert(checks@.take(i + 1).last() == checks@[i as int]);
        assert(plan.items@.take(i + 1).last() == plan.items@[i as int]);
        match &checks[i] {
            Ok(_) => {},
            Err(e) => {
                let msg = e.message();
                errors.push(ItemError { path: plan.items[i].path.clone(), message: msg });
                assert(error_view(errors@) =~= before.push((plan.items@[i as int].path@, error_message(*e))));
            },
        }
    }
    assert(checks@.take(checks.len() as int) =~= checks@);
    assert(plan.items@.take(checks.len() as int) =~= plan.items@);
    proof {
        lemma_no_refusals(plan.items@, checks@);
    }
    if errors.len() > 0 {
        assert(error_view(errors@).len() > 0);
        return RootDecision::Refuse(ExecutionReport { freed_bytes: 0, deleted_count: 0, errors });
    }
    let mut paths: Vec<String> = Vec::new();
    for i in 0..plan.items.len()
        invariant
            paths@.len() == i,
            forall|j: int| 0 <= j < i ==> #[trigger] paths@[j]@ == plan.items@[j].path@,
    {
        paths.push(plan.items[i].path.clone());
    }
    RootDecision::Accept(plan.destination, paths)
}

} // verus!
