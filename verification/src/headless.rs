//! Headless mode, run by the optional weekly timer: a non-interactive cleanup
//! of old files in the user's `~/.cache` only, never a privileged action; and
//! the file names the elevated Windows executor exchanges with its parent.
use vstd::prelude::*;
use crate::helper::{valid_token, is_valid_token};
use crate::ipc::{ExecutionReport, ScanItem};
use crate::paths::join;
use crate::routing::user_zones;
use crate::services::{TempRoot, TempService};
use crate::text::{chars_of, push_str, str_eq, strip_prefix_str, string_of};
use crate::paths::PathStyle;
use crate::zones::Zones;

verus! {

/// Outcome of a headless run.
#[derive(Clone, Debug, PartialEq, Eq)]
pub struct HeadlessOutcome {
    pub considered: usize,
    pub freed_bytes: u64,
    pub deleted_count: usize,
    pub applied: bool,
}

/// Default age threshold of the scheduled cache cleanup, in days.
pub const MIN_AGE_DAYS: u32 = 7;

/// The service a headless run scans: a single root, the home's `.cache`,
/// user-owned.
pub fn cache_service(home: &str, min_age_days: u32) -> (r: TempService)
    ensures
        r.min_age_days == min_age_days,
        r.roots@.len() == 1,
        r.roots@[0].path@ == join(home@, ".cache"@),
        !r.roots@[0].requires_root,
{
    let mut roots: Vec<TempRoot> = Vec::new();
    roots.push(TempRoot { path: crate::paths::join_str(home, ".cache"), requires_root: false });
    TempService { roots, min_age_days }
}

/// What applying a headless cleanup hands to the trash: the home as the only
/// zone (paths read in `style`), and the path of every candidate, in order.
pub fn trash_request(style: PathStyle, home: &str, candidates: &Vec<ScanItem>) -> (r: (Zones, Vec<String>))
    ensures
        r.0.0@.len() == 1,
        r.0.0@[0]@ == home@,
        r.0.1 == style,
        r.1@.len() == candidates@.len(),
        forall|i: int| 0 <= i < r.1@.len() ==> #[trigger] r.1@[i]@ == candidates@[i].path@,
{
    let zones = user_zones(style, home);
    let mut paths: Vec<String> = Vec::new();
    for i in 0..candidates.len()
        invariant
            paths@.len() == i,
            forall|j: int| 0 <= j < i ==> #[trigger] paths@[j]@ == candidates@[j].path@,
    {
        paths.push(candidates[i].path.clone());
    }
    (zones, paths)
}

/// The outcome of a headless cleanup that found `considered` candidates:
/// with `report` (the trash run, when applied) it carries what was freed and
/// deleted; a dry run (`None`) frees and deletes nothing.
pub fn cache_cleanup(considered: usize, report: &Option<ExecutionReport>) -> (r: HeadlessOutcome)
    ensures
        r.considered == considered,
        r.applied == report is Some,
        match *report {
            Some(rep) => r.freed_bytes == rep.freed_bytes && r.deleted_count == rep.deleted_count,
            None => r.freed_bytes == 0 && r.deleted_count == 0,
        },
{
    match report {
        Some(rep) => HeadlessOutcome {
            considered,
            freed_bytes: rep.freed_bytes,
            deleted_count: rep.deleted_count,
            applied: true,
        },
        None => HeadlessOutcome { considered, freed_bytes: 0, deleted_count: 0, applied: false },
    }
}

/// The service named by the first `--service=` argument (`temp` when none).
pub open spec fn requested_service(args: Seq<Seq<char>>) -> Seq<char>
    decreases args.len(),
{
    if args.len() == 0 {
        "temp"@
    } else if crate::text::starts_with(args[0], "--service="@) {
        args[0].skip(10)
    } else {
        requested_service(args.drop_first())
    }
}

/// Whether an argument is exactly `--apply`.
pub open spec fn applies(args: Seq<Seq<char>>) -> bool {
    exists|i: int| 0 <= i < args.len() && args[i] == "--apply"@
}

/// The command line of headless mode: `Err(2)` unless the requested service
/// is `temp` (the only one supported headless); otherwise whether `--apply`
/// was given (a dry run when not).
pub fn headless_args(args: &Vec<String>) -> (r: Result<bool, i32>)
    ensures
        requested_service(args@.map_values(|s: String| s@)) != "temp"@ ==> r == Err::<bool, i32>(2),
        requested_service(args@.map_values(|s: String| s@)) == "temp"@ ==> r == Ok::<bool, i32>(
            applies(args@.map_values(|s: String| s@)),
        ),
{
    let ghost av = args@.map_values(|s: String| s@);
    proof {
        reveal_strlit("--service=");
    }
    let mut service: Option<Vec<char>> = None;
    assert(av.skip(0) =~= av);
    for i in 0..args.len()
        invariant
            av == args@.map_values(|s: String| s@),
            "--service="@.len() == 10,
            match service {
                Some(s) => requested_service(av) == s@,
                None => requested_service(av) == requested_service(av.skip(i as int)),
            },
    {
        if service.is_none() {
            let a = chars_of(args[i].as_str());
            assert(av.skip(i as int)[0] == args@[i as int]@);
            assert(av.skip(i as int).drop_first() =~= av.skip(i + 1));
            match strip_prefix_str(&a, "--service=") {
                Some(rest) => {
                    service = Some(rest);
                },
                None => {},
            }
        }
    }
    let ok = match &service {
        Some(s) => crate::text::chars_eq_str(s, "temp"),
        None => {
            assert(av.skip(args.len() as int) =~= Seq::<Seq<char>>::empty());
            true
        },
    };
    if !ok {
        return Err(2);
    }
    let mut apply = false;
    for i in 0..args.len()
        invariant
            av == args@.map_values(|s: String| s@),
            apply <==> exists|k: int| 0 <= k < i && av[k] == "--apply"@,
    {
        assert(av[i as int] == args@[i as int]@);
        if str_eq(args[i].as_str(), "--apply") {
            apply = true;
        }
    }
    Ok(apply)
}

/// The files an elevated Windows run exchanges with its parent under the
/// temporary directory, named after the parent's token:
/// `fyd-<kind>-<token>-plan.json` and `fyd-<kind>-<token>-report.json`. A
/// token that is not all ASCII digits is refused, so it can never lead out of
/// the temporary directory.
pub fn exchange_files(kind: &str, token: &str) -> (r: Option<(String, String)>)
    ensures
        r is Some <==> valid_token(token@),
        r matches Some((plan, report)) ==> plan@ == "fyd-"@ + kind@ + "-"@ + token@ + "-plan.json"@
            && report@ == "fyd-"@ + kind@ + "-"@ + token@ + "-report.json"@,
{
    if !is_valid_token(token) {
        return None;
    }
    let mut plan: Vec<char> = Vec::new();
    push_str(&mut plan, "fyd-");
    push_str(&mut plan, kind);
    push_str(&mut plan, "-");
    push_str(&mut plan, token);
    push_str(&mut plan, "-plan.json");
    let mut report: Vec<char> = Vec::new();
    push_str(&mut report, "fyd-");
    push_str(&mut report, kind);
    push_str(&mut report, "-");
    push_str(&mut report, token);
    push_str(&mut report, "-report.json");
    Some((string_of(&plan), string_of(&report)))
}

/// The only zone the elevated Windows executor deletes in, written out rather
/// than taken from the (caller-influenced) environment.
pub fn windows_root_zones() -> (r: Zones)
    ensures
        r.0@.len() == 1,
        r.0@[0]@ == "C:\\Windows\\Temp"@,
        r.1 == PathStyle::Windows,
{
    let mut v: Vec<String> = Vec::new();
    v.push("C:\\Windows\\Temp".to_owned());
    Zones(v, PathStyle::Windows)
}

/// Where the elevated Windows SMART reader looks for `smartctl`, in order:
/// only its fixed install locations, never a directory of `PATH` (a planted
/// executable there would run with administrator rights).
pub fn trusted_smartctl_paths() -> (r: Vec<&'static str>)
    ensures
        r@.map_values(|p: &str| p@) == seq![
            "C:\\Program Files\\smartmontools\\bin\\smartctl.exe"@,
            "C:\\Program Files (x86)\\smartmontools\\bin\\smartctl.exe"@,
        ],
{
    let mut r: Vec<&'static str> = Vec::new();
    r.push("C:\\Program Files\\smartmontools\\bin\\smartctl.exe");
    r.push("C:\\Program Files (x86)\\smartmontools\\bin\\smartctl.exe");
    assert(r@.map_values(|p: &str| p@) =~= seq![
        "C:\\Program Files\\smartmontools\\bin\\smartctl.exe"@,
        "C:\\Program Files (x86)\\smartmontools\\bin\\smartctl.exe"@,
    ]);
    r
}

} // verus!
