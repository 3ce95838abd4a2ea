//! Batch uninstall and update of applications: what a request for a list of
//! ids turns into on each platform. Ids are vetted against the live inventory
//! first; the work is then a list of steps carried out in order, each of
//! whose outcome is recorded in the report.
use vstd::prelude::*;
use crate::apps::{
    accepted_ids, rejections, split_ids, uninstall_commands_for, uninstall_plan, update_commands_for, update_plan,
    validate_against_inventory, with_prefix, AppActionReport, AppEntry, LabeledCommand, one_if_any, source_ids,
};
use crate::helper::strings;
use crate::smartdeps::Platform;
use crate::winapps::{
    msix_result_for, msix_uninstall, registry_target, registry_target_of, winget_result_for, winget_update_step,
    RegistryTarget,
};

verus! {

/// One step of a batch action.
#[derive(Clone, Debug, PartialEq, Eq)]
pub enum ActionStep {
    /// Run this command; its outcome is recorded under its label.
    Run(LabeledCommand),
    /// Record this refusal; nothing runs.
    Refuse(String),
    /// Remove this AppImage or application folder, once its resolved
    /// location is found inside an allowed base directory.
    RemoveAppImage(String),
    /// Move this app bundle to the Trash, once its resolved location is found
    /// under an Applications folder (see `mac_trash_step`).
    TrashBundle(String),
    /// Uninstall a registry application: its key (registry id without the
    /// `registry:` prefix) is looked up, then see `registry_uninstall`.
    RegistryUninstall(String, RegistryTarget),
}

/// A batch action: the report so far (the refusals of the vetting) and the
/// steps to carry out, in order.
#[derive(Clone, Debug, PartialEq, Eq)]
pub struct AppWork {
    pub report: AppActionReport,
    pub steps: Vec<ActionStep>,
}

/// The command of a `Run` step.
pub open spec fn run_of(s: ActionStep) -> LabeledCommand {
    s->Run_0
}

/// A `Run` or `Refuse` step as the result it stands for.
pub open spec fn as_result(s: ActionStep) -> Option<Result<LabeledCommand, String>> {
    match s {
        ActionStep::Run(c) => Some(Ok(c)),
        ActionStep::Refuse(e) => Some(Err(e)),
        _ => None,
    }
}

fn step_of(r: Result<LabeledCommand, String>) -> (s: ActionStep)
    ensures
        as_result(s) == Some(r),
{
    match r {
        Ok(c) => ActionStep::Run(c),
        Err(e) => ActionStep::Refuse(e),
    }
}

/// Append a `Run` step for each command, in order.
fn push_runs(steps: &mut Vec<ActionStep>, cmds: Vec<LabeledCommand>)
    ensures
        final(steps)@.len() == old(steps)@.len() + cmds@.len(),
        forall|j: int| 0 <= j < old(steps)@.len() ==> #[trigger] final(steps)@[j] == old(steps)@[j],
        forall|j: int|
            0 <= j < cmds@.len() ==> #[trigger] final(steps)@[old(steps)@.len() + j] == ActionStep::Run(cmds@[j]),
{
    let ghost start = steps@;
    let ghost all = cmds@;
    let n = cmds.len();
    let mut rest = cmds;
    let mut done: usize = 0;
    while rest.len() > 0
        invariant
            all.len() == n,
            done + rest@.len() == all.len(),
            rest@ == all.skip(done as int),
            steps@.len() == start.len() + done,
            forall|j: int| 0 <= j < start.len() ==> #[trigger] steps@[j] == start[j],
            forall|j: int| 0 <= j < done ==> #[trigger] steps@[start.len() + j] == ActionStep::Run(all[j]),
        decreases rest@.len(),
    {
        let c = rest.remove(0);
        assert(c == all[done as int]);
        assert(rest@ =~= all.skip(done + 1));
        steps.push(ActionStep::Run(c));
        done = done + 1;
    }
}

/// The number of uninstall commands for the vetted ids `known`.
pub open spec fn uninstall_count(known: Seq<Seq<char>>) -> int {
    one_if_any(source_ids(known, "apt:"@)) + source_ids(known, "snap:"@).len() + one_if_any(
        source_ids(known, "flatpak:"@),
    )
}

/// Batch update of the applications `ids`, given the current inventory.
/// macOS bundles have no update channel: nothing is done. Elsewhere, ids not
/// in the inventory are refused first; on Linux the vetted ids become the
/// update commands of `update_commands_for`; on Windows each vetted id becomes
/// its winget upgrade (or its refusal), in order.
pub fn update(platform: Platform, ids: &Vec<String>, inventory: &Vec<AppEntry>) -> (r: AppWork)
    ensures
        r.report.succeeded@.len() == 0,
        platform == Platform::MacOs ==> r.report.errors@.len() == 0 && r.steps@.len() == 0,
        platform != Platform::MacOs ==> strings(r.report.errors@) == rejections(inventory@, ids@, false),
        platform == Platform::Linux ==> (forall|i: int| 0 <= i < r.steps@.len() ==> #[trigger] r.steps@[i] is Run)
            && update_commands_for(
            accepted_ids(inventory@, ids@, false),
            r.steps@.map_values(|s: ActionStep| run_of(s)),
        ),
        platform == Platform::Windows ==> r.steps@.len() == accepted_ids(inventory@, ids@, false).len() && forall|
            i: int,
        |
            0 <= i < r.steps@.len() ==> (as_result(#[trigger] r.steps@[i]) matches Some(res) && winget_result_for(
                accepted_ids(inventory@, ids@, false)[i],
                inventory@,
                res,
            )),
{
    let mut report = AppActionReport::new();
    let mut steps: Vec<ActionStep> = Vec::new();
    if platform == Platform::MacOs {
        return AppWork { report, steps };
    }
    let known = validate_against_inventory(ids, &mut report, false, inventory);
    assert(strings(report.errors@) =~= rejections(inventory@, ids@, false));
    let ghost kv = strings(known@);
    if platform == Platform::Linux {
        let cmds = update_plan(&known);
        let ghost all = cmds@;
        push_runs(&mut steps, cmds);
        assert forall|j: int| 0 <= j < steps@.len() implies #[trigger] steps@[j] is Run && run_of(steps@[j]) == all[j] by {
            assert(steps@[0 + j] == ActionStep::Run(all[j]));
        }
        assert(steps@.map_values(|s: ActionStep| run_of(s)) =~= all);
    } else {
        for i in 0..known.len()
            invariant
                kv == strings(known@),
                steps@.len() == i,
                forall|j: int|
                    0 <= j < i ==> (as_result(#[trigger] steps@[j]) matches Some(res) && winget_result_for(
                        kv[j],
                        inventory@,
                        res,
                    )),
        {
            assert(kv[i as int] == known@[i as int]@);
            let res = winget_update_step(known[i].as_str(), inventory);
            steps.push(step_of(res));
        }
    }
    AppWork { report, steps }
}

/// The registry target of a step.
pub open spec fn target_view(t: RegistryTarget) -> (Seq<char>, Seq<char>, crate::winapps::Hive, Seq<char>) {
    (t.label@, t.subkey@, t.hive, t.path@)
}

/// `s` is the step for registry id `rest`: its uninstall when the id
/// resolves, its refusal otherwise.
pub open spec fn registry_step_for(rest: Seq<char>, s: ActionStep) -> bool {
    match registry_target_of(rest) {
        Ok(t) => s matches ActionStep::RegistryUninstall(r, tgt) && r@ == rest && target_view(tgt) == t,
        Err(e) => s matches ActionStep::Refuse(m) && m@ == e,
    }
}

/// Batch uninstall of the applications `ids`, given the current inventory.
/// Ids not in the inventory, and protected system components, are refused
/// first. On Linux the vetted ids become the uninstall commands of
/// `uninstall_commands_for`, then the removal of each vetted AppImage or app
/// folder; on macOS each vetted bundle is trashed; on Windows each vetted
/// registry app is uninstalled with its own command (or refused when its id
/// does not resolve), then each vetted MSIX package is removed (or refused).
pub fn uninstall(platform: Platform, ids: &Vec<String>, inventory: &Vec<AppEntry>) -> (r: AppWork)
    ensures
        r.report.succeeded@.len() == 0,
        strings(r.report.errors@) == rejections(inventory@, ids@, true),
        platform == Platform::Linux ==> ({
            let known = accepted_ids(inventory@, ids@, true);
            let n = uninstall_count(known);
            let paths = with_prefix(known, "appimage:"@);
            &&& r.steps@.len() == n + paths.len()
            &&& forall|i: int| 0 <= i < n ==> #[trigger] r.steps@[i] is Run
            &&& uninstall_commands_for(known, r.steps@.take(n).map_values(|s: ActionStep| run_of(s)))
            &&& forall|j: int|
                0 <= j < paths.len() ==> (#[trigger] r.steps@[n + j] matches ActionStep::RemoveAppImage(p) && p@
                    == paths[j])
        }),
        platform == Platform::MacOs ==> ({
            let bundles = with_prefix(accepted_ids(inventory@, ids@, true), "app:"@);
            &&& r.steps@.len() == bundles.len()
            &&& forall|j: int|
                0 <= j < bundles.len() ==> (#[trigger] r.steps@[j] matches ActionStep::TrashBundle(p) && p@
                    == bundles[j])
        }),
        platform == Platform::Windows ==> ({
            let known = accepted_ids(inventory@, ids@, true);
            let reg = with_prefix(known, "registry:"@);
            let msix = with_prefix(known, "msix:"@);
            &&& r.steps@.len() == reg.len() + msix.len()
            &&& forall|j: int| 0 <= j < reg.len() ==> registry_step_for(reg[j], #[trigger] r.steps@[j])
            &&& forall|k: int|
                0 <= k < msix.len() ==> (as_result(#[trigger] r.steps@[reg.len() + k]) matches Some(res)
                    && msix_result_for(msix[k], res))
        }),
{
    let mut report = AppActionReport::new();
    let known = validate_against_inventory(ids, &mut report, true, inventory);
    assert(strings(report.errors@) =~= rejections(inventory@, ids@, true));
    let ghost kv = strings(known@);
    let mut steps: Vec<ActionStep> = Vec::new();
    match platform {
        Platform::Linux => {
            let plan = uninstall_plan(&known);
            let ghost cmds = plan.commands@;
            let ghost n = cmds.len();
            push_runs(&mut steps, plan.commands);
            assert forall|i: int| 0 <= i < n implies #[trigger] steps@[i] == ActionStep::Run(cmds[i]) by {
                assert(steps@[0 + i] == ActionStep::Run(cmds[i]));
            }
            let paths = plan.appimage_paths;
            let ghost pv = strings(paths@);
            for j in 0..paths.len()
                invariant
                    pv == strings(paths@),
                    steps@.len() == n + j,
                    forall|i: int| 0 <= i < n ==> #[trigger] steps@[i] == ActionStep::Run(cmds[i]),
                    forall|k: int|
                        0 <= k < j ==> (#[trigger] steps@[n + k] matches ActionStep::RemoveAppImage(p) && p@ == pv[k]),
            {
                assert(pv[j as int] == paths@[j as int]@);
                steps.push(ActionStep::RemoveAppImage(paths[j].clone()));
            }
            let ghost head = steps@.take(n as int).map_values(|s: ActionStep| run_of(s));
            assert(head =~= cmds) by {
                assert forall|i: int| 0 <= i < n implies #[trigger] head[i] == cmds[i] by {
                    assert(steps@[i] == ActionStep::Run(cmds[i]));
                }
            }
            assert forall|i: int| 0 <= i < n implies #[trigger] steps@[i] is Run by {
                assert(steps@[i] == ActionStep::Run(cmds[i]));
            }
        },
        Platform::MacOs => {
            let bundles = split_ids(&known, "app:");
            let ghost bv = strings(bundles@);
            for j in 0..bundles.len()
                invariant
                    bv == strings(bundles@),
                    steps@.len() == j,
                    forall|k: int| 0 <= k < j ==> (#[trigger] steps@[k] matches ActionStep::TrashBundle(p) && p@ == bv[k]),
            {
                assert(bv[j as int] == bundles@[j as int]@);
                steps.push(ActionStep::TrashBundle(bundles[j].clone()));
            }
        },
        Platform::Windows => {
            let reg = split_ids(&known, "registry:");
            let ghost rv = strings(reg@);
            for j in 0..reg.len()
                invariant
                    rv == strings(reg@),
                    steps@.len() == j,
                    forall|k: int| 0 <= k < j ==> registry_step_for(rv[k], #[trigger] steps@[k]),
            {
                assert(rv[j as int] == reg@[j as int]@);
                let step = match registry_target(reg[j].as_str()) {
                    Ok(t) => ActionStep::RegistryUninstall(reg[j].clone(), t),
                    Err(e) => ActionStep::Refuse(e),
                };
                steps.push(step);
            }
            let msix = split_ids(&known, "msix:");
            let ghost mv = strings(msix@);
            let ghost nr = rv.len();
            for k in 0..msix.len()
                invariant
                    mv == strings(msix@),
                    nr == rv.len(),
                    steps@.len() == nr + k,
                    forall|m: int| 0 <= m < nr ==> registry_step_for(rv[m], #[trigger] steps@[m]),
                    forall|m: int|
                        0 <= m < k ==> (as_result(#[trigger] steps@[nr + m]) matches Some(res) && msix_result_for(
                            mv[m],
                            res,
                        )),
            {
                assert(mv[k as int] == msix@[k as int]@);
                let res = msix_uninstall(msix[k].as_str());
                steps.push(step_of(res));
            }
        },
    }
    AppWork { report, steps }
}

} // verus!
