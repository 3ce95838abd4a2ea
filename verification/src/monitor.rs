//! The low-disk-space watcher's decisions: which mounts are low and which of
//! them to alert about. Debounced: a mount alerts once when it drops below
//! the threshold, and only alerts again after it has recovered above it.
use vstd::prelude::*;
use crate::text::str_eq;

verus! {

/// One poll of a mount: its capacity and available bytes.
#[derive(Clone, Debug, PartialEq, Eq)]
pub struct Reading {
    pub mount: String,
    pub total: u64,
    pub available: u64,
}

/// Free space on a mount of known capacity is below `threshold` percent.
pub open spec fn is_low(r: Reading, threshold: u8) -> bool {
    r.total > 0 && r.available * 100 < threshold * r.total
}

/// The mounts of the low readings, in order.
pub open spec fn low_mounts(readings: Seq<Reading>, threshold: u8) -> Seq<Seq<char>>
    decreases readings.len(),
{
    if readings.len() == 0 {
        Seq::empty()
    } else {
        let rest = low_mounts(readings.drop_last(), threshold);
        if is_low(readings.last(), threshold) {
            rest.push(readings.last().mount@)
        } else {
            rest
        }
    }
}

/// The low readings whose mount was not already alerted, in order.
pub open spec fn fresh_alerts(alerted: Seq<Seq<char>>, readings: Seq<Reading>, threshold: u8) -> Seq<Reading>
    decreases readings.len(),
{
    if readings.len() == 0 {
        Seq::empty()
    } else {
        let rest = fresh_alerts(alerted, readings.drop_last(), threshold);
        if is_low(readings.last(), threshold) && !alerted.contains(readings.last().mount@) {
            rest.push(readings.last())
        } else {
            rest
        }
    }
}

/// One poll of the watcher. When monitoring is enabled, the mounts now below
/// `threshold` percent free become the alerted set, and those not already in
/// `alerted` are alerted about; when disabled, nothing is alerted and the set
/// is kept as it was.
pub fn watch_step(alerted: &Vec<String>, readings: &Vec<Reading>, threshold: u8, enabled: bool) -> (r: (
    Vec<String>,
    Vec<Reading>,
))
    ensures
        enabled ==> r.0@.map_values(|s: String| s@) == low_mounts(readings@, threshold),
        enabled ==> r.1@ == fresh_alerts(alerted@.map_values(|s: String| s@), readings@, threshold),
        !enabled ==> r.0@ == alerted@ && r.1@.len() == 0,
{
    if !enabled {
        let mut keep: Vec<String> = Vec::new();
        for i in 0..alerted.len()
            invariant
                keep@ == alerted@.take(i as int),
        {
            keep.push(alerted[i].clone());
            assert(keep@ =~= alerted@.take(i + 1));
        }
        assert(alerted@.take(alerted.len() as int) =~= alerted@);
        return (keep, Vec::new());
    }
    let ghost av = alerted@.map_values(|s: String| s@);
    let mut still: Vec<String> = Vec::new();
    let mut alerts: Vec<Reading> = Vec::new();
    for i in 0..readings.len()
        invariant
            av == alerted@.map_values(|s: String| s@),
            still@.map_values(|s: String| s@) == low_mounts(readings@.take(i as int), threshold),
            alerts@ == fresh_alerts(av, readings@.take(i as int), threshold),
    {
        let r = &readings[i];
        let ghost t = readings@.take(i + 1);
        assert(t.drop_last() =~= readings@.take(i as int));
        assert(t.last() == readings@[i as int]);
        let ghost s0 = still@.map_values(|s: String| s@);
        let t = threshold as u128;
        let cap = r.total as u128;
        assert(t * cap <= 255 * 0xffff_ffff_ffff_ffff) by (nonlinear_arith)
            requires
                t <= 255,
                cap <= 0xffff_ffff_ffff_ffff,
        ;
        let low = r.total > 0 && (r.available as u128) * 100 < t * cap;
        if low {
            still.push(r.mount.clone());
            assert(still@.map_values(|s: String| s@) =~= s0.push(r.mount@));
            let mut seen = false;
            for j in 0..alerted.len()
                invariant
                    av == alerted@.map_values(|s: String| s@),
                    seen <==> exists|k: int| 0 <= k < j && av[k] == r.mount@,
            {
                assert(av[j as int] == alerted@[j as int]@);
                if str_eq(alerted[j].as_str(), r.mount.as_str()) {
                    seen = true;
                }
            }
            assert(seen <==> av.contains(r.mount@));
            if !seen {
                alerts.push(Reading { mount: r.mount.clone(), total: r.total, available: r.available });
            }
        }
    }
    assert(readings@.take(readings.len() as int) =~= readings@);
    (still, alerts)
}

/// A mount that was alerted about stays quiet while it stays low: in the next
/// poll, every alert is for a low mount that was not low (hence not in the
/// alerted set) in the previous poll.
pub proof fn law_alert_once_per_episode(previous: Seq<Reading>, current: Seq<Reading>, threshold: u8, r: Reading)
    requires
        fresh_alerts(low_mounts(previous, threshold), current, threshold).contains(r),
    ensures
        is_low(r, threshold),
        !low_mounts(previous, threshold).contains(r.mount@),
{
    lemma_fresh_alerts_members(low_mounts(previous, threshold), current, threshold, r);
}

pub proof fn lemma_fresh_alerts_members(alerted: Seq<Seq<char>>, readings: Seq<Reading>, threshold: u8, r: Reading)
    requires
        fresh_alerts(alerted, readings, threshold).contains(r),
    ensures
        is_low(r, threshold),
        !alerted.contains(r.mount@),
        readings.contains(r),
    decreases readings.len(),
{
    let rest = fresh_alerts(alerted, readings.drop_last(), threshold);
    if rest.contains(r) {
        lemma_fresh_alerts_members(alerted, readings.drop_last(), threshold, r);
        let k = choose|k: int| 0 <= k < readings.drop_last().len() && readings.drop_last()[k] == r;
        assert(readings[k] == r);
    } else {
        assert(r == readings.last());
        assert(readings[readings.len() - 1] == r);
    }
}

/// A low mount that was not alerted about is alerted about.
pub proof fn law_new_low_mount_alerts(alerted: Seq<Seq<char>>, readings: Seq<Reading>, threshold: u8, i: int)
    requires
        0 <= i < readings.len(),
        is_low(readings[i], threshold),
        !alerted.contains(readings[i].mount@),
    ensures
        fresh_alerts(alerted, readings, threshold).contains(readings[i]),
    decreases readings.len(),
{
    if i < readings.len() - 1 {
        law_new_low_mount_alerts(alerted, readings.drop_last(), threshold, i);
        assert(readings.drop_last()[i] == readings[i]);
        let rest = fresh_alerts(alerted, readings.drop_last(), threshold);
        let k = choose|k: int| 0 <= k < rest.len() && rest[k] == readings[i];
        if is_low(readings.last(), threshold) && !alerted.contains(readings.last().mount@) {
            assert(rest.push(readings.last())[k] == readings[i]);
        }
    } else {
        let f = fresh_alerts(alerted, readings, threshold);
        assert(f[f.len() - 1] == readings[i]);
    }
}

/// The alerted set the watcher holds before poll `k` of `polls` (each the
/// readings of one poll, monitoring enabled throughout, starting with nothing
/// alerted): by `watch_step`, the low mounts of the previous poll.
pub open spec fn alerted_before(polls: Seq<Seq<Reading>>, threshold: u8, k: int) -> Seq<Seq<char>> {
    if k <= 0 {
        Seq::empty()
    } else {
        low_mounts(polls[k - 1], threshold)
    }
}

/// The alerts of poll `k` of `polls` (see `alerted_before`).
pub open spec fn alerts_at(polls: Seq<Seq<Reading>>, threshold: u8, k: int) -> Seq<Reading> {
    fresh_alerts(alerted_before(polls, threshold, k), polls[k], threshold)
}

/// Over a sequence of polls, a mount alerts exactly on the polls where it is
/// low after having been at or above the threshold (or unseen) in the poll
/// before: once when it drops, and again only after it has recovered.
pub proof fn law_alerts_on_each_drop(polls: Seq<Seq<Reading>>, threshold: u8, k: int, r: Reading)
    requires
        0 <= k < polls.len(),
        polls[k].contains(r),
    ensures
        alerts_at(polls, threshold, k).contains(r) <==> (is_low(r, threshold) && (k == 0 || !low_mounts(
            polls[k - 1],
            threshold,
        ).contains(r.mount@))),
{
    let before = alerted_before(polls, threshold, k);
    if alerts_at(polls, threshold, k).contains(r) {
        lemma_fresh_alerts_members(before, polls[k], threshold, r);
    }
    if is_low(r, threshold) && (k == 0 || !low_mounts(polls[k - 1], threshold).contains(r.mount@)) {
        let i = choose|i: int| 0 <= i < polls[k].len() && polls[k][i] == r;
        assert(!before.contains(r.mount@));
        law_new_low_mount_alerts(before, polls[k], threshold, i);
    }
}

} // verus!

