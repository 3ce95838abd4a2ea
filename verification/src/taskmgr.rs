//! Task-manager decisions: which process the emergency "panic kill" targets
//! (the largest memory consumer that is neither this application nor a
//! critical system process), which sensor is the CPU temperature, and how a
//! process is relaunched.
use vstd::prelude::*;
use crate::ranking::ranks_before;
use crate::smartdeps::Platform;
use crate::text::{chars_of, contains_seq, contains_str, lowercase, lowercase_of};

verus! {

/// One process: its id, name and resident memory.
#[derive(Clone, Debug, PartialEq, Eq)]
pub struct ProcRow {
    pub pid: u32,
    pub name: String,
    pub mem_bytes: u64,
}

/// Names of critical processes never panic-killed: desktop and session
/// daemons on Linux (also used on Windows), system services on macOS.
pub open spec fn protected_names(p: Platform) -> Seq<Seq<char>> {
    match p {
        Platform::MacOs => seq![
            "launchd"@,
            "kernel_task"@,
            "WindowServer"@,
            "loginwindow"@,
            "Finder"@,
            "Dock"@,
            "SystemUIServer"@,
            "coreaudiod"@,
            "cfprefsd"@,
            "mds"@,
            "mds_stores"@,
            "mdworker"@,
            "distnoted"@,
            "UserEventAgent"@,
            "configd"@,
            "securityd"@,
            "freeyourdisk"@,
            "FreeYourDisk"@,
            "sshd"@,
        ],
        _ => seq![
            "systemd"@,
            "init"@,
            "Xorg"@,
            "Xwayland"@,
            "gnome-shell"@,
            "gnome-session"@,
            "kwin"@,
            "plasmashell"@,
            "pipewire"@,
            "wireplumber"@,
            "dbus-daemon"@,
            "dbus-broker"@,
            "pulseaudio"@,
            "freeyourdisk"@,
            "memguardd"@,
            "mem-guard"@,
            "sshd"@,
        ],
    }
}

fn protected_list(p: Platform) -> (r: Vec<&'static str>)
    ensures
        r@.map_values(|s: &str| s@) == protected_names(p),
{
    let mut r: Vec<&'static str> = Vec::new();
    match p {
        Platform::MacOs => {
            r.push("launchd");
            r.push("kernel_task");
            r.push("WindowServer");
            r.push("loginwindow");
            r.push("Finder");
            r.push("Dock");
            r.push("SystemUIServer");
            r.push("coreaudiod");
            r.push("cfprefsd");
            r.push("mds");
            r.push("mds_stores");
            r.push("mdworker");
            r.push("distnoted");
            r.push("UserEventAgent");
            r.push("configd");
            r.push("securityd");
            r.push("freeyourdisk");
            r.push("FreeYourDisk");
            r.push("sshd");
        },
        _ => {
            r.push("systemd");
            r.push("init");
            r.push("Xorg");
            r.push("Xwayland");
            r.push("gnome-shell");
            r.push("gnome-session");
            r.push("kwin");
            r.push("plasmashell");
            r.push("pipewire");
            r.push("wireplumber");
            r.push("dbus-daemon");
            r.push("dbus-broker");
            r.push("pulseaudio");
            r.push("freeyourdisk");
            r.push("memguardd");
            r.push("mem-guard");
            r.push("sshd");
        },
    }
    assert(r@.map_values(|s: &str| s@) =~= protected_names(p));
    r
}

/// A process the panic kill may target: not this application's own process,
/// and a name containing none of the protected names.
pub open spec fn killable(p: Platform, row: ProcRow, self_pid: u32) -> bool {
    row.pid != self_pid && forall|k: int|
        0 <= k < protected_names(p).len() ==> !contains_seq(row.name@, #[trigger] protected_names(p)[k])
}

/// A process whose name contains a protected name of its platform is never
/// killable, and so never the panic-kill target: on macOS `launchd`,
/// `kernel_task`, `WindowServer`, `loginwindow`, `Finder`, `Dock`,
/// `SystemUIServer`, `coreaudiod`, `cfprefsd`, `mds`, `mds_stores`,
/// `mdworker`, `distnoted`, `UserEventAgent`, `configd`, `securityd`,
/// `freeyourdisk`, `FreeYourDisk`, `sshd`; elsewhere `systemd`, `init`,
/// `Xorg`, `Xwayland`, `gnome-shell`, `gnome-session`, `kwin`, `plasmashell`,
/// `pipewire`, `wireplumber`, `dbus-daemon`, `dbus-broker`, `pulseaudio`,
/// `freeyourdisk`, `memguardd`, `mem-guard`, `sshd`.
pub proof fn law_protected_never_killed(p: Platform, row: ProcRow, self_pid: u32, n: Seq<char>)
    requires
        contains_seq(row.name@, n),
        p is MacOs ==> n == "launchd"@ || n == "kernel_task"@ || n == "WindowServer"@ || n == "loginwindow"@
            || n == "Finder"@ || n == "Dock"@ || n == "SystemUIServer"@ || n == "coreaudiod"@ || n
            == "cfprefsd"@ || n == "mds"@ || n == "mds_stores"@ || n == "mdworker"@ || n == "distnoted"@
            || n == "UserEventAgent"@ || n == "configd"@ || n == "securityd"@ || n == "freeyourdisk"@ || n
            == "FreeYourDisk"@ || n == "sshd"@,
        !(p is MacOs) ==> n == "systemd"@ || n == "init"@ || n == "Xorg"@ || n == "Xwayland"@ || n
            == "gnome-shell"@ || n == "gnome-session"@ || n == "kwin"@ || n == "plasmashell"@ || n
            == "pipewire"@ || n == "wireplumber"@ || n == "dbus-daemon"@ || n == "dbus-broker"@ || n
            == "pulseaudio"@ || n == "freeyourdisk"@ || n == "memguardd"@ || n == "mem-guard"@ || n
            == "sshd"@,
    ensures
        !killable(p, row, self_pid),
{
    let names = protected_names(p);
    if p is MacOs {
        if n == "launchd"@ { assert(names[0] == n); }
        if n == "kernel_task"@ { assert(names[1] == n); }
        if n == "WindowServer"@ { assert(names[2] == n); }
        if n == "loginwindow"@ { assert(names[3] == n); }
        if n == "Finder"@ { assert(names[4] == n); }
        if n == "Dock"@ { assert(names[5] == n); }
        if n == "SystemUIServer"@ { assert(names[6] == n); }
        if n == "coreaudiod"@ { assert(names[7] == n); }
        if n == "cfprefsd"@ { assert(names[8] == n); }
        if n == "mds"@ { assert(names[9] == n); }
        if n == "mds_stores"@ { assert(names[10] == n); }
        if n == "mdworker"@ { assert(names[11] == n); }
        if n == "distnoted"@ { assert(names[12] == n); }
        if n == "UserEventAgent"@ { assert(names[13] == n); }
        if n == "configd"@ { assert(names[14] == n); }
        if n == "securityd"@ { assert(names[15] == n); }
        if n == "freeyourdisk"@ { assert(names[16] == n); }
        if n == "FreeYourDisk"@ { assert(names[17] == n); }
        if n == "sshd"@ { assert(names[18] == n); }
    } else {
        if n == "systemd"@ { assert(names[0] == n); }
        if n == "init"@ { assert(names[1] == n); }
        if n == "Xorg"@ { assert(names[2] == n); }
        if n == "Xwayland"@ { assert(names[3] == n); }
        if n == "gnome-shell"@ { assert(names[4] == n); }
        if n == "gnome-session"@ { assert(names[5] == n); }
        if n == "kwin"@ { assert(names[6] == n); }
        if n == "plasmashell"@ { assert(names[7] == n); }
        if n == "pipewire"@ { assert(names[8] == n); }
        if n == "wireplumber"@ { assert(names[9] == n); }
        if n == "dbus-daemon"@ { assert(names[10] == n); }
        if n == "dbus-broker"@ { assert(names[11] == n); }
        if n == "pulseaudio"@ { assert(names[12] == n); }
        if n == "freeyourdisk"@ { assert(names[13] == n); }
        if n == "memguardd"@ { assert(names[14] == n); }
        if n == "mem-guard"@ { assert(names[15] == n); }
        if n == "sshd"@ { assert(names[16] == n); }
    }
}

/// The memory of each process.
pub open spec fn mems(procs: Seq<ProcRow>) -> Seq<u64> {
    procs.map_values(|r: ProcRow| r.mem_bytes)
}

fn is_killable(p: Platform, row: &ProcRow, self_pid: u32) -> (r: bool)
    ensures
        r == killable(p, *row, self_pid),
{
    if row.pid == self_pid {
        return false;
    }
    let names = protected_list(p);
    let ghost nv = names@.map_values(|s: &str| s@);
    let name = chars_of(row.name.as_str());
    for k in 0..names.len()
        invariant
            nv == names@.map_values(|s: &str| s@),
            nv == protected_names(p),
            name@ == row.name@,
            forall|j: int| 0 <= j < k ==> !contains_seq(row.name@, #[trigger] nv[j]),
    {
        assert(nv[k as int] == names@[k as int]@);
        if contains_str(&name, names[k]) {
            return false;
        }
    }
    true
}

/// The panic-kill target among `procs` (the position of a row): the process
/// using the most memory among the killable ones, the earliest of equals;
/// none when no process is killable.
pub fn panic_target(p: Platform, procs: &Vec<ProcRow>, self_pid: u32) -> (r: Option<usize>)
    ensures
        r is None <==> forall|j: int| 0 <= j < procs@.len() ==> !killable(p, #[trigger] procs@[j], self_pid),
        r matches Some(i) ==> i < procs@.len() && killable(p, procs@[i as int], self_pid) && forall|j: int|
            0 <= j < procs@.len() && j != i && killable(p, #[trigger] procs@[j], self_pid) ==> ranks_before(
                mems(procs@),
                i as int,
                j,
            ),
{
    let ghost m = mems(procs@);
    let mut best: Option<usize> = None;
    for j in 0..procs.len()
        invariant
            m == mems(procs@),
            best is None <==> forall|k: int| 0 <= k < j ==> !killable(p, #[trigger] procs@[k], self_pid),
            best matches Some(i) ==> i < j && killable(p, procs@[i as int], self_pid) && forall|k: int|
                0 <= k < j && k != i && killable(p, #[trigger] procs@[k], self_pid) ==> ranks_before(m, i as int, k),
    {
        assert(m[j as int] == procs@[j as int].mem_bytes);
        if is_killable(p, &procs[j], self_pid) {
            match best {
                None => {
                    best = Some(j);
                },
                Some(i) => {
                    assert(m[i as int] == procs@[i as int].mem_bytes);
                    if procs[j].mem_bytes > procs[i].mem_bytes {
                        best = Some(j);
                        assert forall|k: int|
                            0 <= k < j + 1 && k != j && killable(p, #[trigger] procs@[k], self_pid) implies ranks_before(
                            m,
                            j as int,
                            k,
                        ) by {
                            if k != i {
                                assert(ranks_before(m, i as int, k));
                            }
                        }
                    }
                },
            }
        }
    }
    best
}

/// The CPU temperature sensor among sensors with these labels (each paired
/// with whether it has a reading): the first with a reading whose lowercased
/// label mentions a package or core-0 sensor (`package`, `tctl`, `tdie`,
/// `core 0`), else the last one with a reading mentioning a CPU driver
/// (`coretemp`, `k10temp`, `cpu`).
pub open spec fn cpu_sensor_from(labels: Seq<(Seq<char>, bool)>, fallback: Option<int>, from: int) -> Option<int>
    decreases labels.len() - from,
{
    if from >= labels.len() || from < 0 {
        fallback
    } else if !labels[from].1 {
        cpu_sensor_from(labels, fallback, from + 1)
    } else {
        let l = lowercase_of(labels[from].0);
        if contains_seq(l, "package"@) || contains_seq(l, "tctl"@) || contains_seq(l, "tdie"@)
            || contains_seq(l, "core 0"@) {
            Some(from)
        } else if contains_seq(l, "coretemp"@) || contains_seq(l, "k10temp"@) || contains_seq(l, "cpu"@) {
            cpu_sensor_from(labels, Some(from), from + 1)
        } else {
            cpu_sensor_from(labels, fallback, from + 1)
        }
    }
}

/// The views of sensor labels.
pub open spec fn label_views(labels: Seq<(String, bool)>) -> Seq<(Seq<char>, bool)> {
    labels.map_values(|e: (String, bool)| (e.0@, e.1))
}

pub fn cpu_sensor(labels: &Vec<(String, bool)>) -> (r: Option<usize>)
    ensures
        match r {
            Some(i) => cpu_sensor_from(label_views(labels@), None, 0) == Some(i as int),
            None => cpu_sensor_from(label_views(labels@), None, 0) is None,
        },
{
    let ghost lv = label_views(labels@);
    let mut fallback: Option<usize> = None;
    for i in 0..labels.len()
        invariant
            lv == label_views(labels@),
            fallback matches Some(f) ==> f < i,
            cpu_sensor_from(lv, None, 0) == cpu_sensor_from(
                lv,
                match fallback {
                    Some(f) => Some(f as int),
                    None => None,
                },
                i as int,
            ),
    {
        assert(lv[i as int] == (labels@[i as int].0@, labels@[i as int].1));
        if labels[i].1 {
            let low = lowercase(labels[i].0.as_str());
            let l = chars_of(low.as_str());
            if contains_str(&l, "package") || contains_str(&l, "tctl") || contains_str(&l, "tdie") || contains_str(
                &l,
                "core 0",
            ) {
                return Some(i);
            }
            if contains_str(&l, "coretemp") || contains_str(&l, "k10temp") || contains_str(&l, "cpu") {
                fallback = Some(i);
            }
        }
    }
    fallback
}

/// How to relaunch a killed process.
#[derive(Clone, Debug, PartialEq, Eq)]
pub struct Relaunch {
    pub program: String,
    pub args: Vec<String>,
    pub cwd: Option<String>,
}

/// The relaunch of a process from its executable, command line and working
/// directory: its executable (else the command line's first word) run with
/// the rest of the command line in the same directory; an error when there is
/// no program to run.
pub fn relaunch(exe: Option<String>, cmdline: &Vec<String>, cwd: Option<String>) -> (r: Result<Relaunch, String>)
    ensures
        (exe is None && cmdline@.len() == 0) <==> r is Err,
        r matches Err(e) ==> e@ == "no executable to relaunch"@,
        r matches Ok(l) ==> l.program@ == match exe {
            Some(x) => x@,
            None => cmdline@[0]@,
        } && l.args@ == (if cmdline@.len() > 1 {
            cmdline@.skip(1)
        } else {
            Seq::empty()
        }) && l.cwd == cwd,
{
    let program = match exe {
        Some(x) => x,
        None => {
            if cmdline.len() == 0 {
                return Err("no executable to relaunch".to_owned());
            }
            cmdline[0].clone()
        },
    };
    let mut args: Vec<String> = Vec::new();
    if cmdline.len() > 1 {
        for i in 1..cmdline.len()
            invariant
                1 <= i <= cmdline@.len(),
                args@ == cmdline@.subrange(1, i as int),
        {
            args.push(cmdline[i].clone());
            assert(args@ =~= cmdline@.subrange(1, i + 1));
        }
        assert(cmdline@.subrange(1, cmdline@.len() as int) =~= cmdline@.skip(1));
    }
    Ok(Relaunch { program, args, cwd })
}

} // verus!
