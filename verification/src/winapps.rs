//! The application inventory and its actions on Windows (classic apps from
//! the registry's Uninstall keys, Store/MSIX packages, winget updates) and on
//! macOS (`.app` bundles).
use vstd::prelude::*;
use crate::apps::{app_view, command, concat, opt_view, push_owned, AppEntry, LabeledCommand};
use crate::helper::{strings, CommandSpec};
use crate::paths::{file_name, file_name_of, split_ext, stem_and_extension};
use crate::text::{
    chars_eq_str, chars_of, contains_str, has_prefix_str, is_whitespace, lines, lines_of_str, lowercase,
    lowercase_of, push_all, push_str, str_eq, string_of, trim, trim_chars, trim_end, trim_end_chars, views,
    contains_seq, starts_with,
};

verus! {

/// A present value that is not blank.
pub open spec fn nonblank(o: Option<String>) -> bool {
    o matches Some(s) && trim(s@).len() > 0
}

/// The value when present and not blank.
pub open spec fn nonblank_value(o: Option<String>) -> Option<Seq<char>> {
    if nonblank(o) {
        opt_view(o)
    } else {
        None
    }
}

fn is_nonblank(o: &Option<String>) -> (r: bool)
    ensures
        r == nonblank(*o),
{
    match o {
        Some(s) => {
            let c = chars_of(s.as_str());
            let t = trim_chars(&c);
            t.len() > 0
        },
        None => false,
    }
}

fn nonblank_copy(o: &Option<String>) -> (r: Option<String>)
    ensures
        opt_view(r) == nonblank_value(*o),
{
    if is_nonblank(o) {
        match o {
            Some(s) => Some(s.clone()),
            None => None,
        }
    } else {
        None
    }
}

// ---------------------------------------------------------------------------
// Registry (classic Win32 applications)
// ---------------------------------------------------------------------------

/// A predefined registry hive.
#[derive(Clone, Copy, Debug, PartialEq, Eq, Structural)]
pub enum Hive {
    LocalMachine,
    CurrentUser,
}

/// The hive and Uninstall base path an id's hive label names: `HKLM` is the
/// 64-bit machine view, `HKLM32` the 32-bit (WOW6432Node) one, `HKCU` the
/// user's; any other label names none.
pub open spec fn hive_of(label: Seq<char>) -> Option<(Hive, Seq<char>)> {
    if label == "HKLM"@ {
        Some((Hive::LocalMachine, "SOFTWARE\\Microsoft\\Windows\\CurrentVersion\\Uninstall"@))
    } else if label == "HKLM32"@ {
        Some((Hive::LocalMachine, "SOFTWARE\\WOW6432Node\\Microsoft\\Windows\\CurrentVersion\\Uninstall"@))
    } else if label == "HKCU"@ {
        Some((Hive::CurrentUser, "SOFTWARE\\Microsoft\\Windows\\CurrentVersion\\Uninstall"@))
    } else {
        None
    }
}

pub fn registry_hive(label: &str) -> (r: Option<(Hive, &'static str)>)
    ensures
        match r {
            Some((h, base)) => hive_of(label@) == Some((h, base@)),
            None => hive_of(label@) is None,
        },
{
    if str_eq(label, "HKLM") {
        Some((Hive::LocalMachine, "SOFTWARE\\Microsoft\\Windows\\CurrentVersion\\Uninstall"))
    } else if str_eq(label, "HKLM32") {
        Some((Hive::LocalMachine, "SOFTWARE\\WOW6432Node\\Microsoft\\Windows\\CurrentVersion\\Uninstall"))
    } else if str_eq(label, "HKCU") {
        Some((Hive::CurrentUser, "SOFTWARE\\Microsoft\\Windows\\CurrentVersion\\Uninstall"))
    } else {
        None
    }
}

/// The hives enumerated, in order, with whether removing their apps needs
/// administrator rights (machine-wide hives do).
pub fn registry_hives() -> (r: Vec<(&'static str, bool)>)
    ensures
        r@.map_values(|e: (&str, bool)| (e.0@, e.1)) == seq![("HKLM"@, true), ("HKLM32"@, true), ("HKCU"@, false)],
{
    let mut r: Vec<(&'static str, bool)> = Vec::new();
    r.push(("HKLM", true));
    r.push(("HKLM32", true));
    r.push(("HKCU", false));
    assert(r@.map_values(|e: (&str, bool)| (e.0@, e.1)) =~= seq![
        ("HKLM"@, true),
        ("HKLM32"@, true),
        ("HKCU"@, false),
    ]);
    r
}

/// The values read from one Uninstall subkey (each absent when missing or of
/// another type).
#[derive(Clone, Debug, PartialEq, Eq)]
pub struct RegistryValues {
    pub subkey: String,
    pub display_name: Option<String>,
    pub system_component: Option<u32>,
    pub quiet_uninstall: Option<String>,
    pub uninstall: Option<String>,
    pub display_version: Option<String>,
    pub estimated_size_kb: Option<u32>,
}

/// The application a subkey of hive `label` describes: one with a display
/// name, not a hidden system component, and with an uninstall command (else
/// it is an update or a patch). Its size is the estimated size in KiB.
pub open spec fn registry_view_of(label: Seq<char>, requires_root: bool, v: RegistryValues) -> Option<
    (Seq<char>, Seq<char>, Seq<char>, Option<Seq<char>>, u64, bool, bool),
> {
    if nonblank(v.display_name) && v.system_component != Some(1u32) && (nonblank(v.quiet_uninstall) || nonblank(
        v.uninstall,
    )) {
        Some(
            (
                "registry:"@ + label + ":"@ + v.subkey@,
                v.display_name->0@,
                "registry"@,
                nonblank_value(v.display_version),
                (match v.estimated_size_kb {
                    Some(kb) => kb as u64,
                    None => 0,
                } * 1024) as u64,
                requires_root,
                false,
            ),
        )
    } else {
        None
    }
}

pub fn registry_entry(label: &str, requires_root: bool, v: &RegistryValues) -> (r: Option<AppEntry>)
    ensures
        match r {
            Some(e) => registry_view_of(label@, requires_root, *v) == Some(app_view(e)),
            None => registry_view_of(label@, requires_root, *v) is None,
        },
{
    if !is_nonblank(&v.display_name) {
        return None;
    }
    match v.system_component {
        Some(c) => {
            if c == 1 {
                return None;
            }
        },
        None => {},
    }
    if !is_nonblank(&v.quiet_uninstall) && !is_nonblank(&v.uninstall) {
        return None;
    }
    let name = match &v.display_name {
        Some(n) => n.clone(),
        None => String::new(),
    };
    let kb: u64 = match v.estimated_size_kb {
        Some(k) => k as u64,
        None => 0,
    };
    let mut id: Vec<char> = Vec::new();
    push_str(&mut id, "registry:");
    push_str(&mut id, label);
    push_str(&mut id, ":");
    push_str(&mut id, v.subkey.as_str());
    Some(
        AppEntry {
            id: string_of(&id),
            name,
            source: "registry".to_owned(),
            version: nonblank_copy(&v.display_version),
            size_bytes: kb * 1024,
            requires_root,
            protected: false,
        },
    )
}

/// The subkeys of one hive, as read.
#[derive(Clone, Debug, PartialEq, Eq)]
pub struct HiveListing {
    pub label: String,
    pub requires_root: bool,
    pub keys: Vec<RegistryValues>,
}

/// The applications of a hive listing, in key order.
pub open spec fn listing_apps(h: HiveListing) -> Seq<(Seq<char>, Seq<char>, Seq<char>, Option<Seq<char>>, u64, bool, bool)> {
    crate::text::keep_some(h.keys@, |v: RegistryValues| registry_view_of(h.label@, h.requires_root, v))
}

/// The applications of every hive listing, hive after hive.
pub open spec fn hives_apps(hs: Seq<HiveListing>) -> Seq<(Seq<char>, Seq<char>, Seq<char>, Option<Seq<char>>, u64, bool, bool)>
    decreases hs.len(),
{
    if hs.len() == 0 {
        Seq::empty()
    } else {
        hives_apps(hs.drop_last()) + listing_apps(hs.last())
    }
}

/// The first application of each (name, version), in order.
pub open spec fn first_of_each(apps: Seq<(Seq<char>, Seq<char>, Seq<char>, Option<Seq<char>>, u64, bool, bool)>) -> Seq<
    (Seq<char>, Seq<char>, Seq<char>, Option<Seq<char>>, u64, bool, bool),
>
    decreases apps.len(),
{
    if apps.len() == 0 {
        Seq::empty()
    } else {
        let rest = first_of_each(apps.drop_last());
        let a = apps.last();
        if exists|k: int| 0 <= k < apps.len() - 1 && apps[k].1 == a.1 && apps[k].3 == a.3 {
            rest
        } else {
            rest.push(a)
        }
    }
}

fn same_version(a: &Option<String>, b: &Option<String>) -> (r: bool)
    ensures
        r == (opt_view(*a) == opt_view(*b)),
{
    match (a, b) {
        (Some(x), Some(y)) => str_eq(x.as_str(), y.as_str()),
        (None, None) => true,
        _ => false,
    }
}

/// The classic applications of the Uninstall keys of every hive (listed in
/// the order of `registry_hives`), the same (name, version) surfaced in
/// several hives kept once, at its first appearance.
pub fn detect_registry(hives: &Vec<HiveListing>) -> (r: Vec<AppEntry>)
    ensures
        r@.map_values(|e: AppEntry| app_view(e)) == first_of_each(hives_apps(hives@)),
{
    let mut all: Vec<AppEntry> = Vec::new();
    for h in 0..hives.len()
        invariant
            all@.map_values(|e: AppEntry| app_view(e)) == hives_apps(hives@.take(h as int)),
    {
        let hv = &hives[h];
        let ghost start = all@.map_values(|e: AppEntry| app_view(e));
        assert(hives@.take(h + 1).drop_last() =~= hives@.take(h as int));
        assert(hives@.take(h + 1).last() == hives@[h as int]);
        for k in 0..hv.keys.len()
            invariant
                hv == hives@[h as int],
                all@.map_values(|e: AppEntry| app_view(e)) == start + crate::text::keep_some(
                    hv.keys@.take(k as int),
                    |v: RegistryValues| registry_view_of(hv.label@, hv.requires_root, v),
                ),
        {
            let ghost before = all@.map_values(|e: AppEntry| app_view(e));
            assert(hv.keys@.take(k + 1).drop_last() =~= hv.keys@.take(k as int));
            assert(hv.keys@.take(k + 1).last() == hv.keys@[k as int]);
            match registry_entry(hv.label.as_str(), hv.requires_root, &hv.keys[k]) {
                Some(e) => {
                    all.push(e);
                    assert(all@.map_values(|e: AppEntry| app_view(e)) =~= before.push(app_view(e)));
                },
                None => {},
            }
        }
        assert(hv.keys@.take(hv.keys.len() as int) =~= hv.keys@);
    }
    assert(hives@.take(hives.len() as int) =~= hives@);
    let ghost av = all@.map_values(|e: AppEntry| app_view(e));
    let mut out: Vec<AppEntry> = Vec::new();
    for i in 0..all.len()
        invariant
            av == all@.map_values(|e: AppEntry| app_view(e)),
            out@.map_values(|e: AppEntry| app_view(e)) == first_of_each(av.take(i as int)),
    {
        let ghost t = av.take(i + 1);
        assert(t.drop_last() =~= av.take(i as int));
        assert(t.last() == av[i as int]);
        let mut dup = false;
        for k in 0..i
            invariant
                i < all@.len(),
                av == all@.map_values(|e: AppEntry| app_view(e)),
                dup <==> exists|j: int| 0 <= j < k && av[j].1 == av[i as int].1 && av[j].3 == av[i as int].3,
        {
            assert(av[k as int] == app_view(all@[k as int]));
            assert(av[i as int] == app_view(all@[i as int]));
            if str_eq(all[k].name.as_str(), all[i].name.as_str()) && same_version(&all[k].version, &all[i].version) {
                dup = true;
            }
        }
        assert(dup <==> exists|j: int| 0 <= j < t.len() - 1 && t[j].1 == t.last().1 && t[j].3 == t.last().3) by {
            if dup {
                let j = choose|j: int| 0 <= j < i && av[j].1 == av[i as int].1 && av[j].3 == av[i as int].3;
                assert(t[j] == av[j]);
            }
            if exists|j: int| 0 <= j < t.len() - 1 && t[j].1 == t.last().1 && t[j].3 == t.last().3 {
                let j = choose|j: int| 0 <= j < t.len() - 1 && t[j].1 == t.last().1 && t[j].3 == t.last().3;
                assert(t[j] == av[j]);
            }
        }
        if !dup {
            let ghost before = out@.map_values(|e: AppEntry| app_view(e));
            out.push(all[i].duplicate());
            assert(out@.map_values(|e: AppEntry| app_view(e)) =~= before.push(av[i as int]));
        }
    }
    assert(av.take(all.len() as int) =~= av);
    out
}

/// A registry id's target: `registry:<HIVE>:<subkey>` with the prefix
/// already removed (`rest`), split at its first `:`.
#[derive(Clone, Debug, PartialEq, Eq)]
pub struct RegistryTarget {
    pub label: String,
    pub subkey: String,
    pub hive: Hive,
    /// The subkey's path under the hive.
    pub path: String,
}

/// Position of the first `:` of `s`, or -1.
pub open spec fn first_colon(s: Seq<char>) -> int
    decreases s.len(),
{
    if s.len() == 0 {
        -1
    } else if s[0] == ':' {
        0
    } else if first_colon(s.drop_first()) < 0 {
        -1
    } else {
        first_colon(s.drop_first()) + 1
    }
}

pub proof fn lemma_first_colon(s: Seq<char>)
    ensures
        -1 <= first_colon(s) < s.len(),
        first_colon(s) >= 0 ==> s[first_colon(s)] == ':',
        forall|j: int| 0 <= j < s.len() && (first_colon(s) < 0 || j < first_colon(s)) ==> s[j] != ':',
    decreases s.len(),
{
    if s.len() > 0 && s[0] != ':' {
        lemma_first_colon(s.drop_first());
        assert forall|j: int| 0 <= j < s.len() && (first_colon(s) < 0 || j < first_colon(s)) implies s[j]
            != ':' by {
            if j > 0 {
                assert(s[j] == s.drop_first()[j - 1]);
            }
        }
    }
}

/// How a registry id is resolved, or why it is refused.
pub open spec fn registry_target_of(rest: Seq<char>) -> Result<(Seq<char>, Seq<char>, Hive, Seq<char>), Seq<char>> {
    let i = first_colon(rest);
    if i < 0 {
        Err("refused (bad id): registry:"@ + rest)
    } else {
        let label = rest.take(i);
        let subkey = rest.skip(i + 1);
        match hive_of(label) {
            None => Err("refused (unknown hive): registry:"@ + rest),
            Some((hive, base)) => if subkey.len() == 0 {
                Err("refused (empty subkey): registry:"@ + rest)
            } else {
                Ok((label, subkey, hive, base + "\\"@ + subkey))
            },
        }
    }
}

/// The target of a registry id (see `registry_target_of`).
pub fn registry_target(rest: &str) -> (r: Result<RegistryTarget, String>)
    ensures
        match r {
            Ok(t) => registry_target_of(rest@) == Ok::<_, Seq<char>>((t.label@, t.subkey@, t.hive, t.path@)),
            Err(e) => registry_target_of(rest@) == Err::<(Seq<char>, Seq<char>, Hive, Seq<char>), _>(e@),
        },
{
    let c = chars_of(rest);
    proof {
        lemma_first_colon(c@);
    }
    let mut i: usize = 0;
    while i < c.len() && c[i] != ':'
        invariant
            i <= c@.len(),
            forall|j: int| 0 <= j < i ==> c@[j] != ':',
        decreases c.len() - i,
    {
        i = i + 1;
    }
    if i == c.len() {
        assert(first_colon(c@) < 0) by {
            if first_colon(c@) >= 0 {
                assert(c@[first_colon(c@)] == ':');
            }
        }
        return Err(concat("refused (bad id): registry:", &c));
    }
    assert(first_colon(c@) == i) by {
        if first_colon(c@) < 0 {
            assert(c@[i as int] != ':');
        } else if first_colon(c@) < i {
            assert(c@[first_colon(c@)] == ':');
        }
    }
    let label = string_of(&crate::text::take_chars(&c, i));
    let sub = crate::text::skip_chars(&c, i + 1);
    match registry_hive(label.as_str()) {
        None => Err(concat("refused (unknown hive): registry:", &c)),
        Some((hive, base)) => {
            if sub.len() == 0 {
                return Err(concat("refused (empty subkey): registry:", &c));
            }
            let mut p: Vec<char> = Vec::new();
            push_str(&mut p, base);
            push_str(&mut p, "\\");
            push_all(&mut p, &sub);
            Ok(RegistryTarget { label, subkey: string_of(&sub), hive, path: string_of(&p) })
        },
    }
}

/// The uninstall of a registry app whose subkey was looked up (`None` when it
/// was not found; otherwise its quiet and plain uninstall commands): its own
/// quiet command when not blank, else its plain one, run by `cmd /C` as one
/// argument and reported as `uninstall <HIVE>:<subkey>`; the command always
/// comes from the key (written by the app's installer), never from a request.
pub fn registry_uninstall(rest: &str, target: &RegistryTarget, found: &Option<(Option<String>, Option<String>)>) -> (r:
    Result<LabeledCommand, String>)
    ensures
        found is None ==> (r matches Err(e) && e@ == "registry:"@ + rest@ + ": subkey not found"@),
        *found matches Some((q, p)) ==> if nonblank(q) || nonblank(p) {
            r matches Ok(c) && c.label@ == "uninstall "@ + target.label@ + ":"@ + target.subkey@
                && c.command.program@ == "cmd"@ && strings(c.command.args@) == seq![
                "/C"@,
                if nonblank(q) {
                    q->0@
                } else {
                    p->0@
                },
            ] && c.command.env@.len() == 0
        } else {
            r matches Err(e) && e@ == "registry:"@ + rest@ + ": no uninstall command"@
        },
{
    match found {
        None => {
            let mut m: Vec<char> = Vec::new();
            push_str(&mut m, "registry:");
            push_str(&mut m, rest);
            push_str(&mut m, ": subkey not found");
            Err(string_of(&m))
        },
        Some((q, p)) => {
            let cmd_str = if is_nonblank(q) {
                nonblank_copy(q)
            } else if is_nonblank(p) {
                nonblank_copy(p)
            } else {
                None
            };
            match cmd_str {
                None => {
                    let mut m: Vec<char> = Vec::new();
                    push_str(&mut m, "registry:");
                    push_str(&mut m, rest);
                    push_str(&mut m, ": no uninstall command");
                    Err(string_of(&m))
                },
                Some(s) => {
                    let mut fixed: Vec<String> = Vec::new();
                    push_owned(&mut fixed, "/C");
                    push_owned(&mut fixed, s.as_str());
                    let empty: Vec<String> = Vec::new();
                    assert(strings(empty@) =~= Seq::<Seq<char>>::empty());
                    let c = command("cmd", fixed, &empty);
                    let mut label: Vec<char> = Vec::new();
                    push_str(&mut label, "uninstall ");
                    push_str(&mut label, target.label.as_str());
                    push_str(&mut label, ":");
                    push_str(&mut label, target.subkey.as_str());
                    Ok(LabeledCommand { label: string_of(&label), command: c })
                },
            }
        },
    }
}

// ---------------------------------------------------------------------------
// MSIX / Store packages
// ---------------------------------------------------------------------------

/// PowerShell by absolute path, so no search path or profile can substitute it.
pub open spec fn powershell_path() -> Seq<char> {
    "C:\\Windows\\System32\\WindowsPowerShell\\v1.0\\powershell.exe"@
}

/// One package of the `Get-AppxPackage` listing.
#[derive(Clone, Debug, PartialEq, Eq)]
pub struct AppxPackage {
    pub name: Option<String>,
    pub package_full_name: Option<String>,
    pub version: Option<String>,
    pub install_location: Option<String>,
    pub non_removable: Option<bool>,
    pub signature_kind: Option<String>,
}

/// Where a package's size is measured: its install location, when not blank.
pub fn msix_location(pkg: &AppxPackage) -> (r: Option<String>)
    ensures
        opt_view(r) == nonblank_value(pkg.install_location),
{
    nonblank_copy(&pkg.install_location)
}

/// The application a package is: one with a name and a full name, not an OS
/// framework (signature kind `System`); removed per user; protected when not
/// removable; `size` is the measured size of its install location (0 when it
/// has none).
pub open spec fn msix_view_of(pkg: AppxPackage, size: u64) -> Option<
    (Seq<char>, Seq<char>, Seq<char>, Option<Seq<char>>, u64, bool, bool),
> {
    if nonblank(pkg.name) && nonblank(pkg.package_full_name) && opt_view(pkg.signature_kind) != Some("System"@) {
        Some(
            (
                "msix:"@ + pkg.package_full_name->0@,
                pkg.name->0@,
                "msix"@,
                nonblank_value(pkg.version),
                size,
                false,
                match pkg.non_removable {
                    Some(b) => b,
                    None => false,
                },
            ),
        )
    } else {
        None
    }
}

pub fn msix_entry(pkg: &AppxPackage, size: u64) -> (r: Option<AppEntry>)
    ensures
        match r {
            Some(e) => msix_view_of(*pkg, size) == Some(app_view(e)),
            None => msix_view_of(*pkg, size) is None,
        },
{
    if !is_nonblank(&pkg.name) || !is_nonblank(&pkg.package_full_name) {
        return None;
    }
    match &pkg.signature_kind {
        Some(k) => {
            if str_eq(k.as_str(), "System") {
                return None;
            }
        },
        None => {},
    }
    let name = match &pkg.name {
        Some(n) => n.clone(),
        None => String::new(),
    };
    let pfn = match &pkg.package_full_name {
        Some(p) => p.clone(),
        None => String::new(),
    };
    let mut id: Vec<char> = Vec::new();
    push_str(&mut id, "msix:");
    push_str(&mut id, pfn.as_str());
    Some(
        AppEntry {
            id: string_of(&id),
            name,
            source: "msix".to_owned(),
            version: nonblank_copy(&pkg.version),
            size_bytes: size,
            requires_root: false,
            protected: match pkg.non_removable {
                Some(b) => b,
                None => false,
            },
        },
    )
}

/// The MSIX applications of a package listing, where `sizes[i]` is the
/// measured size of package `i`, in order.
pub fn detect_msix(pkgs: &Vec<AppxPackage>, sizes: &Vec<u64>) -> (r: Vec<AppEntry>)
    requires
        pkgs.len() == sizes.len(),
    ensures
        r@.map_values(|e: AppEntry| app_view(e)) == msix_apps(pkgs@, sizes@),
{
    let mut apps: Vec<AppEntry> = Vec::new();
    for i in 0..pkgs.len()
        invariant
            pkgs.len() == sizes.len(),
            apps@.map_values(|e: AppEntry| app_view(e)) == msix_apps(pkgs@.take(i as int), sizes@.take(i as int)),
    {
        let ghost before = apps@.map_values(|e: AppEntry| app_view(e));
        assert(pkgs@.take(i + 1).drop_last() =~= pkgs@.take(i as int));
        assert(sizes@.take(i + 1).drop_last() =~= sizes@.take(i as int));
        assert(pkgs@.take(i + 1).last() == pkgs@[i as int]);
        assert(sizes@.take(i + 1).last() == sizes@[i as int]);
        match msix_entry(&pkgs[i], sizes[i]) {
            Some(e) => {
                apps.push(e);
                assert(apps@.map_values(|e: AppEntry| app_view(e)) =~= before.push(app_view(e)));
            },
            None => {},
        }
    }
    assert(pkgs@.take(pkgs.len() as int) =~= pkgs@);
    assert(sizes@.take(sizes.len() as int) =~= sizes@);
    apps
}

/// The applications of a package listing with its sizes, in order.
pub open spec fn msix_apps(pkgs: Seq<AppxPackage>, sizes: Seq<u64>) -> Seq<
    (Seq<char>, Seq<char>, Seq<char>, Option<Seq<char>>, u64, bool, bool),
>
    decreases pkgs.len(),
{
    if pkgs.len() == 0 || sizes.len() != pkgs.len() {
        Seq::empty()
    } else {
        let rest = msix_apps(pkgs.drop_last(), sizes.drop_last());
        match msix_view_of(pkgs.last(), sizes.last()) {
            Some(a) => rest.push(a),
            None => rest,
        }
    }
}

/// A package full name safe to hand to PowerShell: non-empty, ASCII letters,
/// digits, `.`, `_` and `-` only.
pub open spec fn valid_pfn_text(pfn: Seq<char>) -> bool {
    pfn.len() > 0 && forall|i: int|
        0 <= i < pfn.len() ==> {
            let c = #[trigger] pfn[i];
            ('a' <= c <= 'z') || ('A' <= c <= 'Z') || ('0' <= c <= '9') || c == '.' || c == '_' || c == '-'
        }
}

pub fn valid_pfn(pfn: &str) -> (r: bool)
    ensures
        r == valid_pfn_text(pfn@),
{
    let c = chars_of(pfn);
    if c.len() == 0 {
        return false;
    }
    for i in 0..c.len()
        invariant
            c@ == pfn@,
            forall|j: int|
                0 <= j < i ==> {
                    let d = #[trigger] c@[j];
                    ('a' <= d <= 'z') || ('A' <= d <= 'Z') || ('0' <= d <= '9') || d == '.' || d == '_' || d == '-'
                },
    {
        let d = c[i];
        if !(('a' <= d && d <= 'z') || ('A' <= d && d <= 'Z') || ('0' <= d && d <= '9') || d == '.' || d == '_'
            || d == '-') {
            return false;
        }
    }
    true
}

/// The removal of an MSIX package: refused unless its full name is valid;
/// otherwise `Remove-AppxPackage -Package '<pfn>'` run by PowerShell without
/// profile or interaction, reported as `uninstall msix:<pfn>`.
/// `r` is the removal of MSIX package `pfn` (see `msix_uninstall`).
pub open spec fn msix_result_for(pfn: Seq<char>, r: Result<LabeledCommand, String>) -> bool {
    if !valid_pfn_text(pfn) {
        r matches Err(e) && e@ == "refused (bad package name): msix:"@ + pfn
    } else {
        r matches Ok(c) && c.label@ == "uninstall msix:"@ + pfn && c.command.program@ == powershell_path()
            && strings(c.command.args@) == seq![
            "-NoProfile"@,
            "-NonInteractive"@,
            "-Command"@,
            "Remove-AppxPackage -Package '"@ + pfn + "'"@,
        ] && c.command.env@.len() == 0
    }
}

pub fn msix_uninstall(pfn: &str) -> (r: Result<LabeledCommand, String>)
    ensures
        msix_result_for(pfn@, r),
{
    if !valid_pfn(pfn) {
        return Err(concat("refused (bad package name): msix:", &chars_of(pfn)));
    }
    let mut script: Vec<char> = Vec::new();
    push_str(&mut script, "Remove-AppxPackage -Package '");
    push_str(&mut script, pfn);
    push_str(&mut script, "'");
    let s = string_of(&script);
    let mut fixed: Vec<String> = Vec::new();
    push_owned(&mut fixed, "-NoProfile");
    push_owned(&mut fixed, "-NonInteractive");
    push_owned(&mut fixed, "-Command");
    push_owned(&mut fixed, s.as_str());
    let empty: Vec<String> = Vec::new();
    assert(strings(empty@) =~= Seq::<Seq<char>>::empty());
    let c = command("C:\\Windows\\System32\\WindowsPowerShell\\v1.0\\powershell.exe", fixed, &empty);
    assert(strings(c.args@) =~= seq![
        "-NoProfile"@,
        "-NonInteractive"@,
        "-Command"@,
        "Remove-AppxPackage -Package '"@ + pfn@ + "'"@,
    ]);
    Ok(LabeledCommand { label: concat("uninstall msix:", &chars_of(pfn)), command: c })
}

// ---------------------------------------------------------------------------
// winget updates
// ---------------------------------------------------------------------------

/// Position of the first run of two spaces in `s`, or -1.
pub open spec fn double_space(s: Seq<char>) -> int
    decreases s.len(),
{
    if s.len() < 2 {
        -1
    } else if s[0] == ' ' && s[1] == ' ' {
        0
    } else if double_space(s.drop_first()) < 0 {
        -1
    } else {
        double_space(s.drop_first()) + 1
    }
}

/// The text before the first run of two spaces (all of it when none).
pub open spec fn name_column(s: Seq<char>) -> Seq<char> {
    if double_space(s) < 0 {
        s
    } else {
        s.take(double_space(s))
    }
}

pub proof fn lemma_double_space(s: Seq<char>)
    ensures
        double_space(s) == -1 || 0 <= double_space(s) < s.len() - 1,
        double_space(s) >= 0 ==> s[double_space(s)] == ' ' && s[double_space(s) + 1] == ' ',
        forall|j: int|
            0 <= j < s.len() - 1 && (double_space(s) < 0 || j < double_space(s)) ==> !(#[trigger] s[j] == ' '
                && s[j + 1] == ' '),
    decreases s.len(),
{
    if s.len() >= 2 && !(s[0] == ' ' && s[1] == ' ') {
        lemma_double_space(s.drop_first());
        assert forall|j: int|
            0 <= j < s.len() - 1 && (double_space(s) < 0 || j < double_space(s)) implies !(#[trigger] s[j] == ' '
            && s[j + 1] == ' ') by {
            if j > 0 {
                assert(s[j] == s.drop_first()[j - 1] && s[j + 1] == s.drop_first()[j]);
            }
        }
    }
}

fn name_column_of(s: &Vec<char>) -> (r: Vec<char>)
    ensures
        r@ == name_column(s@),
{
    proof {
        lemma_double_space(s@);
    }
    let mut i: usize = 0;
    while s.len() > 0 && i < s.len() - 1 && !(s[i] == ' ' && s[i + 1] == ' ')
        invariant
            i <= s@.len(),
            forall|j: int| 0 <= j < i && j < s@.len() - 1 ==> !(#[trigger] s@[j] == ' ' && s@[j + 1] == ' '),
        decreases s.len() - i,
    {
        i = i + 1;
    }
    if s.len() > 0 && i < s.len() - 1 {
        assert(double_space(s@) == i) by {
            if double_space(s@) < 0 || double_space(s@) > i {
                assert(s@[i as int] == ' ' && s@[i + 1] == ' ');
            } else if double_space(s@) < i {
                let d = double_space(s@);
                assert(s@[d] == ' ' && s@[d + 1] == ' ');
            }
        }
        crate::text::take_chars(s, i)
    } else {
        assert(double_space(s@) < 0) by {
            if double_space(s@) >= 0 {
                let d = double_space(s@);
                assert(s@[d] == ' ' && s@[d + 1] == ' ');
                assert(d < i);
            }
        }
        crate::text::copy_chars(s)
    }
}

/// The Name column of the rows of a `winget upgrade` table, read from line
/// `ls[0]` on: rows start after the dashed separator and end at the first
/// blank line; footer rows (starting with a digit and mentioning `upgrade`)
/// are skipped; the name is what precedes the first run of two spaces.
pub open spec fn winget_names(ls: Seq<Seq<char>>, in_table: bool) -> Seq<Seq<char>>
    decreases ls.len(),
{
    if ls.len() == 0 {
        Seq::empty()
    } else {
        let line = trim_end(ls[0]);
        let rest = ls.drop_first();
        if !in_table {
            winget_names(rest, starts_with(line, "---"@))
        } else {
            let t = trim(line);
            if t.len() == 0 {
                Seq::empty()
            } else if ('0' <= t[0] && t[0] <= '9') && contains_seq(lowercase_of(t), "upgrade"@) {
                winget_names(rest, true)
            } else {
                let name = trim(name_column(line));
                if name.len() > 0 {
                    seq![name] + winget_names(rest, true)
                } else {
                    winget_names(rest, true)
                }
            }
        }
    }
}

/// The names of the upgradable packages of a `winget upgrade` output.
pub fn parse_winget_upgrade_names(out: &str) -> (r: Vec<String>)
    ensures
        r@.map_values(|s: String| s@) == winget_names(lines(out@), false),
{
    let ls = lines_of_str(out);
    let ghost lv = views(ls@);
    let mut names: Vec<String> = Vec::new();
    let mut in_table = false;
    let mut i: usize = 0;
    assert(lv.skip(0) =~= lv);
    while i < ls.len()
        invariant
            i <= ls@.len(),
            lv == views(ls@),
            lv == lines(out@),
            winget_names(lv, false) == names@.map_values(|s: String| s@) + winget_names(lv.skip(i as int), in_table),
        decreases ls.len() - i,
    {
        let ghost cur = lv.skip(i as int);
        assert(cur[0] == ls@[i as int]@);
        assert(cur.drop_first() =~= lv.skip(i + 1));
        let line = trim_end_chars(&ls[i]);
        if !in_table {
            if has_prefix_str(&line, "---") {
                in_table = true;
            }
            i = i + 1;
        } else {
            let t = trim_chars(&line);
            assert(trim(trim_end(ls@[i as int]@)) == t@);
            if t.len() == 0 {
                assert(lv.skip(ls.len() as int) =~= Seq::<Seq<char>>::empty());
                assert(winget_names(cur, true) =~= Seq::<Seq<char>>::empty());
                i = ls.len();
                assert(winget_names(lv.skip(i as int), true) =~= Seq::<Seq<char>>::empty());
                assert(names@.map_values(|s: String| s@) + Seq::<Seq<char>>::empty() =~= names@.map_values(
                    |s: String| s@,
                ));
                in_table = false;
                assert(winget_names(lv.skip(i as int), false) =~= Seq::<Seq<char>>::empty());
            } else {
                let footer = if '0' <= t[0] && t[0] <= '9' {
                    let low = lowercase(string_of(&t).as_str());
                    let lc = chars_of(low.as_str());
                    contains_str(&lc, "upgrade")
                } else {
                    false
                };
                if !footer {
                    let col = name_column_of(&line);
                    let name = trim_chars(&col);
                    if name.len() > 0 {
                        let ghost before = names@.map_values(|s: String| s@);
                        names.push(string_of(&name));
                        assert(names@.map_values(|s: String| s@) =~= before.push(name@));
                        assert(seq![name@] + winget_names(lv.skip(i + 1), true) =~= winget_names(cur, true));
                        assert(before + winget_names(cur, true) =~= before.push(name@) + winget_names(
                            lv.skip(i + 1),
                            true,
                        ));
                    }
                }
                i = i + 1;
            }
        }
    }
    assert(lv.skip(ls.len() as int) =~= Seq::<Seq<char>>::empty());
    assert(names@.map_values(|s: String| s@) + Seq::<Seq<char>>::empty() =~= names@.map_values(|s: String| s@));
    names
}

/// Whether the lowercased `name` is one of the lowercased `names`.
pub open spec fn named_in(names: Seq<Seq<char>>, name: Seq<char>) -> bool {
    exists|j: int| 0 <= j < names.len() && lowercase_of(names[j]) == lowercase_of(name)
}

/// The ids of the inventory entries whose name is one of `names`, ignoring
/// case, in inventory order.
pub open spec fn upgradable_ids(names: Seq<Seq<char>>, inventory: Seq<AppEntry>) -> Seq<Seq<char>>
    decreases inventory.len(),
{
    if inventory.len() == 0 {
        Seq::empty()
    } else {
        let rest = upgradable_ids(names, inventory.drop_last());
        if named_in(names, inventory.last().name@) {
            rest.push(inventory.last().id@)
        } else {
            rest
        }
    }
}

/// The ids of the applications winget reports as upgradable: winget's names
/// are matched to inventory names regardless of case; unmatched names are
/// dropped.
pub fn winget_updates(names: &Vec<String>, inventory: &Vec<AppEntry>) -> (r: Vec<String>)
    ensures
        r@.map_values(|s: String| s@) == upgradable_ids(names@.map_values(|s: String| s@), inventory@),
{
    let ghost nv = names@.map_values(|s: String| s@);
    let mut lower: Vec<String> = Vec::new();
    for j in 0..names.len()
        invariant
            nv == names@.map_values(|s: String| s@),
            lower@.len() == j,
            forall|k: int| 0 <= k < j ==> #[trigger] lower@[k]@ == lowercase_of(nv[k]),
    {
        assert(nv[j as int] == names@[j as int]@);
        lower.push(lowercase(names[j].as_str()));
    }
    let mut out: Vec<String> = Vec::new();
    for i in 0..inventory.len()
        invariant
            nv == names@.map_values(|s: String| s@),
            lower@.len() == nv.len(),
            forall|k: int| 0 <= k < lower@.len() ==> #[trigger] lower@[k]@ == lowercase_of(nv[k]),
            out@.map_values(|s: String| s@) == upgradable_ids(nv, inventory@.take(i as int)),
    {
        assert(inventory@.take(i + 1).drop_last() =~= inventory@.take(i as int));
        assert(inventory@.take(i + 1).last() == inventory@[i as int]);
        let n = lowercase(inventory[i].name.as_str());
        let mut hit = false;
        for k in 0..lower.len()
            invariant
                lower@.len() == nv.len(),
                forall|m: int| 0 <= m < lower@.len() ==> #[trigger] lower@[m]@ == lowercase_of(nv[m]),
                n@ == lowercase_of(inventory@[i as int].name@),
                hit <==> exists|m: int| 0 <= m < k && lowercase_of(nv[m]) == n@,
        {
            assert(lower@[k as int]@ == lowercase_of(nv[k as int]));
            if str_eq(lower[k].as_str(), n.as_str()) {
                hit = true;
            }
        }
        if hit {
            let ghost before = out@.map_values(|s: String| s@);
            out.push(inventory[i].id.clone());
            assert(out@.map_values(|s: String| s@) =~= before.push(inventory@[i as int].id@));
        }
    }
    assert(inventory@.take(inventory.len() as int) =~= inventory@);
    out
}

/// The first inventory entry with id `id`.
pub open spec fn entry_index(inventory: Seq<AppEntry>, id: Seq<char>) -> int
    decreases inventory.len(),
{
    if inventory.len() == 0 {
        -1
    } else if entry_index(inventory.drop_last(), id) >= 0 {
        entry_index(inventory.drop_last(), id)
    } else if inventory.last().id@ == id {
        inventory.len() - 1
    } else {
        -1
    }
}

pub proof fn lemma_entry_index(inventory: Seq<AppEntry>, id: Seq<char>, p: int)
    requires
        0 <= p <= inventory.len(),
        forall|j: int| 0 <= j < p ==> #[trigger] inventory[j].id@ != id,
        p < inventory.len() ==> inventory[p].id@ == id,
    ensures
        entry_index(inventory, id) == if p < inventory.len() {
            p
        } else {
            -1
        },
    decreases inventory.len(),
{
    if inventory.len() > 0 {
        let d = inventory.drop_last();
        if p < inventory.len() - 1 {
            lemma_entry_index(d, id, p);
        } else {
            assert forall|j: int| 0 <= j < d.len() implies #[trigger] d[j].id@ != id by {
                assert(d[j] == inventory[j]);
            }
            lemma_entry_index(d, id, d.len() as int);
        }
    }
}

/// The winget upgrade of application `id`: refused when it is not in the
/// inventory or when its name is blank or starts with `-` (it would read as an
/// option); otherwise `winget upgrade --silent ... --name <name>`, reported as
/// `winget upgrade <name>`.
/// `r` is the winget upgrade of application `id` (see `winget_update_step`).
pub open spec fn winget_result_for(id: Seq<char>, inventory: Seq<AppEntry>, r: Result<LabeledCommand, String>) -> bool {
    if entry_index(inventory, id) < 0 {
        r matches Err(e) && e@ == id + ": not found in inventory"@
    } else {
        let name = inventory[entry_index(inventory, id)].name@;
        if trim(name).len() == 0 || (name.len() > 0 && name[0] == '-') {
            r matches Err(e) && e@ == id + ": unsafe package name"@
        } else {
            r matches Ok(c) && c.label@ == "winget upgrade "@ + name && c.command.program@ == "winget"@ && strings(
                c.command.args@,
            ) == seq![
                "upgrade"@,
                "--silent"@,
                "--accept-source-agreements"@,
                "--accept-package-agreements"@,
                "--disable-interactivity"@,
                "--name"@,
                name,
            ] && c.command.env@.len() == 0
        }
    }
}

pub fn winget_update_step(id: &str, inventory: &Vec<AppEntry>) -> (r: Result<LabeledCommand, String>)
    ensures
        winget_result_for(id@, inventory@, r),
{
    let mut found: Option<usize> = None;
    for k in 0..inventory.len()
        invariant
            found matches Some(f) ==> f < inventory@.len() && inventory@[f as int].id@ == id@ && forall|j: int|
                0 <= j < f ==> #[trigger] inventory@[j].id@ != id@,
            found is None ==> forall|j: int| 0 <= j < k ==> #[trigger] inventory@[j].id@ != id@,
    {
        if found.is_none() && str_eq(inventory[k].id.as_str(), id) {
            found = Some(k);
        }
    }
    match found {
        None => {
            proof {
                lemma_entry_index(inventory@, id@, inventory@.len() as int);
            }
            let mut m: Vec<char> = Vec::new();
            push_str(&mut m, id);
            push_str(&mut m, ": not found in inventory");
            Err(string_of(&m))
        },
        Some(f) => {
            proof {
                lemma_entry_index(inventory@, id@, f as int);
            }
            assert(entry_index(inventory@, id@) == f);
            let name = inventory[f].name.as_str();
            let nc = chars_of(name);
            let t = trim_chars(&nc);
            if t.len() == 0 || (nc.len() > 0 && nc[0] == '-') {
                let mut m: Vec<char> = Vec::new();
                push_str(&mut m, id);
                push_str(&mut m, ": unsafe package name");
                return Err(string_of(&m));
            }
            assert(!(trim(name@).len() == 0 || (name@.len() > 0 && name@[0] == '-')));
            let mut fixed: Vec<String> = Vec::new();
            push_owned(&mut fixed, "upgrade");
            push_owned(&mut fixed, "--silent");
            push_owned(&mut fixed, "--accept-source-agreements");
            push_owned(&mut fixed, "--accept-package-agreements");
            push_owned(&mut fixed, "--disable-interactivity");
            push_owned(&mut fixed, "--name");
            push_owned(&mut fixed, name);
            let empty: Vec<String> = Vec::new();
            assert(strings(empty@) =~= Seq::<Seq<char>>::empty());
            let c = command("winget", fixed, &empty);
            assert(strings(c.args@) =~= seq![
                "upgrade"@,
                "--silent"@,
                "--accept-source-agreements"@,
                "--accept-package-agreements"@,
                "--disable-interactivity"@,
                "--name"@,
                name@,
            ]);
            let mut label: Vec<char> = Vec::new();
            push_str(&mut label, "winget upgrade ");
            push_str(&mut label, name);
            Ok(LabeledCommand { label: string_of(&label), command: c })
        },
    }
}

// ---------------------------------------------------------------------------
// macOS: .app bundles
// ---------------------------------------------------------------------------

/// The application a directory entry of an Applications folder is: a bundle
/// with the `app` extension, named after its stem, of the measured `size`.
pub open spec fn bundle_view_of(path: Seq<char>, size: u64) -> Option<
    (Seq<char>, Seq<char>, Seq<char>, Option<Seq<char>>, u64, bool, bool),
> {
    let (stem, ext) = split_ext(file_name(path));
    if ext == Some("app"@) {
        Some(("app:"@ + path, stem, "app"@, None, size, false, false))
    } else {
        None
    }
}

pub fn mac_app_entry(path: &str, size: u64) -> (r: Option<AppEntry>)
    ensures
        match r {
            Some(e) => bundle_view_of(path@, size) == Some(app_view(e)),
            None => bundle_view_of(path@, size) is None,
        },
{
    let p = chars_of(path);
    let name = file_name_of(&p);
    let (stem, ext) = stem_and_extension(&name);
    match ext {
        Some(e) => {
            if !chars_eq_str(&e, "app") {
                return None;
            }
            Some(
                AppEntry {
                    id: concat("app:", &p),
                    name: string_of(&stem),
                    source: "app".to_owned(),
                    version: None,
                    size_bytes: size,
                    requires_root: false,
                    protected: false,
                },
            )
        },
        None => None,
    }
}

/// `s` without its double quotes.
pub open spec fn without_quotes(s: Seq<char>) -> Seq<char>
    decreases s.len(),
{
    if s.len() == 0 {
        s
    } else if s.last() == '"' {
        without_quotes(s.drop_last())
    } else {
        without_quotes(s.drop_last()).push(s.last())
    }
}

/// Moving an app bundle to the Trash through the Finder: refused unless it
/// lies under an Applications folder (`within_base`, checked on its resolved
/// location); reported as `trashed <path>`.
pub fn mac_trash_step(path: &str, within_base: bool) -> (r: Result<LabeledCommand, String>)
    ensures
        !within_base ==> (r matches Err(e) && e@ == "refused (outside /Applications): "@ + path@),
        within_base ==> (r matches Ok(c) && c.label@ == "trashed "@ + path@ && c.command.program@ == "osascript"@
            && strings(c.command.args@) == seq![
            "-e"@,
            "tell application \"Finder\" to delete POSIX file \""@ + without_quotes(path@) + "\""@,
        ] && c.command.env@.len() == 0),
{
    let p = chars_of(path);
    if !within_base {
        return Err(concat("refused (outside /Applications): ", &p));
    }
    let mut clean: Vec<char> = Vec::new();
    for i in 0..p.len()
        invariant
            clean@ == without_quotes(p@.take(i as int)),
    {
        assert(p@.take(i + 1).drop_last() =~= p@.take(i as int));
        assert(p@.take(i + 1).last() == p@[i as int]);
        if p[i] != '"' {
            clean.push(p[i]);
        }
    }
    assert(p@.take(p.len() as int) =~= p@);
    let mut script: Vec<char> = Vec::new();
    push_str(&mut script, "tell application \"Finder\" to delete POSIX file \"");
    push_all(&mut script, &clean);
    push_str(&mut script, "\"");
    let s = string_of(&script);
    let mut fixed: Vec<String> = Vec::new();
    push_owned(&mut fixed, "-e");
    push_owned(&mut fixed, s.as_str());
    let empty: Vec<String> = Vec::new();
    assert(strings(empty@) =~= Seq::<Seq<char>>::empty());
    let c = command("osascript", fixed, &empty);
    Ok(LabeledCommand { label: concat("trashed ", &p), command: c })
}

} // verus!
