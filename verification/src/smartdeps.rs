//! SMART tooling: which tools this machine needs for its disks (`nvme-cli`
//! for NVMe drives, `smartmontools` for SATA/SAS ones), which package manager
//! installs them, and what an install request turns into.
use vstd::prelude::*;
use crate::helper::{joined, join_strings, strings};
use crate::ipc::InstallReport;
use crate::text::{chars_of, has_prefix_str, lines, lines_of_str, push_str, starts_with, str_eq, string_of, views};

verus! {

/// The operating system the logic runs for.
#[derive(Clone, Copy, Debug, PartialEq, Eq, Structural)]
pub enum Platform {
    Linux,
    MacOs,
    Windows,
}

/// What SMART tooling the machine needs against what it has.
#[derive(Clone, Debug, PartialEq, Eq)]
pub struct SmartDepsStatus {
    /// An NVMe drive is present (so `nvme-cli` is relevant).
    pub nvme_needed: bool,
    pub nvme_installed: bool,
    /// A SATA/SAS drive is present (so `smartmontools` is relevant).
    pub sata_needed: bool,
    pub smartctl_installed: bool,
    /// Detected package manager key, if any.
    pub manager: Option<String>,
    /// Packages still to install for full SMART coverage.
    pub missing: Vec<String>,
    /// Something is missing and a supported manager was detected.
    pub can_install: bool,
}

/// The package managers probed on `p`, in order: (binary, manager key).
pub open spec fn manager_candidates(p: Platform) -> Seq<(Seq<char>, Seq<char>)> {
    match p {
        Platform::Linux => seq![
            ("apt-get"@, "apt"@),
            ("dnf"@, "dnf"@),
            ("pacman"@, "pacman"@),
            ("zypper"@, "zypper"@),
        ],
        Platform::MacOs => seq![("brew"@, "brew"@)],
        Platform::Windows => seq![("winget"@, "winget"@)],
    }
}

/// The key of the first candidate whose binary was found.
pub open spec fn first_manager(c: Seq<(Seq<char>, Seq<char>)>, found: Seq<Seq<char>>) -> Option<Seq<char>>
    decreases c.len(),
{
    if c.len() == 0 {
        None
    } else if found.contains(c[0].0) {
        Some(c[0].1)
    } else {
        first_manager(c.drop_first(), found)
    }
}

fn candidates(p: Platform) -> (r: Vec<(&'static str, &'static str)>)
    ensures
        r@.map_values(|e: (&str, &str)| (e.0@, e.1@)) == manager_candidates(p),
{
    let mut r: Vec<(&'static str, &'static str)> = Vec::new();
    match p {
        Platform::Linux => {
            r.push(("apt-get", "apt"));
            r.push(("dnf", "dnf"));
            r.push(("pacman", "pacman"));
            r.push(("zypper", "zypper"));
        },
        Platform::MacOs => {
            r.push(("brew", "brew"));
        },
        Platform::Windows => {
            r.push(("winget", "winget"));
        },
    }
    assert(r@.map_values(|e: (&str, &str)| (e.0@, e.1@)) =~= manager_candidates(p));
    r
}

/// The system package manager, given the names of the candidate binaries that
/// were found installed: on Linux the first of `apt-get` (key `apt`), `dnf`,
/// `pacman`, `zypper`; `brew` on macOS; `winget` on Windows.
pub fn detect_manager(platform: Platform, found: &Vec<String>) -> (r: Option<String>)
    ensures
        match r {
            Some(k) => first_manager(manager_candidates(platform), strings(found@)) == Some(k@),
            None => first_manager(manager_candidates(platform), strings(found@)) is None,
        },
{
    let c = candidates(platform);
    let ghost cv = c@.map_values(|e: (&str, &str)| (e.0@, e.1@));
    let ghost fv = strings(found@);
    assert(cv.skip(0) =~= cv);
    for i in 0..c.len()
        invariant
            cv == c@.map_values(|e: (&str, &str)| (e.0@, e.1@)),
            cv == manager_candidates(platform),
            fv == strings(found@),
            first_manager(cv, fv) == first_manager(cv.skip(i as int), fv),
    {
        let (bin, key) = c[i];
        assert(cv.skip(i as int)[0] == (bin@, key@));
        assert(cv.skip(i as int).drop_first() =~= cv.skip(i + 1));
        let mut present = false;
        for j in 0..found.len()
            invariant
                fv == strings(found@),
                present <==> exists|k: int| 0 <= k < j && fv[k] == bin@,
        {
            assert(fv[j as int] == found@[j as int]@);
            if str_eq(found[j].as_str(), bin) {
                present = true;
            }
        }
        assert(present <==> fv.contains(bin@));
        if present {
            return Some(key.to_owned());
        }
    }
    assert(cv.skip(c.len() as int) =~= Seq::<(Seq<char>, Seq<char>)>::empty());
    None
}

/// Some device name starts with `p`.
pub open spec fn any_starts(devices: Seq<Seq<char>>, p: Seq<char>) -> bool {
    exists|i: int| 0 <= i < devices.len() && starts_with(#[trigger] devices[i], p)
}

/// Whether (NVMe tooling, SATA tooling) is needed for these disks. On Linux by
/// device name (`nvme*`; `sd*` or `hd*`); on macOS and Windows smartmontools
/// covers every disk, so it is needed as soon as there is one.
pub open spec fn needs(p: Platform, devices: Seq<Seq<char>>) -> (bool, bool) {
    match p {
        Platform::Linux => (any_starts(devices, "nvme"@), any_starts(devices, "sd"@) || any_starts(devices, "hd"@)),
        _ => (false, devices.len() > 0),
    }
}

/// The packages still to install.
pub open spec fn missing_of(nvme_needed: bool, nvme_installed: bool, sata_needed: bool, smartctl_installed: bool) -> Seq<
    Seq<char>,
> {
    let a = if nvme_needed && !nvme_installed {
        seq!["nvme-cli"@]
    } else {
        Seq::empty()
    };
    let b = if sata_needed && !smartctl_installed {
        seq!["smartmontools"@]
    } else {
        Seq::empty()
    };
    a + b
}

fn any_prefix(devices: &Vec<String>, p: &str) -> (r: bool)
    ensures
        r == any_starts(strings(devices@), p@),
{
    let ghost dv = strings(devices@);
    for i in 0..devices.len()
        invariant
            dv == strings(devices@),
            forall|k: int| 0 <= k < i ==> !starts_with(#[trigger] dv[k], p@),
    {
        let c = chars_of(devices[i].as_str());
        assert(dv[i as int] == devices@[i as int]@);
        if has_prefix_str(&c, p) {
            return true;
        }
    }
    false
}

/// What SMART tooling a machine with these disks needs against what it has:
/// whether `nvme` and `smartctl` are installed and which package manager was
/// detected. `nvme-cli` is missing when NVMe tooling is needed and `nvme` is
/// absent, then `smartmontools` when SATA tooling is needed and `smartctl` is
/// absent; an install is possible when something is missing and there is a
/// manager.
pub fn status(
    platform: Platform,
    devices: &Vec<String>,
    nvme_installed: bool,
    smartctl_installed: bool,
    manager: Option<String>,
) -> (r: SmartDepsStatus)
    ensures
        (r.nvme_needed, r.sata_needed) == needs(platform, strings(devices@)),
        r.nvme_installed == nvme_installed,
        r.smartctl_installed == smartctl_installed,
        r.manager == manager,
        strings(r.missing@) == missing_of(r.nvme_needed, nvme_installed, r.sata_needed, smartctl_installed),
        r.can_install == (manager is Some && r.missing@.len() > 0),
{
    let (nvme_needed, sata_needed) = match platform {
        Platform::Linux => (any_prefix(devices, "nvme"), any_prefix(devices, "sd") || any_prefix(devices, "hd")),
        _ => (false, devices.len() > 0),
    };
    let mut missing: Vec<String> = Vec::new();
    if nvme_needed && !nvme_installed {
        missing.push("nvme-cli".to_owned());
    }
    let ghost m1 = strings(missing@);
    if sata_needed && !smartctl_installed {
        missing.push("smartmontools".to_owned());
        assert(strings(missing@) =~= m1.push("smartmontools"@));
    }
    assert(strings(missing@) =~= missing_of(nvme_needed, nvme_installed, sata_needed, smartctl_installed));
    let can_install = manager.is_some() && missing.len() > 0;
    SmartDepsStatus {
        nvme_needed,
        nvme_installed,
        sata_needed,
        smartctl_installed,
        manager,
        missing,
        can_install,
    }
}

/// The packages this machine is missing (always re-derived from the machine's
/// own state, never taken from a request).
pub fn missing_packages(
    platform: Platform,
    devices: &Vec<String>,
    nvme_installed: bool,
    smartctl_installed: bool,
) -> (r: Vec<String>)
    ensures
        strings(r@) == missing_of(
            needs(platform, strings(devices@)).0,
            nvme_installed,
            needs(platform, strings(devices@)).1,
            smartctl_installed,
        ),
{
    status(platform, devices, nvme_installed, smartctl_installed, None).missing
}

// ---------------------------------------------------------------------------
// Install requests
// ---------------------------------------------------------------------------

/// What an install request turns into.
#[derive(Clone, Debug, PartialEq, Eq)]
pub enum InstallStep {
    /// Nothing to run: this is the answer.
    Done(InstallReport),
    /// Install these packages with Homebrew, as the current user.
    Brew(Vec<String>),
    /// Install these packages with this manager through the privileged helper.
    Helper(String, Vec<String>),
}

/// The step for installing the missing `packages`: nothing when none are
/// missing ("already installed"); Homebrew on macOS; otherwise the privileged
/// helper with the detected manager, or a failure when there is none.
pub fn install_step(platform: Platform, packages: Vec<String>, manager: Option<String>) -> (r: InstallStep)
    ensures
        packages@.len() == 0 ==> (r matches InstallStep::Done(rep) && rep.success && rep.message@
            == "already installed"@),
        packages@.len() > 0 && platform == Platform::MacOs ==> r == InstallStep::Brew(packages),
        packages@.len() > 0 && platform != Platform::MacOs && manager is None ==> (r matches InstallStep::Done(
            rep,
        ) && !rep.success && rep.message@ == "no supported package manager found"@),
        packages@.len() > 0 && platform != Platform::MacOs && manager is Some ==> r == InstallStep::Helper(
            manager->0,
            packages,
        ),
{
    if packages.len() == 0 {
        return InstallStep::Done(InstallReport { success: true, message: "already installed".to_owned() });
    }
    if platform == Platform::MacOs {
        return InstallStep::Brew(packages);
    }
    match manager {
        None => InstallStep::Done(
            InstallReport { success: false, message: "no supported package manager found".to_owned() },
        ),
        Some(m) => InstallStep::Helper(m, packages),
    }
}

/// How a package-manager run ended.
#[derive(Clone, Debug, PartialEq, Eq)]
pub enum RunOutcome {
    /// It exited successfully.
    Succeeded,
    /// It exited unsuccessfully; this is its standard error.
    Failed(String),
    /// It could not be started, for this reason.
    NotRun(String),
}

/// The report of a Homebrew install: the installed packages on success, the
/// last line of its error output on failure ("brew install failed" when it
/// printed none), or why it could not run.
pub fn brew_report(packages: &Vec<String>, outcome: &RunOutcome) -> (r: InstallReport)
    ensures
        match *outcome {
            RunOutcome::Succeeded => r.success && r.message@ == "Installed: "@ + joined(strings(packages@), ", "@),
            RunOutcome::Failed(err) => !r.success && r.message@ == if lines(err@).len() > 0 {
                lines(err@).last()
            } else {
                "brew install failed"@
            },
            RunOutcome::NotRun(e) => !r.success && r.message@ == "failed to run brew: "@ + e@,
        },
{
    match outcome {
        RunOutcome::Succeeded => {
            let mut msg: Vec<char> = Vec::new();
            push_str(&mut msg, "Installed: ");
            let j = join_strings(packages, ", ");
            crate::text::push_all(&mut msg, &j);
            InstallReport { success: true, message: string_of(&msg) }
        },
        RunOutcome::Failed(err) => {
            let ls = lines_of_str(err.as_str());
            if ls.len() > 0 {
                assert(views(ls@).last() == ls@[ls.len() - 1]@);
                InstallReport { success: false, message: string_of(&ls[ls.len() - 1]) }
            } else {
                InstallReport { success: false, message: "brew install failed".to_owned() }
            }
        },
        RunOutcome::NotRun(e) => {
            let mut msg: Vec<char> = Vec::new();
            push_str(&mut msg, "failed to run brew: ");
            push_str(&mut msg, e.as_str());
            InstallReport { success: false, message: string_of(&msg) }
        },
    }
}

/// The report of the Windows install of smartmontools through winget: the
/// package on success, the last line of winget's error output on failure
/// ("winget install failed" when it printed none), or why it could not run.
pub fn winget_smart_report(outcome: &RunOutcome) -> (r: InstallReport)
    ensures
        match *outcome {
            RunOutcome::Succeeded => r.success && r.message@ == "Installed: smartmontools"@,
            RunOutcome::Failed(err) => !r.success && r.message@ == if lines(err@).len() > 0 {
                lines(err@).last()
            } else {
                "winget install failed"@
            },
            RunOutcome::NotRun(e) => !r.success && r.message@ == "failed to run winget: "@ + e@,
        },
{
    match outcome {
        RunOutcome::Succeeded => InstallReport { success: true, message: "Installed: smartmontools".to_owned() },
        RunOutcome::Failed(err) => {
            let ls = lines_of_str(err.as_str());
            if ls.len() > 0 {
                assert(views(ls@).last() == ls@[ls.len() - 1]@);
                InstallReport { success: false, message: string_of(&ls[ls.len() - 1]) }
            } else {
                InstallReport { success: false, message: "winget install failed".to_owned() }
            }
        },
        RunOutcome::NotRun(e) => {
            let mut msg: Vec<char> = Vec::new();
            push_str(&mut msg, "failed to run winget: ");
            push_str(&mut msg, e.as_str());
            InstallReport { success: false, message: string_of(&msg) }
        },
    }
}

/// The directories searched for a tool besides those of `PATH` (each once):
/// the usual system and Homebrew directories, and smartmontools' install
/// directories on Windows.
pub fn extra_tool_dirs(p: Platform) -> (r: Vec<&'static str>)
    ensures
        p == Platform::Windows ==> r@.map_values(|d: &str| d@) == seq![
            "C:\\Program Files\\smartmontools\\bin"@,
            "C:\\Program Files (x86)\\smartmontools\\bin"@,
        ],
        p != Platform::Windows ==> r@.map_values(|d: &str| d@) == seq![
            "/usr/bin"@,
            "/bin"@,
            "/usr/sbin"@,
            "/sbin"@,
            "/usr/local/bin"@,
            "/usr/local/sbin"@,
            "/opt/homebrew/bin"@,
            "/opt/homebrew/sbin"@,
        ],
{
    let mut r: Vec<&'static str> = Vec::new();
    if p == Platform::Windows {
        r.push("C:\\Program Files\\smartmontools\\bin");
        r.push("C:\\Program Files (x86)\\smartmontools\\bin");
        assert(r@.map_values(|d: &str| d@) =~= seq![
            "C:\\Program Files\\smartmontools\\bin"@,
            "C:\\Program Files (x86)\\smartmontools\\bin"@,
        ]);
    } else {
        r.push("/usr/bin");
        r.push("/bin");
        r.push("/usr/sbin");
        r.push("/sbin");
        r.push("/usr/local/bin");
        r.push("/usr/local/sbin");
        r.push("/opt/homebrew/bin");
        r.push("/opt/homebrew/sbin");
        assert(r@.map_values(|d: &str| d@) =~= seq![
            "/usr/bin"@,
            "/bin"@,
            "/usr/sbin"@,
            "/sbin"@,
            "/usr/local/bin"@,
            "/usr/local/sbin"@,
            "/opt/homebrew/bin"@,
            "/opt/homebrew/sbin"@,
        ]);
    }
    r
}

/// The file name a tool has on disk: `<bin>.exe` on Windows, `bin` elsewhere.
pub fn tool_file_name(p: Platform, bin: &str) -> (r: String)
    ensures
        r@ == if p == Platform::Windows {
            bin@ + ".exe"@
        } else {
            bin@
        },
{
    let mut v: Vec<char> = Vec::new();
    push_str(&mut v, bin);
    if p == Platform::Windows {
        push_str(&mut v, ".exe");
    }
    string_of(&v)
}

} // verus!

