//! The privileged helper's decisions: which zones it may touch, which commands
//! it dispatches, how SMART readings are interpreted, and how a dependency
//! install is vetted and carried out step by step. It never trusts its caller:
//! zones and installable packages are fixed here.
use vstd::prelude::*;
use crate::ipc::{InstallReport, SmartInfo};
use crate::text::{
    all_digits, chars_eq_str, chars_of, decimal, decimal_chars, has_prefix_str, parse_i64,
    parse_i64_chars, parse_u64, parse_u64_chars, push_all, push_str, string_of,
};
use crate::paths::PathStyle;
use crate::zones::Zones;

verus! {

/// The root-owned zones the helper may ever delete in.
pub fn root_zones() -> (r: Zones)
    ensures
        r.0@.len() == 2,
        r.0@[0]@ == "/tmp"@,
        r.0@[1]@ == "/var/tmp"@,
        r.1 == PathStyle::Unix,
{
    let mut v: Vec<String> = Vec::new();
    v.push("/tmp".to_owned());
    v.push("/var/tmp".to_owned());
    Zones(v, PathStyle::Unix)
}

/// The only packages the helper will ever install.
pub open spec fn allowed_package(p: Seq<char>) -> bool {
    p == "nvme-cli"@ || p == "smartmontools"@
}

pub fn is_allowed_package(p: &str) -> (r: bool)
    ensures
        r == allowed_package(p@),
{
    let c = chars_of(p);
    chars_eq_str(&c, "nvme-cli") || chars_eq_str(&c, "smartmontools")
}

/// What the helper was asked to do.
#[derive(Clone, Debug, PartialEq, Eq)]
pub enum HelperMode {
    /// Read SMART for these devices.
    Smart(Vec<String>),
    /// Install packages: the arguments after the sub-command.
    InstallDeps(Vec<String>),
    /// Execute a deletion plan read on stdin.
    Plan,
}

/// The arguments from position `from` on.
pub fn args_from(args: &Vec<String>, from: usize) -> (r: Vec<String>)
    ensures
        from <= args.len() ==> r@ == args@.skip(from as int),
        from > args.len() ==> r@.len() == 0,
{
    let mut r: Vec<String> = Vec::new();
    let mut i = from;
    while i < args.len()
        invariant
            from <= args.len() ==> r@ == args@.subrange(from as int, i as int),
            from > args.len() ==> r@.len() == 0,
            i >= from,
            from <= args.len() ==> i <= args.len(),
        decreases args.len() - i,
    {
        r.push(args[i].clone());
        assert(args@.subrange(from as int, i + 1) =~= args@.subrange(from as int, i as int).push(
            args@[i as int],
        ));
        i = i + 1;
    }
    if from <= args.len() {
        assert(args@.subrange(from as int, args.len() as int) =~= args@.skip(from as int));
    }
    r
}

/// Dispatch on the first argument after the program name: `smart <dev>...`,
/// `install-deps <manager> <pkg>...`, anything else reads a plan on stdin.
pub fn helper_mode(args: &Vec<String>) -> (r: HelperMode)
    ensures
        args@.len() > 1 && args@[1]@ == "smart"@ ==> (r matches HelperMode::Smart(d) && d@
            == args@.skip(2)),
        args@.len() > 1 && args@[1]@ != "smart"@ && args@[1]@ == "install-deps"@ ==> (r matches HelperMode::InstallDeps(a) && a@ == args@.skip(2)),
        !(args@.len() > 1 && (args@[1]@ == "smart"@ || args@[1]@ == "install-deps"@)) ==> r
            == HelperMode::Plan,
{
    if args.len() > 1 {
        let a = chars_of(args[1].as_str());
        if chars_eq_str(&a, "smart") {
            return HelperMode::Smart(args_from(args, 2));
        }
        if chars_eq_str(&a, "install-deps") {
            return HelperMode::InstallDeps(args_from(args, 2));
        }
    }
    HelperMode::Plan
}

/// Exit code of the helper: success.
pub const EXIT_OK: u8 = 0;

/// Exit code of the helper: invalid input.
pub const EXIT_INVALID: u8 = 2;

/// Exit code of the helper: something was refused.
pub const EXIT_REFUSED: u8 = 3;

/// Exit code of the helper: an install step failed.
pub const EXIT_FAILED: u8 = 1;

// ---------------------------------------------------------------------------
// SMART
// ---------------------------------------------------------------------------

/// A SMART reading that could not be taken.
pub fn unavailable(device: &str) -> (r: SmartInfo)
    ensures
        r.device@ == device@,
        !r.available,
        r.passed is None,
        r.power_on_hours is None,
        r.temperature_c is None,
{
    SmartInfo {
        device: device.to_owned(),
        available: false,
        passed: None,
        power_on_hours: None,
        temperature_c: None,
    }
}

/// A JSON value read from a tool's output, as far as SMART parsing looks at
/// it. A number carries what it reads as an unsigned and as a signed 64-bit
/// integer (each `None` when it is not one).
#[derive(Clone, Debug, PartialEq, Eq)]
pub enum JsonScalar {
    Missing,
    Number(Option<u64>, Option<i64>),
    Text(String),
    Bool(bool),
    Other,
}

/// Some tools emit numbers as JSON strings: accept both.
pub open spec fn scalar_u64(v: JsonScalar) -> Option<u64> {
    match v {
        JsonScalar::Number(u, _) => u,
        JsonScalar::Text(s) => parse_u64(s@),
        _ => None,
    }
}

pub open spec fn scalar_i64(v: JsonScalar) -> Option<i64> {
    match v {
        JsonScalar::Number(_, i) => i,
        JsonScalar::Text(s) => parse_i64(s@),
        _ => None,
    }
}

/// An unsigned number, also when written as a string.
pub fn as_u64(v: &JsonScalar) -> (r: Option<u64>)
    ensures
        r == scalar_u64(*v),
{
    match v {
        JsonScalar::Number(u, _) => *u,
        JsonScalar::Text(s) => {
            let c = chars_of(s.as_str());
            parse_u64_chars(&c)
        },
        _ => None,
    }
}

/// A signed number, also when written as a string.
pub fn as_i64(v: &JsonScalar) -> (r: Option<i64>)
    ensures
        r == scalar_i64(*v),
{
    match v {
        JsonScalar::Number(_, i) => *i,
        JsonScalar::Text(s) => {
            let c = chars_of(s.as_str());
            parse_i64_chars(&c)
        },
        _ => None,
    }
}

/// NVMe reports temperatures in Kelvin; values above 200 are converted.
pub open spec fn celsius(k: i64) -> int {
    if k > 200 {
        k - 273
    } else {
        k as int
    }
}

/// SMART of an NVMe device from `nvme smart-log` fields: healthy when the
/// critical-warning field is 0; `None` when none of the fields could be read.
pub fn smart_from_nvme(
    device: &str,
    critical_warning: &JsonScalar,
    power_on_hours: &JsonScalar,
    temperature: &JsonScalar,
) -> (r: Option<SmartInfo>)
    ensures
        ({
            let passed = match scalar_u64(*critical_warning) {
                Some(w) => Some(w == 0),
                None => None,
            };
            let hours = scalar_u64(*power_on_hours);
            let temp = scalar_i64(*temperature);
            if passed is None && hours is None && temp is None {
                r is None
            } else {
                r matches Some(info) && info.device@ == device@ && info.available && info.passed
                    == passed && info.power_on_hours == hours && (match temp {
                    Some(k) => info.temperature_c == Some(celsius(k) as i64),
                    None => info.temperature_c is None,
                })
            }
        }),
{
    let passed = match as_u64(critical_warning) {
        Some(w) => Some(w == 0),
        None => None,
    };
    let power_on_hours = as_u64(power_on_hours);
    let temperature_c = match as_i64(temperature) {
        Some(k) => Some(
            if k > 200 {
                k - 273
            } else {
                k
            },
        ),
        None => None,
    };
    if passed.is_none() && power_on_hours.is_none() && temperature_c.is_none() {
        return None;
    }
    Some(
        SmartInfo {
            device: device.to_owned(),
            available: true,
            passed,
            power_on_hours,
            temperature_c,
        },
    )
}

/// SMART of a SATA/SAS device from `smartctl` fields: available as soon as one
/// of them could be read.
pub fn smart_from_smartctl(
    device: &str,
    passed: Option<bool>,
    power_on_hours: Option<u64>,
    temperature_c: Option<i64>,
) -> (r: SmartInfo)
    ensures
        r.device@ == device@,
        r.available == (passed is Some || power_on_hours is Some || temperature_c is Some),
        r.passed == passed,
        r.power_on_hours == power_on_hours,
        r.temperature_c == temperature_c,
{
    let available = passed.is_some() || power_on_hours.is_some() || temperature_c.is_some();
    SmartInfo { device: device.to_owned(), available, passed, power_on_hours, temperature_c }
}

/// A boolean JSON field.
pub fn as_bool(v: &JsonScalar) -> (r: Option<bool>)
    ensures
        r == match *v {
            JsonScalar::Bool(b) => Some(b),
            _ => None,
        },
{
    match v {
        JsonScalar::Bool(b) => Some(*b),
        _ => None,
    }
}

/// How SMART is read for a device.
#[derive(Clone, Copy, Debug, PartialEq, Eq, Structural)]
pub enum SmartRoute {
    /// The device name is refused: reported unavailable without running anything.
    Refused,
    /// Try `nvme smart-log` first, then fall back to `smartctl`.
    NvmeThenSmartctl,
    /// Use `smartctl`.
    Smartctl,
}

pub open spec fn is_ascii_alnum(c: char) -> bool {
    ('0' <= c && c <= '9') || ('a' <= c && c <= 'z') || ('A' <= c && c <= 'Z')
}

/// Device names must be plain ASCII alphanumerics (no path separator, no shell
/// metacharacter) before they reach a command line.
pub open spec fn valid_device(d: Seq<char>) -> bool {
    d.len() > 0 && forall|i: int| 0 <= i < d.len() ==> is_ascii_alnum(#[trigger] d[i])
}

pub fn smart_route(device: &str) -> (r: SmartRoute)
    ensures
        !valid_device(device@) ==> r == SmartRoute::Refused,
        valid_device(device@) && device@.len() >= 4 && device@.take(4) == "nvme"@ ==> r
            == SmartRoute::NvmeThenSmartctl,
        valid_device(device@) && !(device@.len() >= 4 && device@.take(4) == "nvme"@) ==> r
            == SmartRoute::Smartctl,
{
    let d = chars_of(device);
    proof {
        reveal_strlit("nvme");
    }
    if d.len() == 0 {
        return SmartRoute::Refused;
    }
    for i in 0..d.len()
        invariant
            d@ == device@,
            forall|j: int| 0 <= j < i ==> is_ascii_alnum(#[trigger] d@[j]),
    {
        let c = d[i];
        if !(('0' <= c && c <= '9') || ('a' <= c && c <= 'z') || ('A' <= c && c <= 'Z')) {
            assert(!is_ascii_alnum(d@[i as int]));
            return SmartRoute::Refused;
        }
    }
    if has_prefix_str(&d, "nvme") {
        SmartRoute::NvmeThenSmartctl
    } else {
        SmartRoute::Smartctl
    }
}

/// The device node of a device name.
pub fn device_node(device: &str) -> (r: String)
    ensures
        r@ == "/dev/"@ + device@,
{
    let mut v: Vec<char> = Vec::new();
    push_str(&mut v, "/dev/");
    push_str(&mut v, device);
    string_of(&v)
}

// ---------------------------------------------------------------------------
// Dependency install
// ---------------------------------------------------------------------------

/// A command to run: program, arguments, and environment variables to set.
#[derive(Clone, Debug, PartialEq, Eq)]
pub struct CommandSpec {
    pub program: String,
    pub args: Vec<String>,
    pub env: Vec<(String, String)>,
}

pub open spec fn strings(v: Seq<String>) -> Seq<Seq<char>> {
    v.map_values(|s: String| s@)
}

/// The install command for `program` with fixed `prefix` arguments: the prefix,
/// `--`, then the packages, in non-interactive mode.
pub open spec fn install_command(
    c: CommandSpec,
    program: Seq<char>,
    prefix: Seq<Seq<char>>,
    packages: Seq<Seq<char>>,
) -> bool {
    &&& c.program@ == program
    &&& strings(c.args@) == prefix + seq!["--"@] + packages
    &&& noninteractive_env(c)
}

/// `c` runs with exactly `DEBIAN_FRONTEND=noninteractive` added to its
/// environment.
pub open spec fn noninteractive_env(c: CommandSpec) -> bool {
    &&& c.env@.len() == 1
    &&& c.env@[0].0@ == "DEBIAN_FRONTEND"@
    &&& c.env@[0].1@ == "noninteractive"@
}

/// Appends an owned copy of `s`.
fn push_owned(v: &mut Vec<String>, s: &str)
    ensures
        strings(final(v)@) == strings(old(v)@).push(s@),
{
    let ghost before = strings(v@);
    v.push(s.to_owned());
    assert(strings(v@) =~= before.push(s@));
}

fn noninteractive() -> (r: Vec<(String, String)>)
    ensures
        r@.len() == 1,
        r@[0].0@ == "DEBIAN_FRONTEND"@,
        r@[0].1@ == "noninteractive"@,
{
    let mut e: Vec<(String, String)> = Vec::new();
    e.push(("DEBIAN_FRONTEND".to_owned(), "noninteractive".to_owned()));
    e
}

fn install_cmd(program: &str, prefix: Vec<String>, packages: &Vec<String>) -> (r: CommandSpec)
    ensures
        install_command(r, program@, strings(prefix@), strings(packages@)),
{
    let mut args = prefix;
    let ghost p = strings(args@);
    push_owned(&mut args, "--");
    for i in 0..packages.len()
        invariant
            strings(args@) == p + seq!["--"@] + strings(packages@.take(i as int)),
    {
        let ghost before = strings(args@);
        assert(strings(packages@.take(i + 1)) =~= strings(packages@.take(i as int)).push(
            packages@[i as int]@,
        ));
        args.push(packages[i].clone());
        assert(strings(args@) =~= before.push(packages@[i as int]@));
        assert(strings(args@) =~= p + seq!["--"@] + strings(packages@.take(i + 1)));
    }
    assert(packages@.take(packages.len() as int) =~= packages@);
    CommandSpec { program: program.to_owned(), args, env: noninteractive() }
}

fn words2(a: &str, b: &str) -> (r: Vec<String>)
    ensures
        strings(r@) == seq![a@, b@],
{
    let mut v: Vec<String> = Vec::new();
    push_owned(&mut v, a);
    push_owned(&mut v, b);
    assert(strings(v@) =~= seq![a@, b@]);
    v
}

fn words3(a: &str, b: &str, c: &str) -> (r: Vec<String>)
    ensures
        strings(r@) == seq![a@, b@, c@],
{
    let mut v = words2(a, b);
    push_owned(&mut v, c);
    assert(strings(v@) =~= seq![a@, b@, c@]);
    v
}

/// The install commands for a package manager; only the (allowlisted) package
/// names vary. `apt` refreshes its index first. `None` for an unknown manager.
pub fn install_steps(manager: &str, packages: &Vec<String>) -> (r: Option<Vec<CommandSpec>>)
    ensures
        manager@ == "apt"@ ==> (r matches Some(s) && s@.len() == 2 && s@[0].program@ == "apt-get"@
            && strings(s@[0].args@) == seq!["update"@, "-qq"@] && noninteractive_env(s@[0]) && install_command(
            s@[1],
            "apt-get"@,
            seq!["install"@, "-y"@, "--no-install-recommends"@],
            strings(packages@),
        )),
        manager@ == "dnf"@ ==> (r matches Some(s) && s@.len() == 1 && install_command(
            s@[0],
            "dnf"@,
            seq!["install"@, "-y"@],
            strings(packages@),
        )),
        manager@ == "pacman"@ ==> (r matches Some(s) && s@.len() == 1 && install_command(
            s@[0],
            "pacman"@,
            seq!["-Sy"@, "--noconfirm"@, "--needed"@],
            strings(packages@),
        )),
        manager@ == "zypper"@ ==> (r matches Some(s) && s@.len() == 1 && install_command(
            s@[0],
            "zypper"@,
            seq!["--non-interactive"@, "install"@],
            strings(packages@),
        )),
        r is None <==> !(manager@ == "apt"@ || manager@ == "dnf"@ || manager@ == "pacman"@
            || manager@ == "zypper"@),
{
    let m = chars_of(manager);
    proof {
        reveal_strlit("apt");
        reveal_strlit("dnf");
        reveal_strlit("pacman");
        reveal_strlit("zypper");
        assert("apt"@ != "dnf"@) by {
            assert("apt"@[0] != "dnf"@[0]);
        }
        assert("pacman"@ != "zypper"@) by {
            assert("pacman"@[0] != "zypper"@[0]);
        }
        assert("apt"@.len() == 3 && "dnf"@.len() == 3 && "pacman"@.len() == 6 && "zypper"@.len()
            == 6);
    }
    let mut steps: Vec<CommandSpec> = Vec::new();
    if chars_eq_str(&m, "apt") {
        let update_args = words2("update", "-qq");
        let update = CommandSpec {
            program: "apt-get".to_owned(),
            args: update_args,
            env: noninteractive(),
        };
        steps.push(update);
        steps.push(install_cmd("apt-get", words3("install", "-y", "--no-install-recommends"), packages));
        return Some(steps);
    }
    if chars_eq_str(&m, "dnf") {
        steps.push(install_cmd("dnf", words2("install", "-y"), packages));
        return Some(steps);
    }
    if chars_eq_str(&m, "pacman") {
        steps.push(install_cmd("pacman", words3("-Sy", "--noconfirm", "--needed"), packages));
        return Some(steps);
    }
    if chars_eq_str(&m, "zypper") {
        steps.push(install_cmd("zypper", words2("--non-interactive", "install"), packages));
        return Some(steps);
    }
    None
}

/// An install that was vetted and may proceed.
#[derive(Clone, Debug)]
pub struct InstallJob {
    pub manager: String,
    pub packages: Vec<String>,
    pub steps: Vec<CommandSpec>,
}

/// `k` is the position of the first argument after the manager that is not an
/// allowlisted package.
pub open spec fn first_refused_at(args: Seq<String>, k: int) -> bool {
    1 <= k < args.len() && !allowed_package(args[k]@) && forall|j: int|
        1 <= j < k ==> allowed_package(#[trigger] args[j]@)
}

/// A refusal of an install request: the report and the exit code.
pub open spec fn refusal(r: (InstallReport, u8), message: Seq<char>, code: u8) -> bool {
    !r.0.success && r.0.message@ == message && r.1 == code
}

/// Vet `install-deps <manager> <pkg>...` (the arguments after the sub-command):
/// a manager and at least one package are required (else exit 2); every package
/// must be allowlisted and the manager supported (else exit 3). On success the
/// job's steps are the manager's install commands for exactly these packages.
pub fn vet_install(args: &Vec<String>) -> (r: Result<InstallJob, (InstallReport, u8)>)
    ensures
        args@.len() == 0 ==> (r matches Err(e) && refusal(e, "no package manager specified"@, 2)),
        args@.len() == 1 ==> (r matches Err(e) && refusal(e, "no packages specified"@, 2)),
        r matches Ok(job) ==> args@.len() >= 2 && job.manager@ == args@[0]@ && job.packages@
            == args@.skip(1) && (forall|i: int|
            0 <= i < job.packages@.len() ==> allowed_package(#[trigger] job.packages@[i]@))
            && install_steps_of(job.manager@, job.packages@, job.steps@),
        args@.len() >= 2 && (exists|i: int|
            1 <= i < args@.len() && !allowed_package(#[trigger] args@[i]@)) ==> (r matches Err(e)
            && exists|k: int| #[trigger] first_refused_at(args@, k) && refusal(
            e,
            "package not allowed: "@ + args@[k]@,
            3,
        )),
        args@.len() >= 2 && (forall|i: int| 1 <= i < args@.len() ==> allowed_package(#[trigger] args@[i]@))
            && !(args@[0]@ == "apt"@ || args@[0]@ == "dnf"@ || args@[0]@ == "pacman"@
            || args@[0]@ == "zypper"@) ==> (r matches Err(e) && refusal(
            e,
            "unsupported package manager: "@ + args@[0]@,
            3,
        )),
        args@.len() >= 2 && (forall|i: int| 1 <= i < args@.len() ==> allowed_package(#[trigger] args@[i]@))
            && (args@[0]@ == "apt"@ || args@[0]@ == "dnf"@ || args@[0]@ == "pacman"@
            || args@[0]@ == "zypper"@) ==> r is Ok,
{
    if args.len() == 0 {
        return Err(
            (InstallReport { success: false, message: "no package manager specified".to_owned() }, 2),
        );
    }
    let manager = args[0].clone();
    let packages = args_from(args, 1);
    if packages.len() == 0 {
        return Err(
            (InstallReport { success: false, message: "no packages specified".to_owned() }, 2),
        );
    }
    for i in 0..packages.len()
        invariant
            args@.len() >= 2,
            packages@ == args@.skip(1),
            forall|j: int| 0 <= j < i ==> allowed_package(#[trigger] packages@[j]@),
    {
        if !is_allowed_package(packages[i].as_str()) {
            let mut msg: Vec<char> = Vec::new();
            push_str(&mut msg, "package not allowed: ");
            push_str(&mut msg, packages[i].as_str());
            assert(!allowed_package(args@[i + 1]@));
            assert forall|j: int| 1 <= j < i + 1 implies allowed_package(#[trigger] args@[j]@) by {
                assert(packages@[j - 1] == args@[j]);
            }
            assert(first_refused_at(args@, i + 1));
            return Err((InstallReport { success: false, message: string_of(&msg) }, 3));
        }
    }
    assert forall|i: int| 1 <= i < args@.len() implies allowed_package(#[trigger] args@[i]@) by {
        assert(packages@[i - 1] == args@[i]);
    }
    match install_steps(manager.as_str(), &packages) {
        Some(steps) => Ok(InstallJob { manager, packages, steps }),
        None => {
            let mut msg: Vec<char> = Vec::new();
            push_str(&mut msg, "unsupported package manager: ");
            push_str(&mut msg, manager.as_str());
            Err((InstallReport { success: false, message: string_of(&msg) }, 3))
        },
    }
}

/// `steps` are the install commands of `manager` for `packages`.
pub open spec fn install_steps_of(
    manager: Seq<char>,
    packages: Seq<String>,
    steps: Seq<CommandSpec>,
) -> bool {
    if manager == "apt"@ {
        steps.len() == 2 && steps[0].program@ == "apt-get"@ && strings(steps[0].args@) == seq![
            "update"@,
            "-qq"@,
        ] && noninteractive_env(steps[0]) && install_command(
            steps[1],
            "apt-get"@,
            seq!["install"@, "-y"@, "--no-install-recommends"@],
            strings(packages),
        )
    } else if manager == "dnf"@ {
        steps.len() == 1 && install_command(steps[0], "dnf"@, seq!["install"@, "-y"@], strings(packages))
    } else if manager == "pacman"@ {
        steps.len() == 1 && install_command(
            steps[0],
            "pacman"@,
            seq!["-Sy"@, "--noconfirm"@, "--needed"@],
            strings(packages),
        )
    } else {
        manager == "zypper"@ && steps.len() == 1 && install_command(
            steps[0],
            "zypper"@,
            seq!["--non-interactive"@, "install"@],
            strings(packages),
        )
    }
}

/// How one install step ended.
#[derive(Clone, Debug, PartialEq, Eq)]
pub enum StepStatus {
    /// It exited successfully.
    Success,
    /// It exited unsuccessfully, with this exit code (`None`: killed by a signal).
    Failure(Option<i32>),
    /// It could not be started, for this reason.
    NotStarted(String),
}

/// The decimal text of a signed integer.
pub open spec fn signed_decimal(n: int) -> Seq<char> {
    if n < 0 {
        seq!['-'] + decimal((0 - n) as nat)
    } else {
        decimal(n as nat)
    }
}

pub fn signed_decimal_chars(n: i32) -> (r: Vec<char>)
    ensures
        r@ == signed_decimal(n as int),
{
    if n < 0 {
        let mut v: Vec<char> = Vec::new();
        v.push('-');
        let m: u64 = (0 - (n as i64)) as u64;
        let d = decimal_chars(m);
        push_all(&mut v, &d);
        v
    } else {
        decimal_chars(n as u64)
    }
}

/// What happens after step `index` of an install with `manager` ended with
/// `status`: `None` to go on; otherwise the failure report and exit code. A
/// failed `apt` index refresh (step 0) is tolerated: the install may still work.
pub fn after_step(manager: &str, index: usize, status: &StepStatus) -> (r: Option<(InstallReport, u8)>)
    ensures
        match *status {
            StepStatus::Success => r is None,
            StepStatus::Failure(code) => if manager@ == "apt"@ && index == 0 {
                r is None
            } else {
                r matches Some(e) && refusal(
                    e,
                    "install failed (exit "@ + signed_decimal(
                        match code {
                            Some(c) => c as int,
                            None => -1,
                        },
                    ) + ")"@,
                    1,
                )
            },
            StepStatus::NotStarted(err) => r matches Some(e) && refusal(
                e,
                "failed to run "@ + manager@ + ": "@ + err@,
                1,
            ),
        },
{
    match status {
        StepStatus::Success => None,
        StepStatus::Failure(code) => {
            let m = chars_of(manager);
            if index == 0 && chars_eq_str(&m, "apt") {
                return None;
            }
            let c: i32 = match code {
                Some(c) => *c,
                None => -1,
            };
            let mut msg: Vec<char> = Vec::new();
            push_str(&mut msg, "install failed (exit ");
            let d = signed_decimal_chars(c);
            push_all(&mut msg, &d);
            push_str(&mut msg, ")");
            Some((InstallReport { success: false, message: string_of(&msg) }, 1))
        },
        StepStatus::NotStarted(err) => {
            let mut msg: Vec<char> = Vec::new();
            push_str(&mut msg, "failed to run ");
            push_str(&mut msg, manager);
            push_str(&mut msg, ": ");
            push_str(&mut msg, err.as_str());
            Some((InstallReport { success: false, message: string_of(&msg) }, 1))
        },
    }
}

/// `items` joined with `sep` between consecutive ones.
pub open spec fn joined(items: Seq<Seq<char>>, sep: Seq<char>) -> Seq<char>
    decreases items.len(),
{
    if items.len() == 0 {
        Seq::empty()
    } else if items.len() == 1 {
        items[0]
    } else {
        joined(items.drop_last(), sep) + sep + items.last()
    }
}

pub fn join_strings(items: &Vec<String>, sep: &str) -> (r: Vec<char>)
    ensures
        r@ == joined(strings(items@), sep@),
{
    let mut v: Vec<char> = Vec::new();
    for i in 0..items.len()
        invariant
            v@ == joined(strings(items@.take(i as int)), sep@),
    {
        let ghost prev = strings(items@.take(i as int));
        assert(strings(items@.take(i + 1)).drop_last() =~= prev);
        if i > 0 {
            push_str(&mut v, sep);
        }
        push_str(&mut v, items[i].as_str());
        assert(i == 0 ==> strings(items@.take(i + 1)) =~= seq![items@[0]@]);
    }
    assert(items@.take(items.len() as int) =~= items@);
    v
}

/// The report of a completed install.
pub fn install_succeeded(packages: &Vec<String>) -> (r: (InstallReport, u8))
    ensures
        r.0.success,
        r.0.message@ == "Installed: "@ + joined(strings(packages@), ", "@),
        r.1 == 0,
{
    let mut msg: Vec<char> = Vec::new();
    push_str(&mut msg, "Installed: ");
    let j = join_strings(packages, ", ");
    push_all(&mut msg, &j);
    (InstallReport { success: true, message: string_of(&msg) }, 0)
}

/// How step `index` of an install with `manager` ending with `status` ends
/// the run: `None` to go on (success, or a failed `apt` index refresh);
/// otherwise the failure message and exit code (see `after_step`).
pub open spec fn step_failure(manager: Seq<char>, index: int, status: StepStatus) -> Option<(Seq<char>, u8)> {
    match status {
        StepStatus::Success => None,
        StepStatus::Failure(code) => if manager == "apt"@ && index == 0 {
            None
        } else {
            Some(
                (
                    "install failed (exit "@ + signed_decimal(
                        match code {
                            Some(c) => c as int,
                            None => -1,
                        },
                    ) + ")"@,
                    1u8,
                ),
            )
        },
        StepStatus::NotStarted(err) => Some(("failed to run "@ + manager + ": "@ + err@, 1u8)),
    }
}

/// `run` gave `st[k]` when asked to run step `k`, for each `k` in order.
pub open spec fn ran_as<R: Fn(usize) -> StepStatus>(run: R, st: Seq<StepStatus>) -> bool {
    forall|k: int| 0 <= k < st.len() ==> run.ensures((k as usize,), #[trigger] st[k])
}

/// The answer `r` of an install of `packages` with `manager` over `n` steps
/// whose statuses, in order, were `st`: the steps ran in order until one
/// failed; that failure is the answer, else every step ran and the answer is
/// `Installed: <packages>` with exit 0.
pub open spec fn install_answer(
    manager: Seq<char>,
    packages: Seq<String>,
    n: int,
    st: Seq<StepStatus>,
    r: (InstallReport, u8),
) -> bool {
    &&& st.len() <= n
    &&& forall|k: int| 0 <= k < st.len() - 1 ==> (#[trigger] step_failure(manager, k, st[k])) is None
    &&& if st.len() > 0 && step_failure(manager, st.len() - 1, st.last()) is Some {
        let f = step_failure(manager, st.len() - 1, st.last())->Some_0;
        !r.0.success && r.0.message@ == f.0 && r.1 == f.1
    } else {
        st.len() == n && r.0.success && r.0.message@ == "Installed: "@ + joined(strings(packages), ", "@)
            && r.1 == 0
    }
}

/// Carry out a vetted install: `run(i)` runs step `i` of the job and tells
/// how it ended. The steps run in order, each once, up to the first that
/// fails (a failed `apt` index refresh is tolerated); the answer is that
/// failure's report and exit code, or, when every step went through,
/// `Installed: <packages>` with exit 0.
pub fn run_install<R>(job: &InstallJob, run: R) -> (r: (InstallReport, u8)) where R: Fn(usize) -> StepStatus
    requires
        forall|i: usize| i < job.steps@.len() ==> #[trigger] run.requires((i,)),
    ensures
        exists|st: Seq<StepStatus>|
            #[trigger] ran_as(run, st) && install_answer(job.manager@, job.packages@, job.steps@.len() as int, st, r),
{
    let ghost mut st: Seq<StepStatus> = Seq::empty();
    let mut i: usize = 0;
    while i < job.steps.len()
        invariant
            forall|j: usize| j < job.steps@.len() ==> #[trigger] run.requires((j,)),
            i <= job.steps@.len(),
            st.len() == i,
            ran_as(run, st),
            forall|k: int| 0 <= k < st.len() ==> (#[trigger] step_failure(job.manager@, k, st[k])) is None,
        decreases job.steps@.len() - i,
    {
        let status = run(i);
        let ghost before = st;
        proof {
            st = st.push(status);
            assert forall|k: int| 0 <= k < st.len() implies run.ensures((k as usize,), #[trigger] st[k]) by {
                if k < before.len() {
                    assert(st[k] == before[k]);
                }
            }
        }
        match after_step(job.manager.as_str(), i, &status) {
            Some(e) => {
                assert forall|k: int| 0 <= k < st.len() - 1 implies (#[trigger] step_failure(job.manager@, k, st[k])) is None by {
                    assert(st[k] == before[k]);
                }
                assert(install_answer(job.manager@, job.packages@, job.steps@.len() as int, st, e));
                assert(ran_as(run, st));
                return e;
            },
            None => {
                assert forall|k: int| 0 <= k < st.len() implies (#[trigger] step_failure(job.manager@, k, st[k])) is None by {
                    if k < before.len() {
                        assert(st[k] == before[k]);
                    }
                }
            },
        }
        i = i + 1;
    }
    let r = install_succeeded(&job.packages);
    assert(install_answer(job.manager@, job.packages@, job.steps@.len() as int, st, r));
    assert(ran_as(run, st));
    r
}

// ---------------------------------------------------------------------------
// Elevation tokens
// ---------------------------------------------------------------------------

/// The elevated child accepts only a non-empty all-digit token, so a crafted
/// token can never traverse out of the temp directory.
pub open spec fn valid_token(t: Seq<char>) -> bool {
    t.len() > 0 && all_digits(t)
}

pub fn is_valid_token(token: &str) -> (r: bool)
    ensures
        r == valid_token(token@),
{
    let t = chars_of(token);
    if t.len() == 0 {
        return false;
    }
    for i in 0..t.len()
        invariant
            t@ == token@,
            forall|j: int| 0 <= j < i ==> crate::text::is_digit(#[trigger] t@[j]),
    {
        if !('0' <= t[i] && t[i] <= '9') {
            return false;
        }
    }
    true
}

/// The token for the elevated exchange files: twenty decimal digits of a random
/// number, or the process id when no random number could be drawn.
pub open spec fn token_text(random: Option<u64>, pid: u32) -> Seq<char> {
    match random {
        Some(x) => crate::text::zero_padded(x as nat, 20),
        None => decimal(pid as nat),
    }
}

pub fn token_from(random: Option<u64>, pid: u32) -> (r: String)
    ensures
        r@ == token_text(random, pid),
        valid_token(r@),
{
    let v = match random {
        Some(x) => crate::text::zero_padded_chars(x, 20),
        None => decimal_chars(pid as u64),
    };
    proof {
        match random {
            Some(x) => {
                crate::text::lemma_decimal_digits(x as nat);
                let d = decimal(x as nat);
                if d.len() < 20 {
                    let pad = Seq::new((20 - d.len()) as nat, |_i: int| '0');
                    assert forall|i: int| 0 <= i < (pad + d).len() implies crate::text::is_digit(#[trigger] (pad + d)[i]) by {
                        if i >= pad.len() {
                            assert((pad + d)[i] == d[i - pad.len()]);
                        }
                    }
                }
            },
            None => {
                crate::text::lemma_decimal_digits(pid as nat);
            },
        }
    }
    string_of(&v)
}

/// Draws a random 64-bit number from the operating system's generator
/// (`getrandom::getrandom` on eight bytes, read little-endian). Nothing is
/// claimed of the number; `None` when the generator failed.
#[verifier::external_body]
fn os_random_u64() -> Option<u64> {
    let mut buf = [0u8; 8];
    match getrandom::getrandom(&mut buf) {
        Ok(()) => Some(u64::from_le_bytes(buf)),
        Err(_) => None,
    }
}

/// A fresh, unguessable token for the elevated exchange files, with `pid` as
/// the fallback. Whatever the generator gave, the token passes the elevated
/// child's guard.
pub fn elevation_token(pid: u32) -> (r: String)
    ensures
        valid_token(r@),
        exists|x: Option<u64>| r@ == #[trigger] token_text(x, pid),
{
    let random = os_random_u64();
    token_from(random, pid)
}

} // verus!
