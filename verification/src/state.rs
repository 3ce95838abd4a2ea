//! Application state: the runtime configuration and the last scan of each
//! service, and what the dashboard commands compute from raw readings.
use vstd::prelude::*;
use crate::health::DiskInfo;
use crate::ipc::{MountUsage, ScanResult, ServiceId};
use crate::keyed::{key_get, key_index, key_put, lemma_get_after_put, lemma_key_index, lemma_key_index_is};
use crate::services::Config;
use crate::smartdeps::Platform;
use crate::text::{lines, lines_of_str, parse_u64, parse_u64_chars, split_whitespace, views, words};

verus! {

/// The runtime configuration and the last scan result of each service.
pub struct AppState {
    pub config: Config,
    pub cache: Vec<(ServiceId, ScanResult)>,
}

impl AppState {
    /// The state at startup: this configuration, nothing scanned yet.
    pub fn new(config: Config) -> (r: AppState)
        ensures
            r.config == config,
            r.cache@.len() == 0,
    {
        AppState { config, cache: Vec::new() }
    }

    /// Keep `result` as the last scan of `service`, replacing the previous one.
    pub fn store(&mut self, service: ServiceId, result: ScanResult)
        ensures
            final(self).config == old(self).config,
            final(self).cache@ == key_put(old(self).cache@, service, result),
    {
        let ghost l = self.cache@;
        proof {
            lemma_key_index(l, service);
        }
        let mut i: usize = 0;
        let mut found = false;
        while i < self.cache.len() && !found
            invariant
                i <= self.cache@.len(),
                self.cache@ == l,
                found ==> i < l.len() && l[i as int].0 == service,
                forall|j: int| 0 <= j < i && (!found || j < i) ==> #[trigger] l[j].0 != service,
            decreases self.cache.len() - i, if found { 0int } else { 1int },
        {
            if self.cache[i].0 == service {
                found = true;
            } else {
                i = i + 1;
            }
        }
        if found {
            proof {
                lemma_key_index_is(l, service, i as int);
            }
            self.cache.set(i, (service, result));
        } else {
            proof {
                lemma_key_index_is(l, service, l.len() as int);
            }
            self.cache.push((service, result));
        }
    }

    /// The last scan of `service`, if any.
    pub fn cached(&self, service: ServiceId) -> (r: Option<&ScanResult>)
        ensures
            match r {
                Some(s) => key_get(self.cache@, service) == Some(*s),
                None => key_get(self.cache@, service) is None,
            },
    {
        let ghost l = self.cache@;
        for i in 0..self.cache.len()
            invariant
                self.cache@ == l,
                forall|j: int| 0 <= j < i ==> #[trigger] l[j].0 != service,
        {
            if self.cache[i].0 == service {
                proof {
                    lemma_key_index_is(l, service, i as int);
                }
                return Some(&self.cache[i].1);
            }
        }
        proof {
            lemma_key_index_is(l, service, l.len() as int);
        }
        None
    }
}

/// The scan cache answers with the last result stored for a service, and
/// storing one service's result leaves every other service's as it was.
pub proof fn law_scan_cache_read_after_write(
    cache: Seq<(ServiceId, ScanResult)>,
    service: ServiceId,
    result: ScanResult,
    other: ServiceId,
)
    ensures
        key_get(key_put(cache, service, result), service) == Some(result),
        other != service ==> key_get(key_put(cache, service, result), other) == key_get(cache, other),
{
    lemma_get_after_put(cache, service, result, other);
}

// ---------------------------------------------------------------------------
// Dashboard readings
// ---------------------------------------------------------------------------

/// A scan plus its incremental diff against the previous snapshot.
#[derive(Clone, Debug, PartialEq, Eq)]
pub struct ScanResponse {
    pub result: ScanResult,
    /// First scan of the service (no prior snapshot).
    pub first_scan: bool,
    /// Ids of items that are new or changed since the previous scan.
    pub new_ids: Vec<String>,
}

/// Host uptime and every physical disk's profile and counters.
#[derive(Clone, Debug, PartialEq, Eq)]
pub struct HealthOverview {
    pub uptime_secs: u64,
    pub disks: Vec<DiskInfo>,
}

/// The usage of one mount: its capacity, and what is not available of it
/// (0 when the volume reports more available space than its capacity).
pub fn mount_usage(mount: String, total: u64, available: u64) -> (r: MountUsage)
    ensures
        r.mount == mount,
        r.total == total,
        r.used == if available <= total {
            (total - available) as u64
        } else {
            0
        },
{
    MountUsage { mount, total, used: total.saturating_sub(available) }
}

/// The grand total of a `du -sc` output: the first word of its last line
/// (`<n>\ttotal`) as an integer, times `unit` (the size of `du`'s blocks,
/// wrapping as the release build does); 0 when there is no such number.
pub open spec fn du_total_of(out: Seq<char>, unit: u64) -> u64 {
    let ls = lines(out);
    if ls.len() > 0 && words(ls.last()).len() > 0 {
        match parse_u64(words(ls.last())[0]) {
            Some(v) => v.wrapping_mul(unit),
            None => 0,
        }
    } else {
        0
    }
}

pub fn du_total(out: &str, unit: u64) -> (r: u64)
    ensures
        r == du_total_of(out@, unit),
{
    let ls = lines_of_str(out);
    if ls.len() == 0 {
        return 0;
    }
    assert(views(ls@).last() == ls@[ls.len() - 1]@);
    let w = split_whitespace(&ls[ls.len() - 1]);
    if w.len() == 0 {
        return 0;
    }
    assert(views(w@)[0] == w@[0]@);
    match parse_u64_chars(&w[0]) {
        Some(v) => v.wrapping_mul(unit),
        None => 0,
    }
}

/// The directories measured as the system's own footprint on Linux and macOS
/// (those that exist).
pub fn unix_system_roots(p: Platform) -> (r: Vec<&'static str>)
    ensures
        p == Platform::MacOs ==> r@.map_values(|s: &str| s@) == seq![
            "/System"@,
            "/Library"@,
            "/usr"@,
            "/private/var"@,
            "/opt"@,
            "/Applications"@,
        ],
        p != Platform::MacOs ==> r@.map_values(|s: &str| s@) == seq![
            "/usr"@,
            "/var"@,
            "/opt"@,
            "/boot"@,
            "/srv"@,
            "/root"@,
            "/swapfile"@,
        ],
{
    let mut r: Vec<&'static str> = Vec::new();
    if p == Platform::MacOs {
        r.push("/System");
        r.push("/Library");
        r.push("/usr");
        r.push("/private/var");
        r.push("/opt");
        r.push("/Applications");
        assert(r@.map_values(|s: &str| s@) =~= seq![
            "/System"@,
            "/Library"@,
            "/usr"@,
            "/private/var"@,
            "/opt"@,
            "/Applications"@,
        ]);
    } else {
        r.push("/usr");
        r.push("/var");
        r.push("/opt");
        r.push("/boot");
        r.push("/srv");
        r.push("/root");
        r.push("/swapfile");
        assert(r@.map_values(|s: &str| s@) =~= seq![
            "/usr"@,
            "/var"@,
            "/opt"@,
            "/boot"@,
            "/srv"@,
            "/root"@,
            "/swapfile"@,
        ]);
    }
    r
}

/// The flags of the `du` run that measures those directories, and the size of
/// its blocks: GNU `du` counts bytes, BSD `du` (macOS) only kibibytes.
pub fn du_invocation(p: Platform) -> (r: (Vec<&'static str>, u64))
    ensures
        p == Platform::MacOs ==> r.0@.map_values(|s: &str| s@) == seq!["-scxk"@] && r.1 == 1024,
        p != Platform::MacOs ==> r.0@.map_values(|s: &str| s@) == seq!["-scx"@, "--block-size=1"@]
            && r.1 == 1,
{
    let mut flags: Vec<&'static str> = Vec::new();
    if p == Platform::MacOs {
        flags.push("-scxk");
        assert(flags@.map_values(|s: &str| s@) =~= seq!["-scxk"@]);
        (flags, 1024)
    } else {
        flags.push("-scx");
        flags.push("--block-size=1");
        assert(flags@.map_values(|s: &str| s@) =~= seq!["-scx"@, "--block-size=1"@]);
        (flags, 1)
    }
}

/// The Windows system directories, each from its environment variable
/// (`SystemRoot`, `ProgramFiles`, `ProgramFiles(x86)`, `ProgramData`) or its
/// default on `C:` when unset.
pub fn windows_system_roots(
    system_root: Option<String>,
    program_files: Option<String>,
    program_files_x86: Option<String>,
    program_data: Option<String>,
) -> (r: Vec<String>)
    ensures
        r@.len() == 4,
        r@[0]@ == match system_root { Some(v) => v@, None => "C:\\Windows"@ },
        r@[1]@ == match program_files { Some(v) => v@, None => "C:\\Program Files"@ },
        r@[2]@ == match program_files_x86 { Some(v) => v@, None => "C:\\Program Files (x86)"@ },
        r@[3]@ == match program_data { Some(v) => v@, None => "C:\\ProgramData"@ },
{
    let mut r: Vec<String> = Vec::new();
    r.push(match system_root { Some(v) => v, None => "C:\\Windows".to_owned() });
    r.push(match program_files { Some(v) => v, None => "C:\\Program Files".to_owned() });
    r.push(match program_files_x86 { Some(v) => v, None => "C:\\Program Files (x86)".to_owned() });
    r.push(match program_data { Some(v) => v, None => "C:\\ProgramData".to_owned() });
    r
}

} // verus!
