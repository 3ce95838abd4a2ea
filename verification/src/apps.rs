//! Installed-application inventory: reading the package managers' listings,
//! ranking by disk space, vetting requested ids against the live inventory and
//! planning the uninstall and update commands. The backend never runs a
//! caller-supplied package name, path or command: ids are checked against the
//! inventory and values that could read as an option are dropped.
use vstd::prelude::*;
use crate::helper::{strings, CommandSpec, StepStatus, signed_decimal, signed_decimal_chars};
use crate::paths::{
    ends_with_path, eq_path, join_str, path_ends_with, path_eq, path_starts_with,
    starts_with_path,
};
use crate::ranking::{rank_desc, stable_desc};
use crate::text::{
    chars_eq_str, chars_of, contains_str, copy_chars, decimal, decimal_chars, ends_with,
    has_prefix_str, has_suffix_str, lines, lines_of_str, lowercase, lowercase_of, parse_u64,
    parse_u64_chars, push_all, push_str, split_char, split_on, split_whitespace, starts_with,
    string_of, trim, trim_chars, trim_end_matches, trim_end_matches_str, views, words,
};

verus! {

/// One installed application.
#[derive(Clone, Debug, PartialEq, Eq)]
pub struct AppEntry {
    /// Unique id, prefixed by source: `apt:pkg`, `flatpak:id`, `snap:name`,
    /// `appimage:/abs/path`, `registry:<HIVE>:<subkey>`, `msix:<name>`, `app:/path`.
    pub id: String,
    pub name: String,
    pub source: String,
    pub version: Option<String>,
    pub size_bytes: u64,
    /// Removal/update needs administrator rights.
    pub requires_root: bool,
    /// Essential system component: updates allowed, uninstall forbidden.
    pub protected: bool,
}

/// What a batch action achieved.
#[derive(Clone, Debug, PartialEq, Eq)]
pub struct AppActionReport {
    pub succeeded: Vec<String>,
    pub errors: Vec<String>,
}

/// An application entry as plain values: id, name, source, version, size,
/// whether removal needs administrator rights, whether it is protected.
pub open spec fn app_view(e: AppEntry) -> (Seq<char>, Seq<char>, Seq<char>, Option<Seq<char>>, u64, bool, bool) {
    (e.id@, e.name@, e.source@, opt_view(e.version), e.size_bytes, e.requires_root, e.protected)
}

/// An optional string as an optional character sequence.
pub open spec fn opt_view(o: Option<String>) -> Option<Seq<char>> {
    match o {
        Some(s) => Some(s@),
        None => None,
    }
}

impl AppEntry {
    /// A field-by-field copy.
    pub fn duplicate(&self) -> (r: AppEntry)
        ensures
            r == *self,
    {
        AppEntry {
            id: self.id.clone(),
            name: self.name.clone(),
            source: self.source.clone(),
            version: match &self.version {
                Some(v) => Some(v.clone()),
                None => None,
            },
            size_bytes: self.size_bytes,
            requires_root: self.requires_root,
            protected: self.protected,
        }
    }
}

impl AppActionReport {
    pub fn new() -> (r: AppActionReport)
        ensures
            r.succeeded@.len() == 0,
            r.errors@.len() == 0,
    {
        AppActionReport { succeeded: Vec::new(), errors: Vec::new() }
    }
}

pub(crate) fn concat(a: &str, b: &Vec<char>) -> (r: String)
    ensures
        r@ == a@ + b@,
{
    let mut v: Vec<char> = Vec::new();
    push_str(&mut v, a);
    push_all(&mut v, b);
    string_of(&v)
}

/// Field `i` of `f`, when there is one.
pub open spec fn field(f: Seq<Seq<char>>, i: int) -> Option<Seq<char>> {
    if 0 <= i < f.len() {
        Some(f[i])
    } else {
        None
    }
}

// ---------------------------------------------------------------------------
// apt / dpkg
// ---------------------------------------------------------------------------

/// The dpkg listing fields of a line: package, version, installed size (KiB),
/// status, essential flag, priority, separated by tabs.
pub open spec fn dpkg_fields(line: Seq<char>) -> Seq<Seq<char>> {
    split_on(line, '\t')
}

/// The installed size in bytes that a dpkg line declares (0 when unreadable).
pub open spec fn dpkg_size(line: Seq<char>) -> int {
    match parse_u64(dpkg_fields(line)[2]) {
        Some(k) => k * 1024,
        None => 0,
    }
}

/// Whether a dpkg line describes an installed package: its status (`want
/// error state`, such as `install ok installed`) ends with the state
/// `installed`; `not-installed`, `config-files`, `half-installed` and the
/// like are not.
pub open spec fn dpkg_installed(line: Seq<char>) -> bool {
    let f = dpkg_fields(line);
    f.len() >= 4 && words(f[3]).len() > 0 && words(f[3]).last() == "installed"@
}

/// Essential packages and those of priority required or important may not be
/// removed.
pub open spec fn dpkg_protected(line: Seq<char>) -> bool {
    let f = dpkg_fields(line);
    (f.len() > 4 && trim(f[4]) == "yes"@) || (f.len() > 5 && (trim(f[5]) == "required"@ || trim(
        f[5],
    ) == "important"@))
}

/// The entry a dpkg line describes.
pub open spec fn dpkg_entry_of(line: Seq<char>, e: AppEntry) -> bool {
    let f = dpkg_fields(line);
    &&& e.id@ == "apt:"@ + f[0]
    &&& e.name@ == f[0]
    &&& e.source@ == "apt"@
    &&& e.version matches Some(v) && v@ == f[1]
    &&& e.size_bytes == dpkg_size(line)
    &&& e.requires_root
    &&& e.protected == dpkg_protected(line)
}

/// One line of `dpkg-query -W -f='${Package}\t${Version}\t${Installed-Size}\t
/// ${Status}\t${Essential}\t${Priority}\n'`; `None` unless installed. The size
/// must fit in bytes.
pub fn parse_dpkg_line(line: &Vec<char>) -> (r: Option<AppEntry>)
    requires
        dpkg_installed(line@) ==> dpkg_size(line@) <= u64::MAX,
    ensures
        r is Some <==> dpkg_installed(line@),
        r matches Some(e) ==> dpkg_entry_of(line@, e),
{
    let f = split_char(line, '\t');
    let ghost fv = views(f@);
    assert(fv.len() == f.len());
    if f.len() < 4 {
        return None;
    }
    let status = split_whitespace(&f[3]);
    assert(views(status@) == words(fv[3]));
    if status.len() == 0 || !chars_eq_str(&status[status.len() - 1], "installed") {
        assert(status.len() > 0 ==> views(status@).last() == status@[status.len() - 1]@);
        return None;
    }
    assert(views(status@).last() == status@[status.len() - 1]@);
    let size: u64 = match parse_u64_chars(&f[2]) {
        Some(k) => k * 1024,
        None => 0,
    };
    let essential = if f.len() > 4 {
        let t = trim_chars(&f[4]);
        chars_eq_str(&t, "yes")
    } else {
        false
    };
    let protected = if f.len() > 5 {
        let t = trim_chars(&f[5]);
        chars_eq_str(&t, "required") || chars_eq_str(&t, "important")
    } else {
        false
    };
    Some(
        AppEntry {
            id: concat("apt:", &f[0]),
            name: string_of(&f[0]),
            source: "apt".to_owned(),
            version: Some(string_of(&f[1])),
            size_bytes: size,
            requires_root: true,
            protected: essential || protected,
        },
    )
}

/// The entry of a dpkg line is protected exactly when the package is
/// essential (its fifth field trims to `yes`) or its priority (the sixth
/// field, trimmed) is `required` or `important`.
pub proof fn law_dpkg_protection(line: Seq<char>, e: AppEntry)
    requires
        dpkg_entry_of(line, e),
    ensures
        split_on(line, '\t').len() > 5 && trim(split_on(line, '\t')[5]) == "important"@ ==> e.protected,
        split_on(line, '\t').len() > 5 && trim(split_on(line, '\t')[5]) == "required"@ ==> e.protected,
        split_on(line, '\t').len() > 4 && trim(split_on(line, '\t')[4]) == "yes"@ ==> e.protected,
        e.protected ==> (split_on(line, '\t').len() > 4 && trim(split_on(line, '\t')[4]) == "yes"@) || (
        split_on(line, '\t').len() > 5 && (trim(split_on(line, '\t')[5]) == "required"@ || trim(
            split_on(line, '\t')[5],
        ) == "important"@)),
{
}

/// At most this many apt packages are listed (the largest).
pub const APT_TOP: usize = 80;

/// The sizes of a list of entries.
pub open spec fn entry_sizes(entries: Seq<AppEntry>) -> Seq<u64> {
    entries.map_values(|e: AppEntry| e.size_bytes)
}

/// `r` is the first `n` of `entries` in stable largest-first order.
pub open spec fn largest_first(entries: Seq<AppEntry>, n: int, r: Seq<AppEntry>) -> bool {
    exists|order: Seq<usize>|
        #![trigger stable_desc(entry_sizes(entries), order)]
        stable_desc(entry_sizes(entries), order) && r.len() == if n < entries.len() {
            n
        } else {
            entries.len() as int
        } && forall|i: int| 0 <= i < r.len() ==> #[trigger] r[i] == entries[order[i] as int]
}

/// The first `n` entries in stable largest-first order.
pub fn rank_entries(entries: Vec<AppEntry>, n: usize) -> (r: Vec<AppEntry>)
    ensures
        largest_first(entries@, n as int, r@),
{
    let mut keys: Vec<u64> = Vec::new();
    for i in 0..entries.len()
        invariant
            keys@ == entry_sizes(entries@.take(i as int)),
    {
        keys.push(entries[i].size_bytes);
        assert(keys@ =~= entry_sizes(entries@.take(i + 1)));
    }
    assert(entries@.take(entries.len() as int) =~= entries@);
    let order = rank_desc(&keys);
    let count = if n < entries.len() {
        n
    } else {
        entries.len()
    };
    let mut r: Vec<AppEntry> = Vec::new();
    for i in 0..count
        invariant
            count <= entries.len(),
            order@.len() == entries.len(),
            stable_desc(keys@, order@),
            r@.len() == i,
            forall|j: int| 0 <= j < i ==> #[trigger] r@[j] == entries@[order@[j] as int],
    {
        let e = &entries[order[i]];
        r.push(
            AppEntry {
                id: e.id.clone(),
                name: e.name.clone(),
                source: e.source.clone(),
                version: match &e.version {
                    Some(v) => Some(v.clone()),
                    None => None,
                },
                size_bytes: e.size_bytes,
                requires_root: e.requires_root,
                protected: e.protected,
            },
        );
    }
    assert(stable_desc(entry_sizes(entries@), order@));
    r
}

/// The installed packages of a dpkg listing, in listing order.
pub open spec fn dpkg_installed_lines(out: Seq<char>) -> Seq<Seq<char>> {
    lines(out).filter(|l: Seq<char>| dpkg_installed(l))
}

/// The apt inventory from a dpkg listing: every installed package, the
/// `APT_TOP` largest first.
pub fn detect_apt(out: &str) -> (r: Vec<AppEntry>)
    requires
        forall|i: int|
            0 <= i < lines(out@).len() && dpkg_installed(#[trigger] lines(out@)[i]) ==> dpkg_size(
                lines(out@)[i],
            ) <= u64::MAX,
    ensures
        exists|all: Seq<AppEntry>|
            all.len() == dpkg_installed_lines(out@).len() && (forall|i: int|
                0 <= i < all.len() ==> dpkg_entry_of(dpkg_installed_lines(out@)[i], #[trigger] all[i]))
                && largest_first(all, APT_TOP as int, r@),
{
    let ls = lines_of_str(out);
    let ghost lv = views(ls@);
    let mut apps: Vec<AppEntry> = Vec::new();
    for i in 0..ls.len()
        invariant
            lv == views(ls@),
            lv == lines(out@),
            forall|k: int|
                0 <= k < lv.len() && dpkg_installed(#[trigger] lv[k]) ==> dpkg_size(lv[k]) <= u64::MAX,
            apps@.len() == lv.take(i as int).filter(|l: Seq<char>| dpkg_installed(l)).len(),
            forall|k: int|
                0 <= k < apps@.len() ==> dpkg_entry_of(
                    lv.take(i as int).filter(|l: Seq<char>| dpkg_installed(l))[k],
                    #[trigger] apps@[k],
                ),
    {
        assert(lv.take(i + 1) =~= lv.take(i as int).push(lv[i as int]));
        assert(lv[i as int] == ls@[i as int]@);
        match parse_dpkg_line(&ls[i]) {
            Some(e) => {
                apps.push(e);
            },
            None => {},
        }
        proof {
            lv.take(i as int).lemma_filter_push(lv[i as int], |l: Seq<char>| dpkg_installed(l));
        }
    }
    assert(lv.take(ls.len() as int) =~= lv);
    let ghost all = apps@;
    let r = rank_entries(apps, APT_TOP);
    r
}

// ---------------------------------------------------------------------------
// flatpak
// ---------------------------------------------------------------------------

/// The entry a `flatpak list --app --columns=application,name,version,size,
/// installation` line describes, with its size column (whose value, a human
/// size such as `1.2 GB`, the caller reads); `None` for fewer than four columns.
/// The entry's size is left at 0 for the caller to fill in.
/// The entry of a flatpak listing line with its size column.
pub open spec fn flatpak_view_of(line: Seq<char>) -> Option<
    ((Seq<char>, Seq<char>, Seq<char>, Option<Seq<char>>, u64, bool, bool), Seq<char>),
> {
    let f = split_on(line, '\t');
    if f.len() < 4 {
        None
    } else {
        Some(
            (
                (
                    "flatpak:"@ + f[0],
                    if f[1].len() == 0 {
                        f[0]
                    } else {
                        f[1]
                    },
                    "flatpak"@,
                    if f[2].len() == 0 {
                        None
                    } else {
                        Some(f[2])
                    },
                    0,
                    f.len() > 4 && trim(f[4]) == "system"@,
                    false,
                ),
                f[3],
            ),
        )
    }
}

pub fn parse_flatpak_line(line: &Vec<char>) -> (r: Option<(AppEntry, String)>)
    ensures
        match r {
            Some((e, size_col)) => flatpak_view_of(line@) == Some((app_view(e), size_col@)),
            None => flatpak_view_of(line@) is None,
        },
{
    let f = split_char(line, '\t');
    let ghost fv = views(f@);
    assert(fv.len() == f.len());
    if f.len() < 4 {
        return None;
    }
    let name = if f[1].len() == 0 {
        string_of(&f[0])
    } else {
        string_of(&f[1])
    };
    let version = if f[2].len() == 0 {
        None
    } else {
        Some(string_of(&f[2]))
    };
    let system = if f.len() > 4 {
        let t = trim_chars(&f[4]);
        chars_eq_str(&t, "system")
    } else {
        false
    };
    Some(
        (
            AppEntry {
                id: concat("flatpak:", &f[0]),
                name,
                source: "flatpak".to_owned(),
                version,
                size_bytes: 0,
                requires_root: system,
                protected: false,
            },
            string_of(&f[3]),
        ),
    )
}

/// The applications of a flatpak listing, in order, each with its size column
/// (sizes are left at 0 for the caller to fill in from that column).
pub fn flatpak_rows(out: &str) -> (r: Vec<(AppEntry, String)>)
    ensures
        r@.map_values(|p: (AppEntry, String)| (app_view(p.0), p.1@)) == crate::text::keep_some(
            lines(out@),
            |l: Seq<char>| flatpak_view_of(l),
        ),
{
    let ls = lines_of_str(out);
    let ghost lv = views(ls@);
    let mut rows: Vec<(AppEntry, String)> = Vec::new();
    for i in 0..ls.len()
        invariant
            lv == views(ls@),
            lv == lines(out@),
            rows@.map_values(|p: (AppEntry, String)| (app_view(p.0), p.1@)) == crate::text::keep_some(
                lv.take(i as int),
                |l: Seq<char>| flatpak_view_of(l),
            ),
    {
        let ghost before = rows@.map_values(|p: (AppEntry, String)| (app_view(p.0), p.1@));
        assert(lv.take(i + 1).drop_last() =~= lv.take(i as int));
        assert(lv.take(i + 1).last() == ls@[i as int]@);
        match parse_flatpak_line(&ls[i]) {
            Some(p) => {
                let ghost v = (app_view(p.0), p.1@);
                rows.push(p);
                assert(rows@.map_values(|p: (AppEntry, String)| (app_view(p.0), p.1@)) =~= before.push(v));
            },
            None => {},
        }
    }
    assert(lv.take(ls.len() as int) =~= lv);
    rows
}

// ---------------------------------------------------------------------------
// snap
// ---------------------------------------------------------------------------

/// Base and runtime snaps underpin every other snap and are never removable.
pub open spec fn snap_protected(name: Seq<char>) -> bool {
    name == "core"@ || name == "core18"@ || name == "core20"@ || name == "core22"@ || name
        == "core24"@ || name == "snapd"@ || name == "bare"@ || starts_with(name, "gnome-"@)
        || starts_with(name, "gtk-common"@)
}

pub fn is_snap_protected(name: &Vec<char>) -> (r: bool)
    ensures
        r == snap_protected(name@),
{
    chars_eq_str(name, "core") || chars_eq_str(name, "core18") || chars_eq_str(name, "core20")
        || chars_eq_str(name, "core22") || chars_eq_str(name, "core24") || chars_eq_str(
        name,
        "snapd",
    ) || chars_eq_str(name, "bare") || has_prefix_str(name, "gnome-") || has_prefix_str(
        name,
        "gtk-common",
    )
}

/// The entry a `snap list` row describes (name, version, ...); `None` for fewer
/// than two columns. The size is left at 0 for the caller to fill in.
/// The entry of a `snap list` row.
pub open spec fn snap_view_of(line: Seq<char>) -> Option<
    (Seq<char>, Seq<char>, Seq<char>, Option<Seq<char>>, u64, bool, bool),
> {
    let f = words(line);
    if f.len() < 2 {
        None
    } else {
        Some(("snap:"@ + f[0], f[0], "snap"@, Some(f[1]), 0, true, snap_protected(f[0])))
    }
}

pub fn parse_snap_line(line: &Vec<char>) -> (r: Option<AppEntry>)
    ensures
        match r {
            Some(e) => snap_view_of(line@) == Some(app_view(e)),
            None => snap_view_of(line@) is None,
        },
{
    let f = split_whitespace(line);
    let ghost fv = views(f@);
    assert(fv.len() == f.len());
    if f.len() < 2 {
        return None;
    }
    Some(
        AppEntry {
            id: concat("snap:", &f[0]),
            name: string_of(&f[0]),
            source: "snap".to_owned(),
            version: Some(string_of(&f[1])),
            size_bytes: 0,
            requires_root: true,
            protected: is_snap_protected(&f[0]),
        },
    )
}

/// The rows of a `snap list` output after its header line.
pub open spec fn after_header(ls: Seq<Seq<char>>) -> Seq<Seq<char>> {
    if ls.len() == 0 {
        ls
    } else {
        ls.skip(1)
    }
}

/// The snaps of a `snap list` output, in order (sizes are left at 0 for the
/// caller to fill in with `snap_size`).
pub fn snap_rows(out: &str) -> (r: Vec<AppEntry>)
    ensures
        r@.map_values(|e: AppEntry| app_view(e)) == crate::text::keep_some(
            after_header(lines(out@)),
            |l: Seq<char>| snap_view_of(l),
        ),
{
    let ls = lines_of_str(out);
    let ghost lv = views(ls@);
    let ghost body = after_header(lv);
    let mut rows: Vec<AppEntry> = Vec::new();
    if ls.len() == 0 {
        return rows;
    }
    for i in 1..ls.len()
        invariant
            lv == views(ls@),
            lv == lines(out@),
            lv.len() >= 1,
            body == lv.skip(1),
            rows@.map_values(|e: AppEntry| app_view(e)) == crate::text::keep_some(
                body.take(i - 1),
                |l: Seq<char>| snap_view_of(l),
            ),
    {
        let ghost before = rows@.map_values(|e: AppEntry| app_view(e));
        assert(body.take(i as int).drop_last() =~= body.take(i - 1));
        assert(body.take(i as int).last() == ls@[i as int]@);
        match parse_snap_line(&ls[i]) {
            Some(e) => {
                rows.push(e);
                assert(rows@.map_values(|e: AppEntry| app_view(e)) =~= before.push(app_view(e)));
            },
            None => {},
        }
    }
    assert(body.take(ls.len() - 1) =~= body);
    rows
}

/// The largest of the sizes of the installed snap images of `name`, files
/// named `<name>_<revision>.snap`; 0 when there is none. `files` are the
/// directory's entries as (file name, size if readable).
pub fn snap_size(name: &str, files: &Vec<(String, Option<u64>)>) -> (r: u64)
    ensures
        forall|i: int|
            0 <= i < files@.len() && starts_with(files@[i].0@, name@ + "_"@) && #[trigger] files@[i].1 is Some
                ==> files@[i].1->Some_0 <= r,
        r == 0 || exists|i: int|
            0 <= i < files@.len() && starts_with(files@[i].0@, name@ + "_"@) && #[trigger] files@[i].1
                == Some(r),
{
    let mut prefix = chars_of(name);
    prefix.push('_');
    assert(prefix@ =~= name@ + "_"@) by {
        reveal_strlit("_");
    }
    let mut best: u64 = 0;
    for i in 0..files.len()
        invariant
            prefix@ == name@ + "_"@,
            forall|k: int|
                0 <= k < i && starts_with(files@[k].0@, name@ + "_"@) && #[trigger] files@[k].1 is Some
                    ==> files@[k].1->Some_0 <= best,
            best == 0 || exists|k: int|
                0 <= k < i && starts_with(files@[k].0@, name@ + "_"@) && #[trigger] files@[k].1
                    == Some(best),
    {
        let fname = chars_of(files[i].0.as_str());
        if crate::text::has_prefix(&fname, &prefix) {
            match files[i].1 {
                Some(len) => {
                    if len > best {
                        best = len;
                    }
                },
                None => {},
            }
        }
    }
    best
}

// ---------------------------------------------------------------------------
// AppImages and application folders
// ---------------------------------------------------------------------------

/// The directories searched for AppImages and application folders.
pub fn appimage_bases(home: &str) -> (r: Vec<String>)
    ensures
        strings(r@) == seq![
            crate::paths::join(home@, "Applications"@),
            crate::paths::join(home@, "applications"@),
            crate::paths::join(home@, ".local/bin"@),
            crate::paths::join(home@, "bin"@),
            crate::paths::join(home@, "Downloads"@),
            crate::paths::join(home@, "Téléchargements"@),
            "/opt"@,
        ],
{
    let mut v: Vec<String> = Vec::new();
    v.push(join_str(home, "Applications"));
    v.push(join_str(home, "applications"));
    v.push(join_str(home, ".local/bin"));
    v.push(join_str(home, "bin"));
    v.push(join_str(home, "Downloads"));
    v.push(join_str(home, "Téléchargements"));
    v.push("/opt".to_owned());
    assert(strings(v@) =~= seq![
        crate::paths::join(home@, "Applications"@),
        crate::paths::join(home@, "applications"@),
        crate::paths::join(home@, ".local/bin"@),
        crate::paths::join(home@, "bin"@),
        crate::paths::join(home@, "Downloads"@),
        crate::paths::join(home@, "Téléchargements"@),
        "/opt"@,
    ]);
    v
}

/// The entry of an AppImage file: a regular file whose name ends with
/// `.appimage` in any case. Its display name drops the `.AppImage` /
/// `.appimage` suffixes; it needs root when it lies outside the home.
pub fn appimage_file_entry(path: &str, file_name: &str, size: u64, home: &str) -> (r: Option<AppEntry>)
    ensures
        r is Some <==> ends_with(lowercase_of(file_name@), ".appimage"@),
        r matches Some(e) ==> e.id@ == "appimage:"@ + path@ && e.name@ == trim_end_matches(
            trim_end_matches(file_name@, ".AppImage"@),
            ".appimage"@,
        ) && e.source@ == "appimage"@ && e.version is None && e.size_bytes == size
            && e.requires_root == !path_starts_with(path@, home@) && !e.protected,
{
    let lower = lowercase(file_name);
    let lc = chars_of(lower.as_str());
    if !has_suffix_str(&lc, ".appimage") {
        return None;
    }
    proof {
        reveal_strlit(".AppImage");
        reveal_strlit(".appimage");
    }
    let n = chars_of(file_name);
    let a = trim_end_matches_str(&n, ".AppImage");
    let b = trim_end_matches_str(&a, ".appimage");
    let p = chars_of(path);
    let h = chars_of(home);
    let inside = starts_with_path(&p, &h);
    Some(
        AppEntry {
            id: concat("appimage:", &p),
            name: string_of(&b),
            source: "appimage".to_owned(),
            version: None,
            size_bytes: size,
            requires_root: !inside,
            protected: false,
        },
    )
}

/// Folders count as applications only inside an `Applications` base or `/opt`.
pub fn folder_base_counts(base: &str) -> (r: bool)
    ensures
        r == (path_ends_with(base@, "Applications"@) || path_eq(base@, "/opt"@)),
{
    let b = chars_of(base);
    let a = chars_of("Applications");
    let o = chars_of("/opt");
    ends_with_path(&b, &a) || eq_path(&b, &o)
}

/// The entry of an application folder of `size` bytes; empty folders are not
/// listed.
pub fn app_folder_entry(path: &str, name: &str, size: u64, home: &str) -> (r: Option<AppEntry>)
    ensures
        r is None <==> size == 0,
        r matches Some(e) ==> e.id@ == "appimage:"@ + path@ && e.name@ == name@ && e.source@
            == "appimage"@ && e.version is None && e.size_bytes == size && e.requires_root
            == !path_starts_with(path@, home@) && !e.protected,
{
    if size == 0 {
        return None;
    }
    let p = chars_of(path);
    let h = chars_of(home);
    let inside = starts_with_path(&p, &h);
    Some(
        AppEntry {
            id: concat("appimage:", &p),
            name: name.to_owned(),
            source: "appimage".to_owned(),
            version: None,
            size_bytes: size,
            requires_root: !inside,
            protected: false,
        },
    )
}

/// Full inventory, largest first (stable).
pub fn list(apps: Vec<AppEntry>) -> (r: Vec<AppEntry>)
    ensures
        largest_first(apps@, apps@.len() as int, r@),
{
    let n = apps.len();
    rank_entries(apps, n)
}

// ---------------------------------------------------------------------------
// Updates
// ---------------------------------------------------------------------------

/// The ids `apt list --upgradable` reports: on each line mentioning
/// `upgradable`, the package is the text before the first `/`, trimmed.
pub open spec fn apt_upgradable(out: Seq<char>) -> Seq<Seq<char>>
    decreases lines(out).len(),
{
    apt_upgradable_lines(lines(out))
}

pub open spec fn apt_upgradable_lines(ls: Seq<Seq<char>>) -> Seq<Seq<char>>
    decreases ls.len(),
{
    if ls.len() == 0 {
        Seq::empty()
    } else {
        let rest = apt_upgradable_lines(ls.drop_last());
        let l = ls.last();
        if crate::text::contains_seq(l, "upgradable"@) {
            rest.push("apt:"@ + trim(split_on(l, '/')[0]))
        } else {
            rest
        }
    }
}

/// The ids `flatpak remote-ls --updates --columns=application` reports: every
/// non-blank line, trimmed.
pub open spec fn flatpak_updates_lines(ls: Seq<Seq<char>>) -> Seq<Seq<char>>
    decreases ls.len(),
{
    if ls.len() == 0 {
        Seq::empty()
    } else {
        let rest = flatpak_updates_lines(ls.drop_last());
        let a = trim(ls.last());
        if a.len() > 0 {
            rest.push("flatpak:"@ + a)
        } else {
            rest
        }
    }
}

/// The ids `snap refresh --list` reports: the first word of every line after
/// the header.
pub open spec fn snap_refresh_lines(ls: Seq<Seq<char>>) -> Seq<Seq<char>>
    decreases ls.len(),
{
    if ls.len() <= 1 {
        Seq::empty()
    } else {
        let rest = snap_refresh_lines(ls.drop_last());
        let w = words(ls.last());
        if w.len() > 0 {
            rest.push("snap:"@ + w[0])
        } else {
            rest
        }
    }
}

fn collect_apt(out: &str, ids: &mut Vec<String>)
    ensures
        strings(final(ids)@) == strings(old(ids)@) + apt_upgradable(out@),
{
    let ls = lines_of_str(out);
    let ghost lv = views(ls@);
    let ghost start = strings(ids@);
    for i in 0..ls.len()
        invariant
            lv == views(ls@),
            lv == lines(out@),
            strings(ids@) == start + apt_upgradable_lines(lv.take(i as int)),
    {
        assert(lv.take(i + 1).drop_last() =~= lv.take(i as int));
        assert(lv[i as int] == ls@[i as int]@);
        if contains_str(&ls[i], "upgradable") {
            let parts = split_char(&ls[i], '/');
            proof {
                crate::text::lemma_split_on_nonempty(ls@[i as int]@, '/');
            }
            assert(views(parts@)[0] == parts@[0]@);
            let pkg = trim_chars(&parts[0]);
            let ghost before = strings(ids@);
            ids.push(concat("apt:", &pkg));
            assert(strings(ids@) =~= before.push("apt:"@ + pkg@));
        }
    }
    assert(lv.take(ls.len() as int) =~= lv);
}

fn collect_flatpak(out: &str, ids: &mut Vec<String>)
    ensures
        strings(final(ids)@) == strings(old(ids)@) + flatpak_updates_lines(lines(out@)),
{
    let ls = lines_of_str(out);
    let ghost lv = views(ls@);
    let ghost start = strings(ids@);
    for i in 0..ls.len()
        invariant
            lv == views(ls@),
            lv == lines(out@),
            strings(ids@) == start + flatpak_updates_lines(lv.take(i as int)),
    {
        assert(lv.take(i + 1).drop_last() =~= lv.take(i as int));
        assert(lv[i as int] == ls@[i as int]@);
        let a = trim_chars(&ls[i]);
        if a.len() > 0 {
            let ghost before = strings(ids@);
            ids.push(concat("flatpak:", &a));
            assert(strings(ids@) =~= before.push("flatpak:"@ + a@));
        }
    }
    assert(lv.take(ls.len() as int) =~= lv);
}

fn collect_snap(out: &str, ids: &mut Vec<String>)
    ensures
        strings(final(ids)@) == strings(old(ids)@) + snap_refresh_lines(lines(out@)),
{
    let ls = lines_of_str(out);
    let ghost lv = views(ls@);
    let ghost start = strings(ids@);
    assert(snap_refresh_lines(lv.take(0)) =~= Seq::<Seq<char>>::empty());
    for i in 0..ls.len()
        invariant
            lv == views(ls@),
            lv == lines(out@),
            strings(ids@) == start + snap_refresh_lines(lv.take(i as int)),
    {
        assert(lv.take(i + 1).drop_last() =~= lv.take(i as int));
        assert(lv[i as int] == ls@[i as int]@);
        if i >= 1 {
            let w = split_whitespace(&ls[i]);
            if w.len() > 0 {
                assert(views(w@)[0] == w@[0]@);
                let ghost before = strings(ids@);
                ids.push(concat("snap:", &w[0]));
                assert(strings(ids@) =~= before.push("snap:"@ + w@[0]@));
            }
        } else {
            assert(snap_refresh_lines(lv.take(1)) =~= Seq::<Seq<char>>::empty());
        }
    }
    assert(lv.take(ls.len() as int) =~= lv);
}

/// The ids the tool outputs report upgradable: those of `apt list
/// --upgradable`, `flatpak remote-ls --updates` and `snap refresh --list`
/// (each `None` when the command failed), in that order.
pub open spec fn reported_updates(apt: Option<String>, flatpak: Option<String>, snap: Option<String>) -> Seq<Seq<char>> {
    (match apt {
        Some(o) => apt_upgradable(o@),
        None => Seq::empty(),
    }) + (match flatpak {
        Some(o) => flatpak_updates_lines(lines(o@)),
        None => Seq::empty(),
    }) + (match snap {
        Some(o) => snap_refresh_lines(lines(o@)),
        None => Seq::empty(),
    })
}

fn reported(apt: &Option<String>, flatpak: &Option<String>, snap: &Option<String>) -> (r: Vec<String>)
    ensures
        strings(r@) == reported_updates(*apt, *flatpak, *snap),
{
    let mut ids: Vec<String> = Vec::new();
    assert(strings(ids@) =~= Seq::<Seq<char>>::empty());
    match apt {
        Some(o) => collect_apt(o.as_str(), &mut ids),
        None => {},
    }
    let ghost a = strings(ids@);
    match flatpak {
        Some(o) => collect_flatpak(o.as_str(), &mut ids),
        None => {
            assert(strings(ids@) =~= a + Seq::<Seq<char>>::empty());
        },
    }
    let ghost b = strings(ids@);
    match snap {
        Some(o) => collect_snap(o.as_str(), &mut ids),
        None => {
            assert(strings(ids@) =~= b + Seq::<Seq<char>>::empty());
        },
    }
    assert(apt is None ==> a =~= Seq::<Seq<char>>::empty());
    ids
}

/// Ids of the applications of `inventory` with a newer version available:
/// of the ids the tool outputs report upgradable (see `reported_updates`),
/// those of the inventory, in order.
pub fn updates(apt: Option<String>, flatpak: Option<String>, snap: Option<String>, inventory: &Vec<AppEntry>) -> (r:
    Vec<String>)
    ensures
        strings(r@) == reported_updates(apt, flatpak, snap).filter(|id: Seq<char>| known_id(inventory@, id)),
{
    let all = reported(&apt, &flatpak, &snap);
    let ghost av = strings(all@);
    let mut r: Vec<String> = Vec::new();
    for i in 0..all.len()
        invariant
            av == strings(all@),
            strings(r@) == av.take(i as int).filter(|id: Seq<char>| known_id(inventory@, id)),
    {
        assert(av.take(i + 1) =~= av.take(i as int).push(av[i as int]));
        proof {
            av.take(i as int).lemma_filter_push(av[i as int], |id: Seq<char>| known_id(inventory@, id));
        }
        if is_known(inventory, all[i].as_str()) {
            let ghost before = strings(r@);
            r.push(all[i].clone());
            assert(strings(r@) =~= before.push(av[i as int]));
        }
    }
    assert(av.take(all.len() as int) =~= av);
    r
}

// ---------------------------------------------------------------------------
// Vetting requested ids
// ---------------------------------------------------------------------------

/// The ids of `ids` that carry `prefix`, with the prefix removed, in order.
pub open spec fn with_prefix(ids: Seq<Seq<char>>, prefix: Seq<char>) -> Seq<Seq<char>>
    decreases ids.len(),
{
    if ids.len() == 0 {
        Seq::empty()
    } else {
        let rest = with_prefix(ids.drop_last(), prefix);
        let id = ids.last();
        if starts_with(id, prefix) {
            rest.push(id.skip(prefix.len() as int))
        } else {
            rest
        }
    }
}

pub fn split_ids(ids: &Vec<String>, prefix: &str) -> (r: Vec<String>)
    ensures
        strings(r@) == with_prefix(strings(ids@), prefix@),
{
    let mut r: Vec<String> = Vec::new();
    let ghost iv = strings(ids@);
    for i in 0..ids.len()
        invariant
            iv == strings(ids@),
            strings(r@) == with_prefix(iv.take(i as int), prefix@),
    {
        assert(iv.take(i + 1).drop_last() =~= iv.take(i as int));
        assert(iv.take(i + 1).last() == ids@[i as int]@);
        let c = chars_of(ids[i].as_str());
        match crate::text::strip_prefix_str(&c, prefix) {
            Some(rest) => {
                let ghost before = strings(r@);
                r.push(string_of(&rest));
                assert(strings(r@) =~= before.push(rest@));
            },
            None => {},
        }
    }
    assert(iv.take(ids.len() as int) =~= iv);
    r
}

/// A safe command-line value: non-empty and never looks like an option.
pub open spec fn safe_value(s: Seq<char>) -> bool {
    s.len() > 0 && s[0] != '-'
}

pub fn is_safe_value(s: &str) -> (r: bool)
    ensures
        r == safe_value(s@),
{
    let c = chars_of(s);
    c.len() > 0 && c[0] != '-'
}

/// The safe values of `v`, in order.
pub open spec fn safe_only(v: Seq<Seq<char>>) -> Seq<Seq<char>> {
    v.filter(|s: Seq<char>| safe_value(s))
}

pub fn keep_safe(v: Vec<String>) -> (r: Vec<String>)
    ensures
        strings(r@) == safe_only(strings(v@)),
{
    let mut r: Vec<String> = Vec::new();
    let ghost sv = strings(v@);
    for i in 0..v.len()
        invariant
            sv == strings(v@),
            strings(r@) == safe_only(sv.take(i as int)),
    {
        assert(sv.take(i + 1) =~= sv.take(i as int).push(sv[i as int]));
        proof {
            sv.take(i as int).lemma_filter_push(sv[i as int], |s: Seq<char>| safe_value(s));
        }
        if is_safe_value(v[i].as_str()) {
            let ghost before = strings(r@);
            r.push(v[i].clone());
            assert(strings(r@) =~= before.push(sv[i as int]));
        }
    }
    assert(sv.take(v.len() as int) =~= sv);
    r
}

/// Whether some entry of `inventory` has id `id`.
pub open spec fn known_id(inventory: Seq<AppEntry>, id: Seq<char>) -> bool {
    exists|k: int| 0 <= k < inventory.len() && #[trigger] inventory[k].id@ == id
}

/// Whether some protected entry of `inventory` has id `id`.
pub open spec fn protected_id(inventory: Seq<AppEntry>, id: Seq<char>) -> bool {
    exists|k: int| 0 <= k < inventory.len() && #[trigger] inventory[k].id@ == id && inventory[k].protected
}

/// Whether `id` is accepted for an action.
pub open spec fn accepted(inventory: Seq<AppEntry>, id: Seq<char>, block_protected: bool) -> bool {
    known_id(inventory, id) && !(block_protected && protected_id(inventory, id))
}

/// The refusal message for a rejected id, if it is rejected.
pub open spec fn rejection(inventory: Seq<AppEntry>, id: Seq<char>, block_protected: bool) -> Option<Seq<char>> {
    if !known_id(inventory, id) {
        Some("refused (unknown app): "@ + id)
    } else if block_protected && protected_id(inventory, id) {
        Some("refused (protected system app): "@ + id)
    } else {
        None
    }
}

pub open spec fn accepted_ids(inventory: Seq<AppEntry>, ids: Seq<String>, block_protected: bool) -> Seq<Seq<char>>
    decreases ids.len(),
{
    if ids.len() == 0 {
        Seq::empty()
    } else {
        let rest = accepted_ids(inventory, ids.drop_last(), block_protected);
        if accepted(inventory, ids.last()@, block_protected) {
            rest.push(ids.last()@)
        } else {
            rest
        }
    }
}

pub open spec fn rejections(inventory: Seq<AppEntry>, ids: Seq<String>, block_protected: bool) -> Seq<Seq<char>>
    decreases ids.len(),
{
    if ids.len() == 0 {
        Seq::empty()
    } else {
        let rest = rejections(inventory, ids.drop_last(), block_protected);
        match rejection(inventory, ids.last()@, block_protected) {
            Some(m) => rest.push(m),
            None => rest,
        }
    }
}

/// No value handed to a package manager can read as an option: every id a
/// plan passes on is non-empty and does not start with `-`.
pub proof fn law_planned_values_are_safe(known: Seq<Seq<char>>, prefix: Seq<char>)
    ensures
        forall|i: int| 0 <= i < source_ids(known, prefix).len() ==> safe_value(#[trigger] source_ids(known, prefix)[i]),
{
    let v = with_prefix(known, prefix);
    assert forall|i: int| 0 <= i < source_ids(known, prefix).len() implies safe_value(
        #[trigger] source_ids(known, prefix)[i],
    ) by {
        v.filter_lemma(|s: Seq<char>| safe_value(s));
    }
}

/// Every requested id is either accepted or refused with a message, never
/// both, never neither.
pub proof fn law_every_id_accounted_for(inventory: Seq<AppEntry>, ids: Seq<String>, block_protected: bool)
    ensures
        accepted_ids(inventory, ids, block_protected).len() + rejections(inventory, ids, block_protected).len()
            == ids.len(),
    decreases ids.len(),
{
    if ids.len() > 0 {
        law_every_id_accounted_for(inventory, ids.drop_last(), block_protected);
    }
}

/// An uninstall only ever acts on ids of the live inventory that are not
/// protected system components.
pub proof fn law_uninstall_spares_protected(inventory: Seq<AppEntry>, ids: Seq<String>)
    ensures
        forall|i: int|
            0 <= i < accepted_ids(inventory, ids, true).len() ==> known_id(
                inventory,
                #[trigger] accepted_ids(inventory, ids, true)[i],
            ) && !protected_id(inventory, accepted_ids(inventory, ids, true)[i]),
    decreases ids.len(),
{
    if ids.len() > 0 {
        law_uninstall_spares_protected(inventory, ids.drop_last());
        let rest = accepted_ids(inventory, ids.drop_last(), true);
        let all = accepted_ids(inventory, ids, true);
        assert forall|i: int| 0 <= i < all.len() implies known_id(inventory, #[trigger] all[i]) && !protected_id(
            inventory,
            all[i],
        ) by {
            if i < rest.len() {
                assert(all[i] == rest[i]);
            }
        }
    }
}

fn is_known(inventory: &Vec<AppEntry>, id: &str) -> (r: bool)
    ensures
        r == known_id(inventory@, id@),
{
    for k in 0..inventory.len()
        invariant
            forall|j: int| 0 <= j < k ==> #[trigger] inventory@[j].id@ != id@,
    {
        if crate::text::str_eq(inventory[k].id.as_str(), id) {
            return true;
        }
    }
    false
}

fn is_protected(inventory: &Vec<AppEntry>, id: &str) -> (r: bool)
    ensures
        r == protected_id(inventory@, id@),
{
    for k in 0..inventory.len()
        invariant
            forall|j: int| 0 <= j < k ==> !(#[trigger] inventory@[j].id@ == id@ && inventory@[j].protected),
    {
        if inventory[k].protected && crate::text::str_eq(inventory[k].id.as_str(), id) {
            return true;
        }
    }
    false
}

/// Keep only ids that exist in the current inventory (and, when
/// `block_protected`, are not essential system components). Every refused id
/// is recorded as an error, in order.
pub fn validate_against_inventory(
    ids: &Vec<String>,
    report: &mut AppActionReport,
    block_protected: bool,
    inventory: &Vec<AppEntry>,
) -> (r: Vec<String>)
    ensures
        strings(r@) == accepted_ids(inventory@, ids@, block_protected),
        final(report).succeeded == old(report).succeeded,
        strings(final(report).errors@) == strings(old(report).errors@) + rejections(
            inventory@,
            ids@,
            block_protected,
        ),
{
    let mut known: Vec<String> = Vec::new();
    let ghost start = strings(report.errors@);
    for i in 0..ids.len()
        invariant
            strings(known@) == accepted_ids(inventory@, ids@.take(i as int), block_protected),
            report.succeeded == old(report).succeeded,
            start == strings(old(report).errors@),
            strings(report.errors@) == start + rejections(inventory@, ids@.take(i as int), block_protected),
    {
        assert(ids@.take(i + 1).drop_last() =~= ids@.take(i as int));
        let id = ids[i].as_str();
        let ghost before_e = strings(report.errors@);
        let ghost before_k = strings(known@);
        if !is_known(inventory, id) {
            report.errors.push(concat("refused (unknown app): ", &chars_of(id)));
            assert(strings(report.errors@) =~= before_e.push("refused (unknown app): "@ + id@));
        } else if block_protected && is_protected(inventory, id) {
            report.errors.push(concat("refused (protected system app): ", &chars_of(id)));
            assert(strings(report.errors@) =~= before_e.push("refused (protected system app): "@ + id@));
        } else {
            known.push(ids[i].clone());
            assert(strings(known@) =~= before_k.push(id@));
        }
    }
    assert(ids@.take(ids.len() as int) =~= ids@);
    known
}

// ---------------------------------------------------------------------------
// Planning uninstalls and updates (Linux)
// ---------------------------------------------------------------------------

/// A command with the label it is reported under.
#[derive(Clone, Debug, PartialEq, Eq)]
pub struct LabeledCommand {
    pub label: String,
    pub command: CommandSpec,
}

/// `c` runs `program` with `fixed` arguments followed by `values`, with no
/// extra environment.
pub open spec fn runs(c: CommandSpec, program: Seq<char>, fixed: Seq<Seq<char>>, values: Seq<Seq<char>>) -> bool {
    c.program@ == program && strings(c.args@) == fixed + values && c.env@.len() == 0
}

pub(crate) fn command(program: &str, fixed: Vec<String>, values: &Vec<String>) -> (r: CommandSpec)
    ensures
        runs(r, program@, strings(fixed@), strings(values@)),
{
    let mut args = fixed;
    let ghost f = strings(args@);
    for i in 0..values.len()
        invariant
            strings(args@) == f + strings(values@.take(i as int)),
    {
        let ghost before = strings(args@);
        args.push(values[i].clone());
        assert(strings(args@) =~= before.push(values@[i as int]@));
        assert(strings(values@.take(i + 1)) =~= strings(values@.take(i as int)).push(values@[i as int]@));
        assert(strings(args@) =~= f + strings(values@.take(i + 1)));
    }
    assert(values@.take(values.len() as int) =~= values@);
    CommandSpec { program: program.to_owned(), args, env: Vec::new() }
}

pub(crate) fn push_owned(v: &mut Vec<String>, s: &str)
    ensures
        strings(final(v)@) == strings(old(v)@).push(s@),
{
    let ghost before = strings(v@);
    v.push(s.to_owned());
    assert(strings(v@) =~= before.push(s@));
}

/// `what` followed by a count in brackets, as in `apt remove (3)`.
pub open spec fn counted(what: Seq<char>, n: nat) -> Seq<char> {
    what + " ("@ + decimal(n) + ")"@
}

fn count_label(what: &str, n: usize) -> (r: String)
    ensures
        r@ == counted(what@, n as nat),
{
    let mut v: Vec<char> = Vec::new();
    push_str(&mut v, what);
    push_str(&mut v, " (");
    let d = decimal_chars(n as u64);
    push_all(&mut v, &d);
    push_str(&mut v, ")");
    string_of(&v)
}

/// The uninstall work for vetted ids: the commands to run (apt packages in one
/// privileged removal, each snap on its own, flatpaks in one removal; values
/// that could read as an option are dropped), then the AppImage paths to
/// remove.
#[derive(Clone, Debug)]
pub struct UninstallPlan {
    pub commands: Vec<LabeledCommand>,
    pub appimage_paths: Vec<String>,
}

/// The vetted ids of one source (`apt:`, `snap:`, ...) that are safe to pass
/// as values, in order.
pub open spec fn source_ids(known: Seq<Seq<char>>, prefix: Seq<char>) -> Seq<Seq<char>> {
    safe_only(with_prefix(known, prefix))
}

/// One command for a source when it has ids, none otherwise.
pub open spec fn one_if_any(ids: Seq<Seq<char>>) -> int {
    if ids.len() > 0 { 1 } else { 0 }
}

/// `c` removes snap `name` with privileges, reported as `snap remove <name>`.
pub open spec fn snap_removal(c: LabeledCommand, name: Seq<char>) -> bool {
    runs(c.command, "pkexec"@, seq!["snap"@, "remove"@, name], Seq::empty()) && c.label@ == "snap remove "@
        + name
}

/// `cmds` are the uninstall commands for the vetted ids `known`: apt packages
/// in one privileged removal, each snap on its own, flatpaks in one removal,
/// in that order; values that could read as an option are dropped.
pub open spec fn uninstall_commands_for(known: Seq<Seq<char>>, cmds: Seq<LabeledCommand>) -> bool {
    let apt = source_ids(known, "apt:"@);
    let snap = source_ids(known, "snap:"@);
    let flatpak = source_ids(known, "flatpak:"@);
    let n_apt = one_if_any(apt);
    &&& cmds.len() == n_apt + snap.len() + one_if_any(flatpak)
    &&& apt.len() > 0 ==> runs(cmds[0].command, "pkexec"@, seq!["apt-get"@, "remove"@, "-y"@, "--"@], apt)
        && cmds[0].label@ == counted("apt remove"@, apt.len())
    &&& forall|j: int| 0 <= j < snap.len() ==> snap_removal(#[trigger] cmds[n_apt + j], snap[j])
    &&& flatpak.len() > 0 ==> runs(
        cmds[n_apt + snap.len()].command,
        "flatpak"@,
        seq!["uninstall"@, "-y"@, "--"@],
        flatpak,
    ) && cmds[n_apt + snap.len()].label@ == counted("flatpak uninstall"@, flatpak.len())
}

pub fn uninstall_plan(known: &Vec<String>) -> (r: UninstallPlan)
    ensures
        uninstall_commands_for(strings(known@), r.commands@),
        strings(r.appimage_paths@) == with_prefix(strings(known@), "appimage:"@),
{
    let mut commands: Vec<LabeledCommand> = Vec::new();
    let apt = keep_safe(split_ids(known, "apt:"));
    let ghost apt_s = strings(apt@);
    if apt.len() > 0 {
        let mut fixed: Vec<String> = Vec::new();
        push_owned(&mut fixed, "apt-get");
        push_owned(&mut fixed, "remove");
        push_owned(&mut fixed, "-y");
        push_owned(&mut fixed, "--");
        assert(strings(fixed@) =~= seq!["apt-get"@, "remove"@, "-y"@, "--"@]);
        let c = command("pkexec", fixed, &apt);
        commands.push(LabeledCommand { label: count_label("apt remove", apt.len()), command: c });
    }
    let n_apt = commands.len();
    let ghost head = commands@;
    let snap = keep_safe(split_ids(known, "snap:"));
    let ghost snap_s = strings(snap@);
    for j in 0..snap.len()
        invariant
            commands@.len() == n_apt + j,
            n_apt <= 1,
            head.len() == n_apt,
            commands@.take(n_apt as int) == head,
            snap_s == strings(snap@),
            forall|k: int| 0 <= k < j ==> snap_removal(#[trigger] commands@[n_apt + k], snap_s[k]),
    {
        let name = &snap[j];
        let mut fixed: Vec<String> = Vec::new();
        push_owned(&mut fixed, "snap");
        push_owned(&mut fixed, "remove");
        push_owned(&mut fixed, name.as_str());
        assert(strings(fixed@) =~= seq!["snap"@, "remove"@, snap_s[j as int]]);
        let empty: Vec<String> = Vec::new();
        assert(strings(empty@) =~= Seq::<Seq<char>>::empty());
        let c = command("pkexec", fixed, &empty);
        assert(seq!["snap"@, "remove"@, snap_s[j as int]] + Seq::<Seq<char>>::empty() =~= seq!["snap"@, "remove"@, snap_s[j as int]]);
        let mut label: Vec<char> = Vec::new();
        push_str(&mut label, "snap remove ");
        push_str(&mut label, name.as_str());
        let ghost before = commands@;
        let lc = LabeledCommand { label: string_of(&label), command: c };
        assert(snap_removal(lc, snap_s[j as int]));
        commands.push(lc);
        assert(commands@.take(n_apt as int) =~= before.take(n_apt as int));
        assert(commands@[n_apt + j] == lc);
    }
    let n_mid = commands.len();
    let ghost mid = commands@;
    let flatpak = keep_safe(split_ids(known, "flatpak:"));
    if flatpak.len() > 0 {
        let mut fixed: Vec<String> = Vec::new();
        push_owned(&mut fixed, "uninstall");
        push_owned(&mut fixed, "-y");
        push_owned(&mut fixed, "--");
        assert(strings(fixed@) =~= seq!["uninstall"@, "-y"@, "--"@]);
        let c = command("flatpak", fixed, &flatpak);
        commands.push(LabeledCommand { label: count_label("flatpak uninstall", flatpak.len()), command: c });
        assert(commands@.take(n_mid as int) =~= mid);
    }
    assert(commands@.take(n_mid as int) =~= mid);
    assert(mid.take(n_apt as int) =~= head);
    assert(n_apt == 1 ==> commands@[0] == head[0]);
    assert(n_apt == one_if_any(source_ids(strings(known@), "apt:"@)));
    assert(snap_s == source_ids(strings(known@), "snap:"@));
    assert forall|j: int| 0 <= j < snap_s.len() implies snap_removal(#[trigger] commands@[n_apt + j], snap_s[j]) by {
        assert(commands@[n_apt + j] == mid[n_apt + j]);
        assert(snap_removal(mid[n_apt + j], snap_s[j]));
    }
    let appimage_paths = split_ids(known, "appimage:");
    UninstallPlan { commands, appimage_paths }
}

/// `cmds` are the update commands for the vetted ids `known`: apt packages
/// upgraded in one privileged call, snaps refreshed in one, flatpaks updated in
/// one, in that order; values that could read as an option are dropped.
pub open spec fn update_commands_for(known: Seq<Seq<char>>, cmds: Seq<LabeledCommand>) -> bool {
    let apt = source_ids(known, "apt:"@);
    let snap = source_ids(known, "snap:"@);
    let flatpak = source_ids(known, "flatpak:"@);
    &&& cmds.len() == one_if_any(apt) + one_if_any(snap) + one_if_any(flatpak)
    &&& apt.len() > 0 ==> runs(
        cmds[0].command,
        "pkexec"@,
        seq!["apt-get"@, "install"@, "--only-upgrade"@, "-y"@, "--"@],
        apt,
    ) && cmds[0].label@ == counted("apt upgrade"@, apt.len())
    &&& snap.len() > 0 ==> runs(cmds[one_if_any(apt)].command, "pkexec"@, seq!["snap"@, "refresh"@], snap)
        && cmds[one_if_any(apt)].label@ == counted("snap refresh"@, snap.len())
    &&& flatpak.len() > 0 ==> runs(
        cmds[one_if_any(apt) + one_if_any(snap)].command,
        "flatpak"@,
        seq!["update"@, "-y"@, "--"@],
        flatpak,
    ) && cmds[one_if_any(apt) + one_if_any(snap)].label@ == counted("flatpak update"@, flatpak.len())
}

pub fn update_plan(known: &Vec<String>) -> (r: Vec<LabeledCommand>)
    ensures
        update_commands_for(strings(known@), r@),
{
    let mut commands: Vec<LabeledCommand> = Vec::new();
    let apt = keep_safe(split_ids(known, "apt:"));
    if apt.len() > 0 {
        let mut fixed: Vec<String> = Vec::new();
        push_owned(&mut fixed, "apt-get");
        push_owned(&mut fixed, "install");
        push_owned(&mut fixed, "--only-upgrade");
        push_owned(&mut fixed, "-y");
        push_owned(&mut fixed, "--");
        assert(strings(fixed@) =~= seq!["apt-get"@, "install"@, "--only-upgrade"@, "-y"@, "--"@]);
        let c = command("pkexec", fixed, &apt);
        commands.push(LabeledCommand { label: count_label("apt upgrade", apt.len()), command: c });
    }
    let ghost c1 = commands@;
    let snap = keep_safe(split_ids(known, "snap:"));
    if snap.len() > 0 {
        let mut fixed: Vec<String> = Vec::new();
        push_owned(&mut fixed, "snap");
        push_owned(&mut fixed, "refresh");
        assert(strings(fixed@) =~= seq!["snap"@, "refresh"@]);
        let c = command("pkexec", fixed, &snap);
        commands.push(LabeledCommand { label: count_label("snap refresh", snap.len()), command: c });
    }
    let ghost c2 = commands@;
    let flatpak = keep_safe(split_ids(known, "flatpak:"));
    if flatpak.len() > 0 {
        let mut fixed: Vec<String> = Vec::new();
        push_owned(&mut fixed, "update");
        push_owned(&mut fixed, "-y");
        push_owned(&mut fixed, "--");
        assert(strings(fixed@) =~= seq!["update"@, "-y"@, "--"@]);
        let c = command("flatpak", fixed, &flatpak);
        commands.push(LabeledCommand { label: count_label("flatpak update", flatpak.len()), command: c });
    }
    assert(c1.len() >= 1 ==> commands@[0] == c1[0]);
    assert(c2.len() > c1.len() ==> commands@[c1.len() as int] == c2[c1.len() as int]);
    commands
}

/// Record how the command labelled `label` ended: success, failure with its
/// exit code (-1 when killed by a signal), or a failure to start.
pub fn record(report: &mut AppActionReport, label: &str, status: &StepStatus)
    ensures
        match *status {
            StepStatus::Success => strings(final(report).succeeded@) == strings(old(report).succeeded@).push(label@)
                && final(report).errors == old(report).errors,
            StepStatus::Failure(code) => final(report).succeeded == old(report).succeeded && strings(
                final(report).errors@,
            ) == strings(old(report).errors@).push(
                label@ + ": exit "@ + signed_decimal(
                    match code {
                        Some(c) => c as int,
                        None => -1,
                    },
                ),
            ),
            StepStatus::NotStarted(e) => final(report).succeeded == old(report).succeeded
                && strings(final(report).errors@) == strings(old(report).errors@).push(
                label@ + ": "@ + e@,
            ),
        },
{
    match status {
        StepStatus::Success => {
            let ghost before = strings(report.succeeded@);
            report.succeeded.push(label.to_owned());
            assert(strings(report.succeeded@) =~= before.push(label@));
        },
        StepStatus::Failure(code) => {
            let c: i32 = match code {
                Some(c) => *c,
                None => -1,
            };
            let mut v: Vec<char> = Vec::new();
            push_str(&mut v, label);
            push_str(&mut v, ": exit ");
            let d = signed_decimal_chars(c);
            push_all(&mut v, &d);
            let ghost before = strings(report.errors@);
            report.errors.push(string_of(&v));
            assert(strings(report.errors@) =~= before.push(v@));
        },
        StepStatus::NotStarted(e) => {
            let mut v: Vec<char> = Vec::new();
            push_str(&mut v, label);
            push_str(&mut v, ": ");
            push_str(&mut v, e.as_str());
            let ghost before = strings(report.errors@);
            report.errors.push(string_of(&v));
            assert(strings(report.errors@) =~= before.push(v@));
        },
    }
}

/// Whether an AppImage or application folder may be removed: only when its
/// resolved location lies inside an allowed base directory (`within_base`);
/// otherwise the refusal to report.
pub fn appimage_removal(path: &str, within_base: bool) -> (r: Result<(), String>)
    ensures
        within_base ==> r is Ok,
        !within_base ==> (r matches Err(e) && e@ == "refused (outside allowed dirs): "@ + path@),
{
    if within_base {
        Ok(())
    } else {
        let mut v: Vec<char> = Vec::new();
        push_str(&mut v, "refused (outside allowed dirs): ");
        push_str(&mut v, path);
        Err(string_of(&v))
    }
}

/// Record how removing the AppImage or folder at `path` ended: `removed
/// <path>` on success, `<path>: <error>` otherwise.
pub fn record_removal(report: &mut AppActionReport, path: &str, result: &Result<(), String>)
    ensures
        match *result {
            Ok(()) => strings(final(report).succeeded@) == strings(old(report).succeeded@).push("removed "@ + path@)
                && final(report).errors == old(report).errors,
            Err(e) => final(report).succeeded == old(report).succeeded && strings(final(report).errors@)
                == strings(old(report).errors@).push(path@ + ": "@ + e@),
        },
{
    match result {
        Ok(()) => {
            let mut v: Vec<char> = Vec::new();
            push_str(&mut v, "removed ");
            push_str(&mut v, path);
            let ghost before = strings(report.succeeded@);
            report.succeeded.push(string_of(&v));
            assert(strings(report.succeeded@) =~= before.push(v@));
        },
        Err(e) => {
            let mut v: Vec<char> = Vec::new();
            push_str(&mut v, path);
            push_str(&mut v, ": ");
            push_str(&mut v, e.as_str());
            let ghost before = strings(report.errors@);
            report.errors.push(string_of(&v));
            assert(strings(report.errors@) =~= before.push(v@));
        },
    }
}

} // verus!
