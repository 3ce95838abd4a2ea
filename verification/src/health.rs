//! Disk health and I/O telemetry: which block devices are whole physical
//! disks, the `/proc/diskstats` counters, the sysfs profile of a disk, the
//! `diskutil` listings of macOS, and the volume list of Windows.
use vstd::prelude::*;
use crate::text::{
    chars_of, contains_char, contains_str, has_prefix_str, keep_some, lines, lines_of_str,
    parse_u64, parse_u64_chars, split_char, split_on, split_whitespace, starts_with,
    contains_seq, str_eq, string_of, trim, trim_chars, views, words,
};

verus! {

/// One physical disk's profile and its cumulative read/write byte counters.
#[derive(Clone, Debug, PartialEq, Eq)]
pub struct DiskInfo {
    pub device: String,
    pub model: Option<String>,
    pub size_bytes: u64,
    pub rotational: bool,
    /// Cumulative bytes read since boot (0 where not exposed).
    pub read_bytes: u64,
    /// Cumulative bytes written since boot (0 where not exposed).
    pub write_bytes: u64,
}

/// Bytes per sector in the kernel's counters.
pub const SECTOR: u64 = 512;

// ---------------------------------------------------------------------------
// Linux: /proc/diskstats and /sys/block
// ---------------------------------------------------------------------------

/// Whole physical disks: `sd*`, `vd*`, `hd*` not ending in a digit, `nvme*` and
/// `mmcblk*` without a partition `p`; loop, RAM, device-mapper, optical, zram,
/// floppy and md devices are not.
pub open spec fn physical_disk_name(n: Seq<char>) -> bool {
    if starts_with(n, "loop"@) || starts_with(n, "ram"@) || starts_with(n, "dm-"@) || starts_with(n, "sr"@)
        || starts_with(n, "zram"@) || starts_with(n, "fd"@) || starts_with(n, "md"@) {
        false
    } else if starts_with(n, "sd"@) || starts_with(n, "vd"@) || starts_with(n, "hd"@) {
        n.len() > 0 && !('0' <= n.last() && n.last() <= '9')
    } else if starts_with(n, "nvme"@) || starts_with(n, "mmcblk"@) {
        !n.contains('p')
    } else {
        false
    }
}

/// True for whole physical disks; false for partitions and virtual devices.
pub fn is_physical_disk(name: &str) -> (r: bool)
    ensures
        r == physical_disk_name(name@),
{
    let n = chars_of(name);
    if has_prefix_str(&n, "loop") || has_prefix_str(&n, "ram") || has_prefix_str(&n, "dm-")
        || has_prefix_str(&n, "sr") || has_prefix_str(&n, "zram") || has_prefix_str(&n, "fd")
        || has_prefix_str(&n, "md") {
        return false;
    }
    if has_prefix_str(&n, "sd") || has_prefix_str(&n, "vd") || has_prefix_str(&n, "hd") {
        if n.len() == 0 {
            return false;
        }
        let c = n[n.len() - 1];
        return !('0' <= c && c <= '9');
    }
    if has_prefix_str(&n, "nvme") || has_prefix_str(&n, "mmcblk") {
        return !contains_char(&n, 'p');
    }
    false
}

/// The counters of one `/proc/diskstats` line of a physical disk.
#[derive(Clone, Debug, PartialEq, Eq)]
pub struct DiskStat {
    pub name: String,
    pub read_sectors: u64,
    pub write_sectors: u64,
}

/// A number, or 0 when absent.
pub open spec fn or_zero(v: Option<u64>) -> u64 {
    match v {
        Some(x) => x,
        None => 0,
    }
}

/// The device name and sectors read and written of a `/proc/diskstats` line:
/// lines with fewer than 14 fields and devices that are not physical disks
/// give none; an unreadable counter reads 0.
pub open spec fn diskstat_of(line: Seq<char>) -> Option<(Seq<char>, u64, u64)> {
    let f = words(line);
    if f.len() < 14 || !physical_disk_name(f[2]) {
        None
    } else {
        Some((f[2], or_zero(parse_u64(f[5])), or_zero(parse_u64(f[9]))))
    }
}

/// A counter line as plain values.
pub open spec fn stat_view(s: DiskStat) -> (Seq<char>, u64, u64) {
    (s.name@, s.read_sectors, s.write_sectors)
}

pub fn parse_diskstats_line(line: &Vec<char>) -> (r: Option<DiskStat>)
    ensures
        match r {
            Some(s) => diskstat_of(line@) == Some(stat_view(s)),
            None => diskstat_of(line@) is None,
        },
{
    let f = split_whitespace(line);
    let ghost fv = views(f@);
    assert(fv == words(line@));
    if f.len() < 14 {
        return None;
    }
    assert(fv[2] == f@[2]@ && fv[5] == f@[5]@ && fv[9] == f@[9]@);
    let name = string_of(&f[2]);
    if !is_physical_disk(name.as_str()) {
        return None;
    }
    let read_sectors = match parse_u64_chars(&f[5]) {
        Some(v) => v,
        None => 0,
    };
    let write_sectors = match parse_u64_chars(&f[9]) {
        Some(v) => v,
        None => 0,
    };
    Some(DiskStat { name, read_sectors, write_sectors })
}

/// The counters of every physical disk in `/proc/diskstats`, in file order.
pub fn diskstats(content: &str) -> (r: Vec<DiskStat>)
    ensures
        r@.map_values(|s: DiskStat| stat_view(s)) == keep_some(
            lines(content@),
            |l: Seq<char>| diskstat_of(l),
        ),
{
    let ls = lines_of_str(content);
    let ghost lv = views(ls@);
    let mut out: Vec<DiskStat> = Vec::new();
    for i in 0..ls.len()
        invariant
            lv == views(ls@),
            lv == lines(content@),
            out@.map_values(|s: DiskStat| stat_view(s)) == keep_some(
                lv.take(i as int),
                |l: Seq<char>| diskstat_of(l),
            ),
    {
        let ghost before = out@.map_values(|s: DiskStat| stat_view(s));
        assert(lv.take(i + 1).drop_last() =~= lv.take(i as int));
        assert(lv.take(i + 1).last() == ls@[i as int]@);
        match parse_diskstats_line(&ls[i]) {
            Some(s) => {
                out.push(s);
                assert(out@.map_values(|s: DiskStat| stat_view(s)) =~= before.push(stat_view(s)));
            },
            None => {
                assert(out@.map_values(|s: DiskStat| stat_view(s)) =~= before);
            },
        }
    }
    assert(lv.take(ls.len() as int) =~= lv);
    out
}

/// A sysfs number: the file's trimmed content as an integer; none when the
/// file could not be read (`raw` absent) or does not hold one.
pub open spec fn sysfs_value(raw: Option<String>) -> Option<u64> {
    match raw {
        Some(s) => parse_u64(trim(s@)),
        None => None,
    }
}

pub fn sysfs_number(raw: &Option<String>) -> (r: Option<u64>)
    ensures
        r == sysfs_value(*raw),
{
    match raw {
        Some(s) => {
            let c = chars_of(s.as_str());
            let t = trim_chars(&c);
            parse_u64_chars(&t)
        },
        None => None,
    }
}

/// A model name: the trimmed file content, none when unreadable or blank.
pub open spec fn model_value(raw: Option<String>) -> Option<Seq<char>> {
    match raw {
        Some(s) => if trim(s@).len() > 0 {
            Some(trim(s@))
        } else {
            None
        },
        None => None,
    }
}

/// The profile of a disk from its counters and the raw contents of its sysfs
/// `size` (in sectors), `queue/rotational` and `device/model` files (each
/// absent when unreadable). Byte counts are sectors times 512, wrapping as the
/// release build does; a disk is rotational when its flag reads exactly 1.
pub fn disk_info(
    stat: &DiskStat,
    size_raw: &Option<String>,
    rotational_raw: &Option<String>,
    model_raw: &Option<String>,
) -> (r: DiskInfo)
    ensures
        r.device@ == stat.name@,
        r.size_bytes == or_zero(sysfs_value(*size_raw)).wrapping_mul(SECTOR),
        r.rotational == (sysfs_value(*rotational_raw) == Some(1u64)),
        match r.model {
            Some(m) => model_value(*model_raw) == Some(m@),
            None => model_value(*model_raw) is None,
        },
        r.read_bytes == stat.read_sectors.wrapping_mul(SECTOR),
        r.write_bytes == stat.write_sectors.wrapping_mul(SECTOR),
{
    let size = match sysfs_number(size_raw) {
        Some(v) => v,
        None => 0,
    };
    let rotational = match sysfs_number(rotational_raw) {
        Some(v) => v == 1,
        None => false,
    };
    let model = match model_raw {
        Some(s) => {
            let c = chars_of(s.as_str());
            let t = trim_chars(&c);
            if t.len() > 0 {
                Some(string_of(&t))
            } else {
                None
            }
        },
        None => None,
    };
    DiskInfo {
        device: stat.name.clone(),
        model,
        size_bytes: size.wrapping_mul(SECTOR),
        rotational,
        read_bytes: stat.read_sectors.wrapping_mul(SECTOR),
        write_bytes: stat.write_sectors.wrapping_mul(SECTOR),
    }
}

/// Names of every disk, in order (handed to the helper for one SMART read).
pub fn disk_names(disks: &Vec<DiskInfo>) -> (r: Vec<String>)
    ensures
        r@.len() == disks@.len(),
        forall|i: int| 0 <= i < r@.len() ==> #[trigger] r@[i]@ == disks@[i].device@,
{
    let mut r: Vec<String> = Vec::new();
    for i in 0..disks.len()
        invariant
            r@.len() == i,
            forall|j: int| 0 <= j < i ==> #[trigger] r@[j]@ == disks@[j].device@,
    {
        r.push(disks[i].device.clone());
    }
    r
}

// ---------------------------------------------------------------------------
// Windows: volumes
// ---------------------------------------------------------------------------

/// One mounted volume: its name (may be empty), mount point and capacity.
#[derive(Clone, Debug, PartialEq, Eq)]
pub struct Volume {
    pub name: String,
    pub mount: String,
    pub total: u64,
}

/// The device a volume is listed under: its name, or its mount point when it
/// has none.
pub open spec fn volume_device(v: Volume) -> Seq<char> {
    if v.name@.len() == 0 {
        v.mount@
    } else {
        v.name@
    }
}

/// The devices of `vols`, each once, at its first volume.
pub open spec fn first_volumes(vols: Seq<Volume>) -> Seq<(Seq<char>, u64)>
    decreases vols.len(),
{
    if vols.len() == 0 {
        Seq::empty()
    } else {
        let rest = first_volumes(vols.drop_last());
        let d = volume_device(vols.last());
        if vols.drop_last().map_values(|v: Volume| volume_device(v)).contains(d) {
            rest
        } else {
            rest.push((d, vols.last().total))
        }
    }
}

/// The disks of a volume list: one per distinct device, at its first volume,
/// with that volume's capacity; model, rotation and counters are not exposed.
pub fn disks(vols: &Vec<Volume>) -> (r: Vec<DiskInfo>)
    ensures
        r@.map_values(|d: DiskInfo| (d.device@, d.size_bytes)) == first_volumes(vols@),
        forall|i: int|
            0 <= i < r@.len() ==> (#[trigger] r@[i]).model is None && !r@[i].rotational && r@[i].read_bytes
                == 0 && r@[i].write_bytes == 0,
{
    let mut out: Vec<DiskInfo> = Vec::new();
    let mut seen: Vec<String> = Vec::new();
    for i in 0..vols.len()
        invariant
            seen@.map_values(|s: String| s@) == vols@.take(i as int).map_values(|v: Volume| volume_device(v)),
            out@.map_values(|d: DiskInfo| (d.device@, d.size_bytes)) == first_volumes(vols@.take(i as int)),
            forall|k: int|
                0 <= k < out@.len() ==> (#[trigger] out@[k]).model is None && !out@[k].rotational
                    && out@[k].read_bytes == 0 && out@[k].write_bytes == 0,
    {
        let v = &vols[i];
        let device = if v.name.as_str().is_empty() {
            v.mount.clone()
        } else {
            v.name.clone()
        };
        proof {
            if v.name@.len() == 0 {
                assert(v.name@ =~= Seq::<char>::empty());
            }
        }
        let ghost sv = seen@.map_values(|s: String| s@);
        let mut found = false;
        for j in 0..seen.len()
            invariant
                sv == seen@.map_values(|s: String| s@),
                found <==> exists|k: int| 0 <= k < j && sv[k] == device@,
        {
            assert(sv[j as int] == seen@[j as int]@);
            if str_eq(seen[j].as_str(), device.as_str()) {
                found = true;
            }
        }
        let ghost prefix = vols@.take(i + 1);
        assert(prefix.drop_last() =~= vols@.take(i as int));
        assert(prefix.last() == vols@[i as int]);
        assert(found <==> sv.contains(device@));
        let ghost before = out@.map_values(|d: DiskInfo| (d.device@, d.size_bytes));
        if !found {
            seen.push(device.clone());
            assert(seen@.map_values(|s: String| s@) =~= sv.push(device@));
            out.push(
                DiskInfo {
                    device,
                    model: None,
                    size_bytes: v.total,
                    rotational: false,
                    read_bytes: 0,
                    write_bytes: 0,
                },
            );
            assert(out@.map_values(|d: DiskInfo| (d.device@, d.size_bytes)) =~= before.push(
                (volume_device(vols@[i as int]), vols@[i as int].total),
            ));
        } else {
            seen.push(device);
            assert(seen@.map_values(|s: String| s@) =~= sv.push(volume_device(vols@[i as int])));
        }
        assert(vols@.take(i + 1).map_values(|v: Volume| volume_device(v)) =~= vols@.take(
            i as int,
        ).map_values(|v: Volume| volume_device(v)).push(volume_device(vols@[i as int])));
    }
    assert(vols@.take(vols.len() as int) =~= vols@);
    out
}

// ---------------------------------------------------------------------------
// macOS: diskutil
// ---------------------------------------------------------------------------

/// The disk identifier a `diskutil list` line announces: for a line
/// `/dev/<rest>` whose rest mentions `physical`, the first word of the rest.
pub open spec fn physical_id(line: Seq<char>) -> Option<Seq<char>> {
    if starts_with(line, "/dev/"@) {
        let rest = line.skip(5);
        if contains_seq(rest, "physical"@) && words(rest).len() > 0 {
            Some(words(rest)[0])
        } else {
            None
        }
    } else {
        None
    }
}

/// Whole physical disks of a `diskutil list` output (`disk0`, `disk1`, ...),
/// in order; synthesized containers and disk images are skipped.
pub fn physical_identifiers(text: &str) -> (r: Vec<String>)
    ensures
        r@.map_values(|s: String| s@) == keep_some(lines(text@), |l: Seq<char>| physical_id(l)),
{
    let ls = lines_of_str(text);
    let ghost lv = views(ls@);
    let mut ids: Vec<String> = Vec::new();
    proof {
        reveal_strlit("/dev/");
    }
    for i in 0..ls.len()
        invariant
            lv == views(ls@),
            lv == lines(text@),
            "/dev/"@.len() == 5,
            ids@.map_values(|s: String| s@) == keep_some(lv.take(i as int), |l: Seq<char>| physical_id(l)),
    {
        let ghost before = ids@.map_values(|s: String| s@);
        assert(lv.take(i + 1).drop_last() =~= lv.take(i as int));
        assert(lv.take(i + 1).last() == ls@[i as int]@);
        let line = &ls[i];
        let mut pushed = false;
        if has_prefix_str(line, "/dev/") {
            let mut rest: Vec<char> = Vec::new();
            for k in 5..line.len()
                invariant
                    5 <= line@.len(),
                    rest@ =~= line@.subrange(5, k as int),
            {
                rest.push(line[k]);
                assert(line@.subrange(5, k + 1) =~= line@.subrange(5, k as int).push(line@[k as int]));
            }
            assert(rest@ =~= line@.skip(5));
            if contains_str(&rest, "physical") {
                let w = split_whitespace(&rest);
                if w.len() > 0 {
                    assert(views(w@)[0] == w@[0]@);
                    ids.push(string_of(&w[0]));
                    pushed = true;
                    assert(ids@.map_values(|s: String| s@) =~= before.push(physical_id(line@)->0));
                }
            }
        }
        if !pushed {
            assert(ids@.map_values(|s: String| s@) =~= before);
        }
    }
    assert(lv.take(ls.len() as int) =~= lv);
    ids
}

/// `s` without its leading `c`s.
pub open spec fn skip_leading(s: Seq<char>, c: char) -> Seq<char>
    decreases s.len(),
{
    if s.len() > 0 && s[0] == c {
        skip_leading(s.drop_first(), c)
    } else {
        s
    }
}

/// The value of the first line of `ls` that, trimmed, starts with `key`: what
/// follows the key, without leading colons, trimmed.
pub open spec fn field_in(ls: Seq<Seq<char>>, key: Seq<char>) -> Option<Seq<char>>
    decreases ls.len(),
{
    if ls.len() == 0 {
        None
    } else if starts_with(trim(ls[0]), key) {
        Some(trim(skip_leading(trim(ls[0]).skip(key.len() as int), ':')))
    } else {
        field_in(ls.drop_first(), key)
    }
}

fn skip_leading_chars(s: &Vec<char>, c: char) -> (r: Vec<char>)
    ensures
        r@ == skip_leading(s@, c),
{
    let mut i: usize = 0;
    assert(s@.skip(0) =~= s@);
    while i < s.len() && s[i] == c
        invariant
            i <= s@.len(),
            skip_leading(s@, c) == skip_leading(s@.skip(i as int), c),
        decreases s.len() - i,
    {
        assert(s@.skip(i + 1) =~= s@.skip(i as int).drop_first());
        i = i + 1;
    }
    let mut r: Vec<char> = Vec::new();
    for k in i..s.len()
        invariant
            i <= s@.len(),
            r@ =~= s@.subrange(i as int, k as int),
    {
        r.push(s[k]);
        assert(s@.subrange(i as int, k + 1) =~= s@.subrange(i as int, k as int).push(s@[k as int]));
    }
    assert(s@.subrange(i as int, s@.len() as int) =~= s@.skip(i as int));
    r
}

/// The value of `key` in a `diskutil info` output (see `field_in`).
pub fn field(text: &str, key: &str) -> (r: Option<String>)
    ensures
        match r {
            Some(v) => field_in(lines(text@), key@) == Some(v@),
            None => field_in(lines(text@), key@) is None,
        },
{
    let ls = lines_of_str(text);
    let ghost lv = views(ls@);
    let k = chars_of(key);
    assert(lv.skip(0) =~= lv);
    for i in 0..ls.len()
        invariant
            lv == views(ls@),
            lv == lines(text@),
            k@ == key@,
            field_in(lv, key@) == field_in(lv.skip(i as int), key@),
    {
        let t = trim_chars(&ls[i]);
        assert(lv.skip(i as int)[0] == ls@[i as int]@);
        assert(lv.skip(i as int).drop_first() =~= lv.skip(i + 1));
        if has_prefix_str(&t, key) {
            let after: Vec<char> = crate::text::skip_chars(&t, k.len());
            let v = skip_leading_chars(&after, ':');
            let vt = trim_chars(&v);
            return Some(string_of(&vt));
        }
    }
    assert(lv.skip(ls.len() as int) =~= Seq::<Seq<char>>::empty());
    None
}

/// `yes`, ignoring ASCII case.
pub open spec fn is_yes(v: Seq<char>) -> bool {
    v.len() == 3 && (v[0] == 'y' || v[0] == 'Y') && (v[1] == 'e' || v[1] == 'E') && (v[2] == 's' || v[2]
        == 'S')
}

/// The byte count of a `Disk Size` value such as `1.0 TB (1000000000000 Bytes)
/// (...)`: the first word after the first `(`, as an integer, else 0.
pub open spec fn disk_size_value(v: Option<Seq<char>>) -> u64 {
    match v {
        Some(s) => {
            let parts = split_on(s, '(');
            if parts.len() > 1 && words(parts[1]).len() > 0 {
                or_zero(parse_u64(words(parts[1])[0]))
            } else {
                0
            }
        },
        None => 0,
    }
}

/// The profile of disk `id` from its `diskutil info` output: the media name
/// as model (when not blank), the byte count of `Disk Size`, and rotational
/// unless `Solid State` reads yes (not rotational when the field is absent);
/// I/O counters are not exposed.
pub fn mac_disk_info(id: &str, text: &str) -> (r: DiskInfo)
    ensures
        r.device@ == id@,
        match r.model {
            Some(m) => field_in(lines(text@), "Device / Media Name"@) == Some(m@) && m@.len() > 0,
            None => match field_in(lines(text@), "Device / Media Name"@) {
                Some(m) => m.len() == 0,
                None => true,
            },
        },
        r.size_bytes == disk_size_value(field_in(lines(text@), "Disk Size"@)),
        r.rotational == match field_in(lines(text@), "Solid State"@) {
            Some(v) => !is_yes(v),
            None => false,
        },
        r.read_bytes == 0,
        r.write_bytes == 0,
{
    let model = match field(text, "Device / Media Name") {
        Some(m) => if !m.as_str().is_empty() {
            proof {
                assert(m@.len() > 0);
            }
            Some(m)
        } else {
            None
        },
        None => None,
    };
    let size_bytes = match field(text, "Disk Size") {
        Some(v) => {
            let c = chars_of(v.as_str());
            let parts = split_char(&c, '(');
            let ghost pv = views(parts@);
            if parts.len() > 1 {
                assert(pv[1] == parts@[1]@);
                let w = split_whitespace(&parts[1]);
                if w.len() > 0 {
                    assert(views(w@)[0] == w@[0]@);
                    match parse_u64_chars(&w[0]) {
                        Some(n) => n,
                        None => 0,
                    }
                } else {
                    0
                }
            } else {
                0
            }
        },
        None => 0,
    };
    let rotational = match field(text, "Solid State") {
        Some(v) => {
            let c = chars_of(v.as_str());
            let yes = c.len() == 3 && (c[0] == 'y' || c[0] == 'Y') && (c[1] == 'e' || c[1] == 'E') && (
            c[2] == 's' || c[2] == 'S');
            !yes
        },
        None => false,
    };
    DiskInfo { device: id.to_owned(), model, size_bytes, rotational, read_bytes: 0, write_bytes: 0 }
}

} // verus!
