//! Path semantics on strings: the component decomposition that
//! `std::path::Path` uses on Unix (and, for zone tests, on Windows),
//! component-wise prefix tests and joining.
use vstd::prelude::*;
use crate::text::{chars_eq, chars_of, copy_chars, push_all, split_char, split_on, string_of, views};

verus! {

/// The component that stands for the root directory.
pub open spec fn root_component() -> Seq<char> {
    seq!['/']
}

/// The component that stands for a leading `.`.
pub open spec fn cur_component() -> Seq<char> {
    seq!['.']
}

/// A segment between separators that names a component (`.` and empty
/// segments are normalized away).
pub open spec fn is_named(seg: Seq<char>) -> bool {
    seg.len() > 0 && seg != cur_component()
}

/// The named segments of `segs`, in order.
pub open spec fn named_parts(segs: Seq<Seq<char>>) -> Seq<Seq<char>>
    decreases segs.len(),
{
    if segs.len() == 0 {
        Seq::empty()
    } else {
        let r = named_parts(segs.drop_last());
        if is_named(segs.last()) {
            r.push(segs.last())
        } else {
            r
        }
    }
}

pub open spec fn has_root(s: Seq<char>) -> bool {
    s.len() > 0 && s[0] == '/'
}

/// A relative path that starts with `.` as its own segment keeps it as a
/// component.
pub open spec fn keeps_cur_dir(s: Seq<char>) -> bool {
    !has_root(s) && s.len() > 0 && s[0] == '.' && (s.len() == 1 || s[1] == '/')
}

/// The components of a Unix path, as `Path::components` yields them: the root
/// (written `/`), a leading `.`, then every other non-empty segment except `.`.
pub open spec fn components(s: Seq<char>) -> Seq<Seq<char>> {
    let head = if has_root(s) {
        seq![root_component()]
    } else if keeps_cur_dir(s) {
        seq![cur_component()]
    } else {
        Seq::empty()
    };
    head + named_parts(split_on(s, '/'))
}

/// `Path::starts_with`: `base` is a prefix of `path`, whole components only.
pub open spec fn path_starts_with(path: Seq<char>, base: Seq<char>) -> bool {
    components(base).is_prefix_of(components(path))
}

/// `Path::ends_with`: `child` is a suffix of `path`, whole components only.
pub open spec fn path_ends_with(path: Seq<char>, child: Seq<char>) -> bool {
    components(child).is_suffix_of(components(path))
}

/// `Path` equality: the same components.
pub open spec fn path_eq(a: Seq<char>, b: Seq<char>) -> bool {
    components(a) == components(b)
}

/// `Path::join` on Unix: an absolute `p` replaces `base`; otherwise `p` is
/// appended, with a separator when `base` is non-empty and does not end with one.
pub open spec fn join(base: Seq<char>, p: Seq<char>) -> Seq<char> {
    if has_root(p) {
        p
    } else if base.len() > 0 && base.last() != '/' {
        base + seq!['/'] + p
    } else {
        base + p
    }
}

pub fn named(seg: &Vec<char>) -> (r: bool)
    ensures
        r == is_named(seg@),
{
    let r = seg.len() > 0 && !(seg.len() == 1 && seg[0] == '.');
    proof {
        if seg.len() == 1 && seg@[0] == '.' {
            assert(seg@ =~= cur_component());
        }
        if seg@ == cur_component() {
            assert(seg@.len() == 1 && seg@[0] == '.');
        }
    }
    r
}

pub fn components_of(s: &Vec<char>) -> (r: Vec<Vec<char>>)
    ensures
        views(r@) == components(s@),
{
    let mut r: Vec<Vec<char>> = Vec::new();
    if s.len() > 0 && s[0] == '/' {
        let mut root: Vec<char> = Vec::new();
        root.push('/');
        r.push(root);
    } else if s.len() > 0 && s[0] == '.' && (s.len() == 1 || s[1] == '/') {
        let mut cur: Vec<char> = Vec::new();
        cur.push('.');
        r.push(cur);
    }
    let ghost head = views(r@);
    assert(head == components(s@).take(head.len() as int)) by {
        assert(components(s@) =~= head + named_parts(split_on(s@, '/')));
    }
    let segs = split_char(s, '/');
    let ghost sv = views(segs@);
    for i in 0..segs.len()
        invariant
            sv == views(segs@),
            sv == split_on(s@, '/'),
            views(r@) == head + named_parts(sv.take(i as int)),
    {
        assert(sv.take(i + 1).drop_last() =~= sv.take(i as int));
        assert(sv.take(i + 1).last() == segs@[i as int]@);
        if named(&segs[i]) {
            let ghost before = views(r@);
            r.push(copy_chars(&segs[i]));
            assert(views(r@) =~= before.push(segs@[i as int]@));
            assert(views(r@) =~= head + named_parts(sv.take(i + 1)));
        }
    }
    assert(sv.take(segs.len() as int) =~= sv);
    r
}

/// `Path::starts_with` on two paths.
pub fn starts_with_path(path: &Vec<char>, base: &Vec<char>) -> (r: bool)
    ensures
        r == path_starts_with(path@, base@),
{
    let pc = components_of(path);
    let bc = components_of(base);
    let ghost pv = views(pc@);
    let ghost bv = views(bc@);
    assert(pv.len() == pc.len() && bv.len() == bc.len());
    if bc.len() > pc.len() {
        return false;
    }
    for i in 0..bc.len()
        invariant
            pv == views(pc@),
            bv == views(bc@),
            pv == components(path@),
            bv == components(base@),
            bc.len() <= pc.len(),
            forall|j: int| 0 <= j < i ==> bv[j] == pv[j],
    {
        if !chars_eq(&bc[i], &pc[i]) {
            assert(bv[i as int] != pv[i as int]);
            assert(pv.subrange(0, bv.len() as int)[i as int] == pv[i as int]);
            assert(bv != pv.subrange(0, bv.len() as int));
            assert(!path_starts_with(path@, base@));
            return false;
        }
    }
    true
}

/// `Path::ends_with` on two paths.
pub fn ends_with_path(path: &Vec<char>, child: &Vec<char>) -> (r: bool)
    ensures
        r == path_ends_with(path@, child@),
{
    let pc = components_of(path);
    let cc = components_of(child);
    let ghost pv = views(pc@);
    let ghost cv = views(cc@);
    assert(pv.len() == pc.len() && cv.len() == cc.len());
    if cc.len() > pc.len() {
        return false;
    }
    let off = pc.len() - cc.len();
    for i in 0..cc.len()
        invariant
            pv == views(pc@),
            cv == views(cc@),
            pv == components(path@),
            cv == components(child@),
            off + cc.len() == pc.len(),
            forall|j: int| 0 <= j < i ==> cv[j] == pv[off + j],
    {
        if !chars_eq(&cc[i], &pc[off + i]) {
            assert(cv[i as int] != pv[off + i]);
            assert(pv.subrange(off as int, pv.len() as int)[i as int] == pv[off + i]);
            assert(cv != pv.subrange(off as int, pv.len() as int));
            return false;
        }
    }
    assert(cv =~= pv.subrange(off as int, pv.len() as int));
    true
}

/// `Path` equality on two paths.
pub fn eq_path(a: &Vec<char>, b: &Vec<char>) -> (r: bool)
    ensures
        r == path_eq(a@, b@),
{
    let ac = components_of(a);
    let bc = components_of(b);
    let ghost av = views(ac@);
    let ghost bv = views(bc@);
    assert(av.len() == ac.len() && bv.len() == bc.len());
    if ac.len() != bc.len() {
        return false;
    }
    for i in 0..ac.len()
        invariant
            av == views(ac@),
            bv == views(bc@),
            av == components(a@),
            bv == components(b@),
            ac.len() == bc.len(),
            forall|j: int| 0 <= j < i ==> av[j] == bv[j],
    {
        if !chars_eq(&ac[i], &bc[i]) {
            assert(av[i as int] != bv[i as int]);
            return false;
        }
    }
    assert(av =~= bv);
    true
}

/// `Path::join` on Unix.
pub fn join_path(base: &Vec<char>, p: &Vec<char>) -> (r: Vec<char>)
    ensures
        r@ == join(base@, p@),
{
    if p.len() > 0 && p[0] == '/' {
        return copy_chars(p);
    }
    let mut r = copy_chars(base);
    if base.len() > 0 && base[base.len() - 1] != '/' {
        r.push('/');
    }
    push_all(&mut r, p);
    r
}

/// `Path::join` on strings.
pub fn join_str(base: &str, p: &str) -> (r: String)
    ensures
        r@ == join(base@, p@),
{
    let b = chars_of(base);
    let q = chars_of(p);
    let j = join_path(&b, &q);
    string_of(&j)
}

// ---------------------------------------------------------------------------
// Windows paths
// ---------------------------------------------------------------------------

/// How paths are read: with `/` alone separating components (Unix, macOS), or
/// with `\` and `/` both separating them after an optional drive prefix
/// (Windows).
#[derive(Clone, Copy, Debug, PartialEq, Eq, Structural)]
pub enum PathStyle {
    Unix,
    Windows,
}

pub open spec fn is_win_sep(c: char) -> bool {
    c == '/' || c == '\\'
}

pub open spec fn is_ascii_letter(c: char) -> bool {
    ('a' <= c && c <= 'z') || ('A' <= c && c <= 'Z')
}

/// The ASCII uppercase of `c` (other characters unchanged).
pub open spec fn upper_char(c: char) -> char {
    if 'a' <= c && c <= 'z' {
        ((c as int) - 32) as char
    } else {
        c
    }
}

/// A path that starts with a drive prefix such as `C:`.
pub open spec fn has_drive(s: Seq<char>) -> bool {
    s.len() >= 2 && is_ascii_letter(s[0]) && s[1] == ':'
}

/// The component standing for a drive prefix: its letter in uppercase, then
/// `:` (drive letters compare without regard to case).
pub open spec fn drive_component(s: Seq<char>) -> Seq<char> {
    seq![upper_char(s[0]), ':']
}

/// The component standing for the `\\server\share` form of a path.
pub open spec fn unc_component() -> Seq<char> {
    seq!['\\', '\\']
}

/// The component standing for the root of a drive.
pub open spec fn win_root_component() -> Seq<char> {
    seq!['\\']
}

/// `s` with every `\` written `/`.
pub open spec fn forward_slashes(s: Seq<char>) -> Seq<char> {
    s.map_values(|c: char| if c == '\\' { '/' } else { c })
}

/// What follows the drive prefix, if any.
pub open spec fn after_drive(s: Seq<char>) -> Seq<char> {
    if has_drive(s) {
        s.skip(2)
    } else {
        s
    }
}

/// The components of a Windows path: the drive (uppercased), then the root
/// when a separator follows (or the `\\` of a server path), then every other
/// non-empty segment except `.`, separators being `\` and `/`.
pub open spec fn win_components(s: Seq<char>) -> Seq<Seq<char>> {
    let rest = after_drive(s);
    let head = if has_drive(s) {
        seq![drive_component(s)]
    } else {
        Seq::empty()
    };
    let root = if !has_drive(s) && rest.len() >= 2 && is_win_sep(rest[0]) && is_win_sep(rest[1]) {
        seq![unc_component()]
    } else if rest.len() > 0 && is_win_sep(rest[0]) {
        seq![win_root_component()]
    } else {
        Seq::empty()
    };
    head + root + named_parts(split_on(forward_slashes(rest), '/'))
}

/// The components of `s` read in `style`.
pub open spec fn style_components(style: PathStyle, s: Seq<char>) -> Seq<Seq<char>> {
    match style {
        PathStyle::Unix => components(s),
        PathStyle::Windows => win_components(s),
    }
}

/// `Path::starts_with` with paths read in `style`.
pub open spec fn style_starts_with(style: PathStyle, path: Seq<char>, base: Seq<char>) -> bool {
    style_components(style, base).is_prefix_of(style_components(style, path))
}

fn upper_ascii(c: char) -> (r: char)
    ensures
        r == upper_char(c),
{
    if 'a' <= c && c <= 'z' {
        let b: u8 = c as u8;
        let r = (b - 32) as char;
        assert(r == ((c as int) - 32) as char);
        r
    } else {
        c
    }
}

fn win_components_of(s: &Vec<char>) -> (r: Vec<Vec<char>>)
    ensures
        views(r@) == win_components(s@),
{
    let drive = s.len() >= 2 && (('a' <= s[0] && s[0] <= 'z') || ('A' <= s[0] && s[0] <= 'Z')) && s[1] == ':';
    assert(drive == has_drive(s@));
    let rest = if drive {
        crate::text::skip_chars(s, 2)
    } else {
        copy_chars(s)
    };
    assert(rest@ == after_drive(s@));
    let mut r: Vec<Vec<char>> = Vec::new();
    if drive {
        let mut d: Vec<char> = Vec::new();
        d.push(upper_ascii(s[0]));
        d.push(':');
        assert(d@ =~= drive_component(s@));
        r.push(d);
    }
    if !drive && rest.len() >= 2 && (rest[0] == '/' || rest[0] == '\\') && (rest[1] == '/' || rest[1] == '\\') {
        let mut u: Vec<char> = Vec::new();
        u.push('\\');
        u.push('\\');
        assert(u@ =~= unc_component());
        r.push(u);
    } else if rest.len() > 0 && (rest[0] == '/' || rest[0] == '\\') {
        let mut t: Vec<char> = Vec::new();
        t.push('\\');
        assert(t@ =~= win_root_component());
        r.push(t);
    }
    let ghost head = views(r@);
    let mut fwd: Vec<char> = Vec::new();
    for i in 0..rest.len()
        invariant
            fwd@.len() == i,
            forall|j: int| 0 <= j < i ==> #[trigger] fwd@[j] == (if rest@[j] == '\\' { '/' } else { rest@[j] }),
    {
        if rest[i] == '\\' {
            fwd.push('/');
        } else {
            fwd.push(rest[i]);
        }
    }
    assert(fwd@ =~= forward_slashes(rest@));
    let segs = split_char(&fwd, '/');
    let ghost sv = views(segs@);
    for i in 0..segs.len()
        invariant
            sv == views(segs@),
            sv == split_on(fwd@, '/'),
            views(r@) == head + named_parts(sv.take(i as int)),
    {
        assert(sv.take(i + 1).drop_last() =~= sv.take(i as int));
        assert(sv.take(i + 1).last() == segs@[i as int]@);
        if named(&segs[i]) {
            let ghost before = views(r@);
            r.push(copy_chars(&segs[i]));
            assert(views(r@) =~= before.push(segs@[i as int]@));
            assert(views(r@) =~= head + named_parts(sv.take(i + 1)));
        }
    }
    assert(sv.take(segs.len() as int) =~= sv);
    assert(views(r@) =~= win_components(s@));
    r
}

/// The components of `s` read in `style`.
pub fn style_components_of(style: PathStyle, s: &Vec<char>) -> (r: Vec<Vec<char>>)
    ensures
        views(r@) == style_components(style, s@),
{
    match style {
        PathStyle::Unix => components_of(s),
        PathStyle::Windows => win_components_of(s),
    }
}

/// `Path::starts_with` on two paths read in `style`.
pub fn starts_with_path_in(style: PathStyle, path: &Vec<char>, base: &Vec<char>) -> (r: bool)
    ensures
        r == style_starts_with(style, path@, base@),
{
    let pc = style_components_of(style, path);
    let bc = style_components_of(style, base);
    let ghost pv = views(pc@);
    let ghost bv = views(bc@);
    assert(pv.len() == pc.len() && bv.len() == bc.len());
    if bc.len() > pc.len() {
        return false;
    }
    for i in 0..bc.len()
        invariant
            pv == views(pc@),
            bv == views(bc@),
            pv == style_components(style, path@),
            bv == style_components(style, base@),
            bc.len() <= pc.len(),
            forall|j: int| 0 <= j < i ==> bv[j] == pv[j],
    {
        if !chars_eq(&bc[i], &pc[i]) {
            assert(bv[i as int] != pv[i as int]);
            assert(pv.subrange(0, bv.len() as int)[i as int] == pv[i as int]);
            assert(bv != pv.subrange(0, bv.len() as int));
            return false;
        }
    }
    assert(bv =~= pv.subrange(0, bv.len() as int));
    true
}

/// Position of the last `c` in `s`, or -1.
pub open spec fn last_index(s: Seq<char>, c: char) -> int
    decreases s.len(),
{
    if s.len() == 0 {
        -1
    } else if s.last() == c {
        s.len() - 1
    } else {
        last_index(s.drop_last(), c)
    }
}

pub proof fn lemma_last_index(s: Seq<char>, c: char)
    ensures
        -1 <= last_index(s, c) < s.len(),
        last_index(s, c) >= 0 ==> s[last_index(s, c)] == c,
        forall|j: int| last_index(s, c) < j < s.len() ==> s[j] != c,
    decreases s.len(),
{
    if s.len() > 0 && s.last() != c {
        lemma_last_index(s.drop_last(), c);
        assert forall|j: int| last_index(s, c) < j < s.len() implies s[j] != c by {
            if j < s.len() - 1 {
                assert(s[j] == s.drop_last()[j]);
            }
        }
    }
}

fn last_index_of(s: &Vec<char>, c: char) -> (r: Option<usize>)
    ensures
        match r {
            Some(i) => i as int == last_index(s@, c),
            None => last_index(s@, c) == -1,
        },
{
    let mut i = s.len();
    assert(s@.take(s@.len() as int) =~= s@);
    while i > 0
        invariant
            i <= s@.len(),
            last_index(s@, c) == last_index(s@.take(i as int), c),
        decreases i,
    {
        if s[i - 1] == c {
            assert(s@.take(i as int).last() == c);
            return Some(i - 1);
        }
        assert(s@.take(i - 1) =~= s@.take(i as int).drop_last());
        i = i - 1;
    }
    None
}

/// The last component of a normalized path: what follows its last `/`.
pub open spec fn file_name(path: Seq<char>) -> Seq<char> {
    path.skip(last_index(path, '/') + 1)
}

/// `Path::file_stem` and `Path::extension` of a file name: split at the last
/// `.`, except for `..` and names whose only `.` is the first character.
pub open spec fn split_ext(name: Seq<char>) -> (Seq<char>, Option<Seq<char>>) {
    let i = last_index(name, '.');
    if name =~= ".."@ || i <= 0 {
        (name, None)
    } else {
        (name.take(i), Some(name.skip(i + 1)))
    }
}

/// The file name of a path.
pub fn file_name_of(path: &Vec<char>) -> (r: Vec<char>)
    ensures
        r@ == file_name(path@),
{
    proof {
        lemma_last_index(path@, '/');
    }
    let start = match last_index_of(path, '/') {
        Some(i) => i + 1,
        None => 0,
    };
    let mut r: Vec<char> = Vec::new();
    for k in start..path.len()
        invariant
            start <= path@.len(),
            r@ =~= path@.subrange(start as int, k as int),
    {
        r.push(path[k]);
        assert(path@.subrange(start as int, k + 1) =~= path@.subrange(start as int, k as int).push(path@[k as int]));
    }
    assert(path@.subrange(start as int, path@.len() as int) =~= path@.skip(start as int));
    r
}

/// The stem and extension of a file name (see `split_ext`).
pub fn stem_and_extension(name: &Vec<char>) -> (r: (Vec<char>, Option<Vec<char>>))
    ensures
        r.0@ == split_ext(name@).0,
        match r.1 {
            Some(e) => split_ext(name@).1 == Some(e@),
            None => split_ext(name@).1 is None,
        },
{
    proof {
        lemma_last_index(name@, '.');
        reveal_strlit("..");
    }
    let dots = name.len() == 2 && name[0] == '.' && name[1] == '.';
    assert(dots <==> name@ =~= ".."@);
    match last_index_of(name, '.') {
        Some(i) => {
            if dots || i == 0 {
                (copy_chars(name), None)
            } else {
                let mut stem: Vec<char> = Vec::new();
                for k in 0..i
                    invariant
                        i < name@.len(),
                        stem@ =~= name@.take(k as int),
                {
                    stem.push(name[k]);
                    assert(name@.take(k + 1) =~= name@.take(k as int).push(name@[k as int]));
                }
                let mut ext: Vec<char> = Vec::new();
                for k in i + 1..name.len()
                    invariant
                        i < name@.len(),
                        ext@ =~= name@.subrange(i + 1, k as int),
                {
                    ext.push(name[k]);
                    assert(name@.subrange(i + 1, k + 1) =~= name@.subrange(i + 1, k as int).push(name@[k as int]));
                }
                assert(name@.subrange(i + 1, name@.len() as int) =~= name@.skip(i + 1));
                (stem, Some(ext))
            }
        },
        None => (copy_chars(name), None),
    }
}

} // verus!
