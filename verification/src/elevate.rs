//! The command lines that obtain administrator rights for the privileged
//! helper: shell quoting for macOS's authorization dialog, the AppleScript
//! that carries the command, and the PowerShell elevation of Windows.
use vstd::prelude::*;
use crate::toast::{escape_ps_literal, ps_escaped};
use crate::text::{chars_of, push_all, push_str, string_of};

verus! {

/// `s` with every `'` written as `'\''`.
pub open spec fn sh_escaped(s: Seq<char>) -> Seq<char>
    decreases s.len(),
{
    if s.len() == 0 {
        Seq::empty()
    } else if s.last() == '\'' {
        sh_escaped(s.drop_last()) + "'\\''"@
    } else {
        sh_escaped(s.drop_last()).push(s.last())
    }
}

/// `s` as one single-quoted POSIX shell word.
pub open spec fn sh_quoted(s: Seq<char>) -> Seq<char> {
    "'"@ + sh_escaped(s) + "'"@
}

/// Quote `s` as a single POSIX shell word.
pub fn shell_quote(s: &str) -> (r: String)
    ensures
        r@ == sh_quoted(s@),
{
    proof {
        reveal_strlit("'\\''");
    }
    let c = chars_of(s);
    let mut v: Vec<char> = Vec::new();
    v.push('\'');
    let ghost start = v@;
    for i in 0..c.len()
        invariant
            c@ == s@,
            start == seq!['\''],
            "'\\''"@ == seq!['\'', '\\', '\'', '\''],
            v@ == start + sh_escaped(c@.take(i as int)),
    {
        assert(c@.take(i + 1).drop_last() =~= c@.take(i as int));
        assert(c@.take(i + 1).last() == c@[i as int]);
        let ghost before = v@;
        if c[i] == '\'' {
            v.push('\'');
            v.push('\\');
            v.push('\'');
            v.push('\'');
            assert(v@ =~= start + (sh_escaped(c@.take(i as int)) + "'\\''"@));
        } else {
            v.push(c[i]);
            assert(v@ =~= start + sh_escaped(c@.take(i as int)).push(c@[i as int]));
        }
    }
    assert(c@.take(c.len() as int) =~= c@);
    v.push('\'');
    proof {
        reveal_strlit("'");
    }
    assert(v@ =~= "'"@ + sh_escaped(s@) + "'"@);
    string_of(&v)
}

/// `s` inside an AppleScript string literal: backslashes doubled, double
/// quotes backslash-escaped.
pub open spec fn applescript_escaped(s: Seq<char>) -> Seq<char>
    decreases s.len(),
{
    if s.len() == 0 {
        Seq::empty()
    } else if s.last() == '\\' {
        applescript_escaped(s.drop_last()) + seq!['\\', '\\']
    } else if s.last() == '"' {
        applescript_escaped(s.drop_last()) + seq!['\\', '"']
    } else {
        applescript_escaped(s.drop_last()).push(s.last())
    }
}

/// The AppleScript that runs the shell command `cmd` with administrator
/// privileges (the system's authorization dialog).
pub fn admin_script(cmd: &str) -> (r: String)
    ensures
        r@ == "do shell script \""@ + applescript_escaped(cmd@) + "\" with administrator privileges"@,
{
    let c = chars_of(cmd);
    let mut esc: Vec<char> = Vec::new();
    for i in 0..c.len()
        invariant
            c@ == cmd@,
            esc@ == applescript_escaped(c@.take(i as int)),
    {
        assert(c@.take(i + 1).drop_last() =~= c@.take(i as int));
        assert(c@.take(i + 1).last() == c@[i as int]);
        let ghost before = esc@;
        if c[i] == '\\' {
            esc.push('\\');
            esc.push('\\');
            assert(esc@ =~= before + seq!['\\', '\\']);
        } else if c[i] == '"' {
            esc.push('\\');
            esc.push('"');
            assert(esc@ =~= before + seq!['\\', '"']);
        } else {
            esc.push(c[i]);
        }
    }
    assert(c@.take(c.len() as int) =~= c@);
    let mut v: Vec<char> = Vec::new();
    push_str(&mut v, "do shell script \"");
    push_all(&mut v, &esc);
    push_str(&mut v, "\" with administrator privileges");
    string_of(&v)
}

/// The shell command that runs the helper on a staged plan: the helper with
/// the plan file on its standard input, both quoted.
pub fn helper_plan_command(helper: &str, plan_file: &str) -> (r: String)
    ensures
        r@ == sh_quoted(helper@) + " < "@ + sh_quoted(plan_file@),
{
    let h = shell_quote(helper);
    let p = shell_quote(plan_file);
    let mut v: Vec<char> = Vec::new();
    push_str(&mut v, h.as_str());
    push_str(&mut v, " < ");
    push_str(&mut v, p.as_str());
    string_of(&v)
}

/// The quoted words of `devices`, each preceded by a space.
pub open spec fn quoted_words(devices: Seq<String>) -> Seq<char>
    decreases devices.len(),
{
    if devices.len() == 0 {
        Seq::empty()
    } else {
        quoted_words(devices.drop_last()) + " "@ + sh_quoted(devices.last()@)
    }
}

/// The shell command that reads SMART for `devices` through the helper.
pub fn helper_smart_command(helper: &str, devices: &Vec<String>) -> (r: String)
    ensures
        r@ == sh_quoted(helper@) + " smart"@ + quoted_words(devices@),
{
    let h = shell_quote(helper);
    let mut v: Vec<char> = Vec::new();
    push_str(&mut v, h.as_str());
    push_str(&mut v, " smart");
    let ghost head = v@;
    for i in 0..devices.len()
        invariant
            head == sh_quoted(helper@) + " smart"@,
            v@ == head + quoted_words(devices@.take(i as int)),
    {
        assert(devices@.take(i + 1).drop_last() =~= devices@.take(i as int));
        assert(devices@.take(i + 1).last() == devices@[i as int]);
        let q = shell_quote(devices[i].as_str());
        push_str(&mut v, " ");
        push_str(&mut v, q.as_str());
        assert(v@ =~= head + (quoted_words(devices@.take(i as int)) + " "@ + sh_quoted(devices@[i as int]@)));
    }
    assert(devices@.take(devices.len() as int) =~= devices@);
    string_of(&v)
}

/// The PowerShell command that relaunches `exe` elevated (UAC) with `flag`
/// and the exchange `token`, waiting for it, window hidden; the path is quoted
/// as a single-quoted literal.
pub fn elevation_command(exe: &str, flag: &str, token: &str) -> (r: String)
    ensures
        r@ == "Start-Process -FilePath '"@ + ps_escaped(exe@) + "' -ArgumentList '"@ + flag@ + "','"@ + token@
            + "' -Verb RunAs -Wait -WindowStyle Hidden"@,
{
    let e = escape_ps_literal(exe);
    let mut v: Vec<char> = Vec::new();
    push_str(&mut v, "Start-Process -FilePath '");
    push_str(&mut v, e.as_str());
    push_str(&mut v, "' -ArgumentList '");
    push_str(&mut v, flag);
    push_str(&mut v, "','");
    push_str(&mut v, token);
    push_str(&mut v, "' -Verb RunAs -Wait -WindowStyle Hidden");
    string_of(&v)
}

} // verus!
