//! Windows desktop notifications, shown by a PowerShell script: quoting text
//! for a PowerShell single-quoted literal, and the script itself.
use vstd::prelude::*;
use crate::text::{chars_of, push_all, push_str, string_of};

verus! {

/// `s` with every single quote doubled.
pub open spec fn ps_escaped(s: Seq<char>) -> Seq<char>
    decreases s.len(),
{
    if s.len() == 0 {
        Seq::empty()
    } else if s.last() == '\'' {
        ps_escaped(s.drop_last()) + seq!['\'', '\'']
    } else {
        ps_escaped(s.drop_last()).push(s.last())
    }
}

/// `s` with every single quote doubled, so it is safe inside a PowerShell
/// single-quoted literal (`'...'`), the only escaping such literals require.
pub fn escape_ps_literal(s: &str) -> (r: String)
    ensures
        r@ == ps_escaped(s@),
{
    let c = chars_of(s);
    let mut v: Vec<char> = Vec::new();
    for i in 0..c.len()
        invariant
            c@ == s@,
            v@ == ps_escaped(c@.take(i as int)),
    {
        assert(c@.take(i + 1).drop_last() =~= c@.take(i as int));
        assert(c@.take(i + 1).last() == c@[i as int]);
        if c[i] == '\'' {
            v.push('\'');
            v.push('\'');
            assert(v@ =~= ps_escaped(c@.take(i as int)) + seq!['\'', '\'']);
        } else {
            v.push(c[i]);
        }
    }
    assert(c@.take(c.len() as int) =~= c@);
    string_of(&v)
}

/// Reading the escaped text back as a PowerShell single-quoted literal (every
/// doubled quote read as one) gives the original text.
pub open spec fn ps_unescaped(s: Seq<char>) -> Seq<char>
    decreases s.len(),
{
    if s.len() == 0 {
        Seq::empty()
    } else if s.len() >= 2 && s[0] == '\'' && s[1] == '\'' {
        seq!['\''] + ps_unescaped(s.skip(2))
    } else {
        seq![s[0]] + ps_unescaped(s.skip(1))
    }
}

/// Escaping never leaves a lone quote: the literal cannot be closed early, and
/// reading it back gives the original text.
pub proof fn law_escape_roundtrip(s: Seq<char>)
    ensures
        ps_unescaped(ps_escaped(s)) == s,
{
    lemma_escaped_front(s);
}

/// Escaping a text, seen from its first character.
pub proof fn lemma_escaped_front(s: Seq<char>)
    ensures
        ps_unescaped(ps_escaped(s)) == s,
    decreases s.len(),
{
    if s.len() > 0 {
        lemma_escape_append(seq![s[0]], s.skip(1));
        assert(seq![s[0]] + s.skip(1) =~= s);
        lemma_escaped_front(s.skip(1));
        let e = ps_escaped(s.skip(1));
        let one = seq![s[0]];
        assert(one.len() == 1 && one.last() == s[0]);
        assert(one.drop_last() =~= Seq::<char>::empty());
        assert(ps_escaped(one.drop_last()) =~= Seq::<char>::empty());
        if s[0] == '\'' {
            assert(ps_escaped(seq![s[0]]) =~= seq!['\'', '\'']) by {
                assert(seq![s[0]].drop_last() =~= Seq::<char>::empty());
            }
            let t = seq!['\'', '\''] + e;
            assert(t.skip(2) =~= e);
            assert(t[0] == '\'' && t[1] == '\'');
        } else {
            assert(ps_escaped(seq![s[0]]) =~= seq![s[0]]) by {
                assert(seq![s[0]].drop_last() =~= Seq::<char>::empty());
            }
            let t = seq![s[0]] + e;
            assert(t.skip(1) =~= e);
            assert(t[0] == s[0]);
        }
    }
}

/// Escaping distributes over concatenation.
pub proof fn lemma_escape_append(a: Seq<char>, b: Seq<char>)
    ensures
        ps_escaped(a + b) == ps_escaped(a) + ps_escaped(b),
    decreases b.len(),
{
    if b.len() == 0 {
        assert(a + b =~= a);
        assert(ps_escaped(a) + ps_escaped(b) =~= ps_escaped(a));
    } else {
        lemma_escape_append(a, b.drop_last());
        assert((a + b).drop_last() =~= a + b.drop_last());
        assert((a + b).last() == b.last());
        if b.last() == '\'' {
            assert(ps_escaped(a) + ps_escaped(b) =~= ps_escaped(a) + ps_escaped(b.drop_last()) + seq!['\'', '\'']);
        } else {
            assert(ps_escaped(a) + ps_escaped(b) =~= (ps_escaped(a) + ps_escaped(b.drop_last())).push(b.last()));
        }
    }
}

/// The application identity notifications are shown under (PowerShell's).
pub open spec fn toast_app_id() -> Seq<char> {
    "{1AC14E77-02E7-4E5D-B744-2EB1AE5198B7}\\WindowsPowerShell\\v1.0\\powershell.exe"@
}

/// The PowerShell script that shows a two-line toast with this title and
/// body, each quoted as a single-quoted literal.
pub fn toast_script(title: &str, body: &str) -> (r: String)
    ensures
        r@ == "[Windows.UI.Notifications.ToastNotificationManager,Windows.UI.Notifications,ContentType=WindowsRuntime]|Out-Null;$x=[Windows.UI.Notifications.ToastNotificationManager]::GetTemplateContent([Windows.UI.Notifications.ToastTemplateType]::ToastText02);$t=$x.GetElementsByTagName('text');$t.Item(0).AppendChild($x.CreateTextNode('"@
            + ps_escaped(title@) + "'))|Out-Null;$t.Item(1).AppendChild($x.CreateTextNode('"@ + ps_escaped(body@)
            + "'))|Out-Null;$n=[Windows.UI.Notifications.ToastNotification]::new($x);[Windows.UI.Notifications.ToastNotificationManager]::CreateToastNotifier('"@
            + toast_app_id() + "').Show($n)"@,
{
    let mut v: Vec<char> = Vec::new();
    push_str(
        &mut v,
        "[Windows.UI.Notifications.ToastNotificationManager,Windows.UI.Notifications,ContentType=WindowsRuntime]|Out-Null;$x=[Windows.UI.Notifications.ToastNotificationManager]::GetTemplateContent([Windows.UI.Notifications.ToastTemplateType]::ToastText02);$t=$x.GetElementsByTagName('text');$t.Item(0).AppendChild($x.CreateTextNode('",
    );
    let t = escape_ps_literal(title);
    push_str(&mut v, t.as_str());
    push_str(&mut v, "'))|Out-Null;$t.Item(1).AppendChild($x.CreateTextNode('");
    let b = escape_ps_literal(body);
    push_str(&mut v, b.as_str());
    push_str(
        &mut v,
        "'))|Out-Null;$n=[Windows.UI.Notifications.ToastNotification]::new($x);[Windows.UI.Notifications.ToastNotificationManager]::CreateToastNotifier('",
    );
    push_str(&mut v, "{1AC14E77-02E7-4E5D-B744-2EB1AE5198B7}\\WindowsPowerShell\\v1.0\\powershell.exe");
    push_str(&mut v, "').Show($n)");
    string_of(&v)
}

} // verus!
