use freeyourdisk::toast::{escape_ps_literal, toast_script};

#[test]
fn doubles_single_quotes() {
    assert_eq!(escape_ps_literal("it's a 'test'"), "it''s a ''test''");
}

#[test]
fn leaves_plain_text_unchanged() {
    assert_eq!(escape_ps_literal("12.3 GB freed"), "12.3 GB freed");
}

#[test]
fn escapes_only_quotes_and_keeps_other_characters() {
    assert_eq!(escape_ps_literal("''"), "''''");
    assert_eq!(escape_ps_literal(""), "");
    assert_eq!(escape_ps_literal("l'été"), "l''été");
}

#[test]
fn toast_script_quotes_title_and_body() {
    let s = toast_script("Don't", "1 GB");
    assert!(s.contains("CreateTextNode('Don''t')"));
    assert!(s.contains("CreateTextNode('1 GB')"));
    assert!(s.ends_with(
        "CreateToastNotifier('{1AC14E77-02E7-4E5D-B744-2EB1AE5198B7}\\WindowsPowerShell\\v1.0\\powershell.exe').Show($n)"
    ));
    assert!(s.starts_with("[Windows.UI.Notifications.ToastNotificationManager,"));
}
