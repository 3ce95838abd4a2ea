use freeyourdisk::elevate::{admin_script, elevation_command, helper_plan_command, helper_smart_command, shell_quote};
use freeyourdisk::smartdeps::{winget_smart_report, RunOutcome};

#[test]
fn shell_words_are_single_quoted() {
    assert_eq!(shell_quote("/usr/lib/x"), "'/usr/lib/x'");
    assert_eq!(shell_quote("it's"), "'it'\\''s'");
    assert_eq!(shell_quote(""), "''");
}

#[test]
fn helper_command_lines() {
    assert_eq!(helper_plan_command("/h", "/tmp/p 1.json"), "'/h' < '/tmp/p 1.json'");
    assert_eq!(
        helper_smart_command("/h", &vec!["disk0".to_string(), "disk1".to_string()]),
        "'/h' smart 'disk0' 'disk1'"
    );
    assert_eq!(helper_smart_command("/h", &vec![]), "'/h' smart");
}

#[test]
fn admin_script_escapes_for_applescript() {
    assert_eq!(
        admin_script("'/h' < 'a\"b\\c'"),
        "do shell script \"'/h' < 'a\\\"b\\\\c'\" with administrator privileges"
    );
}

#[test]
fn elevation_relaunches_with_the_token() {
    assert_eq!(
        elevation_command("C:\\Program Files\\O'Brien\\fyd.exe", "--apply", "123"),
        "Start-Process -FilePath 'C:\\Program Files\\O''Brien\\fyd.exe' -ArgumentList '--apply','123' -Verb RunAs -Wait -WindowStyle Hidden"
    );
}

#[test]
fn winget_install_report() {
    assert_eq!(winget_smart_report(&RunOutcome::Succeeded).message, "Installed: smartmontools");
    let r = winget_smart_report(&RunOutcome::Failed("a\nNo package found\n".into()));
    assert!(!r.success);
    assert_eq!(r.message, "No package found");
    assert_eq!(winget_smart_report(&RunOutcome::Failed(String::new())).message, "winget install failed");
    assert_eq!(winget_smart_report(&RunOutcome::NotRun("x".into())).message, "failed to run winget: x");
}
