use freeyourdisk::schedule::{
    cleanup_agent_plist, cleanup_plist_path, timer_command, timer_outcome, timer_query,
};
use freeyourdisk::smartdeps::Platform;
use freeyourdisk::state::{du_invocation, unix_system_roots, windows_system_roots};

#[test]
fn timer_arguments_follow_the_requested_state() {
    assert_eq!(timer_command(true), vec!["--user", "enable", "--now", "freeyourdisk.timer"]);
    assert_eq!(timer_command(false), vec!["--user", "disable", "--now", "freeyourdisk.timer"]);
    assert_eq!(timer_query(), vec!["--user", "is-enabled", "freeyourdisk.timer"]);
}

#[test]
fn timer_outcome_reports_state_or_trimmed_error() {
    assert_eq!(timer_outcome(true, true, "ignored"), Ok(true));
    assert_eq!(timer_outcome(false, true, ""), Ok(false));
    assert_eq!(
        timer_outcome(true, false, "  Failed to enable unit: not found\n"),
        Err("Failed to enable unit: not found".to_string())
    );
}

#[test]
fn cleanup_agent_runs_the_headless_temp_cleanup_weekly() {
    assert_eq!(
        cleanup_plist_path("/Users/ana"),
        "/Users/ana/Library/LaunchAgents/com.qrcommunication.freeyourdisk.cleanup.plist"
    );
    let plist = cleanup_agent_plist("/Applications/FreeYourDisk.app/Contents/MacOS/freeyourdisk");
    assert!(plist.starts_with("<?xml version=\"1.0\" encoding=\"UTF-8\"?>\n<!DOCTYPE plist"));
    assert!(plist.contains(
        "<array><string>/Applications/FreeYourDisk.app/Contents/MacOS/freeyourdisk</string>\
         <string>--headless</string><string>--service=temp</string><string>--apply</string></array>"
    ));
    assert!(plist.contains("<key>Weekday</key><integer>0</integer><key>Hour</key><integer>3</integer>"));
    assert!(plist.ends_with("</dict></plist>\n"));
}

#[test]
fn system_footprint_roots_per_platform() {
    assert_eq!(
        unix_system_roots(Platform::Linux),
        vec!["/usr", "/var", "/opt", "/boot", "/srv", "/root", "/swapfile"]
    );
    assert_eq!(
        unix_system_roots(Platform::MacOs),
        vec!["/System", "/Library", "/usr", "/private/var", "/opt", "/Applications"]
    );
    assert_eq!(du_invocation(Platform::Linux), (vec!["-scx", "--block-size=1"], 1));
    assert_eq!(du_invocation(Platform::MacOs), (vec!["-scxk"], 1024));
    assert_eq!(
        windows_system_roots(Some("D:\\Windows".to_string()), None, None, Some("D:\\Data".to_string())),
        vec!["D:\\Windows", "C:\\Program Files", "C:\\Program Files (x86)", "D:\\Data"]
    );
}
