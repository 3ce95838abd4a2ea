//! The weekly cleanup schedule: a systemd user timer on Linux, a LaunchAgent
//! on macOS that runs the headless cleanup of old cache files.
use vstd::prelude::*;
use crate::paths::{join, join_str};
use crate::text::{chars_of, push_str, string_of, trim, trim_chars};

verus! {

/// The `systemctl --user` arguments that enable (and start) or disable (and
/// stop) the cleanup timer.
pub fn timer_command(enabled: bool) -> (r: Vec<String>)
    ensures
        r@.map_values(|s: String| s@) == seq![
            "--user"@,
            if enabled { "enable"@ } else { "disable"@ },
            "--now"@,
            "freeyourdisk.timer"@,
        ],
{
    let mut r: Vec<String> = Vec::new();
    r.push("--user".to_owned());
    r.push(if enabled { "enable".to_owned() } else { "disable".to_owned() });
    r.push("--now".to_owned());
    r.push("freeyourdisk.timer".to_owned());
    assert(r@.map_values(|s: String| s@) =~= seq![
        "--user"@,
        if enabled { "enable"@ } else { "disable"@ },
        "--now"@,
        "freeyourdisk.timer"@,
    ]);
    r
}

/// The `systemctl --user` arguments that ask whether the timer is enabled.
pub fn timer_query() -> (r: Vec<String>)
    ensures
        r@.map_values(|s: String| s@) == seq!["--user"@, "is-enabled"@, "freeyourdisk.timer"@],
{
    let mut r: Vec<String> = Vec::new();
    r.push("--user".to_owned());
    r.push("is-enabled".to_owned());
    r.push("freeyourdisk.timer".to_owned());
    assert(r@.map_values(|s: String| s@) =~= seq!["--user"@, "is-enabled"@, "freeyourdisk.timer"@]);
    r
}

/// The answer to a timer change: the requested state when `systemctl`
/// succeeded, else its trimmed error output.
pub fn timer_outcome(enabled: bool, success: bool, stderr: &str) -> (r: Result<bool, String>)
    ensures
        success ==> r == Ok::<bool, String>(enabled),
        !success ==> (r matches Err(e) && e@ == trim(stderr@)),
{
    if success {
        Ok(enabled)
    } else {
        let c = chars_of(stderr);
        let t = trim_chars(&c);
        Err(string_of(&t))
    }
}

/// Where the macOS cleanup LaunchAgent lives under the home directory.
pub fn cleanup_plist_path(home: &str) -> (r: String)
    ensures
        r@ == join(home@, "Library/LaunchAgents/com.qrcommunication.freeyourdisk.cleanup.plist"@),
{
    join_str(home, "Library/LaunchAgents/com.qrcommunication.freeyourdisk.cleanup.plist")
}

/// The macOS LaunchAgent that runs `exe --headless --service=temp --apply`
/// every Sunday at 03:00.
pub fn cleanup_agent_plist(exe: &str) -> (r: String)
    ensures
        r@ == "<?xml version=\"1.0\" encoding=\"UTF-8\"?>\n<!DOCTYPE plist PUBLIC \"-//Apple//DTD PLIST 1.0//EN\" \"http://www.apple.com/DTDs/PropertyList-1.0.dtd\">\n<plist version=\"1.0\"><dict><key>Label</key><string>com.qrcommunication.freeyourdisk.cleanup</string><key>ProgramArguments</key><array><string>"@
            + exe@
            + "</string><string>--headless</string><string>--service=temp</string><string>--apply</string></array><key>StartCalendarInterval</key><dict><key>Weekday</key><integer>0</integer><key>Hour</key><integer>3</integer></dict></dict></plist>\n"@,
{
    let mut v: Vec<char> = Vec::new();
    push_str(
        &mut v,
        "<?xml version=\"1.0\" encoding=\"UTF-8\"?>\n<!DOCTYPE plist PUBLIC \"-//Apple//DTD PLIST 1.0//EN\" \"http://www.apple.com/DTDs/PropertyList-1.0.dtd\">\n<plist version=\"1.0\"><dict><key>Label</key><string>com.qrcommunication.freeyourdisk.cleanup</string><key>ProgramArguments</key><array><string>",
    );
    push_str(&mut v, exe);
    push_str(
        &mut v,
        "</string><string>--headless</string><string>--service=temp</string><string>--apply</string></array><key>StartCalendarInterval</key><dict><key>Weekday</key><integer>0</integer><key>Hour</key><integer>3</integer></dict></dict></plist>\n",
    );
    string_of(&v)
}

} // verus!
