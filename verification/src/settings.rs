//! Persisted user settings: their defaults, where they live, and the
//! launch-at-login entries derived from them.
use vstd::prelude::*;
use crate::paths::{join, join_str};
use crate::smartdeps::Platform;
use crate::text::{push_str, string_of};

verus! {

/// The user's settings.
#[derive(Clone, Debug, PartialEq, Eq)]
pub struct Settings {
    /// "system" | "light" | "dark"
    pub theme: String,
    /// "system" | "fr" | "en"
    pub language: String,
    /// Launch on session start.
    pub autostart: bool,
    /// Watch free disk space in the background.
    pub monitor_enabled: bool,
    /// Alert when free space on a mount drops below this percentage.
    pub monitor_threshold: u8,
    /// Global hotkey that summons the window and the task manager.
    pub shortcut: String,
}

/// The default global hotkey: `Ctrl+Alt+Delete` on Linux, `Cmd+Shift+M` on
/// macOS, and `Ctrl+Shift+M` on Windows (where `Ctrl+Alt+Delete` is reserved
/// by the system and cannot be registered).
pub open spec fn default_shortcut_of(p: Platform) -> Seq<char> {
    match p {
        Platform::Linux => "Ctrl+Alt+Delete"@,
        Platform::MacOs => "Cmd+Shift+M"@,
        Platform::Windows => "Ctrl+Shift+M"@,
    }
}

pub fn default_shortcut(p: Platform) -> (r: String)
    ensures
        r@ == default_shortcut_of(p),
{
    match p {
        Platform::Linux => "Ctrl+Alt+Delete".to_owned(),
        Platform::MacOs => "Cmd+Shift+M".to_owned(),
        Platform::Windows => "Ctrl+Shift+M".to_owned(),
    }
}

impl Settings {
    /// The defaults: system theme and language, no autostart, the monitor on
    /// with a 5% threshold, and the platform's default hotkey.
    pub fn defaults(p: Platform) -> (r: Settings)
        ensures
            r.theme@ == "system"@,
            r.language@ == "system"@,
            !r.autostart,
            r.monitor_enabled,
            r.monitor_threshold == 5,
            r.shortcut@ == default_shortcut_of(p),
    {
        Settings {
            theme: "system".to_owned(),
            language: "system".to_owned(),
            autostart: false,
            monitor_enabled: true,
            monitor_threshold: 5,
            shortcut: default_shortcut(p),
        }
    }
}

/// `PathBuf::join` on Windows for a relative `p`: a `\` is inserted unless
/// `base` is empty or already ends with a separator.
pub open spec fn win_join(base: Seq<char>, p: Seq<char>) -> Seq<char> {
    if base.len() > 0 && base.last() != '\\' && base.last() != '/' {
        base + seq!['\\'] + p
    } else {
        base + p
    }
}

fn win_join_str(base: &str, p: &str) -> (r: String)
    ensures
        r@ == win_join(base@, p@),
{
    let mut v = crate::text::chars_of(base);
    if v.len() > 0 && v[v.len() - 1] != '\\' && v[v.len() - 1] != '/' {
        v.push('\\');
    }
    push_str(&mut v, p);
    string_of(&v)
}

/// The home directory: the environment's value, else `/` (Unix) or `C:\`
/// (Windows).
pub open spec fn home_or_default(p: Platform, home: Option<String>) -> Seq<char> {
    match home {
        Some(h) => h@,
        None => if p == Platform::Windows {
            "C:\\"@
        } else {
            "/"@
        },
    }
}

/// The per-user configuration directory: `$XDG_CONFIG_HOME/freeyourdisk`
/// (default `~/.config`) on Linux, `~/Library/Application Support/FreeYourDisk`
/// on macOS, `%APPDATA%\FreeYourDisk` (default `~\AppData/Roaming`) on Windows.
/// `config_base` is the value of `XDG_CONFIG_HOME` (Linux) or `APPDATA`
/// (Windows); `home` that of `HOME` (Unix) or `USERPROFILE` (Windows).
pub open spec fn config_dir_of(p: Platform, config_base: Option<String>, home: Option<String>) -> Seq<char> {
    match p {
        Platform::Linux => {
            let base = match config_base {
                Some(b) => b@,
                None => join(home_or_default(p, home), ".config"@),
            };
            join(base, "freeyourdisk"@)
        },
        Platform::MacOs => join(home_or_default(p, home), "Library/Application Support/FreeYourDisk"@),
        Platform::Windows => {
            let base = match config_base {
                Some(b) => b@,
                None => win_join(home_or_default(p, home), "AppData/Roaming"@),
            };
            win_join(base, "FreeYourDisk"@)
        },
    }
}

fn home_dir(p: Platform, home: &Option<String>) -> (r: String)
    ensures
        r@ == home_or_default(p, *home),
{
    match home {
        Some(h) => h.clone(),
        None => if p == Platform::Windows {
            "C:\\".to_owned()
        } else {
            "/".to_owned()
        },
    }
}

pub fn config_dir(p: Platform, config_base: &Option<String>, home: &Option<String>) -> (r: String)
    ensures
        r@ == config_dir_of(p, *config_base, *home),
{
    match p {
        Platform::Linux => {
            let base = match config_base {
                Some(b) => b.clone(),
                None => {
                    let h = home_dir(p, home);
                    join_str(h.as_str(), ".config")
                },
            };
            join_str(base.as_str(), "freeyourdisk")
        },
        Platform::MacOs => {
            let h = home_dir(p, home);
            join_str(h.as_str(), "Library/Application Support/FreeYourDisk")
        },
        Platform::Windows => {
            let base = match config_base {
                Some(b) => b.clone(),
                None => {
                    let h = home_dir(p, home);
                    win_join_str(h.as_str(), "AppData/Roaming")
                },
            };
            win_join_str(base.as_str(), "FreeYourDisk")
        },
    }
}

/// Where the settings file lives in the configuration directory.
pub fn settings_path(p: Platform, config_dir: &str) -> (r: String)
    ensures
        r@ == if p == Platform::Windows {
            win_join(config_dir@, "settings.json"@)
        } else {
            join(config_dir@, "settings.json"@)
        },
{
    if p == Platform::Windows {
        win_join_str(config_dir, "settings.json")
    } else {
        join_str(config_dir, "settings.json")
    }
}

/// The XDG autostart entry that launches the application at login.
pub fn autostart_desktop_entry() -> (r: &'static str)
    ensures
        r@ == "[Desktop Entry]\nType=Application\nName=FreeYourDisk\nExec=freeyourdisk\nIcon=freeyourdisk\nComment=Safe disk cleanup\nX-GNOME-Autostart-enabled=true\n"@,
{
    "[Desktop Entry]\nType=Application\nName=FreeYourDisk\nExec=freeyourdisk\nIcon=freeyourdisk\nComment=Safe disk cleanup\nX-GNOME-Autostart-enabled=true\n"
}

/// Where the Linux autostart entry lives: under `$XDG_CONFIG_HOME` (default
/// `~/.config`), `autostart/freeyourdisk.desktop`.
pub fn autostart_entry_path(config_base: &Option<String>, home: &Option<String>) -> (r: String)
    ensures
        r@ == join(
            join(
                match *config_base {
                    Some(b) => b@,
                    None => join(home_or_default(Platform::Linux, *home), ".config"@),
                },
                "autostart"@,
            ),
            "freeyourdisk.desktop"@,
        ),
{
    let base = match config_base {
        Some(b) => b.clone(),
        None => {
            let h = home_dir(Platform::Linux, home);
            join_str(h.as_str(), ".config")
        },
    };
    let a = join_str(base.as_str(), "autostart");
    join_str(a.as_str(), "freeyourdisk.desktop")
}

/// The macOS LaunchAgent that starts `exe` at login.
pub fn launch_agent_plist(exe: &str) -> (r: String)
    ensures
        r@ == "<?xml version=\"1.0\" encoding=\"UTF-8\"?>\n<!DOCTYPE plist PUBLIC \"-//Apple//DTD PLIST 1.0//EN\" \"http://www.apple.com/DTDs/PropertyList-1.0.dtd\">\n<plist version=\"1.0\"><dict><key>Label</key><string>com.qrcommunication.freeyourdisk</string><key>ProgramArguments</key><array><string>"@
            + exe@
            + "</string></array><key>RunAtLoad</key><true/><key>ProcessType</key><string>Interactive</string></dict></plist>\n"@,
{
    let mut v: Vec<char> = Vec::new();
    push_str(
        &mut v,
        "<?xml version=\"1.0\" encoding=\"UTF-8\"?>\n<!DOCTYPE plist PUBLIC \"-//Apple//DTD PLIST 1.0//EN\" \"http://www.apple.com/DTDs/PropertyList-1.0.dtd\">\n<plist version=\"1.0\"><dict><key>Label</key><string>com.qrcommunication.freeyourdisk</string><key>ProgramArguments</key><array><string>",
    );
    push_str(&mut v, exe);
    push_str(
        &mut v,
        "</string></array><key>RunAtLoad</key><true/><key>ProcessType</key><string>Interactive</string></dict></plist>\n",
    );
    string_of(&v)
}

/// The Windows `Run` value that starts `exe` at login: the path in double
/// quotes, so an install directory with spaces stays one argument.
pub fn run_value(exe: &str) -> (r: String)
    ensures
        r@ == "\""@ + exe@ + "\""@,
{
    let mut v: Vec<char> = Vec::new();
    push_str(&mut v, "\"");
    push_str(&mut v, exe);
    push_str(&mut v, "\"");
    string_of(&v)
}

} // verus!
