use freeyourdisk::headless::{cache_cleanup, cache_service, exchange_files, headless_args, trash_request, windows_root_zones, MIN_AGE_DAYS};
use freeyourdisk::ipc::{ExecutionReport, ItemKind, ScanItem};
use freeyourdisk::paths::PathStyle;
use freeyourdisk::settings::{
    autostart_desktop_entry, autostart_entry_path, config_dir, default_shortcut, launch_agent_plist, run_value,
    settings_path, Settings,
};
use freeyourdisk::smartdeps::Platform;

fn args(v: &[&str]) -> Vec<String> {
    v.iter().map(|s| s.to_string()).collect()
}

#[test]
fn default_settings_per_platform() {
    let s = Settings::defaults(Platform::Linux);
    assert_eq!(s.theme, "system");
    assert_eq!(s.language, "system");
    assert!(!s.autostart);
    assert!(s.monitor_enabled);
    assert_eq!(s.monitor_threshold, 5);
    assert_eq!(s.shortcut, "Ctrl+Alt+Delete");
    assert_eq!(default_shortcut(Platform::MacOs), "Cmd+Shift+M");
    assert_eq!(default_shortcut(Platform::Windows), "Ctrl+Shift+M");
}

#[test]
fn config_dir_follows_platform_conventions() {
    assert_eq!(config_dir(Platform::Linux, &None, &Some("/home/u".into())), "/home/u/.config/freeyourdisk");
    assert_eq!(config_dir(Platform::Linux, &Some("/x/cfg".into()), &Some("/home/u".into())), "/x/cfg/freeyourdisk");
    assert_eq!(config_dir(Platform::Linux, &None, &None), "/.config/freeyourdisk");
    assert_eq!(
        config_dir(Platform::MacOs, &None, &Some("/Users/u".into())),
        "/Users/u/Library/Application Support/FreeYourDisk"
    );
    assert_eq!(
        config_dir(Platform::Windows, &Some("C:\\Users\\u\\AppData\\Roaming".into()), &None),
        "C:\\Users\\u\\AppData\\Roaming\\FreeYourDisk"
    );
    assert_eq!(config_dir(Platform::Windows, &None, &None), "C:\\AppData/Roaming\\FreeYourDisk");
    assert_eq!(settings_path(Platform::Linux, "/c"), "/c/settings.json");
    assert_eq!(settings_path(Platform::Windows, "C:\\c"), "C:\\c\\settings.json");
}

#[test]
fn launch_at_login_entries() {
    assert!(autostart_desktop_entry().starts_with("[Desktop Entry]\nType=Application\n"));
    assert!(autostart_desktop_entry().contains("Exec=freeyourdisk\n"));
    assert_eq!(
        autostart_entry_path(&None, &Some("/home/u".into())),
        "/home/u/.config/autostart/freeyourdisk.desktop"
    );
    assert_eq!(run_value("C:\\Program Files\\FYD\\fyd.exe"), "\"C:\\Program Files\\FYD\\fyd.exe\"");
    let plist = launch_agent_plist("/Applications/FreeYourDisk.app/Contents/MacOS/fyd");
    assert!(plist.contains("<array><string>/Applications/FreeYourDisk.app/Contents/MacOS/fyd</string></array>"));
    assert!(plist.contains("<key>RunAtLoad</key><true/>"));
}

#[test]
fn headless_accepts_only_the_temp_service() {
    assert_eq!(headless_args(&args(&["--headless"])), Ok(false));
    assert_eq!(headless_args(&args(&["--headless", "--apply"])), Ok(true));
    assert_eq!(headless_args(&args(&["--headless", "--service=temp", "--apply"])), Ok(true));
    assert_eq!(headless_args(&args(&["--headless", "--service=git"])), Err(2));
    assert_eq!(headless_args(&args(&["--service=temp", "--service=git"])), Ok(false), "the first one counts");
    assert_eq!(headless_args(&args(&["--applyx"])), Ok(false));
}

#[test]
fn headless_scans_only_the_user_cache() {
    let s = cache_service("/home/u", MIN_AGE_DAYS);
    assert_eq!(s.roots.len(), 1);
    assert_eq!(s.roots[0].path, "/home/u/.cache");
    assert!(!s.roots[0].requires_root);
    assert_eq!(s.min_age_days, 7);
}

#[test]
fn dry_run_frees_nothing() {
    let outcome = cache_cleanup(3, &None);
    assert!(!outcome.applied);
    assert_eq!(outcome.freed_bytes, 0);
    assert_eq!(outcome.deleted_count, 0);
    assert_eq!(outcome.considered, 3);
}

#[test]
fn applied_run_reports_the_trash_result() {
    let rep = ExecutionReport { freed_bytes: 42, deleted_count: 2, errors: vec![] };
    let outcome = cache_cleanup(3, &Some(rep));
    assert!(outcome.applied);
    assert_eq!(outcome.freed_bytes, 42);
    assert_eq!(outcome.deleted_count, 2);
    let item = ScanItem {
        id: "/home/u/.cache/a".into(),
        path: "/home/u/.cache/a".into(),
        size_bytes: 1,
        last_access: None,
        kind: ItemKind::File,
        requires_root: false,
    };
    let (zones, paths) = trash_request(PathStyle::Unix, "/home/u", &vec![item]);
    assert_eq!(zones.0, vec!["/home/u".to_string()]);
    assert_eq!(paths, vec!["/home/u/.cache/a".to_string()]);
}

#[test]
fn elevated_exchange_files_need_a_digit_token() {
    assert_eq!(
        exchange_files("apply", "1234"),
        Some(("fyd-apply-1234-plan.json".to_string(), "fyd-apply-1234-report.json".to_string()))
    );
    assert_eq!(exchange_files("apply", "..\\x"), None);
    assert_eq!(exchange_files("smart", ""), None);
    assert_eq!(windows_root_zones().0, vec!["C:\\Windows\\Temp".to_string()]);
}

#[test]
fn elevated_smart_reader_trusts_only_fixed_locations() {
    assert_eq!(
        freeyourdisk::headless::trusted_smartctl_paths(),
        vec![
            "C:\\Program Files\\smartmontools\\bin\\smartctl.exe",
            "C:\\Program Files (x86)\\smartmontools\\bin\\smartctl.exe",
        ]
    );
}

#[test]
fn windows_executor_zone_admits_its_temp_files() {
    let z = windows_root_zones();
    assert_eq!(z.1, PathStyle::Windows);
    assert!(z.contains("C:\\Windows\\Temp\\a.tmp"));
    assert!(z.contains("c:\\Windows\\Temp\\sub\\b.log"), "drive letters ignore case");
    assert!(z.contains("C:/Windows/Temp/c.tmp"), "forward slashes separate too");
    assert!(!z.contains("C:\\Windows\\TempX\\a.tmp"), "whole components only");
    assert!(!z.contains("C:\\Windows\\System32\\x.dll"));
    assert!(!z.contains("D:\\Windows\\Temp\\a.tmp"));
    assert!(!z.contains("\\\\server\\share\\Windows\\Temp\\a"));
}
