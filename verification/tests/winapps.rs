use freeyourdisk::apps::AppEntry;
use freeyourdisk::winapps::{
    detect_msix, detect_registry, mac_app_entry, mac_trash_step, msix_location, msix_uninstall,
    parse_winget_upgrade_names, registry_entry, registry_hive, registry_target, registry_uninstall, valid_pfn,
    winget_update_step, winget_updates, AppxPackage, Hive, HiveListing, RegistryValues,
};

fn values(subkey: &str, name: Option<&str>, version: Option<&str>) -> RegistryValues {
    RegistryValues {
        subkey: subkey.into(),
        display_name: name.map(String::from),
        system_component: None,
        quiet_uninstall: None,
        uninstall: Some("C:\\u.exe".into()),
        display_version: version.map(String::from),
        estimated_size_kb: Some(10),
    }
}

fn app(id: &str, name: &str) -> AppEntry {
    AppEntry {
        id: id.into(),
        name: name.into(),
        source: "registry".into(),
        version: None,
        size_bytes: 0,
        requires_root: false,
        protected: false,
    }
}

#[test]
fn registry_entries_need_a_name_a_command_and_visibility() {
    let e = registry_entry("HKLM", true, &values("{A}", Some("Tool"), Some(" 1.0 "))).unwrap();
    assert_eq!(e.id, "registry:HKLM:{A}");
    assert_eq!(e.name, "Tool");
    assert_eq!(e.source, "registry");
    assert_eq!(e.version.as_deref(), Some(" 1.0 "));
    assert_eq!(e.size_bytes, 10 * 1024);
    assert!(e.requires_root && !e.protected);

    assert!(registry_entry("HKCU", false, &values("{B}", Some("  "), None)).is_none());
    let mut hidden = values("{C}", Some("Patch"), None);
    hidden.system_component = Some(1);
    assert!(registry_entry("HKCU", false, &hidden).is_none());
    let mut no_cmd = values("{D}", Some("Update"), None);
    no_cmd.uninstall = Some(" ".into());
    assert!(registry_entry("HKCU", false, &no_cmd).is_none());
    let mut blank_version = values("{E}", Some("X"), Some("  "));
    blank_version.estimated_size_kb = None;
    let e = registry_entry("HKCU", false, &blank_version).unwrap();
    assert_eq!(e.version, None);
    assert_eq!(e.size_bytes, 0);
}

#[test]
fn registry_inventory_dedupes_name_and_version_keeping_the_first_hive() {
    let hives = vec![
        HiveListing { label: "HKLM".into(), requires_root: true, keys: vec![values("{1}", Some("App"), Some("2"))] },
        HiveListing { label: "HKLM32".into(), requires_root: true, keys: vec![values("{2}", Some("App"), Some("2")), values("{3}", Some("App"), Some("3"))] },
        HiveListing { label: "HKCU".into(), requires_root: false, keys: vec![values("{4}", Some("Other"), None)] },
    ];
    let apps = detect_registry(&hives);
    let ids: Vec<&str> = apps.iter().map(|a| a.id.as_str()).collect();
    assert_eq!(ids, vec!["registry:HKLM:{1}", "registry:HKLM32:{3}", "registry:HKCU:{4}"]);
    assert!(!apps[2].requires_root);
}

#[test]
fn registry_ids_resolve_or_are_refused() {
    assert_eq!(registry_hive("HKLM").map(|h| h.0), Some(Hive::LocalMachine));
    assert_eq!(registry_hive("HKCU").map(|h| h.0), Some(Hive::CurrentUser));
    assert!(registry_hive("HKCR").is_none());
    let t = registry_target("HKLM32:{X}:1").unwrap();
    assert_eq!(t.label, "HKLM32");
    assert_eq!(t.subkey, "{X}:1");
    assert_eq!(t.path, "SOFTWARE\\WOW6432Node\\Microsoft\\Windows\\CurrentVersion\\Uninstall\\{X}:1");
    assert_eq!(registry_target("nocolon"), Err("refused (bad id): registry:nocolon".to_string()));
    assert_eq!(registry_target("HKXX:{X}"), Err("refused (unknown hive): registry:HKXX:{X}".to_string()));
    assert_eq!(registry_target("HKCU:"), Err("refused (empty subkey): registry:HKCU:".to_string()));
}

#[test]
fn registry_uninstall_runs_the_key_own_command() {
    let t = registry_target("HKCU:{A}").unwrap();
    let c = registry_uninstall("HKCU:{A}", &t, &Some((Some("q.exe /S".into()), Some("u.exe".into())))).unwrap();
    assert_eq!(c.label, "uninstall HKCU:{A}");
    assert_eq!(c.command.program, "cmd");
    assert_eq!(c.command.args, vec!["/C".to_string(), "q.exe /S".to_string()]);
    let c = registry_uninstall("HKCU:{A}", &t, &Some((Some("  ".into()), Some("u.exe".into())))).unwrap();
    assert_eq!(c.command.args[1], "u.exe");
    assert_eq!(
        registry_uninstall("HKCU:{A}", &t, &Some((None, None))),
        Err("registry:HKCU:{A}: no uninstall command".to_string())
    );
    assert_eq!(registry_uninstall("HKCU:{A}", &t, &None), Err("registry:HKCU:{A}: subkey not found".to_string()));
}

#[test]
fn msix_packages_and_their_removal() {
    let pkg = AppxPackage {
        name: Some("Calc".into()),
        package_full_name: Some("Microsoft.Calc_1.0_x64__8wekyb3d8bbwe".into()),
        version: Some("1.0".into()),
        install_location: Some("C:\\Program Files\\WindowsApps\\Calc".into()),
        non_removable: Some(true),
        signature_kind: Some("Store".into()),
    };
    assert_eq!(msix_location(&pkg).as_deref(), Some("C:\\Program Files\\WindowsApps\\Calc"));
    let mut framework = pkg.clone();
    framework.signature_kind = Some("System".into());
    let apps = detect_msix(&vec![pkg.clone(), framework], &vec![99, 1]);
    assert_eq!(apps.len(), 1);
    assert_eq!(apps[0].id, "msix:Microsoft.Calc_1.0_x64__8wekyb3d8bbwe");
    assert_eq!(apps[0].size_bytes, 99);
    assert!(apps[0].protected && !apps[0].requires_root);

    assert!(valid_pfn("Microsoft.Calc_1.0_x64__8wekyb3d8bbwe"));
    assert!(!valid_pfn(""));
    assert!(!valid_pfn("a'; rm"));
    let c = msix_uninstall("Pkg_1").unwrap();
    assert_eq!(c.label, "uninstall msix:Pkg_1");
    assert_eq!(c.command.program, "C:\\Windows\\System32\\WindowsPowerShell\\v1.0\\powershell.exe");
    assert_eq!(c.command.args[3], "Remove-AppxPackage -Package 'Pkg_1'");
    assert_eq!(msix_uninstall("x y"), Err("refused (bad package name): msix:x y".to_string()));
}

const WINGET: &str = "Name               Id                 Version   Available\n--------------------------------------------------------\nMozilla Firefox    Mozilla.Firefox    120.0     121.0\n7-Zip              7zip.7zip          22.01     23.01\n2 upgrades available.\n\nThe following packages have an upgrade available, but require explicit targeting:\nPinned App         Pin.App            1.0       2.0\n";

#[test]
fn winget_table_names() {
    assert_eq!(
        parse_winget_upgrade_names(WINGET),
        vec!["Mozilla Firefox".to_string(), "7-Zip".to_string()]
    );
    assert!(parse_winget_upgrade_names("No installed package found.\n").is_empty());
}

#[test]
fn winget_names_map_to_inventory_ids_ignoring_case() {
    let inv = vec![app("registry:HKLM:{F}", "MOZILLA FIREFOX"), app("registry:HKLM:{Z}", "7-Zip"), app("msix:Y", "Other")];
    let ids = winget_updates(&vec!["Mozilla Firefox".into(), "7-zip".into()], &inv);
    assert_eq!(ids, vec!["registry:HKLM:{F}".to_string(), "registry:HKLM:{Z}".to_string()]);
}

#[test]
fn winget_update_refuses_unknown_and_unsafe_names() {
    let inv = vec![app("registry:HKLM:{F}", "Firefox"), app("registry:HKLM:{B}", "-bad")];
    let c = winget_update_step("registry:HKLM:{F}", &inv).unwrap();
    assert_eq!(c.label, "winget upgrade Firefox");
    assert_eq!(c.command.program, "winget");
    assert_eq!(c.command.args.last().map(String::as_str), Some("Firefox"));
    assert_eq!(c.command.args[5], "--name");
    assert_eq!(winget_update_step("nope", &inv), Err("nope: not found in inventory".to_string()));
    assert_eq!(
        winget_update_step("registry:HKLM:{B}", &inv),
        Err("registry:HKLM:{B}: unsafe package name".to_string())
    );
}

#[test]
fn mac_bundles_and_their_trash_step() {
    let e = mac_app_entry("/Applications/Safari.app", 10).unwrap();
    assert_eq!(e.id, "app:/Applications/Safari.app");
    assert_eq!(e.name, "Safari");
    assert_eq!(e.source, "app");
    assert!(mac_app_entry("/Applications/readme.txt", 1).is_none());
    assert!(mac_app_entry("/Applications/.app", 1).is_none());

    let c = mac_trash_step("/Applications/My \"App\".app", true).unwrap();
    assert_eq!(c.label, "trashed /Applications/My \"App\".app");
    assert_eq!(c.command.program, "osascript");
    assert_eq!(
        c.command.args,
        vec!["-e".to_string(), "tell application \"Finder\" to delete POSIX file \"/Applications/My App.app\"".to_string()]
    );
    assert_eq!(
        mac_trash_step("/etc/passwd", false),
        Err("refused (outside /Applications): /etc/passwd".to_string())
    );
}
