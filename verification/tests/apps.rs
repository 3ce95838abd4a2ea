use freeyourdisk::actions::{uninstall, update, ActionStep};
use freeyourdisk::apps::{
    app_folder_entry, appimage_bases, appimage_file_entry, detect_apt, folder_base_counts, is_safe_value, list,
    parse_flatpak_line, parse_snap_line, record, snap_size, split_ids, uninstall_plan, update_plan, updates,
    validate_against_inventory, AppActionReport, AppEntry, APT_TOP,
};
use freeyourdisk::apps::{appimage_removal, record_removal};
use freeyourdisk::helper::StepStatus;
use freeyourdisk::smartdeps::Platform;

fn chars(s: &str) -> Vec<char> {
    s.chars().collect()
}

fn strings(v: &[&str]) -> Vec<String> {
    v.iter().map(|s| s.to_string()).collect()
}

fn entry(id: &str, size: u64, protected: bool) -> AppEntry {
    AppEntry {
        id: id.into(),
        name: id.into(),
        source: "apt".into(),
        version: None,
        size_bytes: size,
        requires_root: true,
        protected,
    }
}

#[test]
fn dpkg_listing_keeps_installed_packages_largest_first() {
    let out = "vim\t2:9.0\t3000\tinstall ok installed\tno\toptional\nlibc6\t2.36\t12000\tinstall ok installed\tyes\trequired\ngone\t1.0\t5\tdeinstall ok config-files\nnever\t1.0\t7\tunknown ok not-installed\tno\toptional\nhalf\t1.0\t9\tinstall reinstreq half-installed\tno\toptional\nshort\t1\n";
    let apps = detect_apt(out);
    assert_eq!(apps.len(), 2);
    assert_eq!(apps[0].id, "apt:libc6");
    assert_eq!(apps[0].size_bytes, 12000 * 1024);
    assert!(apps[0].protected, "essential packages cannot be removed");
    assert_eq!(apps[1].id, "apt:vim");
    assert_eq!(apps[1].version.as_deref(), Some("2:9.0"));
    assert!(!apps[1].protected);
    assert!(apps.iter().all(|a| a.requires_root && a.source == "apt"));
    assert_eq!(APT_TOP, 80);
}

#[test]
fn flatpak_and_snap_rows() {
    let (e, size) = parse_flatpak_line(&chars("org.gimp.GIMP\tGIMP\t2.10\t1.2 GB\tsystem")).unwrap();
    assert_eq!(e.id, "flatpak:org.gimp.GIMP");
    assert_eq!(e.name, "GIMP");
    assert_eq!(e.version.as_deref(), Some("2.10"));
    assert!(e.requires_root);
    assert_eq!(size, "1.2 GB");
    let (e, _) = parse_flatpak_line(&chars("org.x.Y\t\t\t1 MB\tuser")).unwrap();
    assert_eq!(e.name, "org.x.Y");
    assert!(e.version.is_none() && !e.requires_root);
    assert!(parse_flatpak_line(&chars("a\tb\tc")).is_none());

    let s = parse_snap_line(&chars("core22   20240111  1122  latest/stable  canonical✓  base")).unwrap();
    assert_eq!(s.id, "snap:core22");
    assert!(s.protected);
    let s = parse_snap_line(&chars("firefox 121.0 3504 latest/stable mozilla✓ -")).unwrap();
    assert!(!s.protected);
    assert!(parse_snap_line(&chars("lonely")).is_none());

    let files = vec![
        ("firefox_3503.snap".to_string(), Some(10u64)),
        ("firefox_3504.snap".to_string(), Some(30u64)),
        ("firefoxx_1.snap".to_string(), Some(99u64)),
        ("firefox_3505.snap".to_string(), None),
    ];
    assert_eq!(snap_size("firefox", &files), 30);
    assert_eq!(snap_size("gimp", &files), 0);
}

#[test]
fn appimages_and_app_folders() {
    assert_eq!(
        appimage_bases("/home/u"),
        strings(&[
            "/home/u/Applications",
            "/home/u/applications",
            "/home/u/.local/bin",
            "/home/u/bin",
            "/home/u/Downloads",
            "/home/u/Téléchargements",
            "/opt",
        ])
    );
    let e = appimage_file_entry("/home/u/Applications/Tool.AppImage", "Tool.AppImage", 5, "/home/u").unwrap();
    assert_eq!(e.id, "appimage:/home/u/Applications/Tool.AppImage");
    assert_eq!(e.name, "Tool");
    assert!(!e.requires_root);
    let e = appimage_file_entry("/opt/X.APPIMAGE", "X.APPIMAGE", 5, "/home/u").unwrap();
    assert!(e.requires_root, "outside the home needs root");
    assert!(appimage_file_entry("/home/u/bin/tool", "tool", 5, "/home/u").is_none());
    assert!(folder_base_counts("/home/u/Applications"));
    assert!(folder_base_counts("/opt"));
    assert!(!folder_base_counts("/home/u/bin"));
    assert!(app_folder_entry("/opt/empty", "empty", 0, "/home/u").is_none());
    assert!(app_folder_entry("/opt/app", "app", 9, "/home/u").unwrap().requires_root);
}

#[test]
fn inventory_is_largest_first_and_stable() {
    let out = list(vec![entry("a", 1, false), entry("b", 5, false), entry("c", 1, false)]);
    let ids: Vec<&str> = out.iter().map(|e| e.id.as_str()).collect();
    assert_eq!(ids, vec!["b", "a", "c"]);
}

#[test]
fn updates_collects_every_source() {
    let apt = "Listing...\nvim/stable 2:9.1 amd64 [upgradable from: 2:9.0]\nlibc6/stable 2.37 amd64\n";
    let flatpak = "org.gimp.GIMP\n\n  org.x.Y  \n";
    let snap = "Name Version Rev Size Publisher Notes\nfirefox 122 3600 80MB mozilla -\n";
    let inv = vec![
        entry("apt:vim", 1, false),
        entry("flatpak:org.gimp.GIMP", 1, false),
        entry("flatpak:org.x.Y", 1, false),
        entry("snap:firefox", 1, false),
    ];
    assert_eq!(
        updates(Some(apt.into()), Some(flatpak.into()), Some(snap.into()), &inv),
        strings(&["apt:vim", "flatpak:org.gimp.GIMP", "flatpak:org.x.Y", "snap:firefox"])
    );
    assert!(updates(None, None, None, &inv).is_empty());
    // Only applications of the inventory are reported.
    let small = vec![entry("snap:firefox", 1, false), entry("apt:curl", 1, false)];
    assert_eq!(
        updates(Some(apt.into()), Some(flatpak.into()), Some(snap.into()), &small),
        strings(&["snap:firefox"])
    );
}

#[test]
fn requested_ids_are_vetted_against_the_inventory() {
    let inv = vec![entry("apt:vim", 1, false), entry("apt:libc6", 1, true)];
    let mut report = AppActionReport::new();
    let known = validate_against_inventory(&strings(&["apt:vim", "apt:libc6", "apt:evil"]), &mut report, true, &inv);
    assert_eq!(known, strings(&["apt:vim"]));
    assert_eq!(
        report.errors,
        strings(&["refused (protected system app): apt:libc6", "refused (unknown app): apt:evil"])
    );
    let mut report = AppActionReport::new();
    let known = validate_against_inventory(&strings(&["apt:libc6"]), &mut report, false, &inv);
    assert_eq!(known, strings(&["apt:libc6"]), "updates may touch protected packages");
    assert!(report.errors.is_empty());
}

#[test]
fn option_like_values_never_reach_a_command_line() {
    assert!(is_safe_value("vim"));
    assert!(!is_safe_value("-rf"));
    assert!(!is_safe_value(""));
    assert_eq!(split_ids(&strings(&["apt:a", "snap:b", "apt:c"]), "apt:"), strings(&["a", "c"]));
}

#[test]
fn uninstall_plan_groups_commands_by_source() {
    let known = strings(&["apt:vim", "snap:firefox", "apt:-x", "flatpak:org.gimp.GIMP", "snap:vlc", "appimage:/opt/Tool"]);
    let plan = uninstall_plan(&known);
    assert_eq!(plan.commands.len(), 4);
    assert_eq!(plan.commands[0].label, "apt remove (1)");
    assert_eq!(plan.commands[0].command.program, "pkexec");
    assert_eq!(plan.commands[0].command.args, strings(&["apt-get", "remove", "-y", "--", "vim"]));
    assert_eq!(plan.commands[1].label, "snap remove firefox");
    assert_eq!(plan.commands[1].command.args, strings(&["snap", "remove", "firefox"]));
    assert_eq!(plan.commands[2].label, "snap remove vlc");
    assert_eq!(plan.commands[3].label, "flatpak uninstall (1)");
    assert_eq!(plan.commands[3].command.program, "flatpak");
    assert_eq!(plan.commands[3].command.args, strings(&["uninstall", "-y", "--", "org.gimp.GIMP"]));
    assert_eq!(plan.appimage_paths, strings(&["/opt/Tool"]));
}

#[test]
fn update_plan_batches_each_source() {
    let known = strings(&["snap:a", "apt:x", "snap:b", "apt:y"]);
    let cmds = update_plan(&known);
    assert_eq!(cmds.len(), 2);
    assert_eq!(cmds[0].label, "apt upgrade (2)");
    assert_eq!(cmds[0].command.args, strings(&["apt-get", "install", "--only-upgrade", "-y", "--", "x", "y"]));
    assert_eq!(cmds[1].label, "snap refresh (2)");
    assert_eq!(cmds[1].command.args, strings(&["snap", "refresh", "a", "b"]));
    assert!(update_plan(&strings(&["appimage:/x"])).is_empty());
}

#[test]
fn outcomes_are_recorded_under_their_label() {
    let mut r = AppActionReport::new();
    record(&mut r, "apt remove (1)", &StepStatus::Success);
    record(&mut r, "snap remove x", &StepStatus::Failure(Some(1)));
    record(&mut r, "snap remove y", &StepStatus::Failure(None));
    record(&mut r, "flatpak uninstall (2)", &StepStatus::NotStarted("No such file".into()));
    assert_eq!(r.succeeded, strings(&["apt remove (1)"]));
    assert_eq!(
        r.errors,
        strings(&["snap remove x: exit 1", "snap remove y: exit -1", "flatpak uninstall (2): No such file"])
    );
}

#[test]
fn batch_actions_per_platform() {
    let inv = vec![entry("apt:vim", 1, false), entry("appimage:/opt/T", 1, false), entry("app:/Applications/S.app", 1, false)];
    let work = uninstall(Platform::Linux, &strings(&["apt:vim", "appimage:/opt/T", "apt:nope"]), &inv);
    assert_eq!(work.report.errors, strings(&["refused (unknown app): apt:nope"]));
    assert_eq!(work.steps.len(), 2);
    match &work.steps[0] {
        ActionStep::Run(c) => assert_eq!(c.label, "apt remove (1)"),
        other => panic!("{other:?}"),
    }
    assert_eq!(work.steps[1], ActionStep::RemoveAppImage("/opt/T".into()));

    let mac = uninstall(Platform::MacOs, &strings(&["app:/Applications/S.app"]), &inv);
    assert_eq!(mac.steps, vec![ActionStep::TrashBundle("/Applications/S.app".into())]);

    let none = update(Platform::MacOs, &strings(&["apt:vim"]), &inv);
    assert!(none.steps.is_empty() && none.report.errors.is_empty() && none.report.succeeded.is_empty());

    let up = update(Platform::Linux, &strings(&["apt:vim", "apt:gone"]), &inv);
    assert_eq!(up.report.errors, strings(&["refused (unknown app): apt:gone"]));
    assert_eq!(up.steps.len(), 1);

    let win_inv = vec![AppEntry { id: "registry:HKLM:{A}".into(), name: "Tool".into(), source: "registry".into(), version: None, size_bytes: 1, requires_root: true, protected: false }];
    let win = update(Platform::Windows, &strings(&["registry:HKLM:{A}"]), &win_inv);
    match &win.steps[0] {
        ActionStep::Run(c) => assert_eq!(c.label, "winget upgrade Tool"),
        other => panic!("{other:?}"),
    }
    let wu = uninstall(Platform::Windows, &strings(&["registry:HKLM:{A}"]), &win_inv);
    match &wu.steps[0] {
        ActionStep::RegistryUninstall(rest, t) => {
            assert_eq!(rest, "HKLM:{A}");
            assert_eq!(t.subkey, "{A}");
        },
        other => panic!("{other:?}"),
    }
}

#[test]
fn appimage_removal_needs_an_allowed_base() {
    assert_eq!(appimage_removal("/home/u/Applications/x.AppImage", true), Ok(()));
    assert_eq!(
        appimage_removal("/etc/evil.AppImage", false),
        Err("refused (outside allowed dirs): /etc/evil.AppImage".to_string())
    );
    let mut report = AppActionReport::new();
    record_removal(&mut report, "/opt/tool", &Ok(()));
    record_removal(&mut report, "/opt/other", &Err("Permission denied".to_string()));
    assert_eq!(report.succeeded, vec!["removed /opt/tool".to_string()]);
    assert_eq!(report.errors, vec!["/opt/other: Permission denied".to_string()]);
}
