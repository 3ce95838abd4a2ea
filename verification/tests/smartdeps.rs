use freeyourdisk::ipc::InstallReport;
use freeyourdisk::smartdeps::{extra_tool_dirs, tool_file_name};
use freeyourdisk::smartdeps::{
    brew_report, detect_manager, install_step, missing_packages, status, RunOutcome, InstallStep, Platform,
};

fn strings(v: &[&str]) -> Vec<String> {
    v.iter().map(|s| s.to_string()).collect()
}

#[test]
fn detect_manager_prefers_apt_then_dnf_pacman_zypper() {
    assert_eq!(detect_manager(Platform::Linux, &strings(&["zypper", "dnf"])).as_deref(), Some("dnf"));
    assert_eq!(detect_manager(Platform::Linux, &strings(&["apt-get", "pacman"])).as_deref(), Some("apt"));
    assert_eq!(detect_manager(Platform::Linux, &strings(&["zypper"])).as_deref(), Some("zypper"));
    assert_eq!(detect_manager(Platform::Linux, &strings(&["brew", "apt"])), None);
    assert_eq!(detect_manager(Platform::MacOs, &strings(&["brew"])).as_deref(), Some("brew"));
    assert_eq!(detect_manager(Platform::Windows, &strings(&["winget"])).as_deref(), Some("winget"));
    assert_eq!(detect_manager(Platform::Windows, &strings(&[])), None);
}

#[test]
fn status_maps_missing_tools_to_packages() {
    let s = status(Platform::Linux, &strings(&["nvme0n1", "sda"]), false, false, Some("apt".to_string()));
    assert!(s.nvme_needed && s.sata_needed);
    assert_eq!(s.missing, strings(&["nvme-cli", "smartmontools"]));
    assert!(s.can_install);

    let s = status(Platform::Linux, &strings(&["nvme0n1"]), true, false, None);
    assert!(s.nvme_needed && !s.sata_needed);
    assert!(s.missing.is_empty());
    assert!(!s.can_install);

    let s = status(Platform::Linux, &strings(&["hda"]), false, false, None);
    assert_eq!(s.missing, strings(&["smartmontools"]));
    assert!(!s.can_install, "no manager, no install");
}

#[test]
fn smartmontools_covers_every_disk_on_macos_and_windows() {
    let s = status(Platform::MacOs, &strings(&["disk0"]), false, false, Some("brew".into()));
    assert!(!s.nvme_needed && s.sata_needed);
    assert_eq!(s.missing, strings(&["smartmontools"]));
    assert_eq!(missing_packages(Platform::Windows, &strings(&[]), false, false), Vec::<String>::new());
    assert_eq!(missing_packages(Platform::Windows, &strings(&["C:"]), false, true), Vec::<String>::new());
}

#[test]
fn install_step_decides_the_route() {
    match install_step(Platform::Linux, vec![], Some("apt".into())) {
        InstallStep::Done(r) => assert_eq!(r, InstallReport { success: true, message: "already installed".into() }),
        other => panic!("{other:?}"),
    }
    match install_step(Platform::Linux, strings(&["smartmontools"]), None) {
        InstallStep::Done(r) => {
            assert!(!r.success);
            assert_eq!(r.message, "no supported package manager found");
        },
        other => panic!("{other:?}"),
    }
    assert_eq!(
        install_step(Platform::Linux, strings(&["nvme-cli"]), Some("dnf".into())),
        InstallStep::Helper("dnf".into(), strings(&["nvme-cli"]))
    );
    assert_eq!(
        install_step(Platform::MacOs, strings(&["smartmontools"]), None),
        InstallStep::Brew(strings(&["smartmontools"]))
    );
}

#[test]
fn brew_report_messages() {
    let pk = strings(&["smartmontools", "x"]);
    let ok = brew_report(&pk, &RunOutcome::Succeeded);
    assert!(ok.success);
    assert_eq!(ok.message, "Installed: smartmontools, x");
    let failed = brew_report(&pk, &RunOutcome::Failed("warning\nError: no bottle\n".into()));
    assert!(!failed.success);
    assert_eq!(failed.message, "Error: no bottle");
    let silent = brew_report(&pk, &RunOutcome::Failed(String::new()));
    assert_eq!(silent.message, "brew install failed");
    let not_run = brew_report(&pk, &RunOutcome::NotRun("No such file".into()));
    assert_eq!(not_run.message, "failed to run brew: No such file");
}

#[test]
fn tool_search_directories_and_file_names() {
    assert_eq!(extra_tool_dirs(Platform::Linux)[0], "/usr/bin");
    assert_eq!(extra_tool_dirs(Platform::MacOs).len(), 8);
    assert!(extra_tool_dirs(Platform::MacOs).contains(&"/opt/homebrew/bin"));
    assert_eq!(
        extra_tool_dirs(Platform::Windows),
        vec!["C:\\Program Files\\smartmontools\\bin", "C:\\Program Files (x86)\\smartmontools\\bin"]
    );
    assert_eq!(tool_file_name(Platform::Windows, "smartctl"), "smartctl.exe");
    assert_eq!(tool_file_name(Platform::Linux, "smartctl"), "smartctl");
}
