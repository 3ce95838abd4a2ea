use freeyourdisk::helper::{
    after_step, device_node, elevation_token, helper_mode, install_steps, install_succeeded, is_allowed_package,
    is_valid_token, root_zones, smart_from_nvme, smart_from_smartctl, smart_route, token_from, unavailable,
    run_install, vet_install, HelperMode, JsonScalar, SmartRoute, StepStatus,
};

fn args(v: &[&str]) -> Vec<String> {
    v.iter().map(|s| s.to_string()).collect()
}

#[test]
fn helper_only_touches_tmp_zones() {
    assert_eq!(root_zones().0, args(&["/tmp", "/var/tmp"]));
}

#[test]
fn helper_mode_dispatch() {
    assert_eq!(helper_mode(&args(&["fyd-helper", "smart", "sda", "nvme0n1"])), HelperMode::Smart(args(&["sda", "nvme0n1"])));
    assert_eq!(
        helper_mode(&args(&["fyd-helper", "install-deps", "apt", "smartmontools"])),
        HelperMode::InstallDeps(args(&["apt", "smartmontools"]))
    );
    assert_eq!(helper_mode(&args(&["fyd-helper"])), HelperMode::Plan);
    assert_eq!(helper_mode(&args(&["fyd-helper", "other"])), HelperMode::Plan);
}

#[test]
fn install_allowlist_and_vetting() {
    assert!(is_allowed_package("nvme-cli"));
    assert!(is_allowed_package("smartmontools"));
    assert!(!is_allowed_package("bash"));

    let e = vet_install(&args(&[])).unwrap_err();
    assert_eq!((e.0.success, e.0.message.as_str(), e.1), (false, "no package manager specified", 2));
    let e = vet_install(&args(&["apt"])).unwrap_err();
    assert_eq!((e.0.message.as_str(), e.1), ("no packages specified", 2));
    let e = vet_install(&args(&["apt", "smartmontools", "evil", "worse"])).unwrap_err();
    assert_eq!(e.1, 3);
    assert!(!e.0.success);
    assert_eq!(e.0.message, "package not allowed: evil");
    let e = vet_install(&args(&["brew", "smartmontools"])).unwrap_err();
    assert_eq!((e.0.message.as_str(), e.1), ("unsupported package manager: brew", 3));
    let job = vet_install(&args(&["dnf", "nvme-cli"])).unwrap();
    assert_eq!(job.manager, "dnf");
    assert_eq!(job.packages, args(&["nvme-cli"]));
    assert_eq!(job.steps.len(), 1);
}

#[test]
fn install_commands_per_manager() {
    let pk = args(&["smartmontools"]);
    let apt = install_steps("apt", &pk).unwrap();
    assert_eq!(apt.len(), 2);
    assert_eq!(apt[0].program, "apt-get");
    assert_eq!(apt[0].args, args(&["update", "-qq"]));
    assert_eq!(apt[1].args, args(&["install", "-y", "--no-install-recommends", "--", "smartmontools"]));
    assert_eq!(apt[1].env, vec![("DEBIAN_FRONTEND".to_string(), "noninteractive".to_string())]);
    assert_eq!(install_steps("pacman", &pk).unwrap()[0].args, args(&["-Sy", "--noconfirm", "--needed", "--", "smartmontools"]));
    assert_eq!(install_steps("zypper", &pk).unwrap()[0].args, args(&["--non-interactive", "install", "--", "smartmontools"]));
    assert!(install_steps("brew", &pk).is_none());
}

#[test]
fn install_steps_outcomes() {
    assert!(after_step("apt", 0, &StepStatus::Failure(Some(100))).is_none(), "apt index refresh may fail");
    let (rep, code) = after_step("apt", 1, &StepStatus::Failure(Some(100))).unwrap();
    assert_eq!((rep.message.as_str(), code), ("install failed (exit 100)", 1));
    let (rep, _) = after_step("dnf", 0, &StepStatus::Failure(None)).unwrap();
    assert_eq!(rep.message, "install failed (exit -1)");
    let (rep, _) = after_step("dnf", 0, &StepStatus::NotStarted("not found".into())).unwrap();
    assert_eq!(rep.message, "failed to run dnf: not found");
    assert!(after_step("dnf", 0, &StepStatus::Success).is_none());
    let (ok, code) = install_succeeded(&args(&["nvme-cli", "smartmontools"]));
    assert!(ok.success);
    assert_eq!(ok.message, "Installed: nvme-cli, smartmontools");
    assert_eq!(code, 0);
}

#[test]
fn smart_readings() {
    assert_eq!(smart_route("sda"), SmartRoute::Smartctl);
    assert_eq!(smart_route("nvme0n1"), SmartRoute::NvmeThenSmartctl);
    assert_eq!(smart_route("../etc"), SmartRoute::Refused);
    assert_eq!(smart_route(""), SmartRoute::Refused);
    assert_eq!(device_node("sda"), "/dev/sda");
    let u = unavailable("sdb");
    assert!(!u.available && u.passed.is_none());

    let n = smart_from_nvme("nvme0n1", &JsonScalar::Number(Some(0), Some(0)), &JsonScalar::Number(Some(1200), Some(1200)), &JsonScalar::Number(Some(310), Some(310))).unwrap();
    assert_eq!(n.passed, Some(true));
    assert_eq!(n.power_on_hours, Some(1200));
    assert_eq!(n.temperature_c, Some(37), "Kelvin readings are converted");
    let warn = smart_from_nvme("nvme0n1", &JsonScalar::Number(Some(4), Some(4)), &JsonScalar::Missing, &JsonScalar::Number(Some(45), Some(45))).unwrap();
    assert_eq!(warn.passed, Some(false));
    assert_eq!(warn.temperature_c, Some(45));
    assert!(smart_from_nvme("nvme0n1", &JsonScalar::Missing, &JsonScalar::Text("x".into()), &JsonScalar::Other).is_none());

    let s = smart_from_smartctl("sda", Some(true), None, Some(30));
    assert!(s.available);
    assert!(!smart_from_smartctl("sda", None, None, None).available);
}

#[test]
fn elevation_tokens_are_digits() {
    assert_eq!(token_from(Some(42), 7), "00000000000000000042");
    assert_eq!(token_from(None, 1234), "1234");
    let t = elevation_token(99);
    assert!(is_valid_token(&t));
    assert!(t.chars().all(|c| c.is_ascii_digit()));
    assert!(!is_valid_token("12a"));
    assert!(!is_valid_token(""));
}

#[test]
fn install_run_stops_at_the_first_failure() {
    let job = vet_install(&args(&["apt", "smartmontools"])).unwrap();
    // A failed index refresh is tolerated; the install then succeeds.
    let ran = std::cell::RefCell::new(Vec::new());
    let r = run_install(&job, |i: usize| {
        ran.borrow_mut().push(i);
        if i == 0 { StepStatus::Failure(Some(100)) } else { StepStatus::Success }
    });
    assert_eq!(ran.into_inner(), vec![0, 1]);
    assert_eq!((r.0.success, r.0.message.as_str(), r.1), (true, "Installed: smartmontools", 0));
    // A failed install step ends the run with its exit code.
    let r = run_install(&job, |i: usize| if i == 0 { StepStatus::Success } else { StepStatus::Failure(Some(7)) });
    assert_eq!((r.0.success, r.0.message.as_str(), r.1), (false, "install failed (exit 7)", 1));
    // A step that cannot start stops the run before the next one.
    let ran = std::cell::RefCell::new(Vec::new());
    let job = vet_install(&args(&["dnf", "nvme-cli", "smartmontools"])).unwrap();
    let r = run_install(&job, |i: usize| {
        ran.borrow_mut().push(i);
        StepStatus::NotStarted("No such file or directory".to_string())
    });
    assert_eq!(ran.into_inner(), vec![0]);
    assert_eq!(r.0.message, "failed to run dnf: No such file or directory");
    assert_eq!(job.steps[0].args, args(&["install", "-y", "--", "nvme-cli", "smartmontools"]));
}
