use freeyourdisk::ipc::{ScanResult, ServiceId};
use freeyourdisk::monitor::{watch_step, Reading};
use freeyourdisk::services::Config;
use freeyourdisk::state::{du_total, mount_usage, AppState};
use freeyourdisk::taskmgr::{cpu_sensor, panic_target, relaunch, ProcRow};
use freeyourdisk::smartdeps::Platform;

fn result(service: ServiceId, total: u64) -> ScanResult {
    ScanResult { service, items: vec![], total_bytes: total }
}

#[test]
fn scan_cache_keeps_the_last_result_per_service() {
    let mut st = AppState::new(Config::for_home(Some("/home/u".into())));
    assert_eq!(st.config.home, "/home/u");
    assert!(st.cached(ServiceId::Temp).is_none());
    st.store(ServiceId::Temp, result(ServiceId::Temp, 1));
    st.store(ServiceId::BigFiles, result(ServiceId::BigFiles, 2));
    st.store(ServiceId::Temp, result(ServiceId::Temp, 3));
    assert_eq!(st.cached(ServiceId::Temp).map(|r| r.total_bytes), Some(3));
    assert_eq!(st.cached(ServiceId::BigFiles).map(|r| r.total_bytes), Some(2));
    assert!(st.cached(ServiceId::GitRepos).is_none());
    assert_eq!(st.cache.len(), 2);
}

#[test]
fn mount_usage_saturates() {
    assert_eq!(mount_usage("/".into(), 100, 30).used, 70);
    assert_eq!(mount_usage("/".into(), 10, 30).used, 0);
}

#[test]
fn du_total_reads_the_last_line() {
    assert_eq!(du_total("100\t/usr\n200\t/var\n300\ttotal\n", 1), 300);
    assert_eq!(du_total("5\t/usr\n7\ttotal\n", 1024), 7168);
    assert_eq!(du_total("", 1), 0);
    assert_eq!(du_total("oops\n", 1), 0);
}

fn reading(mount: &str, total: u64, available: u64) -> Reading {
    Reading { mount: mount.into(), total, available }
}

#[test]
fn low_space_alerts_once_until_recovery() {
    let polls = vec![reading("/", 100, 3), reading("/data", 100, 50), reading("/empty", 0, 0)];
    let (alerted, alerts) = watch_step(&vec![], &polls, 5, true);
    assert_eq!(alerted, vec!["/".to_string()]);
    assert_eq!(alerts.len(), 1);
    assert_eq!(alerts[0].mount, "/");

    let (alerted2, alerts2) = watch_step(&alerted, &polls, 5, true);
    assert_eq!(alerted2, vec!["/".to_string()]);
    assert!(alerts2.is_empty(), "still low: no second alert");

    let recovered = vec![reading("/", 100, 5)];
    let (alerted3, alerts3) = watch_step(&alerted2, &recovered, 5, true);
    assert!(alerted3.is_empty() && alerts3.is_empty(), "exactly at the threshold is not low");

    let (_, alerts4) = watch_step(&alerted3, &polls, 5, true);
    assert_eq!(alerts4.len(), 1, "a new episode alerts again");

    let (kept, none) = watch_step(&alerted, &polls, 5, false);
    assert_eq!(kept, alerted);
    assert!(none.is_empty());
}

fn proc_row(pid: u32, name: &str, mem: u64) -> ProcRow {
    ProcRow { pid, name: name.into(), mem_bytes: mem }
}

#[test]
fn panic_kill_targets_the_biggest_unprotected_process() {
    let procs = vec![
        proc_row(1, "systemd", 900),
        proc_row(10, "firefox", 500),
        proc_row(11, "chrome", 700),
        proc_row(12, "me", 800),
        proc_row(13, "gnome-shell-x", 750),
        proc_row(14, "java", 700),
    ];
    assert_eq!(panic_target(Platform::Linux, &procs, 12), Some(2), "chrome wins the tie by order");
    assert_eq!(panic_target(Platform::Linux, &procs[..1].to_vec(), 99), None);
    let mac = vec![proc_row(2, "WindowServer", 10), proc_row(3, "systemd", 5)];
    assert_eq!(panic_target(Platform::MacOs, &mac, 0), Some(1));
}

#[test]
fn cpu_temperature_sensor_choice() {
    let labels = vec![
        ("acpitz".to_string(), true),
        ("coretemp Core 1".to_string(), true),
        ("Package id 0".to_string(), false),
        ("k10temp Tctl".to_string(), true),
    ];
    assert_eq!(cpu_sensor(&labels), Some(3), "core 0/package/tctl wins at once");
    let fallback = vec![("CPU".to_string(), true), ("nvme".to_string(), true), ("coretemp".to_string(), true)];
    assert_eq!(cpu_sensor(&fallback), Some(2), "the last driver reading is the fallback");
    assert_eq!(cpu_sensor(&vec![("gpu".to_string(), true)]), None);
}

#[test]
fn relaunch_uses_the_executable_then_the_command_line() {
    let cmd = vec!["/usr/bin/app".to_string(), "--flag".to_string()];
    let r = relaunch(Some("/opt/app".into()), &cmd, Some("/tmp".into())).unwrap();
    assert_eq!(r.program, "/opt/app");
    assert_eq!(r.args, vec!["--flag".to_string()]);
    assert_eq!(r.cwd.as_deref(), Some("/tmp"));
    let r = relaunch(None, &cmd, None).unwrap();
    assert_eq!(r.program, "/usr/bin/app");
    assert_eq!(relaunch(None, &vec![], None), Err("no executable to relaunch".to_string()));
}
