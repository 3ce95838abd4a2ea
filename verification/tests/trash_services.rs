use freeyourdisk::ipc::{DeletionPlan, Destination, ExecutionReport, ItemError, ItemKind, ScanItem, ScanResult, ServiceId};
use freeyourdisk::paths::PathStyle;
use freeyourdisk::routing::{err_report, execute_plan, route_plan, user_zones};
use freeyourdisk::services::{
    app_cache_item, big_files_result, git_should_descend, is_cache_dir, keep_by_age, make_service, plan_from_items,
    preview, temp_items, worktree_is_candidate, Config, ConfiguredService, RawEntry, TempRoot, TempService,
};
use freeyourdisk::zones::{delete_permanent, execute_root_plan, tally, to_trash, validate, LinkTarget, Outcome, RootDecision, TrashError, Zones};

fn zones(v: &[&str]) -> Zones {
    Zones(v.iter().map(|s| s.to_string()).collect(), PathStyle::Unix)
}

fn item(path: &str, size: u64, root: bool) -> ScanItem {
    ScanItem {
        id: path.to_string(),
        path: path.to_string(),
        size_bytes: size,
        last_access: None,
        kind: ItemKind::File,
        requires_root: root,
    }
}

#[test]
fn validate_accepts_in_zone_file() {
    let z = zones(&["/home/u"]);
    assert_eq!(validate("/home/u/a.txt", &z, Ok("/home/u/a.txt".into()), LinkTarget::NotALink), Ok("/home/u/a.txt".to_string()));
}

#[test]
fn validate_rejects_outside_zone() {
    let z = zones(&["/home/u"]);
    assert_eq!(
        validate("/etc/victim.txt", &z, Ok("/etc/victim.txt".into()), LinkTarget::NotALink),
        Err(TrashError::OutsideZone("/etc/victim.txt".into()))
    );
    assert_eq!(
        validate("/home/user2/x", &z, Ok("/home/user2/x".into()), LinkTarget::NotALink),
        Err(TrashError::OutsideZone("/home/user2/x".into())),
        "zones match whole components only"
    );
}

#[test]
fn validate_rejects_symlink_escaping_zone() {
    let z = zones(&["/home/u"]);
    assert_eq!(
        validate("/home/u/evil", &z, Ok("/home/u/evil".into()), LinkTarget::Resolved("/etc".into())),
        Err(TrashError::SymlinkEscape("/home/u/evil".into()))
    );
    assert_eq!(
        validate("/home/u/ok", &z, Ok("/home/u/ok".into()), LinkTarget::Resolved("/home/u/data".into())),
        Ok("/home/u/ok".to_string())
    );
    assert_eq!(
        validate("/home/u/x", &z, Err("No such file".into()), LinkTarget::NotALink),
        Err(TrashError::Io("No such file".into()))
    );
    assert_eq!(TrashError::SymlinkEscape("/a".into()).message(), "symlink escapes the allowed zones: /a");
    assert_eq!(TrashError::OutsideZone("/a".into()).message(), "path is outside the allowed zones: /a");
    assert_eq!(TrashError::Io("boom".into()).message(), "io error: boom");
}

#[test]
fn delete_permanent_refuses_out_of_zone() {
    let paths = vec!["/home/u/a".to_string(), "/etc/keep.txt".to_string(), "/home/u/b".to_string()];
    let outcomes = vec![
        Outcome::Deleted(10),
        Outcome::Refused(TrashError::OutsideZone("/etc/keep.txt".into())),
        Outcome::Failed("Permission denied".into()),
    ];
    let r = delete_permanent(&paths, &outcomes);
    assert_eq!(r.deleted_count, 1);
    assert_eq!(r.freed_bytes, 10);
    assert_eq!(
        r.errors,
        vec![
            ItemError { path: "/etc/keep.txt".into(), message: "path is outside the allowed zones: /etc/keep.txt".into() },
            ItemError { path: "/home/u/b".into(), message: "Permission denied".into() },
        ]
    );
    assert_eq!(to_trash(&paths, &outcomes), r);
    assert_eq!(tally(&vec![], &vec![]), ExecutionReport { freed_bytes: 0, deleted_count: 0, errors: vec![] });
}

#[test]
fn execute_root_plan_refuses_whole_batch_on_escape() {
    let plan = DeletionPlan {
        items: vec![item("/tmp/junk.tmp", 10, true), item("/etc/keep.txt", 5, true)],
        destination: Destination::Permanent,
        total_bytes: 15,
        requires_root: true,
    };
    let checks = vec![Ok("/tmp/junk.tmp".to_string()), Err(TrashError::OutsideZone("/etc/keep.txt".into()))];
    match execute_root_plan(&plan, &checks) {
        RootDecision::Refuse(rep) => {
            assert_eq!(rep.deleted_count, 0);
            assert_eq!(rep.freed_bytes, 0);
            assert_eq!(rep.errors.len(), 1);
            assert_eq!(rep.errors[0].path, "/etc/keep.txt");
        },
        other => panic!("{other:?}"),
    }
}

#[test]
fn execute_root_plan_deletes_when_all_in_zone() {
    let plan = DeletionPlan {
        items: vec![item("/tmp/junk.tmp", 50, true)],
        destination: Destination::Trash,
        total_bytes: 50,
        requires_root: true,
    };
    assert_eq!(
        execute_root_plan(&plan, &vec![Ok("/tmp/junk.tmp".to_string())]),
        RootDecision::Accept(Destination::Trash, vec!["/tmp/junk.tmp".to_string()])
    );
}

#[test]
fn routes_user_to_disk_and_root_to_helper() {
    let plan = DeletionPlan {
        items: vec![item("/home/u/cache/junk.bin", 20, false), item("/tmp/whatever", 25, true)],
        destination: Destination::Trash,
        total_bytes: 45,
        requires_root: true,
    };
    let routing = route_plan(&plan);
    assert_eq!(routing.user_paths, vec!["/home/u/cache/junk.bin".to_string()]);
    assert_eq!(routing.user_destination, Destination::Trash);
    let rp = routing.root_plan.unwrap();
    assert_eq!(rp.items.len(), 1);
    assert_eq!(rp.items[0].path, "/tmp/whatever");
    assert_eq!(rp.destination, Destination::Permanent);
    assert_eq!(rp.total_bytes, 25);
    assert!(rp.requires_root);
    assert_eq!(user_zones(PathStyle::Unix, "/home/u").0, vec!["/home/u".to_string()]);

    let user = ExecutionReport { freed_bytes: 20, deleted_count: 1, errors: vec![] };
    let helper = ExecutionReport { freed_bytes: 25, deleted_count: 1, errors: vec![] };
    let r = execute_plan(user, Some(helper));
    assert_eq!((r.freed_bytes, r.deleted_count), (45, 2));
    let failed = err_report(&plan, "helper unavailable");
    assert_eq!(failed.errors.len(), 2);
    assert_eq!(failed.errors[1].message, "helper unavailable");
}

#[test]
fn temp_scan_keeps_files_and_marks_ownership() {
    let entries = vec![
        RawEntry { path: "/tmp/a".into(), size_bytes: 3, last_access: Some(7), is_dir: false },
        RawEntry { path: "/tmp/d".into(), size_bytes: 0, last_access: None, is_dir: true },
    ];
    let items = temp_items(&TempRoot { path: "/tmp".into(), requires_root: true }, &entries);
    assert_eq!(items.len(), 1);
    assert_eq!(items[0].id, "/tmp/a");
    assert!(items[0].requires_root);
    assert_eq!(items[0].last_access, Some(7));
    assert!(keep_by_age(Some(7), Some(7 * 86_400)));
    assert!(!keep_by_age(Some(7), Some(7 * 86_400 - 1)));
    assert!(keep_by_age(Some(7), None));
    assert!(keep_by_age(None, Some(0)));
    let t = TempService::with_defaults("/home/u", 7);
    assert_eq!(t.roots.len(), 3);
    assert_eq!(t.roots[2].path, "/home/u/.cache");
}

#[test]
fn preview_reflects_selection_totals() {
    let scan = ScanResult {
        service: ServiceId::Temp,
        items: vec![item("/home/u/.cache/a.log", 42, false), item("/tmp/b", 8, true)],
        total_bytes: 50,
    };
    let plan = preview(&scan, &vec!["/home/u/.cache/a.log".to_string()]);
    assert_eq!(plan.items.len(), 1);
    assert_eq!(plan.total_bytes, 42);
    assert!(!plan.requires_root);
    assert_eq!(plan.destination, Destination::Trash);
    let all = plan_from_items(scan.items.clone());
    assert!(all.requires_root);
    assert_eq!(all.total_bytes, 50);
}

#[test]
fn services_and_their_rules() {
    assert!(worktree_is_candidate(true, Some(true), None));
    assert!(!worktree_is_candidate(true, Some(false), None), "a dirty worktree is never surfaced");
    assert!(!worktree_is_candidate(true, None, Some(false)));
    assert!(worktree_is_candidate(false, None, Some(true)));
    assert!(is_cache_dir("node_modules", false, false));
    assert!(is_cache_dir("target", true, false));
    assert!(!is_cache_dir("target", false, false), "a target dir without Cargo.toml is not a cache");
    assert!(!git_should_descend(Some("node_modules")));
    assert!(git_should_descend(None));
    assert!(app_cache_item("/home/u/.config/x/Cache", 0).is_none());
    assert_eq!(app_cache_item("/home/u/.config/x/Cache", 4096).unwrap().kind, ItemKind::Dir);
    let files = vec![RawEntry { path: "/h/big".into(), size_bytes: 9, last_access: None, is_dir: false }];
    let r = big_files_result(&files, &vec![("/h".to_string(), 9)]);
    assert_eq!(r.total_bytes, 9);
    assert_eq!(r.items.len(), 2);
    assert_eq!(r.items[1].kind, ItemKind::Dir);
    let cfg = Config::for_home(None);
    assert_eq!(cfg.home, "/");
    assert!(matches!(make_service(ServiceId::Temp, &cfg), ConfiguredService::Temp(_)));
}
