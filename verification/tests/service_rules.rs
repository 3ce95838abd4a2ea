use freeyourdisk::helper::{helper_mode, root_zones, HelperMode};
use freeyourdisk::ipc::{ItemKind, ScanItem};
use freeyourdisk::paths::PathStyle;
use freeyourdisk::routing::{path_style, user_zones};
use freeyourdisk::services::{
    big_files_result, dev_cache_item, dev_should_descend, is_app_cache_name, is_cache_dir, keep_by_age, temp_items,
    worktree_is_candidate, worktree_item, RawEntry, TempRoot, SECS_PER_DAY,
};
use freeyourdisk::zones::{deletion_outcomes, delete_permanent, to_trash, validate, LinkTarget, Outcome, TrashError, Zones};

fn raw(path: &str, size: u64, is_dir: bool) -> RawEntry {
    RawEntry { path: path.to_string(), size_bytes: size, last_access: Some(1_700_000_000), is_dir }
}

#[test]
fn surfaces_clean_worktree_but_never_dirty_one() {
    // A clean, existing worktree is surfaced; a dirty one never is.
    assert!(worktree_is_candidate(true, Some(true), Some(false)));
    assert!(!worktree_is_candidate(true, Some(false), Some(false)));
    assert!(!worktree_is_candidate(true, None, None), "unknown status is treated as unsafe");
    // Git's own verdict that a worktree is prunable surfaces it.
    assert!(worktree_is_candidate(false, None, Some(true)));
    let item = worktree_item("/home/u/repo-wt", 4096);
    assert_eq!(item.kind, ItemKind::GitWorktree);
    assert_eq!((item.id.as_str(), item.size_bytes, item.requires_root), ("/home/u/repo-wt", 4096, false));
}

#[test]
fn detects_node_modules_and_rust_target() {
    assert!(is_cache_dir("node_modules", false, false));
    assert!(is_cache_dir("target", true, false));
    assert!(is_cache_dir(".venv", false, false));
    let item = dev_cache_item("/home/u/app/node_modules", 1234, Some(42));
    assert_eq!(item.kind, ItemKind::DevCache);
    assert_eq!((item.size_bytes, item.last_access, item.requires_root), (1234, Some(42), false));
    // A detected cache is never descended into; other directories are, while depth remains.
    assert!(!dev_should_descend("node_modules", 5));
    assert!(dev_should_descend("src", 5));
    assert!(!dev_should_descend("src", 0));
}

#[test]
fn bare_target_without_cargo_toml_is_ignored() {
    assert!(!is_cache_dir("target", false, false));
    assert!(!is_cache_dir("vendor", false, false));
    assert!(is_cache_dir("vendor", false, true));
}

#[test]
fn finds_nested_browser_cache() {
    assert!(is_app_cache_name("Cache"));
    assert!(is_app_cache_name("Code Cache"));
    assert!(is_app_cache_name("GPUCache"));
    assert!(!is_app_cache_name("Preferences"));
}

#[test]
fn scan_filters_by_age_and_marks_user_items() {
    let thirty_days = 30 * SECS_PER_DAY;
    assert!(keep_by_age(Some(7), Some(thirty_days)));
    assert!(!keep_by_age(Some(7), Some(SECS_PER_DAY)));
    assert!(keep_by_age(Some(7), None), "unknown age is kept");
    let root = TempRoot { path: "/home/u/.cache".to_string(), requires_root: false };
    let entries = vec![raw("/home/u/.cache/old.log", 100, false), raw("/home/u/.cache/sub", 0, true)];
    let items = temp_items(&root, &entries);
    assert_eq!(items.len(), 1, "directories are not items");
    assert_eq!(items[0].path, "/home/u/.cache/old.log");
    assert_eq!(items[0].size_bytes, 100);
    assert!(!items[0].requires_root);
}

#[test]
fn recent_files_are_not_candidates() {
    assert!(!keep_by_age(Some(7), Some(0)));
    assert!(!keep_by_age(Some(7), Some(7 * SECS_PER_DAY - 1)));
    assert!(keep_by_age(Some(7), Some(7 * SECS_PER_DAY)));
}

#[test]
fn scan_returns_largest_files_sorted() {
    let files = vec![raw("/h/big.iso", 900, false), raw("/h/mid.zip", 500, false)];
    let dirs = vec![("/h".to_string(), 1400)];
    let r = big_files_result(&files, &dirs);
    assert_eq!(r.total_bytes, 1400);
    let kinds: Vec<ItemKind> = r.items.iter().map(|i| i.kind).collect();
    assert_eq!(kinds, vec![ItemKind::File, ItemKind::File, ItemKind::Dir]);
    assert_eq!(r.items[0].path, "/h/big.iso");
    assert!(r.items.iter().all(|i: &ScanItem| !i.requires_root));
}

#[test]
fn user_item_outside_home_is_refused() {
    let z = user_zones(PathStyle::Unix, "/home/u");
    assert_eq!(
        validate("/tmp/other/keep.txt", &z, Ok("/tmp/other/keep.txt".into()), LinkTarget::NotALink),
        Err(TrashError::OutsideZone("/tmp/other/keep.txt".into()))
    );
}

#[test]
fn refuses_path_outside_root_zones() {
    let z = root_zones();
    assert_eq!(
        validate("/etc/passwd", &z, Ok("/etc/passwd".into()), LinkTarget::NotALink),
        Err(TrashError::OutsideZone("/etc/passwd".into()))
    );
    assert!(validate("/var/tmp/x", &z, Ok("/var/tmp/x".into()), LinkTarget::NotALink).is_ok());
}

#[test]
fn rejects_invalid_input() {
    // Anything but `smart` and `install-deps` reads a plan on standard input.
    let args: Vec<String> = vec!["freeyourdisk-helper".to_string(), "--bogus".to_string()];
    assert_eq!(helper_mode(&args), HelperMode::Plan);
}

#[test]
fn deletes_in_zone_temp_file() {
    let z = root_zones();
    assert_eq!(validate("/tmp/f", &z, Ok("/tmp/f".into()), LinkTarget::NotALink), Ok("/tmp/f".to_string()));
    let r = delete_permanent(&vec!["/tmp/f".to_string()], &vec![Outcome::Deleted(5)]);
    assert_eq!((r.deleted_count, r.freed_bytes, r.errors.len()), (1, 5, 0));
}

#[test]
fn delete_permanent_removes_in_zone_file() {
    let r = delete_permanent(&vec!["/home/u/a".to_string()], &vec![Outcome::Deleted(3)]);
    assert_eq!((r.deleted_count, r.freed_bytes), (1, 3));
}

#[test]
fn to_trash_refuses_out_of_zone_without_touching_it() {
    let refusal = TrashError::OutsideZone("/etc/keep".into());
    let r = to_trash(&vec!["/etc/keep".to_string()], &vec![Outcome::Refused(refusal)]);
    assert_eq!((r.deleted_count, r.freed_bytes), (0, 0));
    assert_eq!(r.errors[0].message, "path is outside the allowed zones: /etc/keep");
}

#[test]
fn only_validated_locations_are_acted_on() {
    let acted = std::cell::RefCell::new(Vec::new());
    let z = Zones(vec!["/home/u".to_string()], PathStyle::Unix);
    let paths = vec![
        "/home/u/a".to_string(),
        "/etc/passwd".to_string(),
        "/home/u/link".to_string(),
        "/home/u/gone".to_string(),
        "/home/u/busy".to_string(),
    ];
    let probe = |p: String| match p.as_str() {
        "/home/u/link" => (Ok(p.clone()), LinkTarget::Resolved("/etc".to_string())),
        "/home/u/gone" => (Err("No such file or directory".to_string()), LinkTarget::NotALink),
        _ => (Ok(p.clone()), LinkTarget::NotALink),
    };
    let act = |loc: String| {
        acted.borrow_mut().push(loc.clone());
        if loc == "/home/u/a" {
            Ok(7)
        } else {
            Err("Device or resource busy".to_string())
        }
    };
    let out = deletion_outcomes(&paths, &z, probe, act);
    assert_eq!(acted.into_inner(), vec!["/home/u/a".to_string(), "/home/u/busy".to_string()]);
    assert_eq!(
        out,
        vec![
            Outcome::Deleted(7),
            Outcome::Refused(TrashError::OutsideZone("/etc/passwd".into())),
            Outcome::Refused(TrashError::SymlinkEscape("/home/u/link".into())),
            Outcome::Refused(TrashError::Io("No such file or directory".into())),
            Outcome::Failed("Device or resource busy".into()),
        ]
    );
}

#[test]
fn windows_user_zone_accepts_paths_under_the_profile() {
    let z = user_zones(path_style(freeyourdisk::smartdeps::Platform::Windows), "C:\\Users\\ana");
    assert_eq!(
        validate("C:\\Users\\ana\\AppData\\x.tmp", &z, Ok("C:\\Users\\ana\\AppData\\x.tmp".into()), LinkTarget::NotALink),
        Ok("C:\\Users\\ana\\AppData\\x.tmp".to_string())
    );
    assert_eq!(
        validate("C:\\Users\\bob\\x", &z, Ok("C:\\Users\\bob\\x".into()), LinkTarget::NotALink),
        Err(TrashError::OutsideZone("C:\\Users\\bob\\x".into()))
    );
    // On Unix a backslash is an ordinary character of a file name.
    let u = user_zones(path_style(freeyourdisk::smartdeps::Platform::Linux), "/home/u");
    assert!(u.contains("/home/u/a\\b"));
    assert!(!u.contains("/home/u\\..\\x"));
}
