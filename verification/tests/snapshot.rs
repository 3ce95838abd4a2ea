use freeyourdisk::ipc::{ItemKind, ScanItem, ServiceId};
use freeyourdisk::snapshot::{diff_and_record, manifest, manifest_file_name, service_key};

fn item(id: &str, size: u64) -> ScanItem {
    ScanItem {
        id: id.to_string(),
        path: id.to_string(),
        size_bytes: size,
        last_access: None,
        kind: ItemKind::File,
        requires_root: false,
    }
}

#[test]
fn service_keys_and_file_names() {
    assert_eq!(service_key(ServiceId::Temp), "temp");
    assert_eq!(service_key(ServiceId::BigFiles), "big_files");
    assert_eq!(service_key(ServiceId::GitRepos), "git_repos");
    assert_eq!(service_key(ServiceId::DevCache), "dev_cache");
    assert_eq!(service_key(ServiceId::AppCache), "app_cache");
    assert_eq!(manifest_file_name(ServiceId::DevCache), "snapshot-dev_cache.json");
}

#[test]
fn first_scan_badges_nothing() {
    let items = vec![item("/a", 1), item("/b", 2)];
    let (first, new_ids, m) = diff_and_record(&None, &items);
    assert!(first);
    assert!(new_ids.is_empty());
    assert_eq!(m, vec![("/a".to_string(), 1), ("/b".to_string(), 2)]);
}

#[test]
fn new_and_resized_items_are_reported() {
    let previous = manifest(&vec![item("/a", 1), item("/b", 2)]);
    let now = vec![item("/a", 1), item("/b", 3), item("/c", 4)];
    let (first, new_ids, m) = diff_and_record(&Some(previous), &now);
    assert!(!first);
    assert_eq!(new_ids, vec!["/b".to_string(), "/c".to_string()]);
    assert_eq!(m.len(), 3);
}

#[test]
fn rescan_without_change_reports_nothing_new() {
    let items = vec![item("/a", 10), item("/b", 20)];
    let (_, _, m) = diff_and_record(&None, &items);
    let (first, new_ids, _) = diff_and_record(&Some(m), &items);
    assert!(!first);
    assert!(new_ids.is_empty());
}

#[test]
fn manifest_keeps_the_last_size_of_a_repeated_id() {
    let m = manifest(&vec![item("/a", 1), item("/a", 5)]);
    assert_eq!(m, vec![("/a".to_string(), 5)]);
}
