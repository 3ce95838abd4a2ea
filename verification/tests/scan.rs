use freeyourdisk::scan::{dir_sizes, parent_of, should_skip, top_n, DirCache, HEAVY};
use freeyourdisk::services::RawEntry;

fn file(path: &str, size: u64) -> RawEntry {
    RawEntry { path: path.to_string(), size_bytes: size, last_access: None, is_dir: false }
}

fn chars(s: &str) -> Vec<char> {
    s.chars().collect()
}

#[test]
fn skips_service_owned_directories() {
    for name in ["node_modules", ".cache", "target", ".venv", ".next", ".turbo", "vendor", ".git", ".cargo", ".gradle", "Applications", "applications"] {
        assert!(should_skip(name), "{name}");
    }
    assert!(!should_skip("src"));
    assert!(!should_skip("Node_modules"));
    assert!(!should_skip(""));
}

#[test]
fn parents_of_normalized_paths() {
    assert_eq!(parent_of(&chars("/home/u/a.txt")), Some(chars("/home/u")));
    assert_eq!(parent_of(&chars("/home")), Some(chars("/")));
    assert_eq!(parent_of(&chars("/")), None);
    assert_eq!(parent_of(&chars("")), None);
    assert_eq!(parent_of(&chars("a.txt")), Some(chars("")));
    assert_eq!(parent_of(&chars("a/b")), Some(chars("a")));
}

#[test]
fn dir_sizes_aggregates_bottom_up() {
    let files = vec![("/r/a.txt".to_string(), 100u64), ("/r/sub/b.txt".to_string(), 50u64)];
    let dirs = vec!["/r".to_string(), "/r/sub".to_string(), "/r/empty".to_string()];
    let sizes = dir_sizes("/r", &dirs, &files);
    let get = |p: &str| sizes.iter().find(|(k, _)| k == p).map(|(_, v)| *v);
    assert_eq!(get("/r/sub"), Some(50));
    assert_eq!(get("/r"), Some(150));
    assert_eq!(get("/r/empty"), Some(0), "an empty directory has a total of 0");
    assert_eq!(sizes[0].0, "/r");
    assert_eq!(get("/"), None, "nothing above the root is credited");
}

#[test]
fn dir_sizes_of_an_empty_walk_is_the_root_at_zero() {
    let sizes = dir_sizes("/r", &Vec::new(), &Vec::new());
    assert_eq!(sizes, vec![("/r".to_string(), 0)]);
}

#[test]
fn top_n_returns_largest_sorted() {
    let files = vec![file("/d/small.txt", 10), file("/d/big.txt", 1000), file("/d/mid.txt", 100)];
    let (top, dirs) = top_n("/d", &files, 2);
    assert_eq!(top.len(), 2);
    assert!(top[0].path.ends_with("big.txt"));
    assert!(top[1].path.ends_with("mid.txt"));
    assert!(top[0].size_bytes >= top[1].size_bytes);
    assert!(dirs.is_empty(), "the root itself is never listed");
}

#[test]
fn top_n_ranks_directories_and_keeps_walk_order_on_ties() {
    let files = vec![
        file("/d/x/a", 5),
        file("/d/y/b", 7),
        file("/d/z/c", 5),
        file("/d/y/deep/e", 1),
    ];
    let (top, dirs) = top_n("/d", &files, 10);
    let sizes: Vec<u64> = top.iter().map(|f| f.size_bytes).collect();
    assert_eq!(sizes, vec![7, 5, 5, 1]);
    assert_eq!(top[1].path, "/d/x/a");
    assert_eq!(top[2].path, "/d/z/c");
    assert_eq!(
        dirs,
        vec![
            ("/d/y".to_string(), 8),
            ("/d/x".to_string(), 5),
            ("/d/z".to_string(), 5),
            ("/d/y/deep".to_string(), 1),
        ]
    );
}

#[test]
fn dir_cache_answers_heavy_subtrees_while_mtime_is_unchanged() {
    let mut c = DirCache::new();
    assert_eq!(c.lookup("/big", 10), None);
    c.record("/big", 10, HEAVY);
    assert_eq!(c.lookup("/big", 10), Some(HEAVY));
    assert_eq!(c.lookup("/big", 11), None, "a changed mtime misses");
    c.record("/big", 11, HEAVY + 5);
    assert_eq!(c.lookup("/big", 11), Some(HEAVY + 5));
    assert_eq!(c.lookup("/big", 10), None);
}

#[test]
fn dir_cache_never_keeps_light_subtrees() {
    let mut c = DirCache::new();
    c.record("/small", 1, HEAVY - 1);
    assert_eq!(c.lookup("/small", 1), None);
    assert_eq!(HEAVY, 16 * 1024 * 1024);
}

#[test]
fn dir_cache_entries_are_independent() {
    let mut c = DirCache::new();
    c.record("/a", 1, HEAVY);
    c.record("/b", 2, HEAVY * 2);
    assert_eq!(c.lookup("/a", 1), Some(HEAVY));
    assert_eq!(c.lookup("/b", 2), Some(HEAVY * 2));
    assert_eq!(c.entries.len(), 2);
}
