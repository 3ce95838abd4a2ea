use freeyourdisk::filetypes::{category_of_file, classify, scan_types, Bucket, TOP_N};

#[test]
fn classify_known_extensions() {
    assert_eq!(classify("jpg"), "images");
    assert_eq!(classify("mkv"), "videos");
    assert_eq!(classify("flac"), "audio");
    assert_eq!(classify("zst"), "archives");
    assert_eq!(classify("qcow2"), "disk_images");
    assert_eq!(classify("appimage"), "applications");
    assert_eq!(classify("so"), "executables");
    assert_eq!(classify("csv"), "documents");
    assert_eq!(classify("rs"), "other");
    assert_eq!(classify(""), "other");
    assert_eq!(classify("JPG"), "other", "classification expects a lowercased extension");
}

#[test]
fn file_category_lowercases_the_extension() {
    assert_eq!(category_of_file("/home/u/Photo.JPG"), "images");
    assert_eq!(category_of_file("/home/u/archive.tar.GZ"), "archives");
    assert_eq!(category_of_file("/home/u/.bashrc"), "other");
    assert_eq!(category_of_file("/home/u/Makefile"), "other");
    assert_eq!(category_of_file("/home/u/app.AppImage"), "applications");
}

#[test]
fn buckets_total_and_rank_their_files() {
    let files = vec![
        ("/h/a.jpg".to_string(), 10u64),
        ("/h/b.mp4".to_string(), 500u64),
        ("/h/c.png".to_string(), 30u64),
        ("/h/notes".to_string(), 1u64),
    ];
    let out = scan_types(&files);
    let cats: Vec<&str> = out.iter().map(|b| b.category.as_str()).collect();
    assert_eq!(cats, vec!["videos", "images", "other"]);
    let images = &out[1];
    assert_eq!(images.bytes, 40);
    assert_eq!(images.count, 2);
    assert_eq!(images.top[0].path, "/h/c.png");
    assert_eq!(images.top[1].path, "/h/a.jpg");
}

#[test]
fn bucket_keeps_the_largest_files() {
    let mut b = Bucket::new();
    for i in 0..500u64 {
        b.push(format!("/f{i}"), i);
    }
    assert_eq!(b.count, 500);
    assert_eq!(b.bytes, (0..500u64).sum::<u64>());
    assert!(b.top.len() <= TOP_N);
    let t = b.finish("other");
    assert_eq!(t.top.len(), TOP_N);
    assert_eq!(t.top[0].size_bytes, 499);
    assert_eq!(t.top[TOP_N - 1].size_bytes, 460);
    assert_eq!(t.category, "other");
}

#[test]
fn bucket_top_is_the_largest_whatever_the_arrival_order() {
    let mut b = Bucket::new();
    // Sizes arrive in a scrambled order; equal sizes keep their arrival order.
    for i in 0..300u64 {
        let size = (i * 7919) % 101;
        b.push(format!("/g{i}"), size);
    }
    let t = b.finish("other");
    assert_eq!(t.top.len(), TOP_N);
    for w in t.top.windows(2) {
        assert!(w[0].size_bytes >= w[1].size_bytes);
    }
    let mut all: Vec<u64> = (0..300u64).map(|i| (i * 7919) % 101).collect();
    all.sort_unstable_by(|a, b| b.cmp(a));
    let sizes: Vec<u64> = t.top.iter().map(|f| f.size_bytes).collect();
    assert_eq!(sizes, all[..TOP_N].to_vec());
    // The three files of size 100 arrived as i = 32, 133 and 234.
    assert_eq!(t.top[0].path, "/g32");
    assert_eq!(t.top[1].path, "/g133");
    assert_eq!(t.top[2].path, "/g234");
}
