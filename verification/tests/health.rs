use freeyourdisk::health::{
    disk_info, disk_names, diskstats, disks, field, is_physical_disk, mac_disk_info, physical_identifiers,
    sysfs_number, DiskStat, Volume,
};

#[test]
fn whole_disks_are_physical_partitions_and_virtual_devices_are_not() {
    for name in ["sda", "vdb", "hdc", "nvme0n1", "mmcblk0"] {
        assert!(is_physical_disk(name), "{name}");
    }
    for name in ["sda1", "nvme0n1p1", "mmcblk0p2", "loop0", "ram1", "dm-0", "sr0", "zram0", "fd0", "md127", "xvda", ""] {
        assert!(!is_physical_disk(name), "{name}");
    }
}

const DISKSTATS: &str = "   7       0 loop0 10 0 20 0 0 0 0 0 0 0 0 0 0 0 0\n   8       0 sda 100 5 2048 30 50 7 4096 60 0 70 90 0 0 0 0\n   8       1 sda1 1 0 8 0 0 0 0 0 0 0 0 0 0 0 0\n 259       0 nvme0n1 1 2 3 4 5 6 7 8\n 259       1 nvme1n1 1 2 x 4 5 6 7 8 9 10 11 12 13\n";

#[test]
fn diskstats_keeps_physical_disks_with_enough_fields() {
    let stats = diskstats(DISKSTATS);
    assert_eq!(stats.len(), 2);
    assert_eq!(stats[0], DiskStat { name: "sda".into(), read_sectors: 2048, write_sectors: 4096 });
    assert_eq!(stats[1], DiskStat { name: "nvme1n1".into(), read_sectors: 0, write_sectors: 7 });
}

#[test]
fn disk_info_converts_sectors_to_bytes() {
    let stat = DiskStat { name: "sda".into(), read_sectors: 2, write_sectors: 3 };
    let info = disk_info(
        &stat,
        &Some(" 1000\n".to_string()),
        &Some("1\n".to_string()),
        &Some("  Samsung SSD  \n".to_string()),
    );
    assert_eq!(info.device, "sda");
    assert_eq!(info.size_bytes, 512_000);
    assert!(info.rotational);
    assert_eq!(info.model.as_deref(), Some("Samsung SSD"));
    assert_eq!(info.read_bytes, 1024);
    assert_eq!(info.write_bytes, 1536);
}

#[test]
fn disk_info_defaults_when_sysfs_is_unreadable() {
    let stat = DiskStat { name: "vda".into(), read_sectors: 0, write_sectors: 0 };
    let info = disk_info(&stat, &None, &Some("0".to_string()), &Some("   ".to_string()));
    assert_eq!(info.size_bytes, 0);
    assert!(!info.rotational);
    assert_eq!(info.model, None);
    assert_eq!(sysfs_number(&Some("x".to_string())), None);
    assert_eq!(sysfs_number(&Some("+7".to_string())), Some(7));
}

#[test]
fn volumes_are_listed_once_per_device() {
    let vols = vec![
        Volume { name: "C:".into(), mount: "C:\\".into(), total: 100 },
        Volume { name: "".into(), mount: "D:\\".into(), total: 50 },
        Volume { name: "C:".into(), mount: "E:\\".into(), total: 7 },
    ];
    let d = disks(&vols);
    assert_eq!(d.len(), 2);
    assert_eq!(d[0].device, "C:");
    assert_eq!(d[0].size_bytes, 100);
    assert_eq!(d[1].device, "D:\\");
    assert!(d.iter().all(|x| x.model.is_none() && !x.rotational && x.read_bytes == 0));
    assert_eq!(disk_names(&d), vec!["C:".to_string(), "D:\\".to_string()]);
}

#[test]
fn diskutil_list_yields_physical_identifiers() {
    let text = "/dev/disk0 (internal, physical):\n   #: TYPE NAME\n/dev/disk1 (synthesized):\n/dev/disk2 (external, physical):\n";
    assert_eq!(physical_identifiers(text), vec!["disk0".to_string(), "disk2".to_string()]);
}

#[test]
fn diskutil_info_is_read_field_by_field() {
    let text = "   Device Identifier:        disk0\n   Device / Media Name:      APPLE SSD AP0512Q\n   Disk Size:                500.3 GB (500277790720 Bytes) (exactly 977105060 512-Byte-Units)\n   Solid State:              Yes\n";
    assert_eq!(field(text, "Solid State").as_deref(), Some("Yes"));
    assert_eq!(field(text, "Missing"), None);
    let info = mac_disk_info("disk0", text);
    assert_eq!(info.device, "disk0");
    assert_eq!(info.model.as_deref(), Some("APPLE SSD AP0512Q"));
    assert_eq!(info.size_bytes, 500277790720);
    assert!(!info.rotational);
    let hdd = mac_disk_info("disk3", "Solid State: No\n");
    assert!(hdd.rotational);
    assert_eq!(hdd.size_bytes, 0);
    assert_eq!(hdd.model, None);
}
