use redumper_gui::drives::{
    choose_drives, dev_name_kind, dev_scan_drive, diskutil_list_nodes, drive_letters, is_cdrom_type, less_than,
    lsblk_label, sort_drives, sysfs_drive, volume_label_len, DiskInfo,
};

fn strings(v: &[&str]) -> Vec<String> {
    v.iter().map(|s| s.to_string()).collect()
}

fn chars(s: &str) -> Vec<char> {
    s.chars().collect()
}

fn info(optical: bool, ejectable: bool, removable: bool, name: &str) -> DiskInfo {
    DiskInfo { optical, ejectable, removable, volume_name: name.to_string() }
}

#[test]
fn string_order() {
    assert!(less_than(&chars("/dev/sg0"), &chars("/dev/sg1")));
    assert!(less_than(&chars("/dev/sg"), &chars("/dev/sg0")));
    assert!(!less_than(&chars("/dev/sr0"), &chars("/dev/sg0")));
    assert!(!less_than(&chars("abc"), &chars("abc")));
    assert!(less_than(&chars("Z"), &chars("a")));
    assert!(less_than(&chars("z"), &chars("\u{e9}")));
}

#[test]
fn drives_sorted_stably_by_path() {
    let drives = vec![
        ("/dev/sr1".to_string(), "B".to_string()),
        ("/dev/sg0".to_string(), "".to_string()),
        ("/dev/sr0".to_string(), "first".to_string()),
        ("/dev/sr0".to_string(), "second".to_string()),
    ];
    let sorted = sort_drives(&drives);
    let mut expected = drives.clone();
    expected.sort_by(|a, b| a.0.cmp(&b.0));
    assert_eq!(sorted, expected);
    assert_eq!(sorted[1].1, "first");
    assert_eq!(sorted[2].1, "second");
    assert!(sort_drives(&Vec::new()).is_empty());
}

#[test]
fn diskutil_list_candidates() {
    let out = strings(&[
        "/dev/disk0 (internal, physical):",
        "   #:                       TYPE NAME                    SIZE       IDENTIFIER",
        "   0:      GUID_partition_scheme                        *500.3 GB   disk0",
        "/dev/disk1 (synthesized):",
        "/dev/disk2 (external, physical):",
        "/dev/disk3 (disk image, VIRTUAL):",
        "/dev/disk4::",
        "",
    ]);
    assert_eq!(diskutil_list_nodes(&out), strings(&["disk0", "disk2", "disk4"]));
}

#[test]
fn diskutil_info_fields() {
    let out = strings(&[
        "   Device Identifier:         disk2",
        "   Volume Name:               GAME_DISC",
        "   Removable Media:           Removable",
        "   Ejectable:                 yes",
        "   Optical Drive Type:        CD-ROM, DVD-ROM",
    ]);
    let d = DiskInfo::parse(&out);
    assert!(d.optical && d.ejectable && d.removable);
    assert_eq!(d.volume_name, "GAME_DISC");
    let plain = DiskInfo::parse(&strings(&[
        "Volume Name: Not applicable",
        "Removable Media: Fixed",
        "Ejectable: No",
    ]));
    assert!(!plain.optical && !plain.ejectable && !plain.removable);
    assert_eq!(plain.volume_name, "");
}

#[test]
fn optical_drives_come_first() {
    let disks = vec![
        ("disk2".to_string(), info(false, true, true, "USB")),
        ("disk3".to_string(), info(true, false, false, "GAME")),
        ("disk4".to_string(), info(true, true, true, "")),
    ];
    assert_eq!(
        choose_drives(&disks),
        vec![("disk3".to_string(), "GAME".to_string()), ("disk4".to_string(), String::new())]
    );
}

#[test]
fn removable_drives_as_fallback() {
    let disks = vec![
        ("disk2".to_string(), info(false, true, true, "USB")),
        ("disk5".to_string(), info(false, true, false, "HDD")),
        ("disk6".to_string(), info(false, true, true, "")),
    ];
    assert_eq!(
        choose_drives(&disks),
        vec![("disk2".to_string(), "USB".to_string()), ("disk6".to_string(), String::new())]
    );
    assert!(choose_drives(&[]).is_empty());
}

#[test]
fn scsi_type_and_device_names() {
    assert!(is_cdrom_type("5\n"));
    assert!(is_cdrom_type(" 5 "));
    assert!(!is_cdrom_type("0\n"));
    assert!(!is_cdrom_type("15"));
    assert_eq!(dev_name_kind("sg0"), (true, false));
    assert_eq!(dev_name_kind("sr12"), (false, true));
    assert_eq!(dev_name_kind("sr"), (false, true));
    assert_eq!(dev_name_kind("sda"), (false, false));
    assert_eq!(dev_name_kind("sg0a"), (false, false));
    assert_eq!(dev_name_kind("tty0"), (false, false));
}

#[test]
fn windows_drive_letters() {
    assert_eq!(drive_letters(0), Vec::<char>::new());
    assert_eq!(drive_letters(0b1101), vec!['A', 'C', 'D']);
    assert_eq!(drive_letters(1 << 25), vec!['Z']);
    assert_eq!(drive_letters(u32::MAX).len(), 26);
}

#[test]
fn volume_label_lengths() {
    assert_eq!(volume_label_len(b"GAME\0\0\0"), 4);
    assert_eq!(volume_label_len(b"\0GAME"), 0);
    assert_eq!(volume_label_len(b"NOTERMINATOR"), 0);
    assert_eq!(volume_label_len(b""), 0);
}

#[test]
fn sysfs_prefers_generic_device() {
    assert_eq!(sysfs_drive(Some("sg1"), Some("sr0")), Some(("/dev/sg1".to_string(), false)));
    assert_eq!(sysfs_drive(None, Some("sr0")), Some(("/dev/sr0".to_string(), true)));
    assert_eq!(sysfs_drive(None, None), None);
}

#[test]
fn dev_scan_keeps_sg_and_sr() {
    assert_eq!(dev_scan_drive("sg0"), Some(("/dev/sg0".to_string(), false)));
    assert_eq!(dev_scan_drive("sr12"), Some(("/dev/sr12".to_string(), true)));
    assert_eq!(dev_scan_drive("sr"), Some(("/dev/sr".to_string(), true)));
    assert_eq!(dev_scan_drive("sda"), None);
    assert_eq!(dev_scan_drive("sr0a"), None);
}

#[test]
fn lsblk_label_is_trimmed_output() {
    assert_eq!(lsblk_label("  MY_DISC \n"), "MY_DISC");
    assert_eq!(lsblk_label("\n"), "");
    assert_eq!(lsblk_label(""), "");
}
