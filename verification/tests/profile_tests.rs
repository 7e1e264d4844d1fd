use redumper_gui::profile::{parse_profile, parse_profile_from_lines, refine_profile, DiscProfile, System};

#[test]
fn profile_from_profile_lines() {
    assert_eq!(parse_profile("current profile: CD-ROM"), Some(DiscProfile::CD));
    assert_eq!(parse_profile("current profile: DVD-ROM"), Some(DiscProfile::DVD));
    assert_eq!(parse_profile("current profile: BD-ROM"), Some(DiscProfile::BD));
    assert_eq!(parse_profile("current profile: HD DVD-ROM"), Some(DiscProfile::HDDVD));
    assert_eq!(parse_profile("profile:    DVD-R"), Some(DiscProfile::DVD));
}

#[test]
fn profile_needs_marker_and_known_value() {
    assert_eq!(parse_profile("current profile: unknown"), None);
    assert_eq!(parse_profile("CD-ROM"), None);
    assert_eq!(parse_profile(""), None);
}

#[test]
fn refine_profile_subtypes() {
    assert_eq!(refine_profile("  book type: NINTENDO  ", DiscProfile::DVD), Some(DiscProfile::WII));
    assert_eq!(refine_profile("disc size: 80mm", DiscProfile::WII), Some(DiscProfile::GC));
    assert_eq!(refine_profile("disc size: 80mm", DiscProfile::DVD), None);
    assert_eq!(refine_profile("kreon: XGD detected, version: 2", DiscProfile::DVD), Some(DiscProfile::XBOX360));
    assert_eq!(refine_profile("omnidrive: XGD detected (version: 3)", DiscProfile::DVD), Some(DiscProfile::XBOX360));
    assert_eq!(refine_profile("omnidrive: XGD detected, version: 1", DiscProfile::DVD), Some(DiscProfile::XBOX));
    assert_eq!(refine_profile("something else", DiscProfile::CD), None);
}

#[test]
fn system_from_header_lines() {
    assert_eq!(System::from_line("PS2 [Game.iso]:"), Some(System::PS2));
    assert_eq!(System::from_line("  SecuROM [Game.bin]:  "), Some(System::PC));
    assert_eq!(System::from_line("DVD-VIDEO [a b c]:"), Some(System::DVDVIDEO));
    assert_eq!(System::from_line("HDDVD-VIDEO [x]:"), Some(System::HDDVDVIDEO));
    assert_eq!(System::from_line("PS2 [Game.iso]"), None);
    assert_eq!(System::from_line("FOO [x]:"), None);
    assert_eq!(System::from_line("PS2]:"), None);
}

#[test]
fn system_names() {
    assert_eq!(System::PSX.as_str(), "PSX");
    assert_eq!(System::XBOX360.as_str(), "XBOX360");
    assert_eq!(System::PC.as_str(), "PC");
    assert_eq!(System::AUDIOCD.as_str(), "AUDIO-CD");
    assert_eq!(System::HDDVDVIDEO.as_str(), "HDDVD-VIDEO");
}

#[test]
fn system_name_round_trip() {
    let all = [
        System::PSX, System::PS2, System::PS3, System::PS4, System::PS5, System::MCD, System::DC,
        System::SS, System::XBOX, System::GC, System::WII, System::DVDVIDEO, System::AUDIOCD,
        System::BDVIDEO, System::HDDVDVIDEO,
    ];
    for s in all {
        let line = format!("{} [image.iso]:", s.as_str());
        assert_eq!(System::from_line(&line), Some(s));
    }
}

#[test]
fn system_refine_xbox() {
    assert_eq!(System::XBOX.refine("system: Xbox 360 (XGD2)"), System::XBOX360);
    assert_eq!(System::XBOX.refine("system: Xbox (XGD1)"), System::XBOX);
    assert_eq!(System::XBOX.refine("Xbox 360"), System::XBOX);
    assert_eq!(System::PS2.refine("system: Xbox 360 (XGD2)"), System::PS2);
}

#[test]
fn profile_from_log_lines() {
    let lines: Vec<String> = [
        "*** INFO",
        "current profile: DVD-ROM",
        "kreon: XGD detected, version: 3",
        "*** DUMP",
        "book type: NINTENDO",
        "*** REFINE",
        "disc size: 80mm",
    ]
    .iter()
    .map(|s| s.to_string())
    .collect();
    assert_eq!(parse_profile_from_lines(&lines), Some(DiscProfile::WII));
}

#[test]
fn profile_from_log_lines_stops_at_section() {
    let lines: Vec<String> = ["current profile: DVD-ROM", "*** HASH", "book type: NINTENDO"]
        .iter()
        .map(|s| s.to_string())
        .collect();
    assert_eq!(parse_profile_from_lines(&lines), Some(DiscProfile::DVD));
    let none: Vec<String> = vec!["nothing".to_string()];
    assert_eq!(parse_profile_from_lines(&none), None);
}

#[test]
fn system_names_read_back() {
    let all = [
        System::PSX,
        System::PS2,
        System::PS3,
        System::PS4,
        System::PS5,
        System::MCD,
        System::DC,
        System::SS,
        System::XBOX,
        System::XBOX360,
        System::GC,
        System::WII,
        System::PC,
        System::DVDVIDEO,
        System::AUDIOCD,
        System::BDVIDEO,
        System::HDDVDVIDEO,
    ];
    for s in all {
        let line = format!("{} [x.iso]:", s.as_str());
        if s == System::PC || s == System::XBOX360 {
            assert_eq!(System::from_line(&line), None);
        } else {
            assert_eq!(System::from_line(&line), Some(s));
        }
        for o in all {
            assert_eq!(s.as_str() == o.as_str(), s == o);
        }
    }
    assert_eq!(System::PC.as_str(), "PC");
    assert_eq!(System::XBOX360.as_str(), "XBOX360");
}
