use redumper_gui::dump_files::{Controls, DumpStatus, SectorSource};
use redumper_gui::dump_files::{
    decimal_chars, decode_state_file, parse_sector_count, scan_line, DumpFiles, DumpOptions, LogScan,
    ScanStep, BD_LBA_OFFSET, CD_LBA_OFFSET, DVD_LBA_OFFSET,
};
use redumper_gui::progress::SectorStatus;

fn options() -> DumpOptions {
    DumpOptions {
        disc_name: "game".to_string(),
        retries: 5,
        speed: 8,
        auto_eject: false,
        skeleton: false,
        rings: false,
    }
}

fn strings(v: &[&str]) -> Vec<String> {
    v.iter().map(|s| s.to_string()).collect()
}

fn no_files() -> DumpFiles {
    DumpFiles {
        cue: false,
        iso: false,
        state: false,
        log: false,
        logs_zip: false,
        scram: false,
        sdram: false,
        sbram: false,
        state_len: None,
    }
}

#[test]
fn decimal_digits() {
    assert_eq!(decimal_chars(0), vec!['0']);
    assert_eq!(decimal_chars(7), vec!['7']);
    assert_eq!(decimal_chars(1234), vec!['1', '2', '3', '4']);
    assert_eq!(decimal_chars(u32::MAX).iter().collect::<String>(), "4294967295");
}

#[test]
fn build_args_for_a_new_dump() {
    let o = options();
    assert_eq!(
        o.build_args(Some("/dev/sr0"), false),
        strings(&["disc", "--auto-detect", "--drive=/dev/sr0", "--image-name=game", "--retries=5", "--speed=8"])
    );
}

#[test]
fn build_args_for_refine_with_flags() {
    let mut o = options();
    o.auto_eject = true;
    o.skeleton = true;
    o.rings = true;
    o.speed = -1;
    o.disc_name = String::new();
    assert_eq!(
        o.build_args(None, true),
        strings(&[
            "--continue=refine",
            "--auto-detect",
            "--overwrite",
            "--retries=5",
            "--auto-eject",
            "--skeleton",
            "--rings",
        ])
    );
}

#[test]
fn build_args_speed_bounds() {
    let mut o = options();
    o.speed = 0;
    assert!(o.build_args(None, false).contains(&"--speed=0".to_string()));
    o.speed = 99;
    assert!(o.build_args(None, false).contains(&"--speed=99".to_string()));
    o.speed = 100;
    assert!(!o.build_args(None, false).iter().any(|a| a.starts_with("--speed")));
}

#[test]
fn state_file_offsets() {
    let mut f = no_files();
    assert_eq!(f.state_file_offset(), 0);
    f.sbram = true;
    assert_eq!(f.state_file_offset(), BD_LBA_OFFSET);
    f.sdram = true;
    assert_eq!(f.state_file_offset(), DVD_LBA_OFFSET);
    f.scram = true;
    assert_eq!(f.state_file_offset(), CD_LBA_OFFSET);
}

#[test]
fn dump_exists_and_complete() {
    let mut f = no_files();
    assert!(!f.check_dump_exists("game"));
    f.logs_zip = true;
    assert!(f.check_dump_exists("game"));
    assert!(!f.check_dump_exists(""));
    assert!(f.check_dump_complete("game"));
    f.state = true;
    assert!(!f.check_dump_complete("game"));
    assert!(f.check_dump_exists("game"));
}

#[test]
fn dump_refinable_rules() {
    let mut f = no_files();
    f.state = true;
    f.log = true;
    f.sdram = true;
    f.state_len = Some(DVD_LBA_OFFSET + 10);
    assert!(f.check_dump_refinable("game"));
    assert!(!f.check_dump_refinable(""));
    f.state_len = Some(DVD_LBA_OFFSET);
    assert!(!f.check_dump_refinable("game"));
    f.state_len = None;
    assert!(!f.check_dump_refinable("game"));
    f.state_len = Some(CD_LBA_OFFSET + 1);
    f.scram = true;
    assert!(!f.check_dump_refinable("game"));
    f.sdram = false;
    assert!(f.check_dump_refinable("game"));
    f.iso = true;
    assert!(!f.check_dump_refinable("game"));
    let mut g = no_files();
    g.state = true;
    g.log = true;
    g.state_len = Some(1);
    assert!(!g.check_dump_refinable("game"));
    g.iso = true;
    assert!(g.check_dump_refinable("game"));
    g.log = false;
    assert!(!g.check_dump_refinable("game"));
}

#[test]
fn decode_dvd_state_file() {
    let mut data = vec![0u8; DVD_LBA_OFFSET as usize];
    data.extend_from_slice(&[0, 1, 2, 0]);
    let m = decode_state_file(&data, DVD_LBA_OFFSET, None).unwrap();
    assert_eq!(m.states, vec![SectorStatus::Unread, SectorStatus::Error, SectorStatus::Good, SectorStatus::Unread]);
    assert_eq!(m.sectors_read, 4);
    assert_eq!(m.total_sectors, 4);
    let m = decode_state_file(&data, DVD_LBA_OFFSET, Some(6)).unwrap();
    assert_eq!(m.states.len(), 6);
    assert_eq!(m.states[4], SectorStatus::Unread);
    assert_eq!(m.states[5], SectorStatus::Unread);
    assert_eq!(m.sectors_read, 4);
    assert_eq!(m.total_sectors, 6);
    let m = decode_state_file(&data, DVD_LBA_OFFSET, Some(2)).unwrap();
    assert_eq!(m.total_sectors, 4);
}

#[test]
fn decode_cd_state_file() {
    let mut data = vec![0u8; CD_LBA_OFFSET as usize];
    data.extend(std::iter::repeat(2u8).take(588));
    let mut second = vec![2u8; 588];
    second[100] = 0;
    data.extend_from_slice(&second);
    let mut third = vec![2u8; 588];
    third[3] = 0;
    third[500] = 1;
    data.extend_from_slice(&third);
    data.extend_from_slice(&[2u8; 10]);
    let m = decode_state_file(&data, CD_LBA_OFFSET, None).unwrap();
    assert_eq!(m.sectors_read, 3);
    assert_eq!(m.total_sectors, 3);
    assert_eq!(m.states, vec![SectorStatus::Good, SectorStatus::Unread, SectorStatus::Error]);
}

#[test]
fn decode_empty_state_file() {
    let data = vec![0u8; 16];
    assert!(decode_state_file(&data, 16, None).is_none());
    let short_cd = vec![2u8; CD_LBA_OFFSET as usize + 587];
    assert!(decode_state_file(&short_cd, CD_LBA_OFFSET, Some(10)).is_none());
    let m = decode_state_file(&[2, 2], 0, None).unwrap();
    assert_eq!(m.states, vec![SectorStatus::Good, SectorStatus::Good]);
}

#[test]
fn sector_count_from_dvd_log() {
    let lines = strings(&[
        "redumper v1",
        "*** DUMP (time check: 0s)",
        "  sectors count (READ_CAPACITY): 2298496",
        "  layer break: 1913760",
        "*** END",
    ]);
    assert_eq!(parse_sector_count(&lines, false), Some(2298496));
}

#[test]
fn sector_count_from_xbox_log() {
    let lines = strings(&[
        "*** DUMP",
        "sectors count (READ_CAPACITY): 4246304",
        "sectors count (XBOX): 3820880",
        "*** END",
    ]);
    assert_eq!(parse_sector_count(&lines, false), Some(3820880));
    let bad = strings(&["*** DUMP", "sectors count (XBOX): lots"]);
    assert_eq!(parse_sector_count(&bad, false), None);
}

#[test]
fn sector_count_from_cd_toc() {
    let lines = strings(&[
        "*** DUMP",
        "final TOC:",
        "  track 1 {  data }",
        "    index 01 { LBA:      0, MSF: 00:02:00 }",
        "  track A {  data }",
        "    index 01 { LBA: 185749, MSF: 41:18:49 }",
        "",
        "=== summary",
    ]);
    assert_eq!(parse_sector_count(&lines, false), Some(185749));
}

#[test]
fn sector_count_from_multisession_cd() {
    let lines = strings(&[
        "*** DUMP",
        "  track AA {  audio }",
        "    index 01 { LBA: 10000, MSF: 02:15:25 }",
        "session 2",
        "  track AA {  data }",
        "    index 01 { LBA: 25000, MSF: 05:35:25 }",
        "*** SPLIT",
    ]);
    assert_eq!(parse_sector_count(&lines, false), Some(25000));
}

#[test]
fn sector_count_needs_dump_section_and_clean_read() {
    let before = strings(&["sectors count (READ_CAPACITY): 10", "*** DUMP"]);
    assert_eq!(parse_sector_count(&before, false), None);
    let unfinished = strings(&["*** DUMP", "sectors count (READ_CAPACITY): 10"]);
    assert_eq!(parse_sector_count(&unfinished, false), Some(10));
    assert_eq!(parse_sector_count(&unfinished, true), None);
}

#[test]
fn scan_line_steps() {
    let st = LogScan {
        in_dump: false,
        sector_count: None,
        looking_for_toc_lba: false,
        looking_for_next_session: false,
        have_capacity: false,
    };
    let line: Vec<char> = "  *** DUMP  ".chars().collect();
    assert_eq!(scan_line(st, &line), ScanStep::Next(LogScan { in_dump: true, ..st }));
    let inside = LogScan { in_dump: true, sector_count: Some(3), ..st };
    let end: Vec<char> = "=== x".chars().collect();
    assert_eq!(scan_line(inside, &end), ScanStep::Finish(Some(3)));
}

#[test]
fn status_and_sector_source() {
    let mut f = no_files();
    f.state = true;
    f.log = true;
    f.iso = true;
    f.state_len = Some(100);
    let st = f.status("game");
    assert_eq!(st, DumpStatus { exists: true, refinable: true, complete: false });
    assert_eq!(st.sector_source(), SectorSource::StateFile);
    assert_eq!(
        st.controls(false, true, false),
        Controls { can_start: false, can_abort: false, can_refine: true, can_view: true }
    );
    f.state = false;
    let st = f.status("game");
    assert_eq!(st, DumpStatus { exists: true, refinable: false, complete: true });
    assert_eq!(st.sector_source(), SectorSource::Log);
    let none = no_files().status("game");
    assert_eq!(none.sector_source(), SectorSource::Nothing);
    assert_eq!(
        none.controls(false, true, false),
        Controls { can_start: true, can_abort: false, can_refine: false, can_view: false }
    );
    assert!(!none.controls(false, false, false).can_start);
    assert!(!none.controls(false, true, true).can_start);
    assert!(none.controls(true, true, false).can_abort);
    assert!(!none.controls(true, true, false).can_start);
}
