use redumper_gui::progress::{parse_hash_progress, ProgressTracker, SectorMap, SectorStatus};

fn chars(s: &str) -> Vec<char> {
    s.chars().collect()
}

#[test]
fn lba_line_without_errors() {
    assert_eq!(
        ProgressTracker::parse_lba_line("- [  0%] LBA:   1282/207655, errors: { SCSIs: 0, C2s: 0, Q: 0 }"),
        Some((1282, 207655, 0))
    );
}

#[test]
fn lba_line_sums_counted_errors() {
    assert_eq!(
        ProgressTracker::parse_lba_line("/ [ 50%] LBA: 100/200, errors: { SCSI: 2, C2: 3, EDC: 4, Q: 7 }"),
        Some((100, 200, 9))
    );
    assert_eq!(ProgressTracker::parse_lba_line("LBA: -150/1000"), Some((-150, 1000, 0)));
    assert_eq!(ProgressTracker::parse_lba_line("LBA: 5/9, errors: { C2s: x }"), Some((5, 9, 0)));
}

#[test]
fn lba_line_error_sum_wraps() {
    let line = format!("LBA: 1/2, errors: {{ SCSI: {}, C2: 2 }}", usize::MAX);
    assert_eq!(ProgressTracker::parse_lba_line(&line), Some((1, 2, 1)));
}

#[test]
fn lba_line_rejects_malformed() {
    assert_eq!(ProgressTracker::parse_lba_line("no progress here"), None);
    assert_eq!(ProgressTracker::parse_lba_line("LBA: abc/100"), None);
    assert_eq!(ProgressTracker::parse_lba_line("LBA: 100"), None);
    assert_eq!(ProgressTracker::parse_lba_line("LBA: 1/ 2 3"), None);
}

#[test]
fn hash_progress_lines() {
    assert_eq!(parse_hash_progress("/ [ 89%] hashing"), Some(89));
    assert_eq!(parse_hash_progress("- [100%] hashing"), Some(100));
    assert_eq!(parse_hash_progress("no progress"), None);
    assert_eq!(parse_hash_progress("[ x%]"), None);
    assert_eq!(parse_hash_progress("[300%]"), None);
}

#[test]
fn line_helpers() {
    let buf = chars("first\nsecond\npartial");
    assert_eq!(ProgressTracker::last_line(&buf), chars("partial"));
    let mut b = buf.clone();
    ProgressTracker::clear_line(&mut b);
    assert_eq!(b, chars("first\nsecond\n"));
    let mut one = chars("no newline");
    ProgressTracker::clear_line(&mut one);
    assert!(one.is_empty());
    assert_eq!(ProgressTracker::last_completed_line(&chars("a\nb\n")), chars("b"));
    assert_eq!(ProgressTracker::last_completed_line(&chars("only\n")), chars("only"));
}

#[test]
fn tracker_dump_then_refine() {
    let mut map = SectorMap::new();
    let mut t = ProgressTracker::new();
    t.dump = true;
    t.update(&mut map, 0, 9, 0);
    assert_eq!(map.total_sectors, 10);
    assert_eq!(map.states, vec![SectorStatus::Unread; 10]);
    assert_eq!(map.sectors_read, 0);
    t.update(&mut map, 5, 9, 0);
    assert_eq!(&map.states[..5], &[SectorStatus::Good; 5]);
    assert_eq!(map.sectors_read, 5);
    t.update(&mut map, 8, 9, 2);
    assert_eq!(&map.states[5..8], &[SectorStatus::Error; 3]);
    assert_eq!(map.states[8], SectorStatus::Unread);
    assert_eq!(map.sectors_read, 8);
    t.finish_dump_phase(&mut map);
    assert!(t.refine);
    assert_eq!(map.states[8], SectorStatus::Good);
    assert_eq!(map.states[9], SectorStatus::Good);
    assert_eq!(map.sectors_read, 10);
    t.update(&mut map, 6, 9, 3);
    t.update(&mut map, 6, 9, 2);
    assert_eq!(map.states[6], SectorStatus::Good);
    t.update(&mut map, 7, 9, 3);
    assert_eq!(map.states[7], SectorStatus::Error);
}

#[test]
fn tracker_grows_on_overread_and_clamps_negative() {
    let mut map = SectorMap::new();
    let mut t = ProgressTracker::new();
    t.update(&mut map, -150, 3, 0);
    assert_eq!(map.total_sectors, 4);
    t.update(&mut map, 6, 6, 0);
    assert_eq!(map.total_sectors, 7);
    assert_eq!(map.states.len(), 7);
    assert_eq!(map.sectors_read, 6);
    t.update(&mut map, 2, isize::MAX, 0);
    assert_eq!(map.total_sectors, 7);
}

#[test]
fn finish_refine_phase_marks_rest() {
    let mut map = SectorMap::new();
    let t = ProgressTracker::new();
    t.set_total_sectors(&mut map, 3);
    t.finish_refine_phase(&mut map);
    assert_eq!(map.states, vec![SectorStatus::Good; 3]);
    assert_eq!(map.sectors_read, 3);
}

#[test]
fn finish_dump_phase_without_dump_keeps_map() {
    let mut map = SectorMap::new();
    let mut t = ProgressTracker::new();
    t.set_total_sectors(&mut map, 3);
    t.finish_dump_phase(&mut map);
    assert!(t.refine);
    assert_eq!(map.states, vec![SectorStatus::Unread; 3]);
    assert_eq!(map.sectors_read, 0);
}

#[test]
fn dump_phase_never_clears_a_bad_sector() {
    let mut map = SectorMap::new();
    let mut t = ProgressTracker::new();
    t.update(&mut map, 0, 9, 0);
    t.update(&mut map, 4, 9, 1);
    assert_eq!(&map.states[..4], &[SectorStatus::Error; 4]);
    t.update(&mut map, 1, 9, 1);
    assert_eq!(&map.states[..4], &[SectorStatus::Error; 4]);
    t.update(&mut map, 6, 9, 1);
    assert_eq!(&map.states[4..6], &[SectorStatus::Good; 2]);
    t.dump = true;
    t.finish_dump_phase(&mut map);
    assert_eq!(&map.states[..4], &[SectorStatus::Error; 4]);
    assert_eq!(&map.states[4..], &[SectorStatus::Good; 6]);
    assert_eq!(map.sectors_read, 10);
}
