use redumper_gui::profile::{DiscProfile, System};
use redumper_gui::progress::{ProgressTracker, SectorStatus};
use redumper_gui::script::ScriptDetected;
use redumper_gui::stream::{DumpState, StreamFault};

fn chars(s: &str) -> Vec<char> {
    s.chars().collect()
}

fn fresh() -> DumpState {
    DumpState::new(ScriptDetected::default())
}

#[test]
fn stream_profile_and_progress() {
    let mut d = fresh();
    let mut t = ProgressTracker::new();
    let text = chars(
        "current profile: CD-ROM\r\n*** DUMP\n- [ 0%] LBA: 0/9, errors: { SCSIs: 0 }\r- [ 50%] LBA: 5/9, errors: { SCSIs: 0 }\r",
    );
    assert_eq!(d.process_chunk(&mut t, &text), Ok(true));
    assert_eq!(d.disc_profile, Some(DiscProfile::CD));
    assert!(t.pending_cr);
    assert_eq!(d.log, chars("current profile: CD-ROM\n*** DUMP\n- [ 50%] LBA: 5/9, errors: { SCSIs: 0 }"));
    assert_eq!(d.finish_stream(&mut t), Ok(true));
    assert!(!t.pending_cr);
    assert_eq!(d.log, chars("current profile: CD-ROM\n*** DUMP\n"));
    assert!(t.dump);
    assert_eq!(d.sectors.total_sectors, 10);
    assert_eq!(&d.sectors.states[..5], &[SectorStatus::Good; 5]);
    assert_eq!(d.sectors.states[5], SectorStatus::Unread);
    assert_eq!(d.sectors.sectors_read, 5);
}

#[test]
fn stream_chunks_in_pieces() {
    let mut d = fresh();
    let mut t = ProgressTracker::new();
    assert_eq!(d.process_chunk(&mut t, &chars("abc")), Ok(false));
    assert_eq!(d.process_chunk(&mut t, &chars("def\n")), Ok(true));
    assert_eq!(d.log, chars("abcdef\n"));
}

#[test]
fn stream_hash_progress() {
    let mut d = fresh();
    let mut t = ProgressTracker::new();
    assert_eq!(d.process_chunk(&mut t, &chars("*** HASH\n")), Ok(true));
    assert_eq!(d.hash_progress, Some(0));
    assert_eq!(d.process_chunk(&mut t, &chars("/ [ 42%] hashing\r")), Ok(false));
    assert_eq!(d.hash_progress, Some(0));
    assert_eq!(d.process_chunk(&mut t, &chars("/ [ 50%] hashing\r")), Ok(true));
    assert_eq!(d.hash_progress, Some(42));
    assert_eq!(d.finish_stream(&mut t), Ok(true));
    assert_eq!(d.hash_progress, Some(50));
    assert_eq!(d.process_chunk(&mut t, &chars("*** END\n")), Ok(true));
    assert_eq!(d.hash_progress, None);
}

#[test]
fn stream_percent_before_bracket_faults() {
    let mut d = fresh();
    let mut t = ProgressTracker::new();
    assert_eq!(d.process_chunk(&mut t, &chars("50% done [x\r")), Ok(false));
    assert_eq!(d.finish_stream(&mut t), Err(StreamFault::PercentBeforeBracket));
    let mut d2 = fresh();
    let mut t2 = ProgressTracker::new();
    assert_eq!(d2.process_chunk(&mut t2, &chars("50% done [x\rmore")), Err(StreamFault::PercentBeforeBracket));
}

#[test]
fn stream_system_from_info_phase() {
    let mut d = fresh();
    let mut t = ProgressTracker::new();
    let text = chars("XBOX [early.iso]:\n*** INFO\nXBOX [game.iso]:\nsystem: Xbox 360 (XGD2)\n");
    assert_eq!(d.process_chunk(&mut t, &text), Ok(true));
    assert!(t.info);
    assert_eq!(d.system, Some(System::XBOX360));
}

#[test]
fn stream_refine_phase_marks_rest_read() {
    let mut d = fresh();
    let mut t = ProgressTracker::new();
    let text = chars("*** DUMP\nLBA: 0/3, errors: { SCSIs: 0 }\rLBA: 2/3, errors: { SCSIs: 0 }\r*** REFINE\n");
    assert_eq!(d.process_chunk(&mut t, &text), Ok(true));
    assert!(t.refine);
    assert_eq!(d.sectors.states, vec![SectorStatus::Good; 4]);
    assert_eq!(d.sectors.sectors_read, 4);
}

#[test]
fn stream_detects_scripts() {
    let mut d = fresh();
    let mut t = ProgressTracker::new();
    assert_eq!(d.process_chunk(&mut t, &chars("ひ日한")), Ok(false));
    assert!(d.script_detected.japanese);
    assert!(d.script_detected.chinese);
    assert!(d.script_detected.korean);
}

#[test]
fn log_cap_trims_to_line() {
    let mut d = fresh();
    let mut log = chars("xxxxx\n");
    log.extend(std::iter::repeat('y').take(63999));
    log.push('\n');
    log.extend(chars("tail"));
    d.log = log;
    d.cap_log();
    assert_eq!(d.log, chars("tail"));
}

#[test]
fn log_cap_without_line_break() {
    let mut d = fresh();
    let mut log = chars("aaaaaaaaaa\n");
    log.extend(std::iter::repeat('b').take(64000));
    d.log = log;
    d.cap_log();
    assert_eq!(d.log.len(), 64000);
    assert!(d.log.iter().all(|c| *c == 'b'));
}

#[test]
fn log_cap_keeps_short_logs() {
    let mut d = fresh();
    d.log = chars("short\n");
    d.cap_log();
    assert_eq!(d.log, chars("short\n"));
}

#[test]
fn log_cap_inside_character_moves_to_next_char() {
    let mut d = fresh();
    let mut log = chars("€");
    log.extend(std::iter::repeat('a').take(63999));
    d.log = log;
    d.cap_log();
    assert_eq!(d.log, vec!['a'; 63999]);
}

#[test]
fn clear_sectors_resets_disc_state() {
    let mut d = fresh();
    let mut t = ProgressTracker::new();
    let text = chars("current profile: DVD-ROM\n*** INFO\nPS2 [x.iso]:\nLBA: 3/9\r");
    assert_eq!(d.process_chunk(&mut t, &text), Ok(true));
    assert_eq!(d.system, Some(System::PS2));
    d.clear_sectors();
    assert_eq!(d.disc_profile, None);
    assert_eq!(d.system, None);
    assert_eq!(d.sectors.total_sectors, 0);
    assert!(d.sectors.states.is_empty());
    assert!(!d.log.is_empty());
}

#[test]
fn chunks_never_undo_findings() {
    let mut d = fresh();
    let mut t = ProgressTracker::new();
    let first = chars("current profile: DVD-ROM\n\u{30B2}\n*** INFO\nPS2 [x.iso]:\n*** DUMP\nLBA: 4/9\r");
    assert_eq!(d.process_chunk(&mut t, &first), Ok(true));
    let second = chars("current profile: CD-ROM\nPS3 [y.iso]:\n*** REFINE\nLBA: 2/5\r*** END\n");
    assert_eq!(d.process_chunk(&mut t, &second), Ok(true));
    assert_eq!(d.disc_profile, Some(DiscProfile::DVD));
    assert_eq!(d.system, Some(System::PS2));
    assert!(d.script_detected.japanese);
    assert_eq!(d.sectors.states.len(), d.sectors.total_sectors);
    assert!(d.sectors.sectors_read <= d.sectors.total_sectors);
}

#[test]
fn crlf_split_across_reads() {
    let mut whole = fresh();
    let mut tw = ProgressTracker::new();
    assert_eq!(whole.process_chunk(&mut tw, &chars("a\r\n")), Ok(true));
    let mut split = fresh();
    let mut ts = ProgressTracker::new();
    assert_eq!(split.process_chunk(&mut ts, &chars("a\r")), Ok(false));
    assert_eq!(split.process_chunk(&mut ts, &chars("\n")), Ok(true));
    assert_eq!(split.log, chars("a\n"));
    assert_eq!(split.log, whole.log);
    assert_eq!(split.finish_stream(&mut ts), Ok(false));
    assert_eq!(split.log, chars("a\n"));
}

#[test]
fn lone_cr_across_reads_is_progress() {
    let mut d = fresh();
    let mut t = ProgressTracker::new();
    assert_eq!(d.process_chunk(&mut t, &chars("LBA: 2/4\r")), Ok(false));
    assert_eq!(d.sectors.total_sectors, 0);
    assert_eq!(d.process_chunk(&mut t, &chars("x")), Ok(true));
    assert_eq!(d.sectors.total_sectors, 5);
    assert_eq!(d.sectors.sectors_read, 2);
    assert_eq!(d.log, chars("x"));
}

#[test]
fn line_sets_profile_and_info_system() {
    let mut d = fresh();
    let mut t = ProgressTracker::new();
    assert_eq!(d.process_chunk(&mut t, &chars("PS2 [a.iso]:\ncurrent pro")), Ok(true));
    assert_eq!(d.system, None);
    assert_eq!(d.process_chunk(&mut t, &chars("file: DVD-ROM\n*** INFO\nPS2 [a.iso]:\n")), Ok(true));
    assert_eq!(d.disc_profile, Some(DiscProfile::DVD));
    assert_eq!(d.system, Some(System::PS2));
}
