use redumper_gui::options::{low_space_warning, LOW_SPACE_BYTES};
use redumper_gui::options::{
    effective_speed, reselect_drive, sanitize_disc_name, speed_from_text, speed_step_index, speed_step_values,
    DriveSelection,
};

fn drive(p: &str, l: &str) -> (String, String) {
    (p.to_string(), l.to_string())
}

#[test]
fn disc_name_drops_illegal_chars() {
    assert_eq!(sanitize_disc_name("a/b\\c:d*e?f\"g<h>i|j"), "abcdefghij");
    assert_eq!(sanitize_disc_name("Game (USA) [Disc 1]"), "Game (USA) [Disc 1]");
    assert_eq!(sanitize_disc_name(""), "");
}

#[test]
fn disc_name_is_cut_to_a_hundred_chars() {
    let long: String = std::iter::repeat('\u{30B2}').take(150).collect();
    let s = sanitize_disc_name(&long);
    assert_eq!(s.chars().count(), 100);
    let again = sanitize_disc_name(&s);
    assert_eq!(again, s);
    let mixed = format!("{}{}", "/".repeat(60), "x".repeat(120));
    assert_eq!(sanitize_disc_name(&mixed), "x".repeat(100));
}

#[test]
fn speed_text_forms() {
    assert_eq!(speed_from_text("8x"), Some(8));
    assert_eq!(speed_from_text("  16xx "), Some(16));
    assert_eq!(speed_from_text(" 24 x"), Some(24));
    assert_eq!(speed_from_text("MAX"), Some(100));
    assert_eq!(speed_from_text("maX"), Some(100));
    assert_eq!(speed_from_text("MAXx"), Some(100));
    assert_eq!(speed_from_text("max"), None);
    assert_eq!(speed_from_text("100"), Some(72));
    assert_eq!(speed_from_text("-5"), Some(0));
    assert_eq!(speed_from_text("+12"), Some(12));
    assert_eq!(speed_from_text("fast"), None);
    assert_eq!(speed_from_text("8X"), None);
    assert_eq!(speed_from_text(""), None);
    assert_eq!(speed_from_text("99999999999"), None);
}

#[test]
fn speed_steps_and_index() {
    assert_eq!(speed_step_values(), vec![1, 2, 4, 6, 8, 12, 16, 20, 24, 32, 40, 48, 52, 100]);
    assert_eq!(speed_step_index(8), 4);
    assert_eq!(speed_step_index(100), 13);
    assert_eq!(speed_step_index(10), 4);
    assert_eq!(speed_step_index(0), 0);
    assert_eq!(speed_step_index(-3), 0);
    assert_eq!(speed_step_index(72), 12);
}

#[test]
fn effective_speed_values() {
    assert_eq!(effective_speed(0), 16);
    assert_eq!(effective_speed(-1), 16);
    assert_eq!(effective_speed(100), 72);
    assert_eq!(effective_speed(24), 24);
}

#[test]
fn reselect_keeps_the_same_drive() {
    let drives = vec![drive("/dev/sg0", ""), drive("/dev/sr0", "GAME")];
    let prev = drive("/dev/sr0", "GAME");
    assert_eq!(
        reselect_drive(Some(&prev), &drives),
        DriveSelection { selected: 1, prev_selected: 1, clear_name: false }
    );
    let changed = drive("/dev/sr0", "OTHER");
    assert_eq!(
        reselect_drive(Some(&changed), &drives),
        DriveSelection { selected: 1, prev_selected: 1, clear_name: true }
    );
}

#[test]
fn reselect_falls_back_to_the_first() {
    let drives = vec![drive("D:", "")];
    let gone = drive("E:", "X");
    let fresh = DriveSelection { selected: 0, prev_selected: usize::MAX, clear_name: true };
    assert_eq!(reselect_drive(Some(&gone), &drives), fresh);
    assert_eq!(reselect_drive(None, &drives), fresh);
    assert_eq!(reselect_drive(None, &[]), fresh);
}

#[test]
fn low_space_threshold() {
    assert_eq!(low_space_warning(LOW_SPACE_BYTES), None);
    assert_eq!(low_space_warning(LOW_SPACE_BYTES - 1), Some(1023));
    assert_eq!(low_space_warning(500 * 1048576 + 7), Some(500));
    assert_eq!(low_space_warning(0), Some(0));
}
