use redumper_gui::session::{frame_step, FrameActions, RunFlags};

fn flags(was_running: bool, action_pending: bool, dump_just_finished: bool) -> RunFlags {
    RunFlags { was_running, action_pending, dump_just_finished }
}

#[test]
fn frame_dump_starts_clears_pending_press() {
    let (next, actions) = frame_step(flags(false, true, true), true, "game", "game", 0, 0);
    assert_eq!(next, flags(true, false, true));
    assert_eq!(actions, FrameActions { dump_ended: false, selection_changed: false });
}

#[test]
fn frame_pending_press_waits_while_state_holds() {
    let (next, actions) = frame_step(flags(false, true, false), false, "game", "game", 1, 1);
    assert_eq!(next, flags(false, true, false));
    assert_eq!(actions, FrameActions { dump_ended: false, selection_changed: false });
}

#[test]
fn frame_dump_end_marks_just_finished() {
    let (next, actions) = frame_step(flags(true, true, false), false, "game", "game", 0, 0);
    assert_eq!(next, flags(false, false, true));
    assert_eq!(actions, FrameActions { dump_ended: true, selection_changed: false });
}

#[test]
fn frame_new_name_clears_just_finished() {
    let (next, actions) = frame_step(flags(false, false, true), false, "game2", "game", 0, 0);
    assert_eq!(next, flags(false, false, false));
    assert_eq!(actions, FrameActions { dump_ended: false, selection_changed: true });
}

#[test]
fn frame_new_drive_with_dump_end_reports_both() {
    let (next, actions) = frame_step(flags(true, false, false), false, "game", "game", 2, 1);
    assert_eq!(next, flags(false, false, false));
    assert_eq!(actions, FrameActions { dump_ended: true, selection_changed: true });
}

#[test]
fn frame_settles_when_nothing_changes() {
    let (after, _) = frame_step(flags(true, true, false), false, "a", "b", 0, 0);
    let (again, actions) = frame_step(after, false, "a", "a", 0, 0);
    assert_eq!(again, after);
    assert_eq!(actions, FrameActions { dump_ended: false, selection_changed: false });
}
