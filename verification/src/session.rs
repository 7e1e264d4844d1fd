//! What the window does, frame by frame, when a dump starts or ends and when the
//! disc name or the selected drive changes.
use vstd::prelude::*;
use crate::text::{chars_of, equals};

verus! {

/// The flags the window keeps between frames about the running dump.
#[derive(Clone, Copy, Debug, PartialEq, Eq)]
pub struct RunFlags {
    /// Whether a dump was running at the previous frame.
    pub was_running: bool,
    /// A button was pressed and the window waits for the dump to start or stop.
    pub action_pending: bool,
    /// The last dump has just ended and nothing was selected since.
    pub dump_just_finished: bool,
}

/// What the window has to do in this frame, in this order.
#[derive(Clone, Copy, Debug, PartialEq, Eq)]
pub struct FrameActions {
    /// The dump ended since the previous frame: clear the hash progress, look at
    /// the dump files again and ask for the user's attention.
    pub dump_ended: bool,
    /// The disc name or the selected drive changed: clear the sector map and the
    /// profile logo and look at the dump files again.
    pub selection_changed: bool,
}

/// The flags and the actions of one frame, as a function of what they were.
pub open spec fn spec_frame_step(flags: RunFlags, is_running: bool, selection_changed: bool) -> (
    RunFlags,
    FrameActions,
) {
    let dump_ended = flags.was_running && !is_running;
    (
        RunFlags {
            was_running: is_running,
            action_pending: flags.action_pending && is_running == flags.was_running,
            dump_just_finished: if selection_changed {
                false
            } else if dump_ended {
                true
            } else {
                flags.dump_just_finished
            },
        },
        FrameActions { dump_ended, selection_changed },
    )
}

/// One frame of the window's bookkeeping: a change of the running flag ends a
/// pending button press, a running dump that stopped is reported as ended and
/// marks the dump as just finished, and a new disc name or drive (compared with
/// those of the previous frame) clears that mark again.
pub fn frame_step(
    flags: RunFlags,
    is_running: bool,
    disc_name: &str,
    prev_disc_name: &str,
    drive: usize,
    prev_drive: usize,
) -> (r: (RunFlags, FrameActions))
    ensures
        r == spec_frame_step(flags, is_running, disc_name@ != prev_disc_name@ || drive != prev_drive),
{
    let a = chars_of(disc_name);
    let b = chars_of(prev_disc_name);
    let selection_changed = !equals(&a, &b) || drive != prev_drive;
    let action_pending = flags.action_pending && is_running == flags.was_running;
    let dump_ended = flags.was_running && !is_running;
    let dump_just_finished = if selection_changed {
        false
    } else if dump_ended {
        true
    } else {
        flags.dump_just_finished
    };
    (
        RunFlags { was_running: is_running, action_pending, dump_just_finished },
        FrameActions { dump_ended, selection_changed },
    )
}

/// Two frames with nothing changed in between report no action on the second one,
/// and keep the flags as the first one left them.
pub proof fn lemma_frame_step_settles(flags: RunFlags, is_running: bool, selection_changed: bool)
    ensures
        ({
            let after = spec_frame_step(flags, is_running, selection_changed).0;
            let again = spec_frame_step(after, is_running, false);
            &&& !again.1.dump_ended
            &&& !again.1.selection_changed
            &&& again.0 == after
        }),
{
}

} // verus!
