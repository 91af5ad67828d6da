//! Pause and frame-step: what the driver of the simulation does with one
//! round of input.
//!
//! The engine itself is never paused. Whoever drives it keeps one flag, and
//! asks here what a round of input means for it.

use vstd::prelude::*;

verus! {

/// What the user asked for in one round of input.
#[derive(Clone, Copy, Debug, PartialEq, Eq)]
pub struct Controls {
    /// Leave the program.
    pub quit: bool,
    /// Flip between paused and running.
    pub toggle_pause: bool,
    /// Advance by exactly one tick and stay paused.
    pub frame_step: bool,
}

/// What the driver does next.
#[derive(Clone, Copy, Debug, PartialEq, Eq)]
pub struct Turn {
    /// Leave the event loop, without a tick.
    pub exit: bool,
    /// Whether the simulation is paused from now on.
    pub paused: bool,
    /// Whether to advance the simulation by one tick now.
    pub advance: bool,
}

/// The turn that follows a round of input. A request to quit wins over
/// everything. A frame step pauses and still advances once; otherwise the
/// simulation advances exactly when it is not paused.
pub open spec fn turn_after(paused: bool, controls: Controls) -> Turn {
    if controls.quit {
        Turn { exit: true, paused, advance: false }
    } else {
        let now_paused = controls.frame_step || (paused != controls.toggle_pause);
        Turn { exit: false, paused: now_paused, advance: !now_paused || controls.frame_step }
    }
}

/// Decides the turn that follows a round of input.
pub fn next_turn(paused: bool, controls: Controls) -> (turn: Turn)
    ensures
        turn == turn_after(paused, controls),
{
    if controls.quit {
        return Turn { exit: true, paused, advance: false };
    }
    let mut now_paused: bool = paused;
    if controls.toggle_pause {
        now_paused = !now_paused;
    }
    if controls.frame_step {
        now_paused = true;
    }
    Turn { exit: false, paused: now_paused, advance: !now_paused || controls.frame_step }
}

} // verus!
