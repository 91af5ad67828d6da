use evo_grid::control::{next_turn, Controls, Turn};

fn controls(quit: bool, toggle_pause: bool, frame_step: bool) -> Controls {
    Controls { quit, toggle_pause, frame_step }
}

#[test]
fn a_running_simulation_advances_on_quiet_input() {
    assert_eq!(
        next_turn(false, controls(false, false, false)),
        Turn { exit: false, paused: false, advance: true }
    );
}

#[test]
fn a_paused_simulation_waits_on_quiet_input() {
    assert_eq!(
        next_turn(true, controls(false, false, false)),
        Turn { exit: false, paused: true, advance: false }
    );
}

#[test]
fn the_pause_key_pauses_a_running_simulation_at_once() {
    assert_eq!(
        next_turn(false, controls(false, true, false)),
        Turn { exit: false, paused: true, advance: false }
    );
}

#[test]
fn the_pause_key_resumes_a_paused_simulation_at_once() {
    assert_eq!(
        next_turn(true, controls(false, true, false)),
        Turn { exit: false, paused: false, advance: true }
    );
}

#[test]
fn a_frame_step_advances_once_and_leaves_the_simulation_paused() {
    for paused in [false, true] {
        for toggle in [false, true] {
            assert_eq!(
                next_turn(paused, controls(false, toggle, true)),
                Turn { exit: false, paused: true, advance: true }
            );
        }
    }
}

#[test]
fn quitting_wins_over_everything_and_advances_nothing() {
    for paused in [false, true] {
        for toggle in [false, true] {
            for step in [false, true] {
                assert_eq!(
                    next_turn(paused, controls(true, toggle, step)),
                    Turn { exit: true, paused, advance: false }
                );
            }
        }
    }
}
