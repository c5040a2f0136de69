use comp76fx_core::editor::widgets::{knob_step, KnobAction, KnobInput};
use KnobAction::{Begin, Capture, Drag, End, ReleaseCapture, SetDefault, Step};

/// Runs `inputs` through a knob starting at rest: whether it ends up
/// dragging, and everything it did.
fn run(inputs: &[KnobInput]) -> (bool, Vec<KnobAction>) {
    let mut dragging = false;
    let mut all = Vec::new();
    for input in inputs {
        let (next, actions) = knob_step(dragging, *input);
        dragging = next;
        all.extend(actions);
    }
    (dragging, all)
}

#[test]
fn a_drag_opens_and_closes_one_gesture() {
    let (dragging, actions) = run(&[
        KnobInput::Press { command: false },
        KnobInput::Move { left_down: true },
        KnobInput::Move { left_down: true },
        KnobInput::Release,
    ]);
    assert!(!dragging);
    assert_eq!(actions, vec![Capture, Begin, Drag, Drag, ReleaseCapture, End]);
}

#[test]
fn a_fresh_press_closes_a_stale_drag_first() {
    assert_eq!(
        knob_step(true, KnobInput::Press { command: false }),
        (true, vec![ReleaseCapture, End, Capture, Begin])
    );
    assert_eq!(
        knob_step(false, KnobInput::Press { command: false }),
        (true, vec![Capture, Begin])
    );
}

#[test]
fn a_command_press_ends_the_drag_and_restores_the_default() {
    assert_eq!(
        knob_step(true, KnobInput::Press { command: true }),
        (false, vec![ReleaseCapture, End, Begin, SetDefault, End])
    );
    assert_eq!(knob_step(false, KnobInput::ResetClick), (false, vec![Begin, SetDefault, End]));
}

#[test]
fn the_button_coming_up_is_not_the_only_way_out() {
    assert_eq!(knob_step(true, KnobInput::Lost), (false, vec![ReleaseCapture, End]));
    assert_eq!(
        knob_step(true, KnobInput::Move { left_down: false }),
        (false, vec![ReleaseCapture, End])
    );
    assert_eq!(knob_step(true, KnobInput::Release), (false, vec![ReleaseCapture, End]));
}

#[test]
fn nothing_happens_to_a_knob_at_rest() {
    assert_eq!(knob_step(false, KnobInput::Release), (false, vec![]));
    assert_eq!(knob_step(false, KnobInput::Lost), (false, vec![]));
    assert_eq!(knob_step(false, KnobInput::Move { left_down: true }), (false, vec![]));
    assert_eq!(knob_step(false, KnobInput::Move { left_down: false }), (false, vec![]));
}

#[test]
fn the_wheel_steps_as_a_gesture_of_its_own() {
    assert_eq!(knob_step(false, KnobInput::Scroll), (false, vec![Begin, Step, End]));
    assert_eq!(knob_step(true, KnobInput::Scroll), (true, vec![Begin, Step, End]));
}

#[test]
fn gestures_alternate_over_a_long_run_without_the_wheel_mid_drag() {
    let (dragging, actions) = run(&[
        KnobInput::Scroll,
        KnobInput::Press { command: false },
        KnobInput::Move { left_down: true },
        KnobInput::Press { command: false },
        KnobInput::Lost,
        KnobInput::Release,
        KnobInput::ResetClick,
        KnobInput::Press { command: false },
        KnobInput::Move { left_down: false },
    ]);
    assert!(!dragging);
    let mut open = false;
    let mut held = false;
    for action in &actions {
        match action {
            Begin => {
                assert!(!open);
                open = true;
            }
            End => {
                assert!(open);
                open = false;
            }
            Capture => {
                assert!(!held);
                held = true;
            }
            ReleaseCapture => {
                assert!(held);
                held = false;
            }
            _ => {}
        }
    }
    assert!(!open && !held);
}
