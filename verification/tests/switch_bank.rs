use comp76fx_core::dsp::{all_buttons, noise_seed, pressed, span, white_step, Finish, OutputStage, LATENCY};
use comp76fx_core::editor::widgets::press;

#[test]
fn a_single_button_spans_itself() {
    for i in 0..4 {
        let mut buttons = [false; 4];
        buttons[i] = true;
        assert_eq!(span(buttons), Some((i, i)));
        assert_eq!(pressed(buttons), 1);
        assert!(!all_buttons(buttons));
    }
}

#[test]
fn no_button_is_no_span() {
    assert_eq!(span([false; 4]), None);
    assert_eq!(pressed([false; 4]), 0);
}

/// Only the outer buttons matter: 4 + 20 is all four.
#[test]
fn only_the_outermost_buttons_make_the_span() {
    assert_eq!(span([true, false, false, true]), span([true; 4]));
    assert_eq!(span([false, true, false, true]), span([false, true, true, true]));
    assert_eq!(span([true, false, true, false]), span([true, true, true, false]));
    assert_eq!(span([true; 4]), Some((0, 3)));
    assert!(all_buttons([true; 4]));
    assert_eq!(pressed([true; 4]), 4);
    assert_eq!(pressed([true, false, true, false]), 2);
}

/// A plain click is the interlock; a latching click toggles one switch.
#[test]
fn the_interlock_and_the_latch() {
    assert_eq!(press([true, true, false, false], 2, false), [false, false, true, false]);
    assert_eq!(press([false, false, true, false], 2, false), [false, false, true, false]);
    let mut bank = press([false; 4], 0, false);
    for i in 1..4 {
        bank = press(bank, i, true);
    }
    assert_eq!(bank, [true; 4]);
    assert_eq!(press(bank, 1, true), [true, false, true, true]);
    assert_eq!(press(press(bank, 1, true), 1, true), bank);
}

#[test]
fn the_noise_state_moves_and_never_sticks() {
    let mut state = noise_seed(0);
    assert_eq!(state, 1);
    // One xorshift32 step from 1, worked by hand: 1 ^ 1 << 13 = 0x2001,
    // then ^ >> 17 leaves it, then ^ << 5 gives 0x42021.
    assert_eq!(white_step(&mut state), 0x0004_2021);
    assert_eq!(state, 0x0004_2021);
    let mut seen = std::collections::HashSet::new();
    for _ in 0..1000 {
        let s = white_step(&mut state);
        assert_ne!(s, 0);
        seen.insert(s);
    }
    assert_eq!(seen.len(), 1000);
    assert_eq!(noise_seed(0x9e37_79b8), 0x9e37_79b9);
}

#[test]
fn the_latency_is_fixed() {
    assert_eq!(LATENCY, 74);
    assert_ne!(Finish::BlueStripe, Finish::SilverFace);
    assert_ne!(OutputStage::ClassA, OutputStage::ClassAb);
}
