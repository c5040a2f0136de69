//! How the panel's switches respond to a click, and how a knob's drag
//! starts and ends.

use vstd::prelude::*;

use crate::dsp::{bank_span, count_pressed};

verus! {

/// The ratio bank after a click on button `index`.
///
/// The switches on the hardware are mechanically interlocked, so a plain
/// click presses that one and releases the rest. A click with shift or ctrl
/// held latches instead: it toggles that one switch and leaves the others
/// as they are, which is how all four go in together.
pub fn press(buttons: [bool; 4], index: usize, latching: bool) -> (r: [bool; 4])
    requires
        index < 4,
    ensures
        !latching ==> forall|i: int| 0 <= i < 4 ==> r@[i] == (i == index),
        latching ==> r@ == buttons@.update(index as int, !buttons@[index as int]),
{
    let mut next = buttons;
    if !latching {
        next = [false; 4];
        next[index] = true;
    } else {
        let was = buttons[index];
        next[index] = !was;
    }
    proof {
        if latching {
            assert(next@ =~= buttons@.update(index as int, !buttons@[index as int]));
        }
    }
    next
}

/// A plain click leaves exactly the button clicked in: one ratio, that
/// button's own.
pub proof fn lemma_a_plain_click_releases_the_others(buttons: Seq<bool>, index: int)
    requires
        buttons.len() == 4,
        0 <= index < 4,
        forall|i: int| 0 <= i < 4 ==> buttons[i] == (i == index),
    ensures
        count_pressed(buttons) == 1,
        bank_span(buttons) == Some((index, index)),
{
}

/// Latching the same switch twice puts the bank back as it was.
pub proof fn lemma_latching_twice_undoes(buttons: Seq<bool>, index: int)
    requires
        buttons.len() == 4,
        0 <= index < 4,
    ensures
        buttons.update(index, !buttons[index]).update(
            index,
            !buttons.update(index, !buttons[index])[index],
        ) =~= buttons,
{
}

/// The bank after latching `index` if it is out, leaving it alone if it is
/// in.
pub open spec fn latch_in(buttons: Seq<bool>, index: int) -> Seq<bool> {
    if buttons[index] { buttons } else { buttons.update(index, !buttons[index]) }
}

/// Whatever the bank shows, latching in each switch that is out, one after
/// another, puts all four in: all-button mode without having to be quick.
pub proof fn lemma_latching_puts_all_four_in(buttons: Seq<bool>)
    requires
        buttons.len() == 4,
    ensures
        ({
            let all = latch_in(latch_in(latch_in(latch_in(buttons, 0), 1), 2), 3);
            &&& all.len() == 4
            &&& forall|i: int| 0 <= i < 4 ==> all[i]
            &&& count_pressed(all) == 4
        }),
{
}


/// What reaches a knob from the mouse and the window, as far as its drag
/// cares.
#[derive(Clone, Copy, PartialEq, Eq, Structural, Debug)]
pub enum KnobInput {
    /// The left button going down (a triple click counts as one), with or
    /// without the command modifier held.
    Press { command: bool },
    /// A double click or a right button press: back to the default.
    ResetClick,
    /// The left button coming back up.
    Release,
    /// Focus going elsewhere, the window closing, or the capture being
    /// taken away: anything that says this window is no longer in use.
    Lost,
    /// The pointer moving, with the left button down or not.
    Move { left_down: bool },
    /// The wheel turning.
    Scroll,
}

/// What a knob does in answer, in the order it does it.
#[derive(Clone, Copy, PartialEq, Eq, Structural, Debug)]
pub enum KnobAction {
    /// Open an edit gesture with the host.
    Begin,
    /// Close the edit gesture.
    End,
    /// Take the mouse, so the drag keeps hearing about it off the control,
    /// and note where it starts from.
    Capture,
    /// Give the mouse back.
    ReleaseCapture,
    /// Put the parameter back to its default, with any OFF switch on.
    SetDefault,
    /// Follow the pointer.
    Drag,
    /// Step the knob by one notch of the wheel.
    Step,
}

/// What ending a drag does: give the mouse back and close the gesture. A
/// knob that is not being dragged has nothing to end.
pub open spec fn drag_ended(dragging: bool) -> Seq<KnobAction> {
    if dragging {
        seq![KnobAction::ReleaseCapture, KnobAction::End]
    } else {
        seq![]
    }
}

/// Putting the knob back to its default, as a gesture of its own.
pub open spec fn default_restored() -> Seq<KnobAction> {
    seq![KnobAction::Begin, KnobAction::SetDefault, KnobAction::End]
}

/// Whether a drag runs after `input` reaches a knob that was being dragged
/// or not.
pub open spec fn next_dragging(dragging: bool, input: KnobInput) -> bool {
    match input {
        KnobInput::Press { command } => !command,
        KnobInput::ResetClick => false,
        KnobInput::Release => false,
        KnobInput::Lost => false,
        KnobInput::Move { left_down } => dragging && left_down,
        KnobInput::Scroll => dragging,
    }
}

/// What a knob that was being dragged or not does when `input` reaches it.
///
/// A press always ends a drag the knob still believes is running first: the
/// button cannot go down without having come up, so a drag still open then
/// is one whose button-up never arrived, and it must not leave the mouse
/// captured or a host gesture open under the new one. A button-up, a lost
/// window, or a move with the button found up all end the drag, so the
/// button coming back up is never the only way out.
pub open spec fn knob_actions(dragging: bool, input: KnobInput) -> Seq<KnobAction> {
    match input {
        KnobInput::Press { command } => if command {
            drag_ended(dragging) + default_restored()
        } else {
            drag_ended(dragging) + seq![KnobAction::Capture, KnobAction::Begin]
        },
        KnobInput::ResetClick => drag_ended(dragging) + default_restored(),
        KnobInput::Release => drag_ended(dragging),
        KnobInput::Lost => drag_ended(dragging),
        KnobInput::Move { left_down } => if !dragging {
            seq![]
        } else if left_down {
            seq![KnobAction::Drag]
        } else {
            drag_ended(dragging)
        },
        KnobInput::Scroll => seq![KnobAction::Begin, KnobAction::Step, KnobAction::End],
    }
}

fn end_drag(dragging: bool, actions: &mut Vec<KnobAction>)
    ensures
        final(actions)@ == old(actions)@ + drag_ended(dragging),
{
    if dragging {
        actions.push(KnobAction::ReleaseCapture);
        actions.push(KnobAction::End);
    }
    proof {
        if !dragging {
            assert(old(actions)@ + drag_ended(dragging) =~= old(actions)@);
        } else {
            assert(actions@ =~= old(actions)@ + drag_ended(dragging));
        }
    }
}

fn restore_default(actions: &mut Vec<KnobAction>)
    ensures
        final(actions)@ == old(actions)@ + default_restored(),
{
    actions.push(KnobAction::Begin);
    actions.push(KnobAction::SetDefault);
    actions.push(KnobAction::End);
    proof {
        assert(actions@ =~= old(actions)@ + default_restored());
    }
}

/// One input reaching a knob: whether a drag runs afterwards, and what the
/// knob does, in order.
pub fn knob_step(dragging: bool, input: KnobInput) -> (r: (bool, Vec<KnobAction>))
    ensures
        r.0 == next_dragging(dragging, input),
        r.1@ == knob_actions(dragging, input),
{
    let mut actions: Vec<KnobAction> = Vec::new();
    let next: bool = match input {
        KnobInput::Press { command } => {
            end_drag(dragging, &mut actions);
            if command {
                restore_default(&mut actions);
                false
            } else {
                actions.push(KnobAction::Capture);
                actions.push(KnobAction::Begin);
                true
            }
        },
        KnobInput::ResetClick => {
            end_drag(dragging, &mut actions);
            restore_default(&mut actions);
            false
        },
        KnobInput::Release => {
            end_drag(dragging, &mut actions);
            false
        },
        KnobInput::Lost => {
            end_drag(dragging, &mut actions);
            false
        },
        KnobInput::Move { left_down } => {
            if dragging && left_down {
                actions.push(KnobAction::Drag);
                true
            } else {
                end_drag(dragging, &mut actions);
                false
            }
        },
        KnobInput::Scroll => {
            actions.push(KnobAction::Begin);
            actions.push(KnobAction::Step);
            actions.push(KnobAction::End);
            dragging
        },
    };
    proof {
        assert(actions@ =~= knob_actions(dragging, input));
    }
    (next, actions)
}

/// Whether a run of actions opens and closes something in turn, starting
/// open or not: `Some` of whether it is left open, or `None` if the run
/// opens it while it is open or closes it while it is closed.
pub open spec fn paired(open: bool, actions: Seq<KnobAction>, opener: KnobAction, closer: KnobAction) -> Option<bool>
    decreases actions.len(),
{
    if actions.len() == 0 {
        Some(open)
    } else {
        let first = actions[0];
        let next = if first == opener {
            if open { None } else { Some(true) }
        } else if first == closer {
            if open { Some(false) } else { None }
        } else {
            Some(open)
        };
        match next {
            None => None,
            Some(now) => paired(now, actions.skip(1), opener, closer),
        }
    }
}

/// Whether a drag runs after `inputs` reach a knob one after another, and
/// everything the knob does meanwhile, in order.
pub open spec fn knob_run(dragging: bool, inputs: Seq<KnobInput>) -> (bool, Seq<KnobAction>)
    decreases inputs.len(),
{
    if inputs.len() == 0 {
        (dragging, seq![])
    } else {
        let before = knob_run(dragging, inputs.drop_last());
        (
            next_dragging(before.0, inputs.last()),
            before.1 + knob_actions(before.0, inputs.last()),
        )
    }
}

/// Whether no wheel turn reaches the knob while it is being dragged.
pub open spec fn no_scroll_mid_drag(dragging: bool, inputs: Seq<KnobInput>) -> bool
    decreases inputs.len(),
{
    if inputs.len() == 0 {
        true
    } else {
        no_scroll_mid_drag(dragging, inputs.drop_last()) && !(knob_run(dragging, inputs.drop_last()).0
            && inputs.last() is Scroll)
    }
}

proof fn lemma_paired_splits(open: bool, a: Seq<KnobAction>, b: Seq<KnobAction>, opener: KnobAction, closer: KnobAction)
    ensures
        paired(open, a + b, opener, closer) == (match paired(open, a, opener, closer) {
            None => None,
            Some(now) => paired(now, b, opener, closer),
        }),
    decreases a.len(),
{
    if a.len() == 0 {
        assert(a + b =~= b);
    } else {
        assert((a + b)[0] == a[0]);
        assert((a + b).skip(1) =~= a.skip(1) + b);
        let first = a[0];
        let next = if first == opener {
            if open { None } else { Some(true) }
        } else if first == closer {
            if open { Some(false) } else { None }
        } else {
            Some(open)
        };
        if let Some(now) = next {
            lemma_paired_splits(now, a.skip(1), b, opener, closer);
        }
    }
}

/// One input keeps the knob's bookkeeping straight: the mouse is captured
/// exactly while a drag runs, and the drag's host gesture is open exactly
/// while a drag runs, unless the wheel turns mid-drag.
pub proof fn lemma_each_input_keeps_the_drag_straight(dragging: bool, input: KnobInput)
    ensures
        paired(dragging, knob_actions(dragging, input), KnobAction::Capture, KnobAction::ReleaseCapture)
            == Some(next_dragging(dragging, input)),
        !(dragging && input is Scroll) ==> paired(dragging, knob_actions(dragging, input), KnobAction::Begin, KnobAction::End)
            == Some(next_dragging(dragging, input)),
{
    reveal_with_fuel(paired, 6);
}

/// Over any run of inputs in which the wheel never turns mid-drag (in
/// particular any run without a turn of the wheel), a knob that starts at
/// rest opens and closes the host's edit gesture strictly in turn, never
/// one inside another, takes and gives back the mouse strictly in turn, and
/// holds both exactly while a drag runs. So after a button-up, a lost
/// window or a move with the button up, nothing is left open and the mouse
/// is free.
pub proof fn lemma_drags_never_leave_anything_open(dragging: bool, inputs: Seq<KnobInput>)
    requires
        no_scroll_mid_drag(dragging, inputs),
    ensures
        paired(dragging, knob_run(dragging, inputs).1, KnobAction::Capture, KnobAction::ReleaseCapture)
            == Some(knob_run(dragging, inputs).0),
        paired(dragging, knob_run(dragging, inputs).1, KnobAction::Begin, KnobAction::End)
            == Some(knob_run(dragging, inputs).0),
        inputs.len() > 0 && (inputs.last() is Release || inputs.last() is Lost || inputs.last()
            == (KnobInput::Move { left_down: false })) ==> !knob_run(dragging, inputs).0,
    decreases inputs.len(),
{
    if inputs.len() > 0 {
        let init = inputs.drop_last();
        lemma_drags_never_leave_anything_open(dragging, init);
        let before = knob_run(dragging, init);
        lemma_each_input_keeps_the_drag_straight(before.0, inputs.last());
        lemma_paired_splits(dragging, before.1, knob_actions(before.0, inputs.last()), KnobAction::Capture, KnobAction::ReleaseCapture);
        lemma_paired_splits(dragging, before.1, knob_actions(before.0, inputs.last()), KnobAction::Begin, KnobAction::End);
    }
}

/// A run without a turn of the wheel never turns it mid-drag.
pub proof fn lemma_no_scroll_is_none_mid_drag(dragging: bool, inputs: Seq<KnobInput>)
    requires
        forall|i: int| 0 <= i < inputs.len() ==> !(inputs[i] is Scroll),
    ensures
        no_scroll_mid_drag(dragging, inputs),
    decreases inputs.len(),
{
    if inputs.len() > 0 {
        let init = inputs.drop_last();
        assert forall|i: int| 0 <= i < init.len() implies !(init[i] is Scroll) by {
            assert(init[i] == inputs[i]);
        }
        lemma_no_scroll_is_none_mid_drag(dragging, init);
    }
}

/// A command-press or a reset click puts the knob back to its default, in
/// a host gesture of its own, whether or not a drag was running: a running
/// drag is ended first, and none runs afterwards.
pub proof fn lemma_a_reset_always_restores_the_default(dragging: bool)
    ensures
        knob_actions(false, KnobInput::Press { command: true })
            == seq![KnobAction::Begin, KnobAction::SetDefault, KnobAction::End],
        knob_actions(true, KnobInput::Press { command: true })
            == seq![KnobAction::ReleaseCapture, KnobAction::End, KnobAction::Begin, KnobAction::SetDefault, KnobAction::End],
        knob_actions(dragging, KnobInput::ResetClick) == knob_actions(dragging, KnobInput::Press { command: true }),
        !next_dragging(dragging, KnobInput::Press { command: true }),
        !next_dragging(dragging, KnobInput::ResetClick),
{
    assert(knob_actions(false, KnobInput::Press { command: true })
        =~= seq![KnobAction::Begin, KnobAction::SetDefault, KnobAction::End]);
    assert(knob_actions(true, KnobInput::Press { command: true })
        =~= seq![KnobAction::ReleaseCapture, KnobAction::End, KnobAction::Begin, KnobAction::SetDefault, KnobAction::End]);
}

/// A plain press always starts a drag, taking the mouse and then opening
/// the gesture; at rest that is all it does, and a stale drag is closed
/// before the new one starts.
pub proof fn lemma_a_plain_press_starts_a_drag(dragging: bool)
    ensures
        next_dragging(dragging, KnobInput::Press { command: false }),
        knob_actions(false, KnobInput::Press { command: false }) == seq![KnobAction::Capture, KnobAction::Begin],
        knob_actions(true, KnobInput::Press { command: false })
            == seq![KnobAction::ReleaseCapture, KnobAction::End, KnobAction::Capture, KnobAction::Begin],
{
    assert(knob_actions(false, KnobInput::Press { command: false }) =~= seq![KnobAction::Capture, KnobAction::Begin]);
    assert(knob_actions(true, KnobInput::Press { command: false })
        =~= seq![KnobAction::ReleaseCapture, KnobAction::End, KnobAction::Capture, KnobAction::Begin]);
}

/// Every way out of a drag does the same thing: the mouse is given back and
/// the gesture closed, and no drag runs afterwards. At rest, none of them
/// does anything, nor does moving the pointer.
pub proof fn lemma_every_way_out_ends_the_drag(input: KnobInput)
    requires
        input is Release || input is Lost || input == (KnobInput::Move { left_down: false }),
    ensures
        knob_actions(true, input) == seq![KnobAction::ReleaseCapture, KnobAction::End],
        !next_dragging(true, input),
        knob_actions(false, input) == Seq::<KnobAction>::empty(),
        !next_dragging(false, input),
        knob_actions(false, KnobInput::Move { left_down: true }) == Seq::<KnobAction>::empty(),
{
    assert(knob_actions(false, input) =~= Seq::<KnobAction>::empty());
    assert(knob_actions(false, KnobInput::Move { left_down: true }) =~= Seq::<KnobAction>::empty());
}

/// While a drag runs with the button held, a move follows the pointer and
/// does nothing else; the wheel always steps the knob in a gesture of its
/// own and leaves any drag as it was.
pub proof fn lemma_moves_drag_and_the_wheel_steps(dragging: bool)
    ensures
        knob_actions(true, KnobInput::Move { left_down: true }) == seq![KnobAction::Drag],
        next_dragging(true, KnobInput::Move { left_down: true }),
        knob_actions(dragging, KnobInput::Scroll) == seq![KnobAction::Begin, KnobAction::Step, KnobAction::End],
        next_dragging(dragging, KnobInput::Scroll) == dragging,
{
}

} // verus!
