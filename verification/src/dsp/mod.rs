//! The parts of the signal path that are logic rather than arithmetic on
//! samples: which ratio buttons count, the delay that lines the channels up,
//! and the state of the noise source.

pub mod amp;
pub mod delay;

use vstd::prelude::*;

pub use amp::OutputStage;
pub use delay::Delay;

verus! {

/// Latency every channel has, in samples at the host rate, whatever the
/// oversampling is set to.
pub const LATENCY: u32 = 74;

/// How many ratio buttons the bank has: 4:1, 8:1, 12:1 and 20:1.
pub const BUTTONS: usize = 4;

/// The faceplate a revision was built with.
#[derive(Clone, Copy, PartialEq, Eq, Structural, Debug)]
pub enum Finish {
    /// Black panel with the painted band around the meter. Rev A and B.
    BlueStripe,
    /// Black panel throughout. Rev C to E.
    BlackFace,
    /// Brushed aluminium with black lettering. Rev F onward.
    SilverFace,
}

/// Whether any button of the bank is in.
pub open spec fn any_pressed(buttons: Seq<bool>) -> bool {
    buttons[0] || buttons[1] || buttons[2] || buttons[3]
}

/// The lowest button in, counting from the 4:1.
pub open spec fn lowest_pressed(buttons: Seq<bool>) -> int {
    if buttons[0] { 0 } else if buttons[1] { 1 } else if buttons[2] { 2 } else { 3 }
}

/// The highest button in, counting from the 4:1.
pub open spec fn highest_pressed(buttons: Seq<bool>) -> int {
    if buttons[3] { 3 } else if buttons[2] { 2 } else if buttons[1] { 1 } else { 0 }
}

/// The outermost buttons pressed, or `None` with the bank all out.
pub open spec fn bank_span(buttons: Seq<bool>) -> Option<(int, int)> {
    if any_pressed(buttons) {
        Some((lowest_pressed(buttons), highest_pressed(buttons)))
    } else {
        None
    }
}

/// How many buttons are in.
pub open spec fn count_pressed(buttons: Seq<bool>) -> nat {
    (if buttons[0] { 1nat } else { 0nat }) + (if buttons[1] { 1nat } else { 0nat }) + (if buttons[2] {
        1nat
    } else {
        0nat
    }) + (if buttons[3] { 1nat } else { 0nat })
}

/// The lowest and highest ratio buttons pressed, as indices into the bank
/// from the 4:1 up.
pub fn span(buttons: [bool; 4]) -> (r: Option<(usize, usize)>)
    ensures
        match r {
            Some((low, high)) => bank_span(buttons@) == Some((low as int, high as int)),
            None => bank_span(buttons@) is None,
        },
{
    let mut low: usize = 0;
    while low < BUTTONS && !buttons[low]
        invariant
            low <= BUTTONS,
            forall|i: int| 0 <= i < low ==> !buttons@[i],
        decreases BUTTONS - low,
    {
        low = low + 1;
    }
    if low == BUTTONS {
        return None;
    }
    let mut high: usize = BUTTONS - 1;
    while !buttons[high]
        invariant
            low <= high < BUTTONS,
            buttons@[low as int],
            forall|i: int| high < i < BUTTONS ==> !buttons@[i],
        decreases high,
    {
        high = high - 1;
    }
    Some((low, high))
}

/// Whether all four buttons are in, which is all-button mode.
pub fn all_buttons(buttons: [bool; 4]) -> (r: bool)
    ensures
        r == (forall|i: int| 0 <= i < 4 ==> buttons@[i]),
{
    let mut i: usize = 0;
    while i < BUTTONS
        invariant
            i <= BUTTONS,
            forall|j: int| 0 <= j < i ==> buttons@[j],
        decreases BUTTONS - i,
    {
        if !buttons[i] {
            return false;
        }
        i = i + 1;
    }
    true
}

/// How many ratio buttons are in.
pub fn pressed(buttons: [bool; 4]) -> (r: usize)
    ensures
        r == count_pressed(buttons@),
{
    let mut count: usize = 0;
    let mut i: usize = 0;
    while i < BUTTONS
        invariant
            i <= BUTTONS,
            count <= i,
            count == count_pressed(buttons@.take(i as int) + Seq::new((4 - i) as nat, |j: int| false)),
        decreases BUTTONS - i,
    {
        if buttons[i] {
            count = count + 1;
        }
        proof {
            assert(buttons@.take(i + 1) + Seq::new((4 - (i + 1)) as nat, |j: int| false)
                =~= (buttons@.take(i as int) + Seq::new((4 - i) as nat, |j: int| false)).update(
                i as int,
                buttons@[i as int],
            ));
        }
        i = i + 1;
    }
    proof {
        assert(buttons@.take(4) + Seq::new(0, |j: int| false) =~= buttons@);
    }
    count
}

/// The pressed buttons are exactly those from the lowest in to the highest
/// in, at the two ends; nothing outside them is in, and a bank with no
/// button in has no span.
pub proof fn lemma_span_is_outermost(buttons: Seq<bool>)
    requires
        buttons.len() == 4,
    ensures
        bank_span(buttons) is None <==> (forall|i: int| 0 <= i < 4 ==> !buttons[i]),
        bank_span(buttons) matches Some((low, high)) ==> {
            &&& 0 <= low <= high < 4
            &&& buttons[low] && buttons[high]
            &&& forall|i: int| 0 <= i < low ==> !buttons[i]
            &&& forall|i: int| high < i < 4 ==> !buttons[i]
        },
{
}

/// Only the outermost buttons matter: pressing or releasing any button
/// strictly between the lowest and highest in leaves the span, and so
/// every figure read off it, where it was.
pub proof fn lemma_inner_buttons_do_not_matter(buttons: Seq<bool>, i: int, pressed: bool)
    requires
        buttons.len() == 4,
        bank_span(buttons) matches Some((low, high)) && low < i < high,
    ensures
        bank_span(buttons.update(i, pressed)) == bank_span(buttons),
{
}

/// All four in spans the whole bank, from the 4:1 to the 20:1.
pub proof fn lemma_all_buttons_span_the_bank(buttons: Seq<bool>)
    requires
        buttons.len() == 4,
        forall|i: int| 0 <= i < 4 ==> buttons[i],
    ensures
        bank_span(buttons) == Some((0int, 3int)),
        count_pressed(buttons) == 4,
{
}

/// One step of the noise generator: a 32-bit xorshift.
pub open spec fn xorshift(state: u32) -> u32 {
    let a = state ^ (state << 13u32);
    let b = a ^ (a >> 17u32);
    b ^ (b << 5u32)
}

/// The noise generator never sticks: from any state but zero it moves to
/// another state that is not zero, so a seeded channel hisses for good.
pub proof fn lemma_noise_never_sticks(state: u32)
    requires
        state != 0,
    ensures
        xorshift(state) != 0,
{
    assert(state != 0 ==> ((state ^ (state << 13u32)) ^ ((state ^ (state << 13u32)) >> 17u32)) ^ (((
    state ^ (state << 13u32)) ^ ((state ^ (state << 13u32)) >> 17u32)) << 5u32) != 0) by (bit_vector);
}

/// The state a channel's noise starts from: its seed, made odd so that it
/// can never be the one state the generator does not leave.
pub fn noise_seed(seed: u32) -> (r: u32)
    ensures
        r == seed | 1,
        r != 0,
{
    assert(seed | 1u32 != 0) by (bit_vector);
    seed | 1
}

/// Advances the noise generator and returns its new state, which the
/// caller scales to a sample.
pub fn white_step(state: &mut u32) -> (r: u32)
    ensures
        *final(state) == xorshift(*old(state)),
        r == *final(state),
{
    *state = *state ^ (*state << 13u32);
    *state = *state ^ (*state >> 17u32);
    *state = *state ^ (*state << 5u32);
    *state
}

} // verus!
