//! What the front panel decides, apart from how it draws: the lettering's
//! spacing, the inks for each finish, and how the ratio switches latch.

pub mod style;
pub mod widgets;

use vstd::prelude::*;

verus! {

/// The spacing put between the letters of engraved lettering: a thin space.
pub const TRACKING: char = '\u{2009}';

/// `text` with a thin space between every two of its characters.
pub open spec fn tracked_out(text: Seq<char>) -> Seq<char>
    decreases text.len(),
{
    if text.len() <= 1 {
        text
    } else {
        tracked_out(text.drop_last()).push(TRACKING).push(text.last())
    }
}

/// Lettering spread out the way the panel engraves it: a thin space between
/// every two characters.
pub fn track_out(text: &str) -> (r: String)
    ensures
        r@ == tracked_out(text@),
{
    let mut out = String::new();
    let mut first = true;
    for c in it: text.chars()
        invariant
            it.seq() == text@,
            first <==> it.index() == 0,
            out@ == tracked_out(text@.take(it.index() as int)),
    {
        let ghost done = text@.take(it.index() as int);
        if !first {
            crate::text::push_char(&mut out, TRACKING);
        }
        crate::text::push_char(&mut out, c);
        first = false;
        proof {
            let next = text@.take(it.index() + 1);
            assert(next.drop_last() =~= done);
            assert(next.last() == c);
        }
    }
    proof {
        assert(text@.take(text@.len() as int) =~= text@);
    }
    out
}

} // verus!
