//! Front panel controls, shared by every revision: the positions of the
//! meter and quality switches, and how the ratio and power switches are
//! written out and read back.

use vstd::prelude::*;

use crate::text::{ascii_lowercase, ascii_lowered, is_white_space, trim, trimmed};

verus! {

broadcast use vstd::string::to_string_from_display_ensures_for_str;

/// What the meter is switched to. The hardware powers up with the meter
/// switch, so OFF is a real position rather than a hidden one.
#[derive(Debug, PartialEq, Eq, Structural, Clone, Copy)]
pub enum MeterMode {
    GainReduction,
    Plus4,
    Plus8,
    Off,
}

/// The oversampling the circuit runs at.
#[derive(Debug, PartialEq, Eq, Structural, Clone, Copy)]
pub enum Oversampling {
    Off,
    X2,
    X4,
    X8,
}

/// How many times the host rate the circuit runs at.
pub open spec fn oversampling_factor(oversampling: Oversampling) -> nat {
    match oversampling {
        Oversampling::Off => 1,
        Oversampling::X2 => 2,
        Oversampling::X4 => 4,
        Oversampling::X8 => 8,
    }
}

impl Oversampling {
    pub fn factor(self) -> (r: usize)
        ensures
            r == oversampling_factor(self),
    {
        match self {
            Oversampling::Off => 1,
            Oversampling::X2 => 2,
            Oversampling::X4 => 4,
            Oversampling::X8 => 8,
        }
    }
}

/// Every setting runs at a different rate, so a change of setting is a
/// change of rate.
pub proof fn lemma_each_setting_has_its_own_factor(a: Oversampling, b: Oversampling)
    ensures
        oversampling_factor(a) == oversampling_factor(b) <==> a == b,
{
}

/// A ratio switch as the host shows it.
pub open spec fn switch_shown(pressed: bool) -> Seq<char> {
    if pressed { "In"@ } else { "Out"@ }
}

/// What a typed value does to a ratio switch: anything but one of the
/// words for out, in any case and with any white space around it, puts it
/// in.
pub open spec fn switch_read(typed: Seq<char>) -> Option<bool> {
    let word = ascii_lowered(trimmed(typed));
    Some(!(word == "out"@ || word == "off"@ || word == "false"@ || word == "no"@ || word == "0"@))
}

/// The power switch as the host shows it.
pub open spec fn power_shown(on: bool) -> Seq<char> {
    if on { "On"@ } else { "Off"@ }
}

/// What a typed value does to the power switch: anything but one of the
/// words for off, in any case and with any white space around it, turns
/// it on.
pub open spec fn power_read(typed: Seq<char>) -> Option<bool> {
    let word = ascii_lowered(trimmed(typed));
    Some(!(word == "off"@ || word == "false"@ || word == "no"@ || word == "0"@))
}

/// What a switch shows reads back as the same position: the text the host
/// displays for a ratio switch or the power switch is read as that very
/// setting.
pub proof fn lemma_switches_read_back_what_they_show(pressed: bool)
    ensures
        switch_read(switch_shown(pressed)) == Some(pressed),
        power_read(power_shown(pressed)) == Some(pressed),
{
    reveal_strlit("In");
    reveal_strlit("Out");
    reveal_strlit("On");
    reveal_strlit("Off");
    reveal_strlit("out");
    reveal_strlit("off");
    reveal_strlit("false");
    reveal_strlit("no");
    reveal_strlit("0");
    lemma_plain_word_is_its_own_trim("In"@);
    lemma_plain_word_is_its_own_trim("Out"@);
    lemma_plain_word_is_its_own_trim("On"@);
    lemma_plain_word_is_its_own_trim("Off"@);
    assert(ascii_lowered("In"@) =~= seq!['i', 'n']);
    assert(ascii_lowered("Out"@) =~= "out"@);
    assert(ascii_lowered("On"@) =~= seq!['o', 'n']);
    assert(ascii_lowered("Off"@) =~= "off"@);
    assert(seq!['i', 'n'] != "out"@ && seq!['i', 'n'] != "off"@ && seq!['i', 'n'] != "false"@) by {
        assert("out"@.len() == 3 && "off"@.len() == 3 && "false"@.len() == 5);
    }
    assert(seq!['i', 'n'] != "no"@) by {
        assert("no"@[0] == 'n');
    }
    assert(seq!['i', 'n'] != "0"@) by {
        assert("0"@.len() == 1);
    }
    assert(seq!['o', 'n'] != "off"@ && seq!['o', 'n'] != "false"@ && seq!['o', 'n'] != "0"@) by {
        assert("off"@.len() == 3 && "false"@.len() == 5 && "0"@.len() == 1);
    }
    assert(seq!['o', 'n'] != "no"@) by {
        assert("no"@[0] == 'n');
    }
}

/// A word of ASCII letters has nothing to trim.
proof fn lemma_plain_word_is_its_own_trim(word: Seq<char>)
    requires
        word.len() > 0,
        forall|i: int| 0 <= i < word.len() ==> ('A' <= #[trigger] word[i] <= 'Z' || 'a' <= word[i] <= 'z'),
    ensures
        trimmed(word) == word,
{
    assert(!is_white_space(word[0]));
    assert(!is_white_space(word.last()));
    assert(word.subrange(0, word.len() as int) =~= word);
}

/// Whether `word` is one of `words`.
fn is_one_of(word: &String, words: &[&str]) -> (r: bool)
    ensures
        r == exists|i: int| 0 <= i < words@.len() && word@ == words@[i]@,
{
    let mut i: usize = 0;
    while i < words.len()
        invariant
            i <= words@.len(),
            forall|j: int| 0 <= j < i ==> word@ != words@[j]@,
        decreases words@.len() - i,
    {
        let candidate = words[i].to_string();
        if *word == candidate {
            return true;
        }
        i = i + 1;
    }
    false
}

/// A ratio switch's value as text.
pub fn switch_text(pressed: bool) -> (r: String)
    ensures
        r@ == switch_shown(pressed),
{
    if pressed { "In" } else { "Out" }.to_string()
}

/// A ratio switch's value read back from text.
pub fn switch_value(typed: &str) -> (r: Option<bool>)
    ensures
        r == switch_read(typed@),
{
    let word = ascii_lowercase(trim(typed));
    let out = is_one_of(&word, &["out", "off", "false", "no", "0"]);
    proof {
        let w = word@;
        let list = ["out", "off", "false", "no", "0"];
        if w == "out"@ { assert(w == list@[0]@); }
        if w == "off"@ { assert(w == list@[1]@); }
        if w == "false"@ { assert(w == list@[2]@); }
        if w == "no"@ { assert(w == list@[3]@); }
        if w == "0"@ { assert(w == list@[4]@); }
    }
    Some(!out)
}

/// The power switch's value as text.
pub fn power_text(on: bool) -> (r: String)
    ensures
        r@ == power_shown(on),
{
    if on { "On" } else { "Off" }.to_string()
}

/// The power switch's value read back from text.
pub fn power_value(typed: &str) -> (r: Option<bool>)
    ensures
        r == power_read(typed@),
{
    let word = ascii_lowercase(trim(typed));
    let off = is_one_of(&word, &["off", "false", "no", "0"]);
    proof {
        let w = word@;
        let list = ["off", "false", "no", "0"];
        if w == "off"@ { assert(w == list@[0]@); }
        if w == "false"@ { assert(w == list@[1]@); }
        if w == "no"@ { assert(w == list@[2]@); }
        if w == "0"@ { assert(w == list@[3]@); }
    }
    Some(!off)
}

} // verus!
