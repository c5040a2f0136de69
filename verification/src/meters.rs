//! What the front panel meter is fed.
//!
//! The audio thread adds to it every block and the editor takes what has
//! built up each time it draws. Two atomics carry it between the threads:
//! the highest gain reduction code since the last reading, and the output
//! energy packed together with the number of samples it covers, so the two
//! are always read as a pair. How the levels are turned into codes is
//! floating point and stays with the caller; what is here is the packing,
//! the rule for starting an unread average again, and the hand-off.

use std::sync::atomic::AtomicU32;
use std::sync::atomic::AtomicU64;
use std::sync::atomic::Ordering;

use vstd::prelude::*;

verus! {

/// Past this many samples an unread average is started again rather than
/// added to. An editor that is closed never takes anything, and an average
/// over the last hour is no use to the one that opens next. Also keeps the
/// count well clear of wrapping.
pub const MOST_SAMPLES: u32 = 0x10_0000;

/// The packed pair: the bits of the energy sum in the high half, the sample
/// count in the low half.
pub open spec fn packed(sum_bits: u32, count: u32) -> u64 {
    (sum_bits as int * 0x1_0000_0000 + count as int) as u64
}

/// Packs the bits of an energy sum and the number of samples it covers into
/// one word.
pub fn pack(sum_bits: u32, count: u32) -> (r: u64)
    ensures
        r == packed(sum_bits, count),
        r as int == sum_bits as int * 0x1_0000_0000 + count as int,
{
    let high: u64 = sum_bits as u64;
    let low: u64 = count as u64;
    assert((high << 32u64) | low == high * 0x1_0000_0000 + low) by (bit_vector)
        requires
            high < 0x1_0000_0000,
            low < 0x1_0000_0000,
    ;
    (high << 32u64) | low
}

/// The bits of the energy sum and the sample count a word packs.
pub fn unpack(word: u64) -> (r: (u32, u32))
    ensures
        r.0 as int == word as int / 0x1_0000_0000,
        r.1 as int == word as int % 0x1_0000_0000,
{
    let high: u64 = word >> 32u64;
    let low: u64 = word & 0xffff_ffff;
    assert(high == word / 0x1_0000_0000 && low == word % 0x1_0000_0000) by (bit_vector)
        requires
            high == word >> 32u64,
            low == word & 0xffff_ffff,
    ;
    (high as u32, low as u32)
}

/// Packing and unpacking undo each other, in both orders: nothing of the
/// sum or the count is lost on the way through the atomic.
pub proof fn lemma_packing_round_trips(sum_bits: u32, count: u32, word: u64)
    ensures
        (packed(sum_bits, count) as int) / 0x1_0000_0000 == sum_bits as int,
        (packed(sum_bits, count) as int) % 0x1_0000_0000 == count as int,
        packed((word as int / 0x1_0000_0000) as u32, (word as int % 0x1_0000_0000) as u32) == word,
{
    assert(sum_bits as int * 0x1_0000_0000 + count as int <= u64::MAX);
    assert((sum_bits as int * 0x1_0000_0000 + count as int) / 0x1_0000_0000 == sum_bits as int) by (nonlinear_arith)
        requires
            0 <= count < 0x1_0000_0000,
            0 <= sum_bits,
    ;
    assert((sum_bits as int * 0x1_0000_0000 + count as int) % 0x1_0000_0000 == count as int) by (nonlinear_arith)
        requires
            0 <= count < 0x1_0000_0000,
            0 <= sum_bits,
    ;
    assert((word as int / 0x1_0000_0000) * 0x1_0000_0000 + word as int % 0x1_0000_0000 == word as int) by (nonlinear_arith);
}

/// Whether an unread average covering `count` samples is started again,
/// rather than added to, when the next block arrives.
pub fn starts_again(count: u32) -> (r: bool)
    ensures
        r == (count >= MOST_SAMPLES),
{
    count >= MOST_SAMPLES
}

/// The word the output half holds after a block of `samples` is published
/// onto a word whose count is `count`: the block's own energy `block_bits`
/// and count if the unread average is started again, otherwise the summed
/// energy `summed_bits` and the two counts together.
pub fn next_output(count: u32, block_bits: u32, summed_bits: u32, samples: u32) -> (r: u64)
    requires
        count < MOST_SAMPLES ==> count as int + samples as int <= u32::MAX,
    ensures
        r == if count >= MOST_SAMPLES {
            packed(block_bits, samples)
        } else {
            packed(summed_bits, (count + samples) as u32)
        },
{
    if starts_again(count) {
        pack(block_bits, samples)
    } else {
        pack(summed_bits, count + samples)
    }
}

/// What a word taken off the output half holds for the editor: the bits of
/// the energy sum and the number of samples it covers, or `None` when it
/// covers no samples, as when no audio has been processed since the word
/// was last taken.
pub fn reading_in(word: u64) -> (r: Option<(u32, u32)>)
    ensures
        r == (if word as int % 0x1_0000_0000 == 0 {
            None
        } else {
            Some(((word as int / 0x1_0000_0000) as u32, (word as int % 0x1_0000_0000) as u32))
        }),
{
    let (sum_bits, count): (u32, u32) = unpack(word);
    if count == 0 {
        None
    } else {
        Some((sum_bits, count))
    }
}

/// `AtomicU64::compare_exchange_weak` on `output`, relaxed both ways: writes
/// `next` if the atomic holds `current`. std documents that the value
/// returned is what the atomic held, and that on success it equals
/// `current`; this states the second. Whether the exchange succeeds depends
/// on what another thread left in the atomic, and it may also fail
/// spuriously, so nothing is stated of that, nor of the value an `Err`
/// carries.
#[verifier::external_body]
fn exchange_output(output: &AtomicU64, current: u64, next: u64) -> (r: Result<u64, u64>)
    ensures
        r matches Ok(previous) ==> previous == current,
{
    output.compare_exchange_weak(current, next, Ordering::Relaxed, Ordering::Relaxed)
}

/// The meter's state, shared between the audio thread and the editor.
#[derive(Default)]
pub struct Meters {
    /// Highest gain reduction code since the editor last took a reading.
    reduction: AtomicU32,
    /// Output energy since the editor last took a reading: the bits of an
    /// `f32` sum of squares in the high half and the number of samples it
    /// covers in the low half.
    output: AtomicU64,
}

impl Meters {
    /// Forget everything, as after the host resets the plugin.
    pub fn clear(&self) {
        self.reduction.store(0, Ordering::Relaxed);
        self.output.store(0, Ordering::Relaxed);
    }

    /// Raises the held gain reduction code to `code` if it is higher.
    pub fn raise_reduction(&self, code: u32) {
        self.reduction.fetch_max(code, Ordering::Relaxed);
    }

    /// The output word as it stands.
    pub fn output_word(&self) -> u64 {
        self.output.load(Ordering::Relaxed)
    }

    /// Replaces the output word with `next` if it still holds `current`;
    /// `Err` with what it holds instead otherwise, which may also happen
    /// spuriously.
    pub fn replace_output(&self, current: u64, next: u64) -> (r: Result<u64, u64>)
        ensures
            r matches Ok(previous) ==> previous == current,
    {
        exchange_output(&self.output, current, next)
    }

    /// Takes everything since the last call: the gain reduction code, the
    /// bits of the energy sum and the number of samples it covers, or
    /// `None` if no audio has been processed since. The held reduction is
    /// only taken along with a reading, so a frame that lands between two
    /// blocks leaves it for the next one.
    pub fn take_codes(&self) -> (r: Option<(u32, u32, u32)>)
        ensures
            r matches Some((_, _, count)) ==> count > 0,
    {
        let (sum_bits, count): (u32, u32) = match reading_in(self.output.swap(0, Ordering::Relaxed)) {
            Some(pair) => pair,
            None => return None,
        };
        let reduction: u32 = self.reduction.swap(0, Ordering::Relaxed);
        Some((reduction, sum_bits, count))
    }
}

} // verus!
