//! What the plugin body decides at the top of every buffer, and how each
//! channel's noise is seeded.
//!
//! The buffer itself, the controls' smoothing and the samples are the
//! host's and the circuit's; what is here is which of the circuit's
//! settings a buffer has to change before it runs.

use vstd::prelude::*;

use crate::params::{oversampling_factor, Oversampling};

verus! {

/// Controls are refreshed at this granularity rather than per sample.
pub const CONTROL_BLOCK: usize = 32;

/// Latency the plugin always reports, whatever the oversampling setting is.
pub const LATENCY: u32 = crate::dsp::LATENCY;

/// The noise seed of the channel at `index`. Each channel gets its own, so
/// the two sides of a stereo pair do not hiss in unison.
pub fn channel_seed(index: usize) -> (r: u32)
    requires
        (index as u32) as int * 0x85eb_ca6b <= u32::MAX,
    ensures
        r == vstd::wrapping::u32_specs::wrapping_add(0x9e37_79b9u32, ((index as u32) * 0x85eb_ca6bu32) as u32),
{
    let step: u32 = (index as u32) * 0x85eb_ca6bu32;
    0x9e37_79b9u32.wrapping_add(step)
}

/// What the circuit has to be told before a buffer runs.
#[derive(Clone, Copy, PartialEq, Eq, Structural, Debug)]
pub struct BufferPlan {
    /// The oversampling factor every channel is to be set to, when the
    /// setting has changed since the last buffer.
    pub retune: Option<usize>,
    /// Whether every channel's circuit is to be cleared, which happens once,
    /// on the buffer the power goes off.
    pub switch_off: bool,
    /// Whether the buffer's meter readings are to be published: only with
    /// the power on.
    pub publish: bool,
}

/// The settings the last buffer ran with.
#[derive(Clone, Copy, PartialEq, Eq, Structural, Debug)]
pub struct Transport {
    pub oversampling: Oversampling,
    pub powered: bool,
}

/// The plan for a buffer run with `oversampling` and `powered` after one
/// that ran with `last`.
pub open spec fn plan_for(last: Transport, oversampling: Oversampling, powered: bool) -> BufferPlan {
    BufferPlan {
        retune: if oversampling != last.oversampling {
            Some(oversampling_factor(oversampling) as usize)
        } else {
            None
        },
        switch_off: !powered && last.powered,
        publish: powered,
    }
}

impl Transport {
    /// A plugin that has not yet run a buffer: the default quality, and the
    /// power on.
    pub fn new() -> (r: Self)
        ensures
            r == (Transport { oversampling: Oversampling::X4, powered: true }),
    {
        Transport { oversampling: Oversampling::X4, powered: true }
    }

    /// The plan for the next buffer, which runs with `oversampling` and
    /// `powered`; the transport then holds those.
    pub fn begin_buffer(&mut self, oversampling: Oversampling, powered: bool) -> (r: BufferPlan)
        ensures
            r == plan_for(*old(self), oversampling, powered),
            *final(self) == (Transport { oversampling, powered }),
    {
        let retune = if oversampling != self.oversampling {
            Some(oversampling.factor())
        } else {
            None
        };
        let switch_off = !powered && self.powered;
        self.oversampling = oversampling;
        self.powered = powered;
        BufferPlan { retune, switch_off, publish: powered }
    }
}

/// A buffer run with the settings of the one before asks for nothing: the
/// circuit is retuned only when the quality changes, and cleared only on
/// the buffer the power goes off, not on every buffer it stays off.
pub proof fn lemma_steady_settings_ask_for_nothing(last: Transport, oversampling: Oversampling, powered: bool)
    ensures
        plan_for(Transport { oversampling, powered }, oversampling, powered).retune is None,
        !plan_for(Transport { oversampling, powered }, oversampling, powered).switch_off,
        plan_for(last, oversampling, powered).switch_off ==> last.powered && !powered,
{
}

/// The plans for a run of buffers, the first run after one that ran with
/// `start` and each later one after the one before it, the buffers running
/// with `settings` in turn: what successive calls of `begin_buffer` give.
pub open spec fn plans_over(start: Transport, settings: Seq<Transport>) -> Seq<BufferPlan> {
    Seq::new(
        settings.len(),
        |i: int|
            plan_for(
                if i == 0 { start } else { settings[i - 1] },
                settings[i].oversampling,
                settings[i].powered,
            ),
    )
}

/// Over any run of buffers: every channel is cleared on the buffer the
/// power goes from on to off and on no other, so never again while the
/// power stays off; it is retuned, to the new setting's factor, on exactly
/// the buffers whose quality differs from the buffer before; and nothing is
/// published from a buffer run with the power off.
pub proof fn lemma_power_off_clears_once(start: Transport, settings: Seq<Transport>)
    ensures
        plans_over(start, settings).len() == settings.len(),
        forall|i: int| #![trigger plans_over(start, settings)[i]]
            0 <= i < settings.len() ==> {
                let before = if i == 0 { start } else { settings[i - 1] };
                let plan = plans_over(start, settings)[i];
                &&& plan.switch_off == (before.powered && !settings[i].powered)
                &&& (0 < i && !settings[i - 1].powered ==> !plan.switch_off)
                &&& plan.retune == (if settings[i].oversampling != before.oversampling {
                    Some(oversampling_factor(settings[i].oversampling) as usize)
                } else {
                    None
                })
                &&& plan.publish == settings[i].powered
            },
{
}

} // verus!
