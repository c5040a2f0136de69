//! Verified core of the Comp76Fx limiting amplifiers: the ratio switch
//! bank, the sample delay, the noise source, the meter's hand-off between
//! threads, the panel's switch parsing, and the preset rules.

pub mod dsp;
pub mod editor;
pub mod text;
pub mod meters;
pub mod params;
pub mod presets;
pub mod plugin;
