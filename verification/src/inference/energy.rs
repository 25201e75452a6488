//! The frame geometry of the RMS energy model.
use vstd::prelude::*;

verus! {

/// The sample rate the energy model runs at.
pub const ENERGY_SAMPLE_RATE: u32 = 16000;

/// The frame size, in samples, the energy model consumes.
pub const ENERGY_FRAME_SIZE: usize = 512;

/// The RMS energy model: it keeps no state between frames, only the rate
/// and frame size it runs at.
pub struct EnergyModel {
    sample_rate: u32,
    frame_size: usize,
}

impl EnergyModel {
    /// The rate the model runs at.
    pub closed spec fn spec_sample_rate(&self) -> u32 {
        self.sample_rate
    }

    /// The frame size the model consumes.
    pub closed spec fn spec_frame_size(&self) -> usize {
        self.frame_size
    }

    /// The energy model, at 16 kHz with frames of 512 samples.
    pub fn new() -> (m: Self)
        ensures
            m.spec_sample_rate() == ENERGY_SAMPLE_RATE,
            m.spec_frame_size() == ENERGY_FRAME_SIZE,
    {
        EnergyModel { sample_rate: ENERGY_SAMPLE_RATE, frame_size: ENERGY_FRAME_SIZE }
    }

    /// The rate the model runs at.
    pub fn sample_rate(&self) -> (r: u32)
        ensures
            r == self.spec_sample_rate(),
    {
        self.sample_rate
    }

    /// The frame size the model consumes.
    pub fn frame_size(&self) -> (r: usize)
        ensures
            r == self.spec_frame_size(),
    {
        self.frame_size
    }
}

} // verus!
