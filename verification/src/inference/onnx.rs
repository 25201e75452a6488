//! The frame geometry and recurrent state size of the Silero VAD model.
use vstd::prelude::*;

verus! {

/// The length of Silero's recurrent state, of shape `[2, 1, 128]`.
pub const SILERO_STATE_LEN: usize = 256;

/// The sample rate and frame size Silero runs at for input at
/// `input_sample_rate`: natively 8 kHz with 256-sample frames for 8 kHz
/// input, and 16 kHz with 512-sample frames for any other rate. Both frames
/// last 32 ms.
pub open spec fn silero_config(input_sample_rate: u32) -> (u32, usize) {
    if input_sample_rate == 8000 {
        (8000, 256)
    } else {
        (16000, 512)
    }
}

/// The sample rate and frame size Silero runs at for input at
/// `input_sample_rate`.
pub fn silero_frame_config(input_sample_rate: u32) -> (r: (u32, usize))
    ensures
        r == silero_config(input_sample_rate),
        input_sample_rate == 8000 ==> r == (8000u32, 256usize),
        input_sample_rate != 8000 ==> r == (16000u32, 512usize),
{
    match input_sample_rate {
        8000 => (8000, 256),
        _ => (16000, 512),
    }
}

/// Silero runs at 8 kHz only for 8 kHz input and at 16 kHz for every other
/// input rate, and its frames always last 32 ms.
pub proof fn lemma_silero_rates(input_sample_rate: u32)
    ensures
        (silero_config(input_sample_rate).0 == 8000) <==> (input_sample_rate == 8000),
        input_sample_rate != 8000 ==> silero_config(input_sample_rate) == (16000u32, 512usize),
        silero_config(input_sample_rate).0 == 8000 || silero_config(input_sample_rate).0 == 16000,
        silero_config(input_sample_rate).1 as int * 1000 == silero_config(input_sample_rate).0 as int
            * 32,
{
}

} // verus!
