//! Model selection and the integer facts of each model: the sample rate it
//! runs at and the frame size it consumes.
use vstd::prelude::*;
use vstd::string::StrSliceExecFns;
use crate::detector::{DetectorConfig, detector_config, frame_duration_ms};

pub mod energy;
pub mod onnx;
pub mod ten_vad;

verus! {

/// The detection models the library offers.
#[derive(Clone, Copy, Debug, PartialEq, Eq, Structural)]
pub enum ModelKind {
    /// RMS energy on a dB scale.
    Energy,
    /// Silero VAD v5.
    Silero,
    /// TEN VAD.
    TenVad,
}

/// The model that the name `name` selects, if any.
pub open spec fn model_kind_of(name: Seq<char>) -> Option<ModelKind> {
    if name == "energy"@ {
        Some(ModelKind::Energy)
    } else if name == "silero"@ {
        Some(ModelKind::Silero)
    } else if name == "ten_vad"@ {
        Some(ModelKind::TenVad)
    } else {
        None
    }
}

/// The sample rate and frame size that `kind` runs at, for input at
/// `input_sample_rate` Hz.
pub open spec fn model_frame_config(kind: ModelKind, input_sample_rate: u32) -> (u32, usize) {
    match kind {
        ModelKind::Energy => (energy::ENERGY_SAMPLE_RATE, energy::ENERGY_FRAME_SIZE),
        ModelKind::Silero => onnx::silero_config(input_sample_rate),
        ModelKind::TenVad => (ten_vad::FS as u32, ten_vad::HOP_SIZE),
    }
}

/// Whether `a` and `b` hold the same characters.
fn same_text(a: &str, b: &str) -> (r: bool)
    ensures
        r == (a@ == b@),
{
    let n = a.unicode_len();
    if n != b.unicode_len() {
        return false;
    }
    let mut i: usize = 0;
    while i < n
        invariant
            n == a@.len(),
            n == b@.len(),
            i <= n,
            forall|j: int| 0 <= j < i ==> a@[j] == b@[j],
        decreases n - i,
    {
        if a.get_char(i) != b.get_char(i) {
            return false;
        }
        i += 1;
    }
    assert(a@ =~= b@);
    true
}

impl ModelKind {
    /// The model named `name`: `"energy"`, `"silero"` or `"ten_vad"`.
    pub fn from_name(name: &str) -> (r: Option<ModelKind>)
        ensures
            r == model_kind_of(name@),
    {
        if same_text(name, "energy") {
            Some(ModelKind::Energy)
        } else if same_text(name, "silero") {
            Some(ModelKind::Silero)
        } else if same_text(name, "ten_vad") {
            Some(ModelKind::TenVad)
        } else {
            None
        }
    }

    /// The sample rate the model runs at, for input at `input_sample_rate`.
    pub fn sample_rate(&self, input_sample_rate: u32) -> (r: u32)
        ensures
            r == model_frame_config(*self, input_sample_rate).0,
    {
        match self {
            ModelKind::Energy => energy::EnergyModel::new().sample_rate(),
            ModelKind::Silero => onnx::silero_frame_config(input_sample_rate).0,
            ModelKind::TenVad => ten_vad::FS as u32,
        }
    }

    /// The frame size the model consumes, for input at `input_sample_rate`.
    pub fn frame_size(&self, input_sample_rate: u32) -> (r: usize)
        ensures
            r == model_frame_config(*self, input_sample_rate).1,
    {
        match self {
            ModelKind::Energy => energy::EnergyModel::new().frame_size(),
            ModelKind::Silero => onnx::silero_frame_config(input_sample_rate).1,
            ModelKind::TenVad => ten_vad::HOP_SIZE,
        }
    }
}

/// The detector configuration for `kind` on input at `input_sample_rate`,
/// from durations in milliseconds.
pub fn config_for_model(
    kind: ModelKind,
    input_sample_rate: u32,
    min_speech_ms: u32,
    min_silence_ms: u32,
    hangover_ms: u32,
) -> (cfg: DetectorConfig)
    ensures
        cfg == detector_config(
            model_frame_config(kind, input_sample_rate).1,
            model_frame_config(kind, input_sample_rate).0,
            min_speech_ms,
            min_silence_ms,
            hangover_ms,
        ),
{
    let rate = kind.sample_rate(input_sample_rate);
    let frame_size = kind.frame_size(input_sample_rate);
    DetectorConfig::new(frame_size, rate, min_speech_ms, min_silence_ms, hangover_ms)
}

/// Every model's frame lasts a whole number of milliseconds: 32 ms for the
/// energy model and Silero, 16 ms for TEN VAD. Every model runs at 16 kHz,
/// except Silero on 8 kHz input, which runs at 8 kHz.
pub proof fn lemma_model_frame_durations(kind: ModelKind, input_sample_rate: u32)
    ensures
        ({
            let (rate, size) = model_frame_config(kind, input_sample_rate);
            &&& rate > 0
            &&& (rate == 16000 <==> !(kind == ModelKind::Silero && input_sample_rate == 8000))
            &&& (kind == ModelKind::Silero && input_sample_rate == 8000) ==> rate == 8000
            &&& size as int * 1000 % rate as int == 0
            &&& frame_duration_ms(size, rate) == if kind == ModelKind::TenVad {
                16u32
            } else {
                32u32
            }
        }),
{
    if kind == ModelKind::Silero && input_sample_rate == 8000 {
        assert(256 * 1000 / 8000 == 32 && 256 * 1000 % 8000 == 0) by (nonlinear_arith);
    } else if kind == ModelKind::TenVad {
        assert(256 * 1000 / 16000 == 16 && 256 * 1000 % 16000 == 0) by (nonlinear_arith);
    } else {
        assert(512 * 1000 / 16000 == 32 && 512 * 1000 % 16000 == 0) by (nonlinear_arith);
    }
}

/// Exactly three names select a model, each its own: `"energy"` the energy
/// model, `"silero"` Silero, `"ten_vad"` TEN VAD; any other name, however
/// close, selects none.
pub proof fn lemma_model_names(name: Seq<char>)
    ensures
        model_kind_of(name) is Some <==> (name == "energy"@ || name == "silero"@ || name
            == "ten_vad"@),
        name == "energy"@ ==> model_kind_of(name) == Some(ModelKind::Energy),
        name == "silero"@ ==> model_kind_of(name) == Some(ModelKind::Silero),
        name == "ten_vad"@ ==> model_kind_of(name) == Some(ModelKind::TenVad),
{
    reveal_strlit("energy");
    reveal_strlit("silero");
    reveal_strlit("ten_vad");
    assert("energy"@ != "silero"@ && "energy"@ != "ten_vad"@ && "silero"@ != "ten_vad"@) by {
        assert("energy"@[0] != "silero"@[0]);
        assert("energy"@[0] != "ten_vad"@[0]);
        assert("silero"@[0] != "ten_vad"@[0]);
    }
}

} // verus!
