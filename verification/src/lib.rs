//! Voice activity detection: the verified core.
//!
//! This crate holds the integer and buffering logic of a voice activity
//! detector: byte-level decoding of PCM16, IEEE-754 float32 and G.711 µ-law and A-law
//! payloads, the buffers that cut a sample stream into resampler chunks and
//! model frames, the speech/silence state machine with its debounce and
//! hangover rules, model selection, and the integer parts of the TEN VAD
//! feature front end. Floating-point work (sample scaling, resampling,
//! inference, confidence averaging) is left to the caller.
pub mod audio;
pub mod detector;
pub mod inference;
pub mod pipeline;
pub mod timing;

pub use audio::{decode_audio, AudioFormat};
pub use detector::VoiceActivityDetectorCore;
pub use pipeline::AudioPipeline;
