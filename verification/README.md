# vad_rs

A voice activity detector whose integer and buffering logic is verified
with Verus, wrapped by an ordinary Rust layer that does the floating-point
work and exposes the detector to Python.

## Layout

- `src/audio.rs` — decoding of PCM16, float32 and G.711 µ-law and A-law
  payloads into integer samples, with the laws of µ-law and A-law expansion
  (sign symmetry, monotonicity), the exactness of PCM16 decoding, and
  decoding's indifference to sample-aligned splits.
- `src/pipeline.rs` — the pre-resampling and frame buffers, which cut a
  sample stream into fixed-size pieces without losing or reordering samples,
  independently of how the stream is split into calls.
- `src/detector.rs` — the silence / pending-speech / speech state machine,
  specified step by step, and the detector configuration derived from the
  model's frame geometry.
- `src/timing.rs` — multi-frame laws of the state machine: speech onset
  after the debounce, short bursts ignored, silence stable, speech held
  through the hangover, segment bounds and minimum length, segments in
  order, confidence bookkeeping, and batch independence.
- `src/inference/` — model selection by name, each model's sample rate and
  frame size, and the integer parts of the TEN VAD front end (triangular
  mel filterbank, sliding buffers, pitch lag range).
- `app/` — Python bindings (pyo3), sample scaling to `f32`, resampling
  (rubato), FFT (rustfft), ONNX inference (ort), the threshold test and the
  averaging of segment confidences.
- `tests/` — tests of the library on concrete values.
