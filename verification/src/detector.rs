//! The speech/silence state machine of the detector.
//!
//! The detector sees, for each model frame, whether the model's speech
//! confidence reached the threshold. From that it moves between silence,
//! pending speech and speech, with a debounce of `min_speech_frames`
//! above-threshold frames before speech starts, and `min_silence_frames`
//! plus `hangover_frames` below-threshold frames before speech ends. When
//! speech ends it reports the segment's bounds. The confidences themselves
//! are summed by the caller, as each step's [`ConfidenceAction`] directs.
use vstd::prelude::*;

verus! {

/// The phase of the detector.
#[derive(Clone, Copy, Debug, PartialEq, Eq, Structural)]
pub enum VadState {
    Silence,
    PendingSpeech,
    Speech,
}

/// The detector's timing parameters, counted in model frames.
#[derive(Clone, Copy, Debug, PartialEq, Eq, Structural)]
pub struct DetectorConfig {
    /// Above-threshold frames needed before speech starts.
    pub min_speech_frames: u32,
    /// Below-threshold frames that a segment's end lies before the frame on
    /// which speech is declared over.
    pub min_silence_frames: u32,
    /// Frames of padding kept after the last above-threshold frame.
    pub hangover_frames: u32,
    /// The duration of one model frame in milliseconds.
    pub frame_duration_ms: u32,
}

/// The detector's state between frames.
#[derive(Clone, Copy, Debug, PartialEq, Eq)]
pub struct DetectorSnapshot {
    pub state: VadState,
    /// Frames counted in the current phase: consecutive above-threshold
    /// frames while speech is pending, consecutive below-threshold frames
    /// while in speech.
    pub state_frames_count: u64,
    /// Frames processed since the start or the last reset.
    pub total_frames_processed: u64,
    /// The index of the first frame of the current speech segment.
    pub current_segment_start_frame: Option<u64>,
    /// How many frame confidences the current running sum holds.
    pub current_segment_conf_count: u64,
}

/// How the caller updates its running sum of frame confidences after a
/// step. When the step also completes a segment, the segment's confidence is
/// the updated sum divided by `confidence_frames`, and the sum then restarts
/// from zero.
#[derive(Clone, Copy, Debug, PartialEq, Eq, Structural)]
pub enum ConfidenceAction {
    /// Leave the sum as it is.
    Keep,
    /// Set the sum to this frame's confidence.
    Restart,
    /// Add this frame's confidence to the sum.
    Add,
    /// Set the sum to zero.
    Discard,
}

/// A completed speech segment.
#[derive(Clone, Copy, Debug, PartialEq, Eq, Structural)]
pub struct SegmentBounds {
    /// Index of the first frame of the segment.
    pub start_frame: u64,
    /// Index one past the last frame of the segment.
    pub end_frame: u64,
    /// `start_frame` in milliseconds, modulo `2^32`.
    pub start_ms: u32,
    /// `end_frame` in milliseconds, modulo `2^32`.
    pub end_ms: u32,
    /// How many frame confidences the segment's average is taken over.
    pub confidence_frames: u64,
}

/// What one step tells the caller.
#[derive(Clone, Copy, Debug, PartialEq, Eq)]
pub struct StepOutcome {
    pub action: ConfidenceAction,
    pub segment: Option<SegmentBounds>,
}

/// Frames converted to milliseconds, kept to 32 bits as a `u32` cast does.
pub open spec fn frames_to_ms(frames: u64, frame_duration_ms: u32) -> u32 {
    ((frames as int * frame_duration_ms as int) % 0x1_0000_0000) as u32
}

/// Below-threshold frames in a row that end a speech segment.
pub open spec fn silence_limit(cfg: DetectorConfig) -> int {
    cfg.min_silence_frames as int + cfg.hangover_frames as int
}

/// How many above-threshold frames in a row take the detector from silence
/// into speech: `min_speech_frames`, but never fewer than two, since the
/// first such frame only makes speech pending.
pub open spec fn onset_frames(cfg: DetectorConfig) -> int {
    if cfg.min_speech_frames < 2 {
        2
    } else {
        cfg.min_speech_frames as int
    }
}

/// The state before any frame.
pub open spec fn initial_snapshot() -> DetectorSnapshot {
    DetectorSnapshot {
        state: VadState::Silence,
        state_frames_count: 0,
        total_frames_processed: 0,
        current_segment_start_frame: None,
        current_segment_conf_count: 0,
    }
}

/// The states the detector can be in between frames.
pub open spec fn snapshot_wf(cfg: DetectorConfig, s: DetectorSnapshot) -> bool {
    match s.state {
        VadState::Silence => {
            &&& s.state_frames_count == 0
            &&& s.current_segment_start_frame is None
            &&& s.current_segment_conf_count == 0
        },
        VadState::PendingSpeech => {
            &&& 1 <= s.state_frames_count <= s.total_frames_processed
            &&& s.current_segment_conf_count == s.state_frames_count
            &&& s.current_segment_start_frame is None
            &&& (s.state_frames_count == 1 || s.state_frames_count < cfg.min_speech_frames)
        },
        VadState::Speech => {
            &&& s.current_segment_start_frame matches Some(start) && start
                + s.current_segment_conf_count == s.total_frames_processed
            &&& s.state_frames_count < s.current_segment_conf_count
            &&& (s.state_frames_count == 0 || s.state_frames_count < silence_limit(cfg))
            &&& s.current_segment_conf_count - s.state_frames_count >= onset_frames(cfg)
        },
    }
}

/// One frame of the state machine: the frame counter advances, and the
/// phase moves as the frame's confidence was at or above the threshold
/// (`above`) or not.
pub open spec fn step(cfg: DetectorConfig, s: DetectorSnapshot, above: bool) -> (
    DetectorSnapshot,
    StepOutcome,
) {
    let total = (s.total_frames_processed + 1) as u64;
    match s.state {
        VadState::Silence => if above {
            (
                DetectorSnapshot {
                    state: VadState::PendingSpeech,
                    state_frames_count: 1,
                    total_frames_processed: total,
                    current_segment_start_frame: s.current_segment_start_frame,
                    current_segment_conf_count: 1,
                },
                StepOutcome { action: ConfidenceAction::Restart, segment: None },
            )
        } else {
            (
                DetectorSnapshot { total_frames_processed: total, ..s },
                StepOutcome { action: ConfidenceAction::Keep, segment: None },
            )
        },
        VadState::PendingSpeech => if above {
            let count = (s.state_frames_count + 1) as u64;
            let conf = (s.current_segment_conf_count + 1) as u64;
            if count >= cfg.min_speech_frames {
                (
                    DetectorSnapshot {
                        state: VadState::Speech,
                        state_frames_count: 0,
                        total_frames_processed: total,
                        current_segment_start_frame: Some((total - count) as u64),
                        current_segment_conf_count: conf,
                    },
                    StepOutcome { action: ConfidenceAction::Add, segment: None },
                )
            } else {
                (
                    DetectorSnapshot {
                        state: VadState::PendingSpeech,
                        state_frames_count: count,
                        total_frames_processed: total,
                        current_segment_start_frame: s.current_segment_start_frame,
                        current_segment_conf_count: conf,
                    },
                    StepOutcome { action: ConfidenceAction::Add, segment: None },
                )
            }
        } else {
            (
                DetectorSnapshot {
                    state: VadState::Silence,
                    state_frames_count: 0,
                    total_frames_processed: total,
                    current_segment_start_frame: s.current_segment_start_frame,
                    current_segment_conf_count: 0,
                },
                StepOutcome { action: ConfidenceAction::Discard, segment: None },
            )
        },
        VadState::Speech => {
            let conf = (s.current_segment_conf_count + 1) as u64;
            if above {
                (
                    DetectorSnapshot {
                        state: VadState::Speech,
                        state_frames_count: 0,
                        total_frames_processed: total,
                        current_segment_start_frame: s.current_segment_start_frame,
                        current_segment_conf_count: conf,
                    },
                    StepOutcome { action: ConfidenceAction::Add, segment: None },
                )
            } else {
                let count = (s.state_frames_count + 1) as u64;
                if count >= silence_limit(cfg) {
                    let segment = match s.current_segment_start_frame {
                        Some(start) => {
                            let end = (total - cfg.min_silence_frames) as u64;
                            Some(
                                SegmentBounds {
                                    start_frame: start,
                                    end_frame: end,
                                    start_ms: frames_to_ms(start, cfg.frame_duration_ms),
                                    end_ms: frames_to_ms(end, cfg.frame_duration_ms),
                                    confidence_frames: conf,
                                },
                            )
                        },
                        None => None,
                    };
                    (
                        DetectorSnapshot {
                            state: VadState::Silence,
                            state_frames_count: 0,
                            total_frames_processed: total,
                            current_segment_start_frame: None,
                            current_segment_conf_count: 0,
                        },
                        StepOutcome { action: ConfidenceAction::Add, segment },
                    )
                } else {
                    (
                        DetectorSnapshot {
                            state: VadState::Speech,
                            state_frames_count: count,
                            total_frames_processed: total,
                            current_segment_start_frame: s.current_segment_start_frame,
                            current_segment_conf_count: conf,
                        },
                        StepOutcome { action: ConfidenceAction::Add, segment: None },
                    )
                }
            }
        },
    }
}

/// The state machine run over the above-threshold flags `flags`, one frame
/// each, in order: the final state and each frame's outcome.
pub open spec fn run(cfg: DetectorConfig, s: DetectorSnapshot, flags: Seq<bool>) -> (
    DetectorSnapshot,
    Seq<StepOutcome>,
)
    decreases flags.len(),
{
    if flags.len() == 0 {
        (s, Seq::empty())
    } else {
        let (mid, outs) = run(cfg, s, flags.drop_last());
        let (last, out) = step(cfg, mid, flags.last());
        (last, outs.push(out))
    }
}

/// Each step keeps the detector in a state it can be in.
pub proof fn lemma_step_wf(cfg: DetectorConfig, s: DetectorSnapshot, above: bool)
    requires
        snapshot_wf(cfg, s),
        s.total_frames_processed < u64::MAX,
    ensures
        snapshot_wf(cfg, step(cfg, s, above).0),
        step(cfg, s, above).0.total_frames_processed == s.total_frames_processed + 1,
{
}

/// A run keeps the detector in a state it can be in, and counts its frames.
pub proof fn lemma_run_wf(cfg: DetectorConfig, s: DetectorSnapshot, flags: Seq<bool>)
    requires
        snapshot_wf(cfg, s),
        s.total_frames_processed + flags.len() <= u64::MAX,
    ensures
        snapshot_wf(cfg, run(cfg, s, flags).0),
        run(cfg, s, flags).0.total_frames_processed == s.total_frames_processed + flags.len(),
        run(cfg, s, flags).1.len() == flags.len(),
    decreases flags.len(),
{
    if flags.len() > 0 {
        lemma_run_wf(cfg, s, flags.drop_last());
        lemma_step_wf(cfg, run(cfg, s, flags.drop_last()).0, flags.last());
    }
}

/// The duration of a model frame of `frame_size` samples at `target_rate`
/// Hz, in whole milliseconds, at least one and at most `u32::MAX`.
pub open spec fn frame_duration_ms(frame_size: usize, target_rate: u32) -> u32 {
    let ms = frame_size as int * 1000 / target_rate as int;
    if ms < 1 {
        1
    } else if ms > u32::MAX {
        u32::MAX
    } else {
        ms as u32
    }
}

/// The configuration for a model with frames of `frame_size` samples at
/// `target_rate` Hz: each duration in milliseconds becomes a whole number of
/// frames, rounded down.
pub open spec fn detector_config(
    frame_size: usize,
    target_rate: u32,
    min_speech_ms: u32,
    min_silence_ms: u32,
    hangover_ms: u32,
) -> DetectorConfig {
    let fd = frame_duration_ms(frame_size, target_rate);
    DetectorConfig {
        min_speech_frames: (min_speech_ms / fd) as u32,
        min_silence_frames: (min_silence_ms / fd) as u32,
        hangover_frames: (hangover_ms / fd) as u32,
        frame_duration_ms: fd,
    }
}

impl DetectorConfig {
    /// The configuration for a model with frames of `frame_size` samples at
    /// `target_rate` Hz: each duration in milliseconds becomes a whole number
    /// of frames, rounded down.
    pub fn new(
        frame_size: usize,
        target_rate: u32,
        min_speech_ms: u32,
        min_silence_ms: u32,
        hangover_ms: u32,
    ) -> (cfg: DetectorConfig)
        requires
            target_rate > 0,
        ensures
            cfg == detector_config(frame_size, target_rate, min_speech_ms, min_silence_ms, hangover_ms),
    {
        let ms: u128 = (frame_size as u128) * 1000 / (target_rate as u128);
        let frame_duration_ms: u32 = if ms < 1 {
            1
        } else if ms > u32::MAX as u128 {
            u32::MAX
        } else {
            ms as u32
        };
        DetectorConfig {
            min_speech_frames: min_speech_ms / frame_duration_ms,
            min_silence_frames: min_silence_ms / frame_duration_ms,
            hangover_frames: hangover_ms / frame_duration_ms,
            frame_duration_ms,
        }
    }
}

/// A time in milliseconds is the frame count times the frame duration,
/// reduced to 32 bits: exact while the product fits, and congruent to it
/// modulo `2^32` always.
pub proof fn lemma_frames_to_ms(frames: u64, frame_duration_ms: u32)
    ensures
        (frames_to_ms(frames, frame_duration_ms) as int - frames as int * frame_duration_ms as int)
            % 0x1_0000_0000 == 0,
        frames as int * frame_duration_ms as int <= u32::MAX ==> frames_to_ms(
            frames,
            frame_duration_ms,
        ) as int == frames as int * frame_duration_ms as int,
{
    let p = frames as int * frame_duration_ms as int;
    vstd::arithmetic::mul::lemma_mul_nonnegative(frames as int, frame_duration_ms as int);
    vstd::arithmetic::div_mod::lemma_fundamental_div_mod(p, 0x1_0000_0000);
    let q = p / 0x1_0000_0000;
    let r = p % 0x1_0000_0000;
    assert(r - p == (-q) * 0x1_0000_0000);
    vstd::arithmetic::div_mod::lemma_mod_multiples_basic(-q, 0x1_0000_0000);
    if p <= u32::MAX {
        vstd::arithmetic::div_mod::lemma_small_mod(p as nat, 0x1_0000_0000);
    }
}

/// The detector's frame counts are the millisecond durations divided by the
/// frame duration and rounded down, and the frame duration is at least one
/// millisecond.
pub proof fn lemma_config_rounds_down(
    frame_size: usize,
    target_rate: u32,
    min_speech_ms: u32,
    min_silence_ms: u32,
    hangover_ms: u32,
)
    ensures
        ({
            let cfg = detector_config(
                frame_size,
                target_rate,
                min_speech_ms,
                min_silence_ms,
                hangover_ms,
            );
            let fd = cfg.frame_duration_ms as int;
            &&& fd >= 1
            &&& cfg.min_speech_frames * fd <= min_speech_ms < (cfg.min_speech_frames + 1) * fd
            &&& cfg.min_silence_frames * fd <= min_silence_ms < (cfg.min_silence_frames + 1) * fd
            &&& cfg.hangover_frames * fd <= hangover_ms < (cfg.hangover_frames + 1) * fd
        }),
{
    let fd = frame_duration_ms(frame_size, target_rate) as int;
    assert(fd >= 1);
    vstd::arithmetic::div_mod::lemma_fundamental_div_mod(min_speech_ms as int, fd);
    vstd::arithmetic::div_mod::lemma_fundamental_div_mod(min_silence_ms as int, fd);
    vstd::arithmetic::div_mod::lemma_fundamental_div_mod(hangover_ms as int, fd);
    let q1 = min_speech_ms as int / fd;
    let q2 = min_silence_ms as int / fd;
    let q3 = hangover_ms as int / fd;
    assert(0 <= q1 <= min_speech_ms && 0 <= q2 <= min_silence_ms && 0 <= q3 <= hangover_ms) by {
        vstd::arithmetic::div_mod::lemma_div_pos_is_pos(min_speech_ms as int, fd);
        vstd::arithmetic::div_mod::lemma_div_pos_is_pos(min_silence_ms as int, fd);
        vstd::arithmetic::div_mod::lemma_div_pos_is_pos(hangover_ms as int, fd);
        vstd::arithmetic::div_mod::lemma_div_is_ordered_by_denominator(min_speech_ms as int, 1, fd);
        vstd::arithmetic::div_mod::lemma_div_is_ordered_by_denominator(min_silence_ms as int, 1, fd);
        vstd::arithmetic::div_mod::lemma_div_is_ordered_by_denominator(hangover_ms as int, 1, fd);
    }
    assert(q1 * fd <= min_speech_ms < (q1 + 1) * fd) by (nonlinear_arith)
        requires
            min_speech_ms as int == fd * q1 + min_speech_ms as int % fd,
            0 <= min_speech_ms as int % fd < fd,
    ;
    assert(q2 * fd <= min_silence_ms < (q2 + 1) * fd) by (nonlinear_arith)
        requires
            min_silence_ms as int == fd * q2 + min_silence_ms as int % fd,
            0 <= min_silence_ms as int % fd < fd,
    ;
    assert(q3 * fd <= hangover_ms < (q3 + 1) * fd) by (nonlinear_arith)
        requires
            hangover_ms as int == fd * q3 + hangover_ms as int % fd,
            0 <= hangover_ms as int % fd < fd,
    ;
}

/// A fresh (or reset) detector is silent, has seen no frame and holds no
/// segment or confidence.
pub proof fn lemma_initial_state(cfg: DetectorConfig)
    ensures
        initial_snapshot().state == VadState::Silence,
        initial_snapshot().total_frames_processed == 0,
        initial_snapshot().state_frames_count == 0,
        initial_snapshot().current_segment_start_frame is None,
        initial_snapshot().current_segment_conf_count == 0,
        snapshot_wf(cfg, initial_snapshot()),
{
}

/// Frames converted to milliseconds, kept to 32 bits.
pub fn frames_to_milliseconds(frames: u64, frame_duration_ms: u32) -> (ms: u32)
    ensures
        ms == frames_to_ms(frames, frame_duration_ms),
        (ms as int - frames as int * frame_duration_ms as int) % 0x1_0000_0000 == 0,
        frames as int * frame_duration_ms as int <= u32::MAX ==> ms as int == frames as int
            * frame_duration_ms as int,
{
    proof {
        lemma_frames_to_ms(frames, frame_duration_ms);
    }
    let low: u64 = frames % 0x1_0000_0000;
    let fd: u64 = frame_duration_ms as u64;
    assert(low * fd < 0x1_0000_0000 * 0x1_0000_0000) by (nonlinear_arith)
        requires
            low < 0x1_0000_0000,
            fd < 0x1_0000_0000,
    ;
    let product: u64 = low * fd;
    proof {
        vstd::arithmetic::div_mod::lemma_mul_mod_noop_left(
            frames as int,
            fd as int,
            0x1_0000_0000,
        );
    }
    (product % 0x1_0000_0000) as u32
}

/// The speech/silence state machine, with its configuration.
pub struct VoiceActivityDetectorCore {
    config: DetectorConfig,
    snap: DetectorSnapshot,
}

impl View for VoiceActivityDetectorCore {
    type V = DetectorSnapshot;

    closed spec fn view(&self) -> DetectorSnapshot {
        self.snap
    }
}

impl VoiceActivityDetectorCore {
    #[verifier::type_invariant]
    spec fn inv(self) -> bool {
        snapshot_wf(self.config, self.snap)
    }

    /// The configuration the detector runs with.
    pub closed spec fn spec_config(&self) -> DetectorConfig {
        self.config
    }

    /// A detector in silence that has seen no frame.
    pub fn new(config: DetectorConfig) -> (d: Self)
        ensures
            d.spec_config() == config,
            d@ == initial_snapshot(),
    {
        VoiceActivityDetectorCore { config, snap: DetectorSnapshot {
            state: VadState::Silence,
            state_frames_count: 0,
            total_frames_processed: 0,
            current_segment_start_frame: None,
            current_segment_conf_count: 0,
        } }
    }

    /// The configuration the detector runs with.
    pub fn config(&self) -> (cfg: DetectorConfig)
        ensures
            cfg == self.spec_config(),
    {
        self.config
    }

    /// The detector's current state.
    pub fn snapshot(&self) -> (s: DetectorSnapshot)
        ensures
            s == self@,
            snapshot_wf(self.spec_config(), s),
    {
        proof {
            use_type_invariant(self);
        }
        self.snap
    }

    /// Whether the detector is in speech.
    pub fn is_speech(&self) -> (b: bool)
        ensures
            b == (self@.state == VadState::Speech),
    {
        self.snap.state == VadState::Speech
    }

    /// Counts one more frame and moves the state machine on it, as
    /// [`step`] says; `is_above_threshold` tells whether the frame's
    /// confidence reached the threshold.
    pub fn advance_state_machine(&mut self, is_above_threshold: bool) -> (out: StepOutcome)
        requires
            old(self)@.total_frames_processed < u64::MAX,
        ensures
            final(self).spec_config() == old(self).spec_config(),
            (final(self)@, out) == step(old(self).spec_config(), old(self)@, is_above_threshold),
            snapshot_wf(final(self).spec_config(), final(self)@),
    {
        proof {
            use_type_invariant(&*self);
            lemma_step_wf(self.config, self.snap, is_above_threshold);
        }
        let cfg = self.config;
        let s = self.snap;
        let total = s.total_frames_processed + 1;
        let (next, out) = match s.state {
            VadState::Silence => {
                if is_above_threshold {
                    (
                        DetectorSnapshot {
                            state: VadState::PendingSpeech,
                            state_frames_count: 1,
                            total_frames_processed: total,
                            current_segment_start_frame: s.current_segment_start_frame,
                            current_segment_conf_count: 1,
                        },
                        StepOutcome { action: ConfidenceAction::Restart, segment: None },
                    )
                } else {
                    (
                        DetectorSnapshot { total_frames_processed: total, ..s },
                        StepOutcome { action: ConfidenceAction::Keep, segment: None },
                    )
                }
            },
            VadState::PendingSpeech => {
                if is_above_threshold {
                    let count = s.state_frames_count + 1;
                    let conf = s.current_segment_conf_count + 1;
                    if count >= cfg.min_speech_frames as u64 {
                        (
                            DetectorSnapshot {
                                state: VadState::Speech,
                                state_frames_count: 0,
                                total_frames_processed: total,
                                current_segment_start_frame: Some(total - count),
                                current_segment_conf_count: conf,
                            },
                            StepOutcome { action: ConfidenceAction::Add, segment: None },
                        )
                    } else {
                        (
                            DetectorSnapshot {
                                state: VadState::PendingSpeech,
                                state_frames_count: count,
                                total_frames_processed: total,
                                current_segment_start_frame: s.current_segment_start_frame,
                                current_segment_conf_count: conf,
                            },
                            StepOutcome { action: ConfidenceAction::Add, segment: None },
                        )
                    }
                } else {
                    (
                        DetectorSnapshot {
                            state: VadState::Silence,
                            state_frames_count: 0,
                            total_frames_processed: total,
                            current_segment_start_frame: s.current_segment_start_frame,
                            current_segment_conf_count: 0,
                        },
                        StepOutcome { action: ConfidenceAction::Discard, segment: None },
                    )
                }
            },
            VadState::Speech => {
                let conf = s.current_segment_conf_count + 1;
                if is_above_threshold {
                    (
                        DetectorSnapshot {
                            state: VadState::Speech,
                            state_frames_count: 0,
                            total_frames_processed: total,
                            current_segment_start_frame: s.current_segment_start_frame,
                            current_segment_conf_count: conf,
                        },
                        StepOutcome { action: ConfidenceAction::Add, segment: None },
                    )
                } else {
                    let count = s.state_frames_count + 1;
                    let limit: u64 = cfg.min_silence_frames as u64 + cfg.hangover_frames as u64;
                    if count >= limit {
                        let segment = match s.current_segment_start_frame {
                            Some(start) => {
                                let end = total - cfg.min_silence_frames as u64;
                                Some(
                                    SegmentBounds {
                                        start_frame: start,
                                        end_frame: end,
                                        start_ms: frames_to_milliseconds(
                                            start,
                                            cfg.frame_duration_ms,
                                        ),
                                        end_ms: frames_to_milliseconds(end, cfg.frame_duration_ms),
                                        confidence_frames: conf,
                                    },
                                )
                            },
                            None => None,
                        };
                        (
                            DetectorSnapshot {
                                state: VadState::Silence,
                                state_frames_count: 0,
                                total_frames_processed: total,
                                current_segment_start_frame: None,
                                current_segment_conf_count: 0,
                            },
                            StepOutcome { action: ConfidenceAction::Add, segment },
                        )
                    } else {
                        (
                            DetectorSnapshot {
                                state: VadState::Speech,
                                state_frames_count: count,
                                total_frames_processed: total,
                                current_segment_start_frame: s.current_segment_start_frame,
                                current_segment_conf_count: conf,
                            },
                            StepOutcome { action: ConfidenceAction::Add, segment: None },
                        )
                    }
                }
            },
        };
        self.snap = next;
        out
    }

    /// Runs the state machine over one batch of frames, given for each
    /// frame whether its confidence reached the threshold. Returns whether
    /// the detector is in speech afterwards, and each frame's outcome.
    pub fn process_frame(&mut self, above_threshold: &[bool]) -> (res: (bool, Vec<StepOutcome>))
        requires
            old(self)@.total_frames_processed + above_threshold@.len() <= u64::MAX,
        ensures
            final(self).spec_config() == old(self).spec_config(),
            (final(self)@, res.1@) == run(old(self).spec_config(), old(self)@, above_threshold@),
            res.0 == (final(self)@.state == VadState::Speech),
            snapshot_wf(final(self).spec_config(), final(self)@),
    {
        let ghost cfg = self.config;
        let ghost start = self@;
        let mut outcomes: Vec<StepOutcome> = Vec::new();
        let n = above_threshold.len();
        let mut i: usize = 0;
        proof {
            use_type_invariant(&*self);
            assert(above_threshold@.take(0) =~= Seq::<bool>::empty());
        }
        while i < n
            invariant
                n == above_threshold@.len(),
                i <= n,
                self.spec_config() == cfg,
                start.total_frames_processed + n <= u64::MAX,
                snapshot_wf(cfg, start),
                (self@, outcomes@) == run(cfg, start, above_threshold@.take(i as int)),
            decreases n - i,
        {
            proof {
                lemma_run_wf(cfg, start, above_threshold@.take(i as int));
                assert(above_threshold@.take(i + 1).drop_last() =~= above_threshold@.take(
                    i as int,
                ));
            }
            let out = self.advance_state_machine(above_threshold[i]);
            outcomes.push(out);
            i += 1;
        }
        proof {
            assert(above_threshold@.take(n as int) =~= above_threshold@);
            use_type_invariant(&*self);
        }
        (self.snap.state == VadState::Speech, outcomes)
    }

    /// Returns the detector to silence with no frame seen, keeping its
    /// configuration.
    pub fn reset(&mut self)
        ensures
            final(self).spec_config() == old(self).spec_config(),
            final(self)@ == initial_snapshot(),
    {
        self.snap = DetectorSnapshot {
            state: VadState::Silence,
            state_frames_count: 0,
            total_frames_processed: 0,
            current_segment_start_frame: None,
            current_segment_conf_count: 0,
        };
    }
}

} // verus!
