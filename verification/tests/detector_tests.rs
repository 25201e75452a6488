use vad_rs::detector::{
    frames_to_milliseconds, ConfidenceAction, DetectorConfig, SegmentBounds, StepOutcome,
    VadState, VoiceActivityDetectorCore,
};

fn cfg(min_speech: u32, min_silence: u32, hangover: u32) -> DetectorConfig {
    DetectorConfig {
        min_speech_frames: min_speech,
        min_silence_frames: min_silence,
        hangover_frames: hangover,
        frame_duration_ms: 32,
    }
}

#[test]
fn config_from_default_parameters() {
    // Silero / energy at 16 kHz: 512-sample frames of 32 ms.
    let c = DetectorConfig::new(512, 16000, 250, 100, 300);
    assert_eq!(c.frame_duration_ms, 32);
    assert_eq!(c.min_speech_frames, 7);
    assert_eq!(c.min_silence_frames, 3);
    assert_eq!(c.hangover_frames, 9);
    // TEN VAD: 256-sample frames of 16 ms.
    let c = DetectorConfig::new(256, 16000, 250, 100, 300);
    assert_eq!(c.frame_duration_ms, 16);
    assert_eq!(c.min_speech_frames, 15);
    assert_eq!(c.min_silence_frames, 6);
    assert_eq!(c.hangover_frames, 18);
    // Silero at 8 kHz: 256-sample frames of 32 ms.
    assert_eq!(DetectorConfig::new(256, 8000, 0, 0, 0).frame_duration_ms, 32);
}

#[test]
fn config_frame_duration_is_at_least_one_ms() {
    let c = DetectorConfig::new(1, 16000, 5, 6, 7);
    assert_eq!(c.frame_duration_ms, 1);
    assert_eq!(c.min_speech_frames, 5);
    assert_eq!(c.min_silence_frames, 6);
    assert_eq!(c.hangover_frames, 7);
}

#[test]
fn milliseconds_wrap_to_32_bits() {
    assert_eq!(frames_to_milliseconds(10, 32), 320);
    assert_eq!(frames_to_milliseconds(0, 32), 0);
    let big: u64 = (1u64 << 32) + 5;
    assert_eq!(frames_to_milliseconds(big, 3), 15);
    assert_eq!(
        frames_to_milliseconds(u64::MAX, u32::MAX),
        ((u64::MAX as u128 * u32::MAX as u128) % (1u128 << 32)) as u32
    );
}

#[test]
fn new_detector_is_silent() {
    let d = VoiceActivityDetectorCore::new(cfg(3, 2, 1));
    let s = d.snapshot();
    assert_eq!(s.state, VadState::Silence);
    assert_eq!(s.total_frames_processed, 0);
    assert!(!d.is_speech());
    assert_eq!(d.config(), cfg(3, 2, 1));
}

#[test]
fn speech_starts_after_min_speech_frames() {
    let mut d = VoiceActivityDetectorCore::new(cfg(3, 2, 1));
    let o = d.advance_state_machine(true);
    assert_eq!(o, StepOutcome { action: ConfidenceAction::Restart, segment: None });
    assert_eq!(d.snapshot().state, VadState::PendingSpeech);
    let o = d.advance_state_machine(true);
    assert_eq!(o.action, ConfidenceAction::Add);
    assert_eq!(d.snapshot().state, VadState::PendingSpeech);
    d.advance_state_machine(true);
    let s = d.snapshot();
    assert_eq!(s.state, VadState::Speech);
    assert_eq!(s.current_segment_start_frame, Some(0));
    assert_eq!(s.current_segment_conf_count, 3);
}

#[test]
fn one_frame_never_starts_speech() {
    // With no debounce, speech still needs a second above-threshold frame.
    let mut d = VoiceActivityDetectorCore::new(cfg(0, 0, 0));
    d.advance_state_machine(true);
    assert_eq!(d.snapshot().state, VadState::PendingSpeech);
    d.advance_state_machine(true);
    assert_eq!(d.snapshot().state, VadState::Speech);
    assert_eq!(d.snapshot().current_segment_start_frame, Some(0));
}

#[test]
fn short_burst_is_ignored() {
    let mut d = VoiceActivityDetectorCore::new(cfg(4, 2, 1));
    let (speech, outs) = d.process_frame(&[false, true, true, false, false]);
    assert!(!speech);
    assert_eq!(d.snapshot().state, VadState::Silence);
    assert!(outs.iter().all(|o| o.segment.is_none()));
    let actions: Vec<ConfidenceAction> = outs.iter().map(|o| o.action).collect();
    assert_eq!(
        actions,
        vec![
            ConfidenceAction::Keep,
            ConfidenceAction::Restart,
            ConfidenceAction::Add,
            ConfidenceAction::Discard,
            ConfidenceAction::Keep
        ]
    );
    assert_eq!(d.snapshot().total_frames_processed, 5);
}

#[test]
fn segment_ends_with_hangover() {
    // min_speech 2, min_silence 2, hangover 3: speech ends on the fifth
    // below-threshold frame in a row.
    let mut d = VoiceActivityDetectorCore::new(cfg(2, 2, 3));
    let flags = [false, true, true, true, false, false, false, false];
    let (speech, outs) = d.process_frame(&flags);
    assert!(speech);
    assert!(outs.iter().all(|o| o.segment.is_none()));
    let (speech, outs) = d.process_frame(&[false]);
    assert!(!speech);
    let seg = outs[0].segment.expect("segment completed");
    // Speech frames are 1..=3; the last one is frame 3, so with three frames
    // of hangover the segment ends at frame 7 (exclusive).
    assert_eq!(
        seg,
        SegmentBounds {
            start_frame: 1,
            end_frame: 7,
            start_ms: 32,
            end_ms: 224,
            confidence_frames: 8,
        }
    );
    assert_eq!(outs[0].action, ConfidenceAction::Add);
    assert_eq!(d.snapshot().state, VadState::Silence);
}

#[test]
fn speech_holds_through_short_pauses() {
    let mut d = VoiceActivityDetectorCore::new(cfg(2, 1, 1));
    d.process_frame(&[true, true]);
    assert!(d.is_speech());
    // One below-threshold frame is fewer than min_silence + hangover = 2.
    let (speech, outs) = d.process_frame(&[false, true, false, true]);
    assert!(speech);
    assert!(outs.iter().all(|o| o.segment.is_none()));
    let (speech, outs) = d.process_frame(&[false, false]);
    assert!(!speech);
    let seg = outs[1].segment.unwrap();
    assert_eq!(seg.start_frame, 0);
    assert_eq!(seg.end_frame, 7);
    assert_eq!(seg.confidence_frames, 8);
}

#[test]
fn zero_silence_limit_ends_on_first_pause() {
    let mut d = VoiceActivityDetectorCore::new(cfg(2, 0, 0));
    d.process_frame(&[true, true, true]);
    let (speech, outs) = d.process_frame(&[false]);
    assert!(!speech);
    let seg = outs[0].segment.unwrap();
    assert_eq!(seg.start_frame, 0);
    assert_eq!(seg.end_frame, 4);
    assert_eq!(seg.confidence_frames, 4);
}

#[test]
fn empty_batch_reports_current_state() {
    let mut d = VoiceActivityDetectorCore::new(cfg(1, 1, 1));
    let (speech, outs) = d.process_frame(&[]);
    assert!(!speech);
    assert!(outs.is_empty());
    d.process_frame(&[true, true]);
    let (speech, outs) = d.process_frame(&[]);
    assert!(speech);
    assert!(outs.is_empty());
}

#[test]
fn reset_returns_to_initial_state() {
    let c = cfg(2, 1, 1);
    let mut d = VoiceActivityDetectorCore::new(c);
    d.process_frame(&[true, true, true, false]);
    assert!(d.snapshot().total_frames_processed > 0);
    d.reset();
    let fresh = VoiceActivityDetectorCore::new(c);
    assert_eq!(d.snapshot(), fresh.snapshot());
    assert_eq!(d.config(), c);
}

#[test]
fn several_segments_in_one_batch() {
    let mut d = VoiceActivityDetectorCore::new(cfg(2, 1, 0));
    let flags = [true, true, false, true, true, true, false, false];
    let (_, outs) = d.process_frame(&flags);
    let segs: Vec<SegmentBounds> = outs.iter().filter_map(|o| o.segment).collect();
    assert_eq!(segs.len(), 2);
    assert_eq!((segs[0].start_frame, segs[0].end_frame), (0, 2));
    assert_eq!((segs[1].start_frame, segs[1].end_frame), (3, 6));
    for s in segs {
        assert!(s.start_frame < s.end_frame);
    }
}

#[test]
fn frame_by_frame_equals_one_batch() {
    let c = cfg(3, 2, 2);
    let flags = [
        false, true, true, true, true, false, true, false, false, false, false, true, true,
        false, true, true, true, false, false, false, false, false, true,
    ];
    let mut batch = VoiceActivityDetectorCore::new(c);
    let (speech_batch, outs_batch) = batch.process_frame(&flags);
    let mut single = VoiceActivityDetectorCore::new(c);
    let mut outs_single = Vec::new();
    let mut speech_single = false;
    for f in flags {
        let (s, o) = single.process_frame(&[f]);
        speech_single = s;
        outs_single.extend(o);
    }
    assert_eq!(outs_batch, outs_single);
    assert_eq!(speech_batch, speech_single);
    assert_eq!(batch.snapshot(), single.snapshot());
    let segs: Vec<SegmentBounds> = outs_batch.iter().filter_map(|o| o.segment).collect();
    assert_eq!(segs.len(), 2);
    for s in &segs {
        assert!(s.start_ms < s.end_ms);
        assert_eq!(s.end_ms - s.start_ms, (s.end_frame - s.start_frame) as u32 * 32);
    }
}

#[test]
fn confidence_bookkeeping_divides_by_frames_summed() {
    let mut d = VoiceActivityDetectorCore::new(cfg(2, 1, 1));
    let flags = [true, false, true, true, true, false, true, false, false, true, true, false, false];
    let (_, outs) = d.process_frame(&flags);
    // Sum the frame indices as stand-in confidences, the way a caller sums
    // its float confidences.
    let mut sum: u64 = 0;
    let mut held: u64 = 0;
    let mut averages = Vec::new();
    for (i, o) in outs.iter().enumerate() {
        let c = i as u64 + 1;
        match o.action {
            ConfidenceAction::Keep => {}
            ConfidenceAction::Restart => {
                sum = c;
                held = 1;
            }
            ConfidenceAction::Add => {
                sum += c;
                held += 1;
            }
            ConfidenceAction::Discard => {
                sum = 0;
                held = 0;
            }
        }
        if let Some(seg) = o.segment {
            assert_eq!(held, seg.confidence_frames);
            averages.push((sum, seg.confidence_frames, seg.start_frame, seg.end_frame));
            sum = 0;
            held = 0;
        }
    }
    // Speech starts at frame 2 (0-based); the pause at frame 5 is too short,
    // and frames 7 and 8 end it. The sum covers frames 2..=8, that is the
    // confidences 3 + 4 + ... + 9, and the segment ends one frame of
    // hangover after the last speech frame 6.
    assert_eq!(averages[0], (42, 7, 2, 8));
    assert_eq!(averages[1], (10 + 11 + 12 + 13, 4, 9, 12));
    assert_eq!(averages.len(), 2);
    assert_eq!(held as u64, d.snapshot().current_segment_conf_count);
}

#[test]
fn segments_last_at_least_onset_plus_hangover_and_come_in_order() {
    let c = cfg(4, 1, 2);
    let mut d = VoiceActivityDetectorCore::new(c);
    let mut flags = Vec::new();
    for k in 0..40u32 {
        flags.push(k % 10 < 5 || k % 13 == 0);
    }
    let (_, outs) = d.process_frame(&flags);
    let segs: Vec<SegmentBounds> = outs.iter().filter_map(|o| o.segment).collect();
    assert!(!segs.is_empty());
    for s in &segs {
        assert!(s.end_frame - s.start_frame >= 4 + 2);
    }
    for w in segs.windows(2) {
        assert!(w[0].end_frame <= w[1].start_frame);
    }
}
