//! How the detector behaves over runs of frames: speech onset after the
//! debounce, short bursts ignored, silence stable, speech held through the
//! hangover, the bounds of the segments it reports, the bookkeeping of
//! segment confidences, and independence from how frames are batched.
use vstd::prelude::*;
use crate::detector::{
    ConfidenceAction, DetectorConfig, DetectorSnapshot, VadState, onset_frames, run, step, snapshot_wf, silence_limit,
    lemma_run_wf, lemma_step_wf,
};

verus! {

/// `k` frames that all have the same flag.
pub open spec fn repeated(flag: bool, k: nat) -> Seq<bool> {
    Seq::new(k, |i: int| flag)
}

/// No outcome among `outs` completes a segment.
pub open spec fn no_segment(outs: Seq<crate::detector::StepOutcome>) -> bool {
    forall|j: int| 0 <= j < outs.len() ==> (#[trigger] outs[j]).segment is None
}

proof fn lemma_repeated_drop_last(flag: bool, k: nat)
    requires
        k > 0,
    ensures
        repeated(flag, k).drop_last() == repeated(flag, (k - 1) as nat),
        repeated(flag, k).last() == flag,
{
    assert(repeated(flag, k).drop_last() =~= repeated(flag, (k - 1) as nat));
}

/// Speech onset: from silence, above-threshold frames make speech pending,
/// and the `onset_frames`-th one in a row starts speech, with the segment
/// starting at the first of them. No segment is reported on the way.
pub proof fn lemma_speech_onset(cfg: DetectorConfig, s: DetectorSnapshot, k: nat)
    requires
        snapshot_wf(cfg, s),
        s.state == VadState::Silence,
        1 <= k <= onset_frames(cfg),
        s.total_frames_processed + k <= u64::MAX,
    ensures
        k < onset_frames(cfg) ==> {
            &&& run(cfg, s, repeated(true, k)).0.state == VadState::PendingSpeech
            &&& run(cfg, s, repeated(true, k)).0.state_frames_count == k
        },
        k == onset_frames(cfg) ==> {
            &&& run(cfg, s, repeated(true, k)).0.state == VadState::Speech
            &&& run(cfg, s, repeated(true, k)).0.current_segment_start_frame == Some(
                s.total_frames_processed,
            )
        },
        no_segment(run(cfg, s, repeated(true, k)).1),
    decreases k,
{
    lemma_repeated_drop_last(true, k);
    let prev = run(cfg, s, repeated(true, (k - 1) as nat));
    if k == 1 {
        assert(repeated(true, 0) =~= Seq::<bool>::empty());
    } else {
        lemma_speech_onset(cfg, s, (k - 1) as nat);
        lemma_run_wf(cfg, s, repeated(true, (k - 1) as nat));
    }
    assert(prev.0.total_frames_processed == s.total_frames_processed + k - 1) by {
        lemma_run_wf(cfg, s, repeated(true, (k - 1) as nat));
    }
    let outs = run(cfg, s, repeated(true, k)).1;
    assert(outs == prev.1.push(step(cfg, prev.0, true).1));
    assert forall|j: int| 0 <= j < outs.len() implies (#[trigger] outs[j]).segment is None by {
        if j < prev.1.len() {
            assert(outs[j] == prev.1[j]);
        }
    }
}

/// Debounce: from silence, a burst of fewer than `onset_frames`
/// above-threshold frames followed by one below-threshold frame leaves the
/// detector in silence, with no segment reported.
pub proof fn lemma_short_burst_ignored(cfg: DetectorConfig, s: DetectorSnapshot, k: nat)
    requires
        snapshot_wf(cfg, s),
        s.state == VadState::Silence,
        1 <= k < onset_frames(cfg),
        s.total_frames_processed + k + 1 <= u64::MAX,
    ensures
        run(cfg, s, repeated(true, k).push(false)).0.state == VadState::Silence,
        no_segment(run(cfg, s, repeated(true, k).push(false)).1),
{
    lemma_speech_onset(cfg, s, k);
    let flags = repeated(true, k).push(false);
    assert(flags.drop_last() =~= repeated(true, k));
    let prev = run(cfg, s, repeated(true, k));
    let outs = run(cfg, s, flags).1;
    assert(outs == prev.1.push(step(cfg, prev.0, false).1));
    assert forall|j: int| 0 <= j < outs.len() implies (#[trigger] outs[j]).segment is None by {
        if j < prev.1.len() {
            assert(outs[j] == prev.1[j]);
        }
    }
}

/// Silence holds: below-threshold frames leave a silent detector silent,
/// counting only the frames.
pub proof fn lemma_silence_holds(cfg: DetectorConfig, s: DetectorSnapshot, k: nat)
    requires
        snapshot_wf(cfg, s),
        s.state == VadState::Silence,
        s.total_frames_processed + k <= u64::MAX,
    ensures
        run(cfg, s, repeated(false, k)).0 == (DetectorSnapshot {
            total_frames_processed: (s.total_frames_processed + k) as u64,
            ..s
        }),
        no_segment(run(cfg, s, repeated(false, k)).1),
    decreases k,
{
    if k == 0 {
        assert(repeated(false, 0) =~= Seq::<bool>::empty());
    } else {
        lemma_repeated_drop_last(false, k);
        lemma_silence_holds(cfg, s, (k - 1) as nat);
        let prev = run(cfg, s, repeated(false, (k - 1) as nat));
        let outs = run(cfg, s, repeated(false, k)).1;
        assert(outs == prev.1.push(step(cfg, prev.0, false).1));
        assert forall|j: int| 0 <= j < outs.len() implies (#[trigger] outs[j]).segment is None by {
            if j < prev.1.len() {
                assert(outs[j] == prev.1[j]);
            }
        }
    }
}

/// Hangover: after an above-threshold frame in speech, speech holds through
/// fewer than `min_silence_frames + hangover_frames` below-threshold frames
/// in a row; the one that completes that many ends speech and reports the
/// segment, from its start to `hangover_frames` frames past the last
/// above-threshold frame.
pub proof fn lemma_speech_offset(cfg: DetectorConfig, s: DetectorSnapshot, k: nat)
    requires
        snapshot_wf(cfg, s),
        s.state == VadState::Speech,
        s.state_frames_count == 0,
        1 <= k <= silence_limit(cfg),
        s.total_frames_processed + k <= u64::MAX,
    ensures
        k < silence_limit(cfg) ==> {
            &&& run(cfg, s, repeated(false, k)).0.state == VadState::Speech
            &&& run(cfg, s, repeated(false, k)).0.state_frames_count == k
            &&& run(cfg, s, repeated(false, k)).0.current_segment_start_frame
                == s.current_segment_start_frame
            &&& no_segment(run(cfg, s, repeated(false, k)).1)
        },
        k == silence_limit(cfg) ==> {
            let outs = run(cfg, s, repeated(false, k)).1;
            &&& run(cfg, s, repeated(false, k)).0.state == VadState::Silence
            &&& no_segment(outs.drop_last())
            &&& outs.last().segment matches Some(seg) && {
                &&& Some(seg.start_frame) == s.current_segment_start_frame
                &&& seg.end_frame == s.total_frames_processed + cfg.hangover_frames
                &&& seg.confidence_frames == s.current_segment_conf_count + k
            }
        },
    decreases k,
{
    lemma_repeated_drop_last(false, k);
    let prev = run(cfg, s, repeated(false, (k - 1) as nat));
    if k == 1 {
        assert(repeated(false, 0) =~= Seq::<bool>::empty());
    } else {
        lemma_speech_offset(cfg, s, (k - 1) as nat);
    }
    lemma_run_wf(cfg, s, repeated(false, (k - 1) as nat));
    let outs = run(cfg, s, repeated(false, k)).1;
    assert(outs == prev.1.push(step(cfg, prev.0, false).1));
    assert(outs.drop_last() =~= prev.1);
    if k < silence_limit(cfg) {
        assert forall|j: int| 0 <= j < outs.len() implies (#[trigger] outs[j]).segment is None by {
            if j < prev.1.len() {
                assert(outs[j] == prev.1[j]);
            }
        }
    }
}

/// Every segment the detector reports starts before it ends, lasts at least
/// the speech onset (`onset_frames`, so at least `min_speech_frames`) plus
/// the hangover, ends no later than the frames seen, averages its confidence over the frames from its
/// start to the frame that ends it, and ends `hangover_frames` frames past
/// the last above-threshold frame when speech ends on a count of at least
/// one.
pub proof fn lemma_segment_bounds(cfg: DetectorConfig, s: DetectorSnapshot, above: bool)
    requires
        snapshot_wf(cfg, s),
        s.total_frames_processed < u64::MAX,
    ensures
        step(cfg, s, above).1.segment matches Some(seg) ==> {
            let total = step(cfg, s, above).0.total_frames_processed;
            &&& seg.start_frame < seg.end_frame <= total
            &&& seg.confidence_frames == total - seg.start_frame
            &&& seg.end_frame - seg.start_frame > cfg.hangover_frames
            &&& seg.end_frame - seg.start_frame >= onset_frames(cfg) + cfg.hangover_frames
            &&& silence_limit(cfg) >= 1 ==> seg.end_frame == total - silence_limit(cfg)
                + cfg.hangover_frames
            &&& seg.start_ms == crate::detector::frames_to_ms(seg.start_frame, cfg.frame_duration_ms)
            &&& seg.end_ms == crate::detector::frames_to_ms(seg.end_frame, cfg.frame_duration_ms)
        },
{
    lemma_step_wf(cfg, s, above);
}

/// A segment's times are its frame bounds scaled by the frame duration,
/// so, as long as they fit in 32 bits, its start precedes its end by its
/// length in frames times the frame duration.
pub proof fn lemma_segment_milliseconds(seg: crate::detector::SegmentBounds, frame_duration_ms: u32)
    requires
        seg.start_ms == crate::detector::frames_to_ms(seg.start_frame, frame_duration_ms),
        seg.end_ms == crate::detector::frames_to_ms(seg.end_frame, frame_duration_ms),
        seg.start_frame < seg.end_frame,
        frame_duration_ms >= 1,
        seg.end_frame * frame_duration_ms < 0x1_0000_0000,
    ensures
        seg.start_ms < seg.end_ms,
        seg.end_ms - seg.start_ms == (seg.end_frame - seg.start_frame) * frame_duration_ms,
{
    let fd = frame_duration_ms as int;
    let a = seg.start_frame as int;
    let b = seg.end_frame as int;
    assert(0 <= a * fd < b * fd) by (nonlinear_arith)
        requires
            0 <= a < b,
            fd >= 1,
    ;
    assert(b * fd - a * fd == (b - a) * fd) by (nonlinear_arith);
    vstd::arithmetic::div_mod::lemma_small_mod((a * fd) as nat, 0x1_0000_0000);
    vstd::arithmetic::div_mod::lemma_small_mod((b * fd) as nat, 0x1_0000_0000);
}

/// Feeding frames in two batches leaves the detector where feeding them in
/// one batch does, with the same outcomes in the same order.
pub proof fn lemma_run_split(cfg: DetectorConfig, s: DetectorSnapshot, a: Seq<bool>, b: Seq<bool>)
    ensures
        run(cfg, s, a + b).0 == run(cfg, run(cfg, s, a).0, b).0,
        run(cfg, s, a + b).1 == run(cfg, s, a).1 + run(cfg, run(cfg, s, a).0, b).1,
    decreases b.len(),
{
    let mid = run(cfg, s, a);
    if b.len() == 0 {
        assert(a + b =~= a);
        assert(mid.1 + Seq::<crate::detector::StepOutcome>::empty() =~= mid.1);
    } else {
        assert((a + b).drop_last() =~= a + b.drop_last());
        assert((a + b).last() == b.last());
        lemma_run_split(cfg, s, a, b.drop_last());
        let rest = run(cfg, mid.0, b.drop_last());
        let out = step(cfg, rest.0, b.last()).1;
        assert(mid.1 + rest.1.push(out) =~= (mid.1 + rest.1).push(out));
    }
}

/// How many frame confidences a running sum holds after `action`, when it
/// held `count` before.
pub open spec fn counted_after(count: int, action: ConfidenceAction) -> int {
    match action {
        ConfidenceAction::Keep => count,
        ConfidenceAction::Restart => 1,
        ConfidenceAction::Add => count + 1,
        ConfidenceAction::Discard => 0,
    }
}

/// The confidence bookkeeping matches the detector's count: a caller that
/// applies each step's action to its running sum holds exactly
/// `current_segment_conf_count` confidences, and when a segment completes it
/// divides by exactly the number of confidences in its sum, which is at
/// least one, and starts again from none.
pub proof fn lemma_confidence_bookkeeping(cfg: DetectorConfig, s: DetectorSnapshot, above: bool)
    requires
        snapshot_wf(cfg, s),
        s.total_frames_processed < u64::MAX,
    ensures
        ({
            let (next, out) = step(cfg, s, above);
            let held = counted_after(s.current_segment_conf_count as int, out.action);
            match out.segment {
                Some(seg) => {
                    &&& held == seg.confidence_frames
                    &&& held >= 1
                    &&& next.current_segment_conf_count == 0
                },
                None => next.current_segment_conf_count == held,
            }
        }),
{
    lemma_step_wf(cfg, s, above);
}

/// A segment is reported only on a below-threshold frame that takes the
/// detector from speech to silence, at most one per frame.
pub proof fn lemma_segment_only_at_speech_end(cfg: DetectorConfig, s: DetectorSnapshot, above: bool)
    ensures
        step(cfg, s, above).1.segment is Some ==> {
            &&& s.state == VadState::Speech
            &&& !above
            &&& step(cfg, s, above).0.state == VadState::Silence
        },
{
}

/// The earliest frame at which a segment not yet reported can start: the
/// frames seen in silence, the first pending frame while speech is pending,
/// and the segment's start in speech.
pub open spec fn open_bound(s: DetectorSnapshot) -> int {
    match s.state {
        VadState::Silence => s.total_frames_processed as int,
        VadState::PendingSpeech => s.total_frames_processed - s.state_frames_count,
        VadState::Speech => match s.current_segment_start_frame {
            Some(start) => start as int,
            None => s.total_frames_processed as int,
        },
    }
}

/// The segments among `outs` come in order and do not overlap.
pub open spec fn segments_ordered(outs: Seq<crate::detector::StepOutcome>) -> bool {
    forall|i: int, j: int|
        0 <= i < j < outs.len() && (#[trigger] outs[i]).segment is Some && (
        #[trigger] outs[j]).segment is Some ==> outs[i].segment.unwrap().end_frame
            <= outs[j].segment.unwrap().start_frame
}

/// One step never moves the open bound back; a segment it reports starts at
/// the bound before the step and ends by the bound after it.
proof fn lemma_step_open_bound(cfg: DetectorConfig, s: DetectorSnapshot, above: bool)
    requires
        snapshot_wf(cfg, s),
        s.total_frames_processed < u64::MAX,
    ensures
        open_bound(s) <= open_bound(step(cfg, s, above).0),
        step(cfg, s, above).1.segment matches Some(seg) ==> {
            &&& seg.start_frame == open_bound(s)
            &&& seg.end_frame <= open_bound(step(cfg, s, above).0)
        },
{
}

/// Over any run of frames, the segments reported come in order without
/// overlapping, and none starts before the open bound of the first state or
/// ends after that of the last.
pub proof fn lemma_segments_in_order(cfg: DetectorConfig, s: DetectorSnapshot, flags: Seq<bool>)
    requires
        snapshot_wf(cfg, s),
        s.total_frames_processed + flags.len() <= u64::MAX,
    ensures
        open_bound(s) <= open_bound(run(cfg, s, flags).0),
        segments_ordered(run(cfg, s, flags).1),
        forall|j: int|
            0 <= j < run(cfg, s, flags).1.len() && (#[trigger] run(cfg, s, flags).1[j]).segment is Some
                ==> {
                &&& open_bound(s) <= run(cfg, s, flags).1[j].segment.unwrap().start_frame
                &&& run(cfg, s, flags).1[j].segment.unwrap().end_frame <= open_bound(
                    run(cfg, s, flags).0,
                )
            },
    decreases flags.len(),
{
    lemma_run_wf(cfg, s, flags);
    if flags.len() > 0 {
        let prev = flags.drop_last();
        lemma_segments_in_order(cfg, s, prev);
        lemma_run_wf(cfg, s, prev);
        let mid = run(cfg, s, prev);
        let (last, out) = step(cfg, mid.0, flags.last());
        lemma_step_open_bound(cfg, mid.0, flags.last());
        lemma_step_wf(cfg, mid.0, flags.last());
        lemma_segment_bounds(cfg, mid.0, flags.last());
        let outs = run(cfg, s, flags).1;
        assert(outs == mid.1.push(out));
        assert forall|j: int|
            0 <= j < outs.len() && (#[trigger] outs[j]).segment is Some implies {
            &&& open_bound(s) <= outs[j].segment.unwrap().start_frame
            &&& outs[j].segment.unwrap().end_frame <= open_bound(last)
        } by {
            if j < mid.1.len() {
                assert(outs[j] == mid.1[j]);
            }
        }
        assert forall|i: int, j: int|
            0 <= i < j < outs.len() && (#[trigger] outs[i]).segment is Some && (
            #[trigger] outs[j]).segment is Some implies outs[i].segment.unwrap().end_frame
            <= outs[j].segment.unwrap().start_frame by {
            assert(outs[i] == mid.1[i]);
            if j < mid.1.len() {
                assert(outs[j] == mid.1[j]);
            } else {
                assert(outs[j] == out);
            }
        }
    }
}

/// In speech, an above-threshold frame keeps speech going and clears the
/// count of below-threshold frames, whatever that count was; no segment
/// ends on it and the segment keeps its start.
pub proof fn lemma_speech_frame_clears_pause(cfg: DetectorConfig, s: DetectorSnapshot)
    requires
        s.state == VadState::Speech,
    ensures
        step(cfg, s, true).0.state == VadState::Speech,
        step(cfg, s, true).0.state_frames_count == 0,
        step(cfg, s, true).0.current_segment_start_frame == s.current_segment_start_frame,
        step(cfg, s, true).1.segment is None,
{
}

/// From any speech state, one above-threshold frame followed by fewer than
/// `min_silence_frames + hangover_frames` below-threshold frames leaves the
/// detector in speech, with no segment reported; the pause that ends speech
/// is counted from the last above-threshold frame.
pub proof fn lemma_pause_after_speech_frame(cfg: DetectorConfig, s: DetectorSnapshot, k: nat)
    requires
        snapshot_wf(cfg, s),
        s.state == VadState::Speech,
        k < silence_limit(cfg),
        s.total_frames_processed + 1 + k <= u64::MAX,
    ensures
        run(cfg, s, seq![true] + repeated(false, k)).0.state == VadState::Speech,
        run(cfg, s, seq![true] + repeated(false, k)).0.current_segment_start_frame
            == s.current_segment_start_frame,
        no_segment(run(cfg, s, seq![true] + repeated(false, k)).1),
{
    let one = seq![true];
    assert(one.drop_last() =~= Seq::<bool>::empty());
    assert(one.last() == true);
    let first = run(cfg, s, one);
    let none = run(cfg, s, one.drop_last());
    assert(none.0 == s && none.1 =~= Seq::<crate::detector::StepOutcome>::empty());
    assert(first.0 == step(cfg, s, true).0);
    assert(first.1 =~= seq![step(cfg, s, true).1]);
    lemma_speech_frame_clears_pause(cfg, s);
    lemma_step_wf(cfg, s, true);
    lemma_run_split(cfg, s, one, repeated(false, k));
    let rest = run(cfg, first.0, repeated(false, k));
    if k == 0 {
        assert(repeated(false, 0) =~= Seq::<bool>::empty());
        assert(rest.1 =~= Seq::<crate::detector::StepOutcome>::empty());
    } else {
        lemma_speech_offset(cfg, first.0, k);
    }
    let outs = run(cfg, s, one + repeated(false, k)).1;
    assert(outs == first.1 + rest.1);
    assert forall|j: int| 0 <= j < outs.len() implies (#[trigger] outs[j]).segment is None by {
        if j < 1 {
            assert(outs[j] == first.1[j]);
        } else {
            assert(outs[j] == rest.1[j - 1]);
        }
    }
}

} // verus!
