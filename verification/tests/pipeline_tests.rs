use vad_rs::pipeline::AudioPipeline;

#[test]
fn equal_rates_frame_directly() {
    let mut p: AudioPipeline<i32> = AudioPipeline::new(16000, 16000);
    assert!(!p.needs_resampling());
    let chunks = p.feed((0..10).collect(), 4);
    assert!(chunks.is_empty());
    let frames = p.take_frames(4);
    assert_eq!(frames, vec![vec![0, 1, 2, 3], vec![4, 5, 6, 7]]);
    // The remaining two samples wait for the next call.
    p.feed(vec![10, 11], 4);
    let frames = p.take_frames(4);
    assert_eq!(frames, vec![vec![8, 9, 10, 11]]);
    assert!(p.take_frames(4).is_empty());
}

#[test]
fn different_rates_cut_resampler_chunks() {
    let mut p: AudioPipeline<u8> = AudioPipeline::new(8000, 16000);
    assert!(p.needs_resampling());
    let chunks = p.feed(vec![1, 2, 3, 4, 5], 2);
    assert_eq!(chunks, vec![vec![1, 2], vec![3, 4]]);
    // Nothing reaches the frame buffer until resampled output comes back.
    assert!(p.take_frames(1).is_empty());
    let chunks = p.feed(vec![6], 2);
    assert_eq!(chunks, vec![vec![5, 6]]);
    p.accept_resampled(vec![9, 9, 9]);
    assert_eq!(p.take_frames(2), vec![vec![9, 9]]);
}

#[test]
fn samples_are_neither_lost_nor_reordered() {
    let mut p: AudioPipeline<u32> = AudioPipeline::new(16000, 16000);
    let mut out = Vec::new();
    let mut next = 0u32;
    for n in [3usize, 0, 7, 1, 512, 13] {
        let batch: Vec<u32> = (next..next + n as u32).collect();
        next += n as u32;
        p.feed(batch, 1);
        for f in p.take_frames(5) {
            assert_eq!(f.len(), 5);
            out.extend(f);
        }
    }
    assert_eq!(out.len() % 5, 0);
    assert_eq!(out, (0..out.len() as u32).collect::<Vec<_>>());
    assert!(next as usize - out.len() < 5);
}

#[test]
fn clear_drops_buffered_samples() {
    let mut p: AudioPipeline<i16> = AudioPipeline::new(48000, 16000);
    let chunks = p.feed(vec![1, 2, 3], 4);
    assert!(chunks.is_empty());
    p.accept_resampled(vec![7]);
    p.clear();
    let chunks = p.feed(vec![4], 4);
    assert!(chunks.is_empty());
    assert!(p.take_frames(1).is_empty());
    let chunks = p.feed(vec![5, 6, 7], 4);
    assert_eq!(chunks, vec![vec![4, 5, 6, 7]]);
}

#[test]
fn chunks_do_not_depend_on_call_boundaries() {
    let stream: Vec<u16> = (0..1000).collect();
    let mut one: AudioPipeline<u16> = AudioPipeline::new(8000, 16000);
    let all = one.feed(stream.clone(), 160);
    let mut many: AudioPipeline<u16> = AudioPipeline::new(8000, 16000);
    let mut pieces = Vec::new();
    let mut start = 0;
    for n in [1usize, 159, 0, 161, 300, 2, 377] {
        pieces.extend(many.feed(stream[start..start + n].to_vec(), 160));
        start += n;
    }
    assert_eq!(start, 1000);
    assert_eq!(all, pieces);
    assert_eq!(all.len(), 6);
}
