//! Sample buffering between decoding, resampling and the model.
//!
//! Decoded samples are buffered until the resampler has a full input chunk,
//! and resampled (or, at equal rates, decoded) samples are buffered until the
//! model has a full frame. The buffers are generic in the sample type; the
//! resampling itself is done by the caller on the chunks handed out here.
use vstd::prelude::*;

verus! {

/// The contents of a sequence of vectors, each taken by its view.
pub open spec fn views<T>(v: Seq<Vec<T>>) -> Seq<Seq<T>> {
    v.map_values(|c: Vec<T>| c@)
}

/// `pieces` cut the front of `whole` into pieces of exactly `size` items,
/// in order, leaving `rest`, which is shorter than `size`.
pub open spec fn cut_into<T>(whole: Seq<T>, size: nat, pieces: Seq<Seq<T>>, rest: Seq<T>) -> bool {
    &&& pieces.flatten() + rest == whole
    &&& forall|j: int| 0 <= j < pieces.len() ==> (#[trigger] pieces[j]).len() == size
    &&& rest.len() < size
}

/// Cutting is unique: a sequence can be cut into pieces of one size, with a
/// shorter rest, in only one way.
pub proof fn lemma_cut_unique<T>(
    whole: Seq<T>,
    size: nat,
    p1: Seq<Seq<T>>,
    r1: Seq<T>,
    p2: Seq<Seq<T>>,
    r2: Seq<T>,
)
    requires
        cut_into(whole, size, p1, r1),
        cut_into(whole, size, p2, r2),
    ensures
        p1 == p2,
        r1 == r2,
    decreases p1.len() + p2.len(),
{
    if p1.len() == 0 || p2.len() == 0 {
        if p1.len() > 0 {
            assert(p1.flatten() == p1[0] + p1.drop_first().flatten());
            assert(p1[0].len() == size);
            assert(false);
        }
        if p2.len() > 0 {
            assert(p2.flatten() == p2[0] + p2.drop_first().flatten());
            assert(p2[0].len() == size);
            assert(false);
        }
        assert(p1 =~= p2);
    } else {
        let h1 = p1[0];
        let h2 = p2[0];
        assert(p1.flatten() == h1 + p1.drop_first().flatten());
        assert(p2.flatten() == h2 + p2.drop_first().flatten());
        assert(h1.len() == size && h2.len() == size);
        assert(h1 =~= whole.take(size as int));
        assert(h2 =~= whole.take(size as int));
        let tail = whole.skip(size as int);
        assert(p1.drop_first().flatten() + r1 =~= tail);
        assert(p2.drop_first().flatten() + r2 =~= tail);
        assert forall|j: int| 0 <= j < p1.drop_first().len() implies (
        #[trigger] p1.drop_first()[j]).len() == size by {
            assert(p1.drop_first()[j] == p1[j + 1]);
        }
        assert forall|j: int| 0 <= j < p2.drop_first().len() implies (
        #[trigger] p2.drop_first()[j]).len() == size by {
            assert(p2.drop_first()[j] == p2[j + 1]);
        }
        lemma_cut_unique(tail, size, p1.drop_first(), r1, p2.drop_first(), r2);
        assert(h1 == h2);
        assert(p1.len() == p2.len());
        assert forall|j: int| 0 <= j < p1.len() implies p1[j] == p2[j] by {
            if j > 0 {
                assert(p1[j] == p1.drop_first()[j - 1]);
                assert(p2[j] == p2.drop_first()[j - 1]);
            }
        }
        assert(p1 =~= p2);
    }
}

/// Cutting is indifferent to how a stream arrives: cutting `w1`, then
/// cutting what was left over together with `w2`, gives the pieces that
/// cutting `w1 + w2` at once gives, and the same rest.
pub proof fn lemma_cut_in_two_steps<T>(
    w1: Seq<T>,
    w2: Seq<T>,
    size: nat,
    p1: Seq<Seq<T>>,
    r1: Seq<T>,
    p2: Seq<Seq<T>>,
    r2: Seq<T>,
)
    requires
        cut_into(w1, size, p1, r1),
        cut_into(r1 + w2, size, p2, r2),
    ensures
        cut_into(w1 + w2, size, p1 + p2, r2),
        forall|p: Seq<Seq<T>>, r: Seq<T>| #[trigger]
            cut_into(w1 + w2, size, p, r) ==> p == p1 + p2 && r == r2,
{
    vstd::seq_lib::lemma_flatten_concat(p1, p2);
    assert((p1 + p2).flatten() + r2 =~= p1.flatten() + (p2.flatten() + r2));
    assert(p1.flatten() + (r1 + w2) =~= (p1.flatten() + r1) + w2);
    assert forall|j: int| 0 <= j < (p1 + p2).len() implies (#[trigger] (p1 + p2)[j]).len()
        == size by {
        if j < p1.len() {
            assert((p1 + p2)[j] == p1[j]);
        } else {
            assert((p1 + p2)[j] == p2[j - p1.len()]);
        }
    }
    assert forall|p: Seq<Seq<T>>, r: Seq<T>| #[trigger]
        cut_into(w1 + w2, size, p, r) implies p == p1 + p2 && r == r2 by {
        lemma_cut_unique(w1 + w2, size, p, r, p1 + p2, r2);
    }
}

/// Removes from the front of `buf` as many pieces of `n` items as it holds,
/// and returns them in order.
fn drain_chunks<T>(buf: &mut Vec<T>, n: usize) -> (chunks: Vec<Vec<T>>)
    requires
        n > 0,
    ensures
        cut_into(old(buf)@, n as nat, views(chunks@), final(buf)@),
{
    let ghost whole = buf@;
    let mut chunks: Vec<Vec<T>> = Vec::new();
    while buf.len() >= n
        invariant
            n > 0,
            views(chunks@).flatten() + buf@ == whole,
            forall|j: int| 0 <= j < chunks@.len() ==> (#[trigger] chunks@[j])@.len() == n,
        decreases buf@.len(),
    {
        let ghost before = buf@;
        let ghost done = views(chunks@);
        let mut head = buf.split_off(n);
        std::mem::swap(buf, &mut head);
        assert(head@ + buf@ =~= before);
        chunks.push(head);
        proof {
            assert(views(chunks@) =~= done.push(head@));
            done.lemma_flatten_push(head@);
            assert(views(chunks@).flatten() + buf@ =~= done.flatten() + (head@ + buf@));
        }
    }
    proof {
        assert forall|j: int| 0 <= j < views(chunks@).len() implies (#[trigger] views(
            chunks@,
        )[j]).len() == n by {
            assert(chunks@[j]@.len() == n);
        }
    }
    chunks
}

/// The two sample buffers of an audio pipeline.
///
/// When the input and model rates differ, decoded samples wait in the
/// pre-resampling buffer until a full resampler chunk is there; resampled
/// samples (or, at equal rates, decoded samples) wait in the frame buffer
/// until a full model frame is there.
pub struct AudioPipeline<T> {
    input_rate: u32,
    target_rate: u32,
    pre_resample_buffer: Vec<T>,
    buffer: Vec<T>,
}

impl<T> AudioPipeline<T> {
    /// The rate of the samples fed in.
    pub closed spec fn input_rate(&self) -> u32 {
        self.input_rate
    }

    /// The rate that the model expects.
    pub closed spec fn target_rate(&self) -> u32 {
        self.target_rate
    }

    /// Samples waiting for a full resampler chunk.
    pub closed spec fn pending_input(&self) -> Seq<T> {
        self.pre_resample_buffer@
    }

    /// Samples waiting for a full model frame.
    pub closed spec fn pending_frame(&self) -> Seq<T> {
        self.buffer@
    }

    /// Whether samples pass through the resampler.
    pub open spec fn resamples(&self) -> bool {
        self.input_rate() != self.target_rate()
    }

    /// Resampling happens exactly when the input rate differs from the
    /// model's rate: at equal rates, whatever the rate, samples go straight
    /// to the frame buffer.
    pub proof fn lemma_resamples_iff_rates_differ(&self)
        ensures
            self.resamples() <==> self.input_rate() != self.target_rate(),
            self.input_rate() == self.target_rate() ==> !self.resamples(),
    {
    }

    /// A pipeline from `input_rate` to `target_rate` with empty buffers.
    pub fn new(input_rate: u32, target_rate: u32) -> (p: Self)
        ensures
            p.input_rate() == input_rate,
            p.target_rate() == target_rate,
            p.pending_input() == Seq::<T>::empty(),
            p.pending_frame() == Seq::<T>::empty(),
    {
        AudioPipeline {
            input_rate,
            target_rate,
            pre_resample_buffer: Vec::new(),
            buffer: Vec::new(),
        }
    }

    /// Whether samples pass through the resampler.
    pub fn needs_resampling(&self) -> (r: bool)
        ensures
            r == self.resamples(),
            r == (self.input_rate() != self.target_rate()),
    {
        self.input_rate != self.target_rate
    }

    /// Takes in newly decoded samples.
    ///
    /// At equal rates they go straight to the frame buffer and nothing is
    /// returned. Otherwise they join the pre-resampling buffer, and every
    /// full chunk of `chunk_size` samples is taken out of it, in order, and
    /// returned for the caller to resample and hand back through
    /// [`Self::accept_resampled`].
    pub fn feed(&mut self, samples: Vec<T>, chunk_size: usize) -> (chunks: Vec<Vec<T>>)
        requires
            old(self).resamples() ==> chunk_size > 0,
        ensures
            final(self).input_rate() == old(self).input_rate(),
            final(self).target_rate() == old(self).target_rate(),
            old(self).input_rate() == old(self).target_rate() ==> {
                &&& chunks@.len() == 0
                &&& final(self).pending_input() == old(self).pending_input()
                &&& final(self).pending_frame() == old(self).pending_frame() + samples@
            },
            !old(self).resamples() ==> {
                &&& chunks@.len() == 0
                &&& final(self).pending_input() == old(self).pending_input()
                &&& final(self).pending_frame() == old(self).pending_frame() + samples@
            },
            old(self).resamples() ==> {
                &&& cut_into(
                    old(self).pending_input() + samples@,
                    chunk_size as nat,
                    views(chunks@),
                    final(self).pending_input(),
                )
                &&& final(self).pending_frame() == old(self).pending_frame()
            },
    {
        let mut samples = samples;
        if self.input_rate == self.target_rate {
            self.buffer.append(&mut samples);
            Vec::new()
        } else {
            self.pre_resample_buffer.append(&mut samples);
            drain_chunks(&mut self.pre_resample_buffer, chunk_size)
        }
    }

    /// Appends resampled samples to the frame buffer.
    pub fn accept_resampled(&mut self, resampled: Vec<T>)
        ensures
            final(self).input_rate() == old(self).input_rate(),
            final(self).target_rate() == old(self).target_rate(),
            final(self).pending_input() == old(self).pending_input(),
            final(self).pending_frame() == old(self).pending_frame() + resampled@,
    {
        let mut resampled = resampled;
        self.buffer.append(&mut resampled);
    }

    /// Takes every full frame of `frame_size` samples out of the frame
    /// buffer, in order.
    pub fn take_frames(&mut self, frame_size: usize) -> (frames: Vec<Vec<T>>)
        requires
            frame_size > 0,
        ensures
            final(self).input_rate() == old(self).input_rate(),
            final(self).target_rate() == old(self).target_rate(),
            final(self).pending_input() == old(self).pending_input(),
            cut_into(
                old(self).pending_frame(),
                frame_size as nat,
                views(frames@),
                final(self).pending_frame(),
            ),
    {
        drain_chunks(&mut self.buffer, frame_size)
    }

    /// Drops every buffered sample.
    pub fn clear(&mut self)
        ensures
            final(self).input_rate() == old(self).input_rate(),
            final(self).target_rate() == old(self).target_rate(),
            final(self).pending_input() == Seq::<T>::empty(),
            final(self).pending_frame() == Seq::<T>::empty(),
    {
        self.pre_resample_buffer.clear();
        self.buffer.clear();
    }
}

} // verus!
