//! The integer parts of the TEN VAD front end: its frame geometry, the
//! shape of its triangular mel filterbank, and the sliding buffers that
//! carry audio and features from one hop to the next.
use vstd::prelude::*;

verus! {

/// The sample rate TEN VAD runs at.
pub const FS: usize = 16000;

/// The FFT length of the spectral analysis.
pub const FFT_SIZE: usize = 1024;

/// The analysis window length.
pub const WINDOW_SIZE: usize = 768;

/// The hop between analysis windows, which is also the model frame size.
pub const HOP_SIZE: usize = 256;

/// The number of spectrum bins kept from each FFT.
pub const N_BINS: usize = 513;

/// The number of mel bands.
pub const MEL_BANDS: usize = 40;

/// Features per frame: the mel bands and the pitch.
pub const FEA_LEN: usize = 41;

/// Frames of features stacked into one model input.
pub const CONTEXT_LEN: usize = 3;

/// The width of each recurrent state.
pub const HIDDEN_DIM: usize = 64;

/// The number of recurrent states.
pub const NUM_STATES: usize = 4;

/// One filterbank weight as the fraction `numerator / denominator`.
#[derive(Clone, Copy, Debug, PartialEq, Eq, Structural)]
pub struct FilterWeight {
    pub numerator: usize,
    pub denominator: usize,
}

/// The weight of bin `i` in the triangular filter of band `j`, whose edges
/// are the bins `b[j]`, `b[j + 1]` and `b[j + 2]`: rising from `b[j]` to its
/// peak at `b[j + 1]`, falling from there to zero at `b[j + 2]`, and zero
/// elsewhere.
pub open spec fn filter_weight(b: Seq<usize>, j: int, i: int) -> FilterWeight {
    if b[j + 1] <= i < b[j + 2] {
        FilterWeight {
            numerator: (b[j + 2] - i) as usize,
            denominator: (b[j + 2] - b[j + 1]) as usize,
        }
    } else if b[j] <= i < b[j + 1] {
        FilterWeight { numerator: (i - b[j]) as usize, denominator: (b[j + 1] - b[j]) as usize }
    } else {
        FilterWeight { numerator: 0, denominator: 1 }
    }
}

/// Every filterbank weight is a fraction in `[0, 1]` with a positive
/// denominator, and the filter of band `j` reaches one at its peak bin
/// `b[j + 1]` when its falling edge is not empty.
pub proof fn lemma_filter_weight_unit(b: Seq<usize>, j: int, i: int)
    requires
        0 <= j,
        j + 2 < b.len(),
    ensures
        filter_weight(b, j, i).denominator > 0,
        filter_weight(b, j, i).numerator <= filter_weight(b, j, i).denominator,
        b[j + 1] < b[j + 2] ==> filter_weight(b, j, b[j + 1] as int).numerator == filter_weight(
            b,
            j,
            b[j + 1] as int,
        ).denominator,
{
}

/// The triangular filterbank over `n_bins` spectrum bins, with `n_bands`
/// bands whose edges are the bins `mel_bin[0..n_bands + 2]`.
pub fn triangular_filterbank(mel_bin: &[usize], n_bands: usize, n_bins: usize) -> (fb: Vec<
    Vec<FilterWeight>,
>)
    requires
        mel_bin@.len() == n_bands + 2,
    ensures
        fb@.len() == n_bands,
        forall|j: int| 0 <= j < n_bands ==> (#[trigger] fb@[j])@.len() == n_bins,
        forall|j: int, i: int|
            0 <= j < n_bands && 0 <= i < n_bins ==> (#[trigger] fb@[j]@[i]) == filter_weight(
                mel_bin@,
                j,
                i,
            ),
{
    let mut fb: Vec<Vec<FilterWeight>> = Vec::with_capacity(n_bands);
    let mut j: usize = 0;
    while j < n_bands
        invariant
            mel_bin@.len() == n_bands + 2,
            j <= n_bands,
            fb@.len() == j,
            forall|k: int| 0 <= k < j ==> (#[trigger] fb@[k])@.len() == n_bins,
            forall|k: int, i: int|
                0 <= k < j && 0 <= i < n_bins ==> (#[trigger] fb@[k]@[i]) == filter_weight(
                    mel_bin@,
                    k,
                    i,
                ),
        decreases n_bands - j,
    {
        let lo = mel_bin[j];
        let peak = mel_bin[j + 1];
        let hi = mel_bin[j + 2];
        let mut row: Vec<FilterWeight> = Vec::with_capacity(n_bins);
        let mut i: usize = 0;
        while i < n_bins
            invariant
                mel_bin@.len() == n_bands + 2,
                j < n_bands,
                lo == mel_bin@[j as int],
                peak == mel_bin@[j + 1],
                hi == mel_bin@[j + 2],
                i <= n_bins,
                row@.len() == i,
                forall|k: int| 0 <= k < i ==> (#[trigger] row@[k]) == filter_weight(
                    mel_bin@,
                    j as int,
                    k,
                ),
            decreases n_bins - i,
        {
            let w = if peak <= i && i < hi {
                FilterWeight { numerator: hi - i, denominator: hi - peak }
            } else if lo <= i && i < peak {
                FilterWeight { numerator: i - lo, denominator: peak - lo }
            } else {
                FilterWeight { numerator: 0, denominator: 1 }
            };
            row.push(w);
            i += 1;
        }
        fb.push(row);
        j += 1;
    }
    fb
}

/// Slides a buffer along by `incoming.len()` items: the oldest items leave
/// at the front and `incoming` joins at the back, so the length stays.
pub fn slide_window<T: Copy>(buf: &mut Vec<T>, incoming: &[T])
    requires
        incoming@.len() <= old(buf)@.len(),
    ensures
        final(buf)@ == old(buf)@.skip(incoming@.len() as int) + incoming@,
{
    let ghost before = buf@;
    let len = buf.len();
    let k = incoming.len();
    let keep = len - k;
    let mut i: usize = 0;
    while i < keep
        invariant
            len == before.len(),
            k == incoming@.len(),
            keep == len - k,
            i <= keep,
            buf@.len() == len,
            forall|t: int| 0 <= t < i ==> buf@[t] == before[t + k],
            forall|t: int| i <= t < len ==> buf@[t] == before[t],
        decreases keep - i,
    {
        let v = buf[i + k];
        buf.set(i, v);
        i += 1;
    }
    let mut t: usize = 0;
    while t < k
        invariant
            len == before.len(),
            k == incoming@.len(),
            keep == len - k,
            t <= k,
            buf@.len() == len,
            forall|u: int| 0 <= u < keep ==> buf@[u] == before[u + k],
            forall|u: int| 0 <= u < t ==> buf@[keep + u] == incoming@[u],
        decreases k - t,
    {
        buf.set(keep + t, incoming[t]);
        t += 1;
    }
    assert(buf@ =~= before.skip(k as int) + incoming@);
}

/// Copies the front of `src` over the front of `dst`, as far as the shorter
/// of the two reaches; the rest of `dst` stays.
pub fn overwrite_prefix<T: Copy>(dst: &mut Vec<T>, src: &[T])
    ensures
        final(dst)@.len() == old(dst)@.len(),
        ({
            let m = if src@.len() < old(dst)@.len() {
                src@.len() as int
            } else {
                old(dst)@.len() as int
            };
            final(dst)@ == src@.take(m) + old(dst)@.skip(m)
        }),
{
    let ghost before = dst@;
    let m = if src.len() < dst.len() {
        src.len()
    } else {
        dst.len()
    };
    let mut i: usize = 0;
    while i < m
        invariant
            m <= src@.len(),
            m <= before.len(),
            m == src@.len() || m == before.len(),
            i <= m,
            dst@.len() == before.len(),
            forall|t: int| 0 <= t < i ==> dst@[t] == src@[t],
            forall|t: int| i <= t < before.len() ==> dst@[t] == before[t],
        decreases m - i,
    {
        dst.set(i, src[i]);
        i += 1;
    }
    assert(dst@ =~= src@.take(m as int) + before.skip(m as int));
}

/// The range of autocorrelation lags searched for the pitch of a signal of
/// `len` samples: periods from 1/500 s up to 1/60 s at 16 kHz, and never
/// more than half the signal.
pub fn pitch_lag_range(len: usize) -> (r: (usize, usize))
    ensures
        r.0 == FS / 500,
        r.1 == if FS / 60 < len / 2 {
            FS / 60
        } else {
            len / 2
        },
{
    let min_lag = FS / 500;
    let max_lag = if FS / 60 < len / 2 {
        FS / 60
    } else {
        len / 2
    };
    (min_lag, max_lag)
}

} // verus!
