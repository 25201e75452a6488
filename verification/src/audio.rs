//! Decoding of raw audio payloads into integer sample streams.
use vstd::prelude::*;

verus! {

/// The byte encodings a payload may arrive in.
#[derive(Clone, Copy, Debug, PartialEq, Eq, Structural)]
pub enum AudioFormat {
    /// 16-bit signed little-endian PCM.
    Pcm16,
    /// 32-bit IEEE-754 little-endian float PCM.
    PcmF32,
    /// 8-bit G.711 µ-law.
    Ulaw,
    /// 8-bit G.711 A-law.
    Alaw,
}

/// Samples decoded from a payload, before any normalisation to `[-1, 1]`.
///
/// 16-bit formats (PCM16 and expanded µ-law and A-law) come out as linear `i16`
/// samples, which the caller scales by `1 / 32768`. Float32 payloads come out
/// as the raw IEEE-754 bit patterns of each sample, in order.
#[derive(Debug, PartialEq, Eq)]
pub enum DecodedAudio {
    Int16(Vec<i16>),
    Float32Bits(Vec<u32>),
}

/// Why a payload could not be decoded.
#[derive(Clone, Copy, Debug, PartialEq, Eq, Structural)]
pub enum DecodeError {
    /// A PCM16 payload whose byte length is odd.
    OddPcm16Length,
    /// A float32 payload whose byte length is not a multiple of four.
    PcmF32LengthNotMultipleOfFour,
}

/// The text that reports `e`.
pub open spec fn error_text(e: DecodeError) -> Seq<char> {
    match e {
        DecodeError::OddPcm16Length => "PCM16 byte length must be even"@,
        DecodeError::PcmF32LengthNotMultipleOfFour => "F32 byte length must be multiple of 4"@,
    }
}

impl DecodeError {
    /// The human-readable message for this error.
    pub fn message(&self) -> (m: &'static str)
        ensures
            m@ == error_text(*self),
    {
        match self {
            DecodeError::OddPcm16Length => "PCM16 byte length must be even",
            DecodeError::PcmF32LengthNotMultipleOfFour => "F32 byte length must be multiple of 4",
        }
    }
}

/// The value of a little-endian two's-complement 16-bit sample `lo, hi`.
pub open spec fn pcm16_value(lo: u8, hi: u8) -> int {
    let u = lo as int + 256 * hi as int;
    if u >= 32768 {
        u - 65536
    } else {
        u
    }
}

/// The value of the little-endian 32-bit word `b0, b1, b2, b3`.
pub open spec fn le_word_value(b0: u8, b1: u8, b2: u8, b3: u8) -> int {
    b0 as int + 256 * b1 as int + 65536 * b2 as int + 16777216 * b3 as int
}

/// `2^e` for the three-bit exponent of a µ-law code.
pub open spec fn ulaw_scale(e: int) -> int {
    if e == 0 {
        1
    } else if e == 1 {
        2
    } else if e == 2 {
        4
    } else if e == 3 {
        8
    } else if e == 4 {
        16
    } else if e == 5 {
        32
    } else if e == 6 {
        64
    } else {
        128
    }
}

/// The magnitude that a complemented µ-law code `v` expands to:
/// `((mantissa * 8 + 132) << exponent) - 132`, with the exponent in bits 4..6
/// and the mantissa in bits 0..3.
pub open spec fn ulaw_magnitude(v: int) -> int {
    (((v % 16) * 8 + 132) * ulaw_scale((v / 16) % 8)) - 132
}

/// The linear 16-bit sample that the G.711 µ-law byte `byte` encodes.
/// The byte is stored complemented; bit 7 of the complement is the sign.
pub open spec fn ulaw_value(byte: u8) -> int {
    let v = 255 - byte as int;
    if v >= 128 {
        -ulaw_magnitude(v)
    } else {
        ulaw_magnitude(v)
    }
}

/// The magnitude that an A-law code `v`, with its even bits restored,
/// expands to: with the segment in bits 4..6 and the mantissa in bits 0..3,
/// `mantissa * 16 + 8` in segment zero and
/// `(mantissa * 16 + 264) << (segment - 1)` above it.
pub open spec fn alaw_magnitude(v: int) -> int {
    let m = v % 16;
    let seg = (v / 16) % 8;
    if seg == 0 {
        m * 16 + 8
    } else {
        (m * 16 + 264) * ulaw_scale(seg - 1)
    }
}

/// The linear 16-bit sample that the G.711 A-law byte `byte` encodes. The
/// byte is stored with its even bits inverted (`^ 0x55`); bit 7 set means a
/// positive sample.
pub open spec fn alaw_value(byte: u8) -> int {
    let v = (byte ^ 0x55u8) as int;
    if v >= 128 {
        alaw_magnitude(v)
    } else {
        -alaw_magnitude(v)
    }
}

/// The A-law expansion of `bytes`, one sample per byte.
pub open spec fn alaw_samples(bytes: Seq<u8>) -> Seq<i16> {
    Seq::new(bytes.len(), |i: int| alaw_value(bytes[i]) as i16)
}

/// The PCM16 samples of `bytes`, one per pair of bytes.
pub open spec fn pcm16_samples(bytes: Seq<u8>) -> Seq<i16> {
    Seq::new(bytes.len() / 2, |i: int| pcm16_value(bytes[2 * i], bytes[2 * i + 1]) as i16)
}

/// The float32 bit patterns of `bytes`, one per four bytes.
pub open spec fn f32_bit_samples(bytes: Seq<u8>) -> Seq<u32> {
    Seq::new(
        bytes.len() / 4,
        |i: int|
            le_word_value(bytes[4 * i], bytes[4 * i + 1], bytes[4 * i + 2], bytes[4 * i + 3]) as u32,
    )
}

/// The µ-law expansion of `bytes`, one sample per byte.
pub open spec fn ulaw_samples(bytes: Seq<u8>) -> Seq<i16> {
    Seq::new(bytes.len(), |i: int| ulaw_value(bytes[i]) as i16)
}

/// `res` is what decoding `bytes` in `format` gives: the samples of the
/// format, or the error that the format's length rule names.
pub open spec fn decodes_to(
    bytes: Seq<u8>,
    format: AudioFormat,
    res: Result<DecodedAudio, DecodeError>,
) -> bool {
    match format {
        AudioFormat::Pcm16 => if bytes.len() % 2 != 0 {
            res == Err::<DecodedAudio, DecodeError>(DecodeError::OddPcm16Length)
        } else {
            res matches Ok(DecodedAudio::Int16(v)) && v@ == pcm16_samples(bytes)
        },
        AudioFormat::PcmF32 => if bytes.len() % 4 != 0 {
            res == Err::<DecodedAudio, DecodeError>(DecodeError::PcmF32LengthNotMultipleOfFour)
        } else {
            res matches Ok(DecodedAudio::Float32Bits(v)) && v@ == f32_bit_samples(bytes)
        },
        AudioFormat::Ulaw => res matches Ok(DecodedAudio::Int16(v)) && v@ == ulaw_samples(bytes),
        AudioFormat::Alaw => res matches Ok(DecodedAudio::Int16(v)) && v@ == alaw_samples(bytes),
    }
}

/// Decodes one little-endian two's-complement 16-bit sample.
pub fn pcm16_from_le(lo: u8, hi: u8) -> (r: i16)
    ensures
        r as int == pcm16_value(lo, hi),
{
    if hi < 128 {
        (hi as i16) * 256 + lo as i16
    } else {
        ((hi as i16) - 256) * 256 + lo as i16
    }
}

/// Assembles the little-endian 32-bit word `b0, b1, b2, b3`.
pub fn word_from_le(b0: u8, b1: u8, b2: u8, b3: u8) -> (r: u32)
    ensures
        r as int == le_word_value(b0, b1, b2, b3),
{
    b0 as u32 + 256 * (b1 as u32) + 65536 * (b2 as u32) + 16777216 * (b3 as u32)
}

/// Expands one G.711 µ-law byte to a linear 16-bit sample.
pub fn ulaw_expand(byte: u8) -> (r: i16)
    ensures
        r as int == ulaw_value(byte),
        -32124 <= r <= 32124,
{
    let v: u8 = 255 - byte;
    let exponent: u8 = (v / 16) % 8;
    let base: i32 = ((v % 16) as i32) * 8 + 132;
    let shifted: i32 = if exponent == 0 {
        base
    } else if exponent == 1 {
        base * 2
    } else if exponent == 2 {
        base * 4
    } else if exponent == 3 {
        base * 8
    } else if exponent == 4 {
        base * 16
    } else if exponent == 5 {
        base * 32
    } else if exponent == 6 {
        base * 64
    } else {
        base * 128
    };
    let magnitude: i32 = shifted - 132;
    let pcm: i32 = if v >= 128 {
        -magnitude
    } else {
        magnitude
    };
    pcm as i16
}

/// Expands one G.711 A-law byte to a linear 16-bit sample.
pub fn alaw_expand(byte: u8) -> (r: i16)
    ensures
        r as int == alaw_value(byte),
        -32256 <= r <= 32256,
{
    let v: u8 = byte ^ 0x55u8;
    let seg: u8 = (v / 16) % 8;
    let m: i32 = (v % 16) as i32;
    let magnitude: i32 = if seg == 0 {
        m * 16 + 8
    } else {
        let base: i32 = m * 16 + 264;
        if seg == 1 {
            base
        } else if seg == 2 {
            base * 2
        } else if seg == 3 {
            base * 4
        } else if seg == 4 {
            base * 8
        } else if seg == 5 {
            base * 16
        } else if seg == 6 {
            base * 32
        } else {
            base * 64
        }
    };
    let pcm: i32 = if v >= 128 {
        magnitude
    } else {
        -magnitude
    };
    pcm as i16
}

/// Decodes the PCM16 payload `bytes`, whose length is even.
fn decode_pcm16(bytes: &[u8]) -> (v: Vec<i16>)
    requires
        bytes@.len() % 2 == 0,
    ensures
        v@ == pcm16_samples(bytes@),
{
    let n = bytes.len() / 2;
    assert(2 * n <= bytes@.len()) by (nonlinear_arith)
        requires
            n == bytes@.len() / 2,
    ;
    let mut out: Vec<i16> = Vec::with_capacity(n);
    let mut i: usize = 0;
    while i < n
        invariant
            n == bytes@.len() / 2,
            2 * n <= bytes@.len(),
            bytes@.len() <= usize::MAX,
            i <= n,
            out@ =~= pcm16_samples(bytes@).take(i as int),
        decreases n - i,
    {
        let s = pcm16_from_le(bytes[2 * i], bytes[2 * i + 1]);
        out.push(s);
        i += 1;
    }
    out
}

/// Splits the float32 payload `bytes`, whose length is a multiple of four,
/// into per-sample bit patterns.
fn decode_f32_bits(bytes: &[u8]) -> (v: Vec<u32>)
    requires
        bytes@.len() % 4 == 0,
    ensures
        v@ == f32_bit_samples(bytes@),
{
    let n = bytes.len() / 4;
    assert(4 * n <= bytes@.len()) by (nonlinear_arith)
        requires
            n == bytes@.len() / 4,
    ;
    let mut out: Vec<u32> = Vec::with_capacity(n);
    let mut i: usize = 0;
    while i < n
        invariant
            n == bytes@.len() / 4,
            4 * n <= bytes@.len(),
            bytes@.len() <= usize::MAX,
            i <= n,
            out@ =~= f32_bit_samples(bytes@).take(i as int),
        decreases n - i,
    {
        let w = word_from_le(bytes[4 * i], bytes[4 * i + 1], bytes[4 * i + 2], bytes[4 * i + 3]);
        out.push(w);
        i += 1;
    }
    out
}

/// Expands the µ-law payload `bytes`, one sample per byte.
fn decode_ulaw(bytes: &[u8]) -> (v: Vec<i16>)
    ensures
        v@ == ulaw_samples(bytes@),
{
    let n = bytes.len();
    let mut out: Vec<i16> = Vec::with_capacity(n);
    let mut i: usize = 0;
    while i < n
        invariant
            n == bytes@.len(),
            i <= n,
            out@ =~= ulaw_samples(bytes@).take(i as int),
        decreases n - i,
    {
        let s = ulaw_expand(bytes[i]);
        out.push(s);
        i += 1;
    }
    out
}

/// Expands the A-law payload `bytes`, one sample per byte.
fn decode_alaw(bytes: &[u8]) -> (v: Vec<i16>)
    ensures
        v@ == alaw_samples(bytes@),
{
    let n = bytes.len();
    let mut out: Vec<i16> = Vec::with_capacity(n);
    let mut i: usize = 0;
    while i < n
        invariant
            n == bytes@.len(),
            i <= n,
            out@ =~= alaw_samples(bytes@).take(i as int),
        decreases n - i,
    {
        let s = alaw_expand(bytes[i]);
        out.push(s);
        i += 1;
    }
    out
}

/// Decodes a payload in `format` into integer samples.
///
/// PCM16 payloads must have an even length, float32 payloads a length that
/// is a multiple of four; µ-law and A-law payloads of any length decode,
/// one sample per byte.
pub fn decode_audio(bytes: &[u8], format: &AudioFormat) -> (res: Result<DecodedAudio, DecodeError>)
    ensures
        decodes_to(bytes@, *format, res),
{
    match format {
        AudioFormat::Pcm16 => {
            if bytes.len() % 2 != 0 {
                return Err(DecodeError::OddPcm16Length);
            }
            Ok(DecodedAudio::Int16(decode_pcm16(bytes)))
        },
        AudioFormat::PcmF32 => {
            if bytes.len() % 4 != 0 {
                return Err(DecodeError::PcmF32LengthNotMultipleOfFour);
            }
            Ok(DecodedAudio::Float32Bits(decode_f32_bits(bytes)))
        },
        AudioFormat::Ulaw => Ok(DecodedAudio::Int16(decode_ulaw(bytes))),
        AudioFormat::Alaw => Ok(DecodedAudio::Int16(decode_alaw(bytes))),
    }
}

/// The two little-endian bytes that carry the 16-bit sample `v`.
pub open spec fn pcm16_bytes(v: i16) -> (u8, u8) {
    let u = if v < 0 {
        v as int + 65536
    } else {
        v as int
    };
    ((u % 256) as u8, (u / 256) as u8)
}

/// PCM16 decoding is exact: every 16-bit sample, written as two
/// little-endian bytes, decodes back to itself.
pub proof fn lemma_pcm16_roundtrip(v: i16)
    ensures
        pcm16_value(pcm16_bytes(v).0, pcm16_bytes(v).1) == v as int,
{
}

/// The byte that differs from `byte` only in bit 7.
pub open spec fn flip_sign_bit(byte: u8) -> u8 {
    ((byte as int + 128) % 256) as u8
}

/// The sign bit of a complemented code does not change its magnitude.
proof fn lemma_ulaw_magnitude_wraps(v: int)
    requires
        128 <= v < 256,
    ensures
        ulaw_magnitude(v) == ulaw_magnitude(v - 128),
{
    assert(v % 16 == (v - 128) % 16);
    assert((v / 16) % 8 == ((v - 128) / 16) % 8);
}

/// µ-law is sign-symmetric: flipping the sign bit of a code negates the
/// sample it expands to.
pub proof fn lemma_ulaw_sign_symmetry(byte: u8)
    ensures
        ulaw_value(flip_sign_bit(byte)) == -ulaw_value(byte),
{
    let v = 255 - byte as int;
    if byte < 128 {
        assert(flip_sign_bit(byte) == byte + 128);
        lemma_ulaw_magnitude_wraps(v);
    } else {
        assert(flip_sign_bit(byte) == byte - 128);
        lemma_ulaw_magnitude_wraps(v + 128);
    }
}

/// Consecutive complemented µ-law codes expand to strictly growing
/// magnitudes.
proof fn lemma_ulaw_magnitude_step(v: int)
    requires
        0 <= v < 127,
    ensures
        0 <= ulaw_magnitude(v) < ulaw_magnitude(v + 1),
{
    let e = v / 16;
    let m = v % 16;
    assert(v == 16 * e + m && 0 <= m < 16 && 0 <= e < 8);
    assert(e % 8 == e);
    let sc = ulaw_scale(e);
    assert(sc >= 1);
    assert(ulaw_magnitude(v) == (m * 8 + 132) * sc - 132);
    assert((m * 8 + 132) * sc >= 132) by (nonlinear_arith)
        requires
            sc >= 1,
            m >= 0,
    ;
    if m < 15 {
        assert((v + 1) / 16 == e && (v + 1) % 16 == m + 1);
        assert(ulaw_magnitude(v + 1) == ((m + 1) * 8 + 132) * sc - 132);
        assert((m * 8 + 132) * sc < ((m + 1) * 8 + 132) * sc) by (nonlinear_arith)
            requires
                sc >= 1,
        ;
    } else {
        assert((v + 1) / 16 == e + 1 && (v + 1) % 16 == 0);
        assert((e + 1) % 8 == e + 1);
        assert(ulaw_scale(e + 1) == 2 * sc);
        assert(ulaw_magnitude(v + 1) == 132 * (2 * sc) - 132);
        assert(252 * sc < 132 * (2 * sc)) by (nonlinear_arith)
            requires
                sc >= 1,
        ;
    }
}

/// The expanded magnitude grows strictly with the complemented code.
proof fn lemma_ulaw_magnitude_increasing(v: int, w: int)
    requires
        0 <= v < w <= 127,
    ensures
        0 <= ulaw_magnitude(v) < ulaw_magnitude(w),
    decreases w - v,
{
    lemma_ulaw_magnitude_step(v);
    if v + 1 < w {
        lemma_ulaw_magnitude_increasing(v + 1, w);
    }
}

/// µ-law expansion is monotone: among the codes of one sign, a larger code
/// byte means a sample nearer to zero; the positive codes are `128..=255`
/// and the negative codes `0..=127`.
pub proof fn lemma_ulaw_monotone(a: u8, b: u8)
    requires
        a < b,
        (a >= 128) == (b >= 128),
    ensures
        b >= 128 ==> 0 <= ulaw_value(b) < ulaw_value(a),
        b < 128 ==> ulaw_value(a) < ulaw_value(b) <= 0,
{
    if b >= 128 {
        lemma_ulaw_magnitude_increasing(255 - b as int, 255 - a as int);
    } else {
        lemma_ulaw_magnitude_increasing(127 - b as int, 127 - a as int);
        lemma_ulaw_magnitude_wraps(255 - a as int);
        lemma_ulaw_magnitude_wraps(255 - b as int);
    }
}

/// A-law is sign-symmetric: flipping the sign bit of a code negates the
/// sample it expands to.
pub proof fn lemma_alaw_sign_symmetry(byte: u8)
    ensures
        alaw_value(flip_sign_bit(byte)) == -alaw_value(byte),
{
    let v = byte ^ 0x55u8;
    let f = flip_sign_bit(byte);
    if byte < 128 {
        assert(f == byte + 128);
        assert(byte < 128 ==> ((byte + 128) as u8) ^ 0x55u8 == ((byte ^ 0x55u8) + 128) as u8
            && (byte ^ 0x55u8) < 128) by (bit_vector);
        lemma_ulaw_magnitude_wraps(v as int + 128);
        assert(alaw_magnitude(v as int + 128) == alaw_magnitude(v as int));
    } else {
        assert(f == byte - 128);
        assert(byte >= 128 ==> ((byte - 128) as u8) ^ 0x55u8 == ((byte ^ 0x55u8) - 128) as u8
            && (byte ^ 0x55u8) >= 128) by (bit_vector);
        lemma_alaw_magnitude_wraps(v as int);
    }
}

/// The sign bit of an A-law code does not change its magnitude.
proof fn lemma_alaw_magnitude_wraps(v: int)
    requires
        128 <= v < 256,
    ensures
        alaw_magnitude(v) == alaw_magnitude(v - 128),
{
    assert(v % 16 == (v - 128) % 16);
    assert((v / 16) % 8 == ((v - 128) / 16) % 8);
}

/// Consecutive A-law codes expand to strictly growing magnitudes.
proof fn lemma_alaw_magnitude_step(v: int)
    requires
        0 <= v < 127,
    ensures
        8 <= alaw_magnitude(v) < alaw_magnitude(v + 1),
{
    let e = v / 16;
    let m = v % 16;
    assert(v == 16 * e + m && 0 <= m < 16 && 0 <= e < 8);
    assert(e % 8 == e);
    if e == 0 {
        assert(alaw_magnitude(v) == m * 16 + 8);
        if m < 15 {
            assert((v + 1) / 16 == e && (v + 1) % 16 == m + 1);
        } else {
            assert((v + 1) / 16 == 1 && (v + 1) % 16 == 0);
            assert(alaw_magnitude(v + 1) == 264);
        }
    } else {
        let sc = ulaw_scale(e - 1);
        assert(sc >= 1);
        assert(alaw_magnitude(v) == (m * 16 + 264) * sc);
        assert((m * 16 + 264) * sc >= 8) by (nonlinear_arith)
            requires
                sc >= 1,
                m >= 0,
        ;
        if m < 15 {
            assert((v + 1) / 16 == e && (v + 1) % 16 == m + 1);
            assert(alaw_magnitude(v + 1) == ((m + 1) * 16 + 264) * sc);
            assert((m * 16 + 264) * sc < ((m + 1) * 16 + 264) * sc) by (nonlinear_arith)
                requires
                    sc >= 1,
            ;
        } else {
            assert((v + 1) / 16 == e + 1 && (v + 1) % 16 == 0);
            assert((e + 1) % 8 == e + 1);
            assert(ulaw_scale(e) == 2 * sc);
            assert(alaw_magnitude(v + 1) == 264 * (2 * sc));
            assert(504 * sc < 264 * (2 * sc)) by (nonlinear_arith)
                requires
                    sc >= 1,
            ;
        }
    }
}

/// A-law magnitudes grow strictly with the code (sign bit aside), from 8 at
/// code zero: a larger segment, or a larger mantissa in the same segment,
/// means a louder sample, and no code expands to silence.
pub proof fn lemma_alaw_magnitude_increasing(v: int, w: int)
    requires
        0 <= v < w <= 127,
    ensures
        8 <= alaw_magnitude(v) < alaw_magnitude(w),
    decreases w - v,
{
    lemma_alaw_magnitude_step(v);
    if v + 1 < w {
        lemma_alaw_magnitude_increasing(v + 1, w);
    }
}

/// Decoding is indifferent to where a payload is split, as long as the
/// split falls on a sample boundary: the samples of `a + b` are the samples
/// of `a` followed by those of `b`.
pub proof fn lemma_decoding_splits(a: Seq<u8>, b: Seq<u8>)
    ensures
        a.len() % 2 == 0 ==> pcm16_samples(a + b) == pcm16_samples(a) + pcm16_samples(b),
        a.len() % 4 == 0 ==> f32_bit_samples(a + b) == f32_bit_samples(a) + f32_bit_samples(b),
        ulaw_samples(a + b) == ulaw_samples(a) + ulaw_samples(b),
        alaw_samples(a + b) == alaw_samples(a) + alaw_samples(b),
{
    let ab = a + b;
    if a.len() % 2 == 0 {
        let h = a.len() / 2;
        assert(ab.len() / 2 == h + b.len() / 2);
        assert forall|i: int| 0 <= i < ab.len() / 2 implies #[trigger] pcm16_samples(ab)[i] == (
        pcm16_samples(a) + pcm16_samples(b))[i] by {
            if i >= h {
                assert(ab[2 * i] == b[2 * (i - h)]);
                assert(ab[2 * i + 1] == b[2 * (i - h) + 1]);
            }
        }
        assert(pcm16_samples(ab) =~= pcm16_samples(a) + pcm16_samples(b));
    }
    if a.len() % 4 == 0 {
        let q = a.len() / 4;
        assert(ab.len() / 4 == q + b.len() / 4);
        assert forall|i: int| 0 <= i < ab.len() / 4 implies #[trigger] f32_bit_samples(ab)[i] == (
        f32_bit_samples(a) + f32_bit_samples(b))[i] by {
            if i >= q {
                assert(ab[4 * i] == b[4 * (i - q)]);
                assert(ab[4 * i + 1] == b[4 * (i - q) + 1]);
                assert(ab[4 * i + 2] == b[4 * (i - q) + 2]);
                assert(ab[4 * i + 3] == b[4 * (i - q) + 3]);
            }
        }
        assert(f32_bit_samples(ab) =~= f32_bit_samples(a) + f32_bit_samples(b));
    }
    assert(ulaw_samples(ab) =~= ulaw_samples(a) + ulaw_samples(b));
    assert(alaw_samples(ab) =~= alaw_samples(a) + alaw_samples(b));
}

/// Decoding accepts every payload made of whole samples: it refuses a
/// payload only when its length is not a multiple of the format's sample
/// width (two bytes for PCM16, four for float32, one for µ-law and A-law),
/// and otherwise gives one sample per width of bytes. PCM16 samples are the
/// little-endian byte pairs read modulo `2^16`, and float32 samples are the
/// little-endian words.
pub proof fn lemma_decode_accepts_whole_samples(
    bytes: Seq<u8>,
    format: AudioFormat,
    res: Result<DecodedAudio, DecodeError>,
)
    requires
        decodes_to(bytes, format, res),
    ensures
        res is Err <==> ((format == AudioFormat::Pcm16 && bytes.len() % 2 != 0) || (format
            == AudioFormat::PcmF32 && bytes.len() % 4 != 0)),
        format == AudioFormat::Pcm16 && bytes.len() % 2 != 0 ==> res == Err::<
            DecodedAudio,
            DecodeError,
        >(DecodeError::OddPcm16Length),
        format == AudioFormat::PcmF32 && bytes.len() % 4 != 0 ==> res == Err::<
            DecodedAudio,
            DecodeError,
        >(DecodeError::PcmF32LengthNotMultipleOfFour),
        format == AudioFormat::Pcm16 && bytes.len() % 2 == 0 ==> (res matches Ok(
            DecodedAudio::Int16(v),
        ) && v@.len() == bytes.len() / 2 && forall|i: int|
            0 <= i < bytes.len() / 2 ==> (#[trigger] v@[i] as int - bytes[2 * i] as int - 256
                * bytes[2 * i + 1] as int) % 65536 == 0),
        format == AudioFormat::PcmF32 && bytes.len() % 4 == 0 ==> (res matches Ok(
            DecodedAudio::Float32Bits(v),
        ) && v@.len() == bytes.len() / 4 && forall|i: int|
            0 <= i < bytes.len() / 4 ==> #[trigger] v@[i] as int == bytes[4 * i] as int + 256
                * bytes[4 * i + 1] as int + 65536 * bytes[4 * i + 2] as int + 16777216 * bytes[4
                * i + 3] as int),
        format == AudioFormat::Ulaw || format == AudioFormat::Alaw ==> (res matches Ok(
            DecodedAudio::Int16(v),
        ) && v@.len() == bytes.len()),
{
    match format {
        AudioFormat::Pcm16 => {
            if bytes.len() % 2 == 0 {
                if let Ok(DecodedAudio::Int16(v)) = res {
                    assert forall|i: int| 0 <= i < bytes.len() / 2 implies (#[trigger] v@[i] as int
                        - bytes[2 * i] as int - 256 * bytes[2 * i + 1] as int) % 65536 == 0 by {
                        let u = bytes[2 * i] as int + 256 * bytes[2 * i + 1] as int;
                        assert(0 <= u < 65536);
                        assert(v@[i] == pcm16_value(bytes[2 * i], bytes[2 * i + 1]) as i16);
                    }
                }
            }
        },
        _ => {},
    }
}

} // verus!
