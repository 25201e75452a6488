use vad_rs::audio::{
    alaw_expand, decode_audio, pcm16_from_le, ulaw_expand, word_from_le, AudioFormat,
    DecodeError, DecodedAudio,
};

/// G.711 A-law expansion written with the bit operations of the usual
/// reference decoder.
fn reference_alaw(byte: u8) -> i16 {
    let a = byte ^ 0x55;
    let mut t = ((a & 0x0F) as i16) << 4;
    let seg = (a & 0x70) >> 4;
    match seg {
        0 => t += 8,
        1 => t += 0x108,
        _ => {
            t += 0x108;
            t <<= seg - 1;
        }
    }
    if a & 0x80 != 0 {
        t
    } else {
        -t
    }
}

/// G.711 µ-law expansion written with the bit operations of the usual
/// reference decoder.
fn reference_ulaw(byte: u8) -> i16 {
    let val = !byte;
    let sign = (val & 0x80) != 0;
    let exponent = ((val >> 4) & 0x07) as i16;
    let mantissa = (val & 0x0F) as i16;
    let sample = (((mantissa << 3) + 132) << exponent) - 132;
    if sign {
        -sample
    } else {
        sample
    }
}

#[test]
fn pcm16_decodes_little_endian_samples() {
    let bytes = [0x00, 0x00, 0xFF, 0x7F, 0x00, 0x80, 0xFF, 0xFF, 0x34, 0x12];
    match decode_audio(&bytes, &AudioFormat::Pcm16) {
        Ok(DecodedAudio::Int16(s)) => assert_eq!(s, vec![0, 32767, -32768, -1, 0x1234]),
        other => panic!("unexpected {:?}", other),
    }
}

#[test]
fn pcm16_matches_std_for_many_values() {
    for v in [-32768i16, -12345, -256, -255, -1, 0, 1, 255, 256, 12345, 32767] {
        let b = v.to_le_bytes();
        assert_eq!(pcm16_from_le(b[0], b[1]), v);
        assert_eq!(pcm16_from_le(b[0], b[1]), i16::from_le_bytes(b));
    }
}

#[test]
fn pcm16_odd_length_is_refused() {
    assert_eq!(
        decode_audio(&[1, 2, 3], &AudioFormat::Pcm16),
        Err(DecodeError::OddPcm16Length)
    );
    assert_eq!(
        DecodeError::OddPcm16Length.message(),
        "PCM16 byte length must be even"
    );
}

#[test]
fn pcm16_empty_payload_gives_no_samples() {
    assert_eq!(
        decode_audio(&[], &AudioFormat::Pcm16),
        Ok(DecodedAudio::Int16(vec![]))
    );
}

#[test]
fn f32_payload_gives_bit_patterns() {
    let mut bytes = Vec::new();
    for x in [1.0f32, -0.5, 0.25, 0.0] {
        bytes.extend_from_slice(&x.to_le_bytes());
    }
    match decode_audio(&bytes, &AudioFormat::PcmF32) {
        Ok(DecodedAudio::Float32Bits(w)) => {
            assert_eq!(w, vec![0x3F80_0000, 0xBF00_0000, 0x3E80_0000, 0]);
            let f: Vec<f32> = w.into_iter().map(f32::from_bits).collect();
            assert_eq!(f, vec![1.0, -0.5, 0.25, 0.0]);
        }
        other => panic!("unexpected {:?}", other),
    }
}

#[test]
fn word_from_le_matches_std() {
    for w in [0u32, 1, 0x1234_5678, 0xFFFF_FFFF, 0x8000_0000] {
        let b = w.to_le_bytes();
        assert_eq!(word_from_le(b[0], b[1], b[2], b[3]), w);
    }
}

#[test]
fn f32_length_not_multiple_of_four_is_refused() {
    assert_eq!(
        decode_audio(&[0, 0, 0, 0, 0, 0], &AudioFormat::PcmF32),
        Err(DecodeError::PcmF32LengthNotMultipleOfFour)
    );
    assert_eq!(
        DecodeError::PcmF32LengthNotMultipleOfFour.message(),
        "F32 byte length must be multiple of 4"
    );
}

#[test]
fn alaw_payload_decodes_every_byte() {
    assert_eq!(
        decode_audio(&[0xD5, 0x55, 0xAA, 0x2A], &AudioFormat::Alaw),
        Ok(DecodedAudio::Int16(vec![8, -8, 32256, -32256]))
    );
    assert_eq!(
        decode_audio(&[], &AudioFormat::Alaw),
        Ok(DecodedAudio::Int16(vec![]))
    );
}

#[test]
fn alaw_matches_reference_decoder_on_every_byte() {
    for b in 0..=255u8 {
        assert_eq!(alaw_expand(b), reference_alaw(b), "byte {:#04x}", b);
    }
}

#[test]
fn alaw_sign_symmetry_and_order() {
    for b in 0..=255u8 {
        assert_eq!(alaw_expand(b ^ 0x80), -alaw_expand(b));
        assert_ne!(alaw_expand(b), 0);
    }
    // Codes with the even bits restored grow louder one by one.
    for v in 0..127u8 {
        let a = alaw_expand((v | 0x80) ^ 0x55);
        let b = alaw_expand(((v + 1) | 0x80) ^ 0x55);
        assert!(8 <= a && a < b);
    }
}

#[test]
fn decoding_does_not_depend_on_sample_aligned_splits() {
    let bytes: Vec<u8> = (0..64u8).map(|b| b.wrapping_mul(37)).collect();
    for format in [AudioFormat::Pcm16, AudioFormat::PcmF32, AudioFormat::Ulaw, AudioFormat::Alaw] {
        let whole = decode_audio(&bytes, &format).unwrap();
        let (a, b) = bytes.split_at(24);
        let mut joined = match (decode_audio(a, &format).unwrap(), decode_audio(b, &format).unwrap()) {
            (DecodedAudio::Int16(mut x), DecodedAudio::Int16(y)) => {
                x.extend(y);
                DecodedAudio::Int16(x)
            }
            (DecodedAudio::Float32Bits(mut x), DecodedAudio::Float32Bits(y)) => {
                x.extend(y);
                DecodedAudio::Float32Bits(x)
            }
            _ => panic!("formats disagree"),
        };
        assert_eq!(whole, std::mem::replace(&mut joined, DecodedAudio::Int16(vec![])));
    }
}

#[test]
fn ulaw_matches_reference_decoder_on_every_byte() {
    for b in 0..=255u8 {
        assert_eq!(ulaw_expand(b), reference_ulaw(b), "byte {:#04x}", b);
    }
}

#[test]
fn ulaw_known_values() {
    assert_eq!(ulaw_expand(0xFF), 0);
    assert_eq!(ulaw_expand(0x7F), 0);
    assert_eq!(ulaw_expand(0x80), 32124);
    assert_eq!(ulaw_expand(0x00), -32124);
    assert_eq!(ulaw_expand(0xFE), 8);
    assert_eq!(ulaw_expand(0xEF), 132 * 2 - 132 + 0);
}

#[test]
fn ulaw_payload_decodes_every_byte() {
    let bytes = [0xFF, 0x80, 0x00, 0x7F, 0xFE];
    assert_eq!(
        decode_audio(&bytes, &AudioFormat::Ulaw),
        Ok(DecodedAudio::Int16(vec![0, 32124, -32124, 0, 8]))
    );
}

#[test]
fn ulaw_sign_symmetry_on_every_byte() {
    for b in 0..=255u8 {
        assert_eq!(ulaw_expand(b ^ 0x80), -ulaw_expand(b));
    }
}

#[test]
fn ulaw_monotone_within_each_sign() {
    for a in 128..255u8 {
        assert!(ulaw_expand(a) > ulaw_expand(a + 1));
        assert!(ulaw_expand(a + 1) >= 0);
    }
    for a in 0..127u8 {
        assert!(ulaw_expand(a) < ulaw_expand(a + 1));
        assert!(ulaw_expand(a + 1) <= 0);
    }
}
