use brstm_speed_tool::atempo::{decode_atempo_output, AtempoOutputError};
use brstm_speed_tool::le_bytes::{decode_s16le, encode_s16le, push_u16_le, push_u32_le};
use brstm_speed_tool::pcm::{deinterleave, interleave};
use brstm_speed_tool::wav::{wav_fits, wav_pcm16_bytes};

#[test]
fn encode_s16le_twos_complement() {
    assert_eq!(
        encode_s16le(&[1, -1, 256, -32768, 32767]),
        vec![1, 0, 255, 255, 0, 1, 0, 128, 255, 127]
    );
}

#[test]
fn encode_s16le_matches_std() {
    let x: Vec<i16> = vec![-12345, 0, 4242, -1, i16::MIN, i16::MAX];
    let expected: Vec<u8> = x.iter().flat_map(|s| s.to_le_bytes()).collect();
    assert_eq!(encode_s16le(&x), expected);
}

#[test]
fn decode_s16le_ignores_trailing_byte() {
    assert_eq!(decode_s16le(&[0x34, 0x12, 0xff, 0xff, 0x07]), vec![0x1234, -1]);
}

#[test]
fn s16le_roundtrip() {
    let x: Vec<i16> = (-300..300).map(|v| (v * 109) as i16).collect();
    assert_eq!(decode_s16le(&encode_s16le(&x)), x);
}

#[test]
fn little_endian_integers() {
    let mut out = Vec::new();
    push_u16_le(&mut out, 0xBEEF);
    push_u32_le(&mut out, 0x0102_0304);
    assert_eq!(out, vec![0xEF, 0xBE, 0x04, 0x03, 0x02, 0x01]);
}

#[test]
fn wav_header_exact_bytes() {
    let chs = vec![vec![1i16, -2]];
    let wav = wav_pcm16_bytes(&chs, 8000);
    let mut expected: Vec<u8> = Vec::new();
    expected.extend_from_slice(b"RIFF");
    expected.extend_from_slice(&[40, 0, 0, 0]);
    expected.extend_from_slice(b"WAVE");
    expected.extend_from_slice(b"fmt ");
    expected.extend_from_slice(&[16, 0, 0, 0, 1, 0, 1, 0]);
    expected.extend_from_slice(&[0x40, 0x1F, 0, 0]);
    expected.extend_from_slice(&[0x80, 0x3E, 0, 0]);
    expected.extend_from_slice(&[2, 0, 16, 0]);
    expected.extend_from_slice(b"data");
    expected.extend_from_slice(&[4, 0, 0, 0]);
    expected.extend_from_slice(&[1, 0, 0xFE, 0xFF]);
    assert_eq!(wav, expected);
}

#[test]
fn wav_stereo_layout() {
    let chs = vec![vec![1i16, 2, 3], vec![-1i16, -2, -3]];
    let wav = wav_pcm16_bytes(&chs, 44100);
    assert_eq!(wav.len(), 44 + 12);
    assert_eq!(&wav[22..24], &[2, 0]);
    assert_eq!(&wav[28..32], &(44100u32 * 4).to_le_bytes());
    assert_eq!(&wav[32..34], &[4, 0]);
    assert_eq!(&wav[40..44], &[12, 0, 0, 0]);
    assert_eq!(&wav[44..], &encode_s16le(&interleave(&chs))[..]);
}

#[test]
fn wav_fits_limits() {
    let chs = vec![vec![0i16; 4]; 2];
    assert!(wav_fits(&chs, 48000));
    assert!(!wav_fits(&chs, u32::MAX));
    let many = vec![vec![0i16; 1]; 40000];
    assert!(!wav_fits(&many, 1));
}

#[test]
fn wav_channel_field_wraps() {
    let chs = vec![vec![3i16; 1]; 65537];
    assert!(wav_fits(&chs, 8000));
    let wav = wav_pcm16_bytes(&chs, 8000);
    assert_eq!(wav.len(), 44 + 2 * 65537);
    assert_eq!(&wav[22..24], &[1, 0]);
    assert_eq!(&wav[28..32], &16000u32.to_le_bytes());
    assert_eq!(&wav[32..34], &[2, 0]);
    assert_eq!(&wav[40..44], &(2u32 * 65537).to_le_bytes());
}

#[test]
fn atempo_output_odd_byte_count() {
    assert_eq!(decode_atempo_output(&[1, 2, 3], 2), Err(AtempoOutputError::OddByteCount));
}

#[test]
fn atempo_output_partial_frame() {
    assert_eq!(
        decode_atempo_output(&[1, 0, 2, 0, 3, 0], 2),
        Err(AtempoOutputError::PartialFrame { samples: 3, channels: 2 })
    );
}

#[test]
fn atempo_output_empty_is_accepted() {
    assert_eq!(decode_atempo_output(&[], 2), Ok(vec![]));
}

#[test]
fn atempo_output_whole_frames() {
    assert_eq!(decode_atempo_output(&[1, 0, 255, 255], 2), Ok(vec![1, -1]));
}

#[test]
fn exchange_roundtrip_without_filter() {
    let chs = vec![vec![5i16, -6, 7], vec![100i16, 200, -300]];
    let bytes = encode_s16le(&interleave(&chs));
    let back = decode_atempo_output(&bytes, 2).unwrap();
    assert_eq!(deinterleave(&back, 2), chs);
}
