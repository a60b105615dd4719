use brstm_speed_tool::brstm_format::{
    block_layout_check, check_reader_arithmetic, coefficients_check, serialiser_fits_check,
    BlockLayout, EncodeError, StreamHeader,
};
use brstm_speed_tool::brstm_stream::{
    clamp_loop_point, decode_adpcm_stream, decode_loop_preview_parts, encode_brstm_file,
    encoder_supports, export_wav, loop_info, loop_preview_wav, stream_loop_point, BrstmError,
    LOOP_PREVIEW_SEC,
};
use brstm_speed_tool::report::loop_info_json;

fn tone(len: usize, phase: i32) -> Vec<i16> {
    (0..len).map(|i| (((i as i32 * 37 + phase) % 2000) - 1000) as i16 * 8).collect()
}

fn stereo(len: usize) -> Vec<Vec<i16>> {
    vec![tone(len, 0), tone(len, 500)]
}

#[test]
fn encoded_header_reads_back() {
    let enc = encode_brstm_file(&stereo(30000), 1000, Some(100)).unwrap();
    let expected = StreamHeader {
        codec: 2,
        loop_flag: 1,
        channel_count: 2,
        sample_rate: 1000,
        loop_start: 100,
        total_samples: 30000,
    };
    assert_eq!(loop_info(&enc), Ok(expected));
}

#[test]
fn encoded_stream_without_loop() {
    let enc = encode_brstm_file(&stereo(500), 32000, None).unwrap();
    let h = loop_info(&enc).unwrap();
    assert_eq!(h.loop_flag, 0);
    assert_eq!(h.loop_start, 0);
    assert_eq!(stream_loop_point(&h), None);
    assert_eq!(decode_loop_preview_parts(&enc).err(), Some(BrstmError::NoLoop));
}

#[test]
fn decode_gives_one_buffer_per_channel() {
    let enc = encode_brstm_file(&stereo(30000), 1000, Some(100)).unwrap();
    let d = decode_adpcm_stream(&enc).unwrap();
    assert_eq!(d.header.channel_count, 2);
    assert_eq!(d.channels.len(), 2);
    assert_eq!(d.channels[0].len(), 30000);
    assert_eq!(d.channels[1].len(), 30000);
    assert_eq!(stream_loop_point(&d.header), Some(100));
}

#[test]
fn garbage_is_a_header_error() {
    assert_eq!(loop_info(&[0u8; 16]), Err(BrstmError::Header));
    assert_eq!(decode_adpcm_stream(b"not a brstm file").err(), Some(BrstmError::Header));
    assert_eq!(export_wav(&[]).err(), Some(BrstmError::Header));
}

#[test]
fn other_codec_is_refused() {
    let mut bytes = encode_brstm_file(&stereo(2000), 1000, Some(10)).unwrap();
    // the codec is the first byte of the first HEAD chunk
    bytes[0x60] = 1;
    assert_eq!(loop_info(&bytes).unwrap().codec, 1);
    assert_eq!(decode_adpcm_stream(&bytes).err(), Some(BrstmError::UnsupportedCodec(1)));
    assert_eq!(export_wav(&bytes).err(), Some(BrstmError::UnsupportedCodec(1)));
    assert_eq!(decode_loop_preview_parts(&bytes).err(), Some(BrstmError::UnsupportedCodec(1)));
    bytes[0x61] = 0;
    assert_eq!(decode_loop_preview_parts(&bytes).err(), Some(BrstmError::NoLoop));
}

#[test]
fn export_wav_of_encoded_stream() {
    let enc = encode_brstm_file(&stereo(3000), 22050, None).unwrap();
    let w = export_wav(&enc).unwrap();
    assert_eq!(w.channel_count, 2);
    assert_eq!(w.sample_rate, 22050);
    assert_eq!(w.wav.len(), 44 + 2 * 2 * 3000);
    assert_eq!(&w.wav[0..4], b"RIFF");
    assert_eq!(&w.wav[24..28], &22050u32.to_le_bytes());
}

#[test]
fn loop_preview_of_encoded_stream() {
    let enc = encode_brstm_file(&stereo(30000), 1000, Some(100)).unwrap();
    let (seg1, seg2, sr) = decode_loop_preview_parts(&enc).unwrap();
    assert_eq!(sr, 1000);
    let span = (1000 * LOOP_PREVIEW_SEC) as usize;
    assert_eq!(seg1.len(), 2);
    assert_eq!(seg1[0].len(), span);
    assert_eq!(seg2[1].len(), span);
    let d = decode_adpcm_stream(&enc).unwrap();
    assert_eq!(seg1[0], d.channels[0][30000 - span..].to_vec());
    assert_eq!(seg2[1], d.channels[1][100..100 + span].to_vec());
    let p = loop_preview_wav(&enc).unwrap();
    assert_eq!(p.tail_frames, span);
    assert_eq!(p.head_frames, span);
    assert_eq!(p.sample_rate, 1000);
    assert_eq!(p.wav.len(), 44 + 2 * 2 * 2 * span);
}

#[test]
fn loop_preview_near_stream_end() {
    let enc = encode_brstm_file(&stereo(3000), 1000, Some(2500)).unwrap();
    let p = loop_preview_wav(&enc).unwrap();
    assert_eq!(p.tail_frames, 3000);
    assert_eq!(p.head_frames, 500);
}

#[test]
fn encoder_refusals() {
    let none: Vec<Vec<i16>> = Vec::new();
    assert_eq!(
        encode_brstm_file(&none, 1000, None).err(),
        Some(EncodeError::EmptyChannels)
    );
    assert_eq!(
        encode_brstm_file(&[tone(10, 0), tone(11, 0)], 1000, None).err(),
        Some(EncodeError::MismatchedLengths(vec![10, 11]))
    );
    assert_eq!(
        encode_brstm_file(&[tone(10, 0)], 1000, None).err(),
        Some(EncodeError::UnevenChannelCount(1))
    );
    let many = vec![tone(10, 0); 18];
    assert_eq!(
        encode_brstm_file(&many, 1000, None).err(),
        Some(EncodeError::TooHighChannelCount(18))
    );
    assert_eq!(
        encode_brstm_file(&stereo(10), 1000, Some(11)).err(),
        Some(EncodeError::LoopOutOfBounds { loop_point: 11, size: 10 })
    );
}

#[test]
fn loop_point_at_stream_end_is_accepted() {
    let enc = encode_brstm_file(&stereo(10), 1000, Some(10)).unwrap();
    assert_eq!(loop_info(&enc).unwrap().loop_start, 10);
}

#[test]
fn clamp_loop_point_values() {
    assert_eq!(clamp_loop_point(50, 100), 50);
    assert_eq!(clamp_loop_point(100, 100), 99);
    assert_eq!(clamp_loop_point(7, 0), 0);
}

#[test]
fn loop_info_json_line() {
    let h = StreamHeader {
        codec: 2,
        loop_flag: 1,
        channel_count: 2,
        sample_rate: 32000,
        loop_start: 123456,
        total_samples: 4000000000,
    };
    assert_eq!(
        loop_info_json(&h),
        "{\"sample_rate\":32000,\"channels\":2,\"codec\":2,\"loop_flag\":1,\"loop_start\":123456,\"total_samples\":4000000000}"
    );
    let z = StreamHeader { codec: 0, loop_flag: 0, channel_count: 0, sample_rate: 0, loop_start: 0, total_samples: 0 };
    assert_eq!(
        loop_info_json(&z),
        "{\"sample_rate\":0,\"channels\":0,\"codec\":0,\"loop_flag\":0,\"loop_start\":0,\"total_samples\":0}"
    );
}

#[test]
fn encoder_supported_lengths() {
    assert!(encoder_supports(&stereo(14336), None));
    assert!(encoder_supports(&stereo(14338), Some(3)));
    assert!(!encoder_supports(&stereo(14337), None));
    assert!(!encoder_supports(&stereo(1), None));
    assert!(!encoder_supports(&stereo(0), None));
    // refused inputs are reported by the encoder, whatever their length
    assert!(encoder_supports(&[tone(1, 0), tone(2, 0)], None));
    assert!(encoder_supports(&stereo(1), Some(5)));
    assert!(encoder_supports(&[tone(1, 0)], None));
}

#[test]
fn clamped_loop_point_is_accepted() {
    let chs = stereo(40);
    let lp = clamp_loop_point(u32::MAX, chs[0].len());
    assert_eq!(lp, 39);
    assert!(encode_brstm_file(&chs, 1000, Some(lp)).is_ok());
}

#[test]
fn encoding_is_deterministic() {
    let a = encode_brstm_file(&stereo(5000), 8000, Some(7)).unwrap();
    let b = encode_brstm_file(&stereo(5000), 8000, Some(7)).unwrap();
    assert_eq!(a, b);
    let c = encode_brstm_file(&stereo(5000), 8000, Some(8)).unwrap();
    assert_ne!(a, c);
}

#[test]
fn decoded_channels_differ() {
    let enc = encode_brstm_file(&stereo(3000), 1000, None).unwrap();
    let d = decode_adpcm_stream(&enc).unwrap();
    assert_ne!(d.channels[0], d.channels[1]);
}

#[test]
fn reader_offset_overflow_is_a_header_error() {
    let good = encode_brstm_file(&stereo(2000), 1000, Some(10)).unwrap();
    assert!(check_reader_arithmetic(&good));
    let mut bad = good.clone();
    bad[0x10..0x14].copy_from_slice(&0xFFFF_FFFCu32.to_be_bytes());
    assert!(!check_reader_arithmetic(&bad));
    assert_eq!(loop_info(&bad), Err(BrstmError::Header));
    let mut small_adpc = good.clone();
    small_adpc[0x1C..0x20].copy_from_slice(&4u32.to_be_bytes());
    assert!(!check_reader_arithmetic(&small_adpc));
    assert_eq!(decode_adpcm_stream(&small_adpc).err(), Some(BrstmError::Header));
    let mut far_chunk = good.clone();
    far_chunk[0x4C..0x50].copy_from_slice(&0xFFFF_FFF0u32.to_be_bytes());
    assert!(!check_reader_arithmetic(&far_chunk));
    assert!(check_reader_arithmetic(&[0u8; 8]));
}

#[test]
fn block_layout_beyond_data_is_refused() {
    let mut bytes = encode_brstm_file(&stereo(2000), 1000, Some(10)).unwrap();
    // total_blocks of the first HEAD chunk
    bytes[0x74..0x78].copy_from_slice(&1000u32.to_be_bytes());
    assert_eq!(decode_adpcm_stream(&bytes).err(), Some(BrstmError::UnsupportedLayout));
    assert_eq!(export_wav(&bytes).err(), Some(BrstmError::UnsupportedLayout));
}

#[test]
fn block_layout_check_values() {
    let l = BlockLayout {
        num_channels: 2,
        total_blocks: 2,
        blocks_size: 16,
        blocks_samples: 28,
        final_block_size_padded: 32,
        final_block_samples: 14,
    };
    // history: 2 blocks * 2 channels * 4 bytes; data: 2 * 16 + 2 * 32
    assert!(block_layout_check(l, 16, 96, 1));
    assert!(!block_layout_check(l, 15, 96, 1));
    assert!(!block_layout_check(l, 16, 95, 1));
    let empty = BlockLayout { total_blocks: 0, ..l };
    assert!(block_layout_check(empty, 0, 0, 5));
    let too_many = BlockLayout { blocks_samples: 29, ..l };
    assert!(!block_layout_check(too_many, 16, 96, 1));
}

#[test]
fn coefficient_bounds() {
    let mut cs = vec![0i16; 16];
    assert!(coefficients_check(&cs));
    cs[0] = 32767;
    cs[1] = 16384;
    assert!(coefficients_check(&cs));
    cs[1] = 16385;
    assert!(!coefficients_check(&cs));
    let mut last = vec![0i16; 16];
    last[15] = -24576;
    assert!(!coefficients_check(&last));
    assert!(!coefficients_check(&vec![0i16; 15]));
}

#[test]
fn loop_start_beyond_end_is_inconsistent() {
    let mut bytes = encode_brstm_file(&stereo(2000), 1000, Some(10)).unwrap();
    // loop_start of the first HEAD chunk
    bytes[0x68..0x6C].copy_from_slice(&5000u32.to_be_bytes());
    assert_eq!(loop_info(&bytes).unwrap().loop_start, 5000);
    assert_eq!(decode_loop_preview_parts(&bytes).err(), Some(BrstmError::InconsistentPcm));
    assert_eq!(loop_preview_wav(&bytes).err(), Some(BrstmError::InconsistentPcm));
    assert!(decode_adpcm_stream(&bytes).is_ok());
}

#[test]
fn short_file_with_overflowing_head_chunk_is_refused() {
    let mut b: Vec<u8> = Vec::new();
    b.extend_from_slice(b"RSTM");
    b.extend_from_slice(&[0xFE, 0xFF, 0x01, 0x00]);
    b.extend_from_slice(b"HEAD");
    b.extend_from_slice(&[0x00, 0x40, 0x00, 0x02]);
    b.extend_from_slice(&8u32.to_be_bytes());
    b.extend_from_slice(&[0xFF, 0xFF, 0xFF, 0xFF]);
    b.resize(40, 0);
    assert!(!check_reader_arithmetic(&b));
    assert_eq!(loop_info(&b), Err(BrstmError::Header));
    assert_eq!(decode_adpcm_stream(&b).err(), Some(BrstmError::Header));
    assert!(check_reader_arithmetic(&b[..39]));
    assert_eq!(loop_info(&b[..39]), Err(BrstmError::Header));
}

#[test]
fn serialiser_offset_limits() {
    assert!(serialiser_fits_check(2, 2));
    assert!(serialiser_fits_check(2, 14336 * 4));
    assert!(serialiser_fits_check(2, 3_000_000_000));
    assert!(!serialiser_fits_check(2, 3_758_000_000));
    assert!(serialiser_fits_check(16, 400_000_000));
}
