//! Standard 16-bit PCM WAV files (RIFF, little-endian), as produced for
//! previews and for external tools.

use vstd::prelude::*;
use crate::le_bytes::{append_s16le, lemma_s16le_append, le16, le32, push_u16_le, push_u32_le, s16le};
use crate::pcm::{channels_cover_first, interleave, interleaved, pcm_view};

verus! {

/// The 44-byte canonical header of a 16-bit PCM WAV file.
pub open spec fn wav_header(num_channels: int, sample_rate: int, data_size: int) -> Seq<u8> {
    seq![0x52u8, 0x49u8, 0x46u8, 0x46u8]  // "RIFF"
        + le32(36 + data_size)
        + seq![0x57u8, 0x41u8, 0x56u8, 0x45u8]  // "WAVE"
        + seq![0x66u8, 0x6du8, 0x74u8, 0x20u8]  // "fmt "
        + le32(16)  // fmt chunk size
        + le16(1)  // PCM
        + le16(num_channels)
        + le32(sample_rate)
        + le32(sample_rate * num_channels * 2)  // byte rate
        + le16(num_channels * 2)  // block align
        + le16(16)  // bits per sample
        + seq![0x64u8, 0x61u8, 0x74u8, 0x61u8]  // "data"
        + le32(data_size)
}

/// The size of the sample data of `chs` in bytes.
pub open spec fn wav_data_len(chs: Seq<Seq<i16>>) -> int {
    2 * interleaved(chs).len() as int
}

/// The value written in the 32-bit size fields: the data size modulo 2^32.
pub open spec fn wav_size_field(chs: Seq<Seq<i16>>) -> int {
    wav_data_len(chs) % 0x1_0000_0000
}

/// The value written in the 16-bit channel-count field: the number of
/// channels modulo 2^16.
pub open spec fn wav_channel_field(chs: Seq<Seq<i16>>) -> int {
    chs.len() as int % 0x1_0000
}

/// A complete WAV file of the interleaved channels.
pub open spec fn wav_pcm16(chs: Seq<Seq<i16>>, sample_rate: u32) -> Seq<u8> {
    wav_header(wav_channel_field(chs), sample_rate as int, wav_size_field(chs)) + s16le(interleaved(chs))
}

/// The header fields of a WAV file of `chs` fit their field widths: the
/// block alignment and the byte rate computed from the channel-count field,
/// the RIFF chunk size, and the data size.
pub open spec fn wav_fields_fit(chs: Seq<Seq<i16>>, sample_rate: u32) -> bool {
    &&& wav_channel_field(chs) * 2 <= u16::MAX
    &&& sample_rate * wav_channel_field(chs) * 2 <= u32::MAX
    &&& 36 + wav_size_field(chs) <= u32::MAX
    &&& wav_data_len(chs) <= usize::MAX
}

fn push4(out: &mut Vec<u8>, a: u8, b: u8, c: u8, d: u8)
    ensures
        final(out)@ == old(out)@ + seq![a, b, c, d],
{
    out.push(a);
    out.push(b);
    out.push(c);
    out.push(d);
    assert(final(out)@ =~= old(out)@ + seq![a, b, c, d]);
}

/// The bytes of a 16-bit PCM WAV file holding `channels` at `sample_rate`.
pub fn wav_pcm16_bytes(channels: &[Vec<i16>], sample_rate: u32) -> (out: Vec<u8>)
    requires
        channels_cover_first(pcm_view(channels@)),
        wav_fields_fit(pcm_view(channels@), sample_rate),
    ensures
        out@ == wav_pcm16(pcm_view(channels@), sample_rate),
        out@.len() == 44 + wav_data_len(pcm_view(channels@)),
{
    let ghost chs = pcm_view(channels@);
    let num_channels = (channels.len() % 0x1_0000) as u16;
    let interleaved = interleave(channels);
    let data_size = interleaved.len() * 2;
    let data_field = (data_size as u64 % 0x1_0000_0000u64) as u32;
    let riff_chunk_size = 36u32 + data_field;
    let mut w: Vec<u8> = Vec::new();
    push4(&mut w, 0x52, 0x49, 0x46, 0x46);
    push_u32_le(&mut w, riff_chunk_size);
    push4(&mut w, 0x57, 0x41, 0x56, 0x45);
    push4(&mut w, 0x66, 0x6d, 0x74, 0x20);
    push_u32_le(&mut w, 16);
    push_u16_le(&mut w, 1);
    push_u16_le(&mut w, num_channels);
    push_u32_le(&mut w, sample_rate);
    let byte_rate = sample_rate * num_channels as u32 * 2;
    push_u32_le(&mut w, byte_rate);
    let block_align = num_channels * 2;
    push_u16_le(&mut w, block_align);
    push_u16_le(&mut w, 16);
    push4(&mut w, 0x64, 0x61, 0x74, 0x61);
    push_u32_le(&mut w, data_field);
    assert(w@ =~= wav_header(wav_channel_field(chs), sample_rate as int, wav_size_field(chs)));
    append_s16le(&mut w, interleaved.as_slice());
    proof {
        lemma_s16le_append(interleaved@, Seq::empty());
        assert(interleaved@ + Seq::<i16>::empty() =~= interleaved@);
    }
    w
}


/// Whether the header fields of a WAV file of `channels` fit their widths.
pub fn wav_fits(channels: &[Vec<i16>], sample_rate: u32) -> (r: bool)
    requires
        channels_cover_first(pcm_view(channels@)),
    ensures
        r == wav_fields_fit(pcm_view(channels@), sample_rate),
{
    let ghost chs = pcm_view(channels@);
    let k = channels.len();
    let n = channels[0].len();
    assert(interleaved(chs).len() == n * k);
    let c = k % 0x1_0000;
    if c > 32767 {
        return false;
    }
    assert((sample_rate as int) * (c as int) * 2 <= 0xffff_ffff * 65534) by (nonlinear_arith)
        requires sample_rate <= 0xffff_ffff, c <= 32767;
    let rate = (sample_rate as u64) * (c as u64) * 2;
    if rate > 0xffff_ffff {
        return false;
    }
    assert((n as int) * (k as int) <= 0xffff_ffff_ffff_ffff * 0xffff_ffff_ffff_ffff) by (nonlinear_arith)
        requires n <= 0xffff_ffff_ffff_ffff, k <= 0xffff_ffff_ffff_ffff;
    let frames = (n as u128) * (k as u128);
    if frames > usize::MAX as u128 / 2 {
        return false;
    }
    let data_len = frames * 2;
    assert(data_len == wav_data_len(chs));
    if (data_len % 0x1_0000_0000) + 36 > 0xffff_ffff {
        return false;
    }
    data_len <= usize::MAX as u128
}

/// Law: the header fields of a WAV file fit whenever the channel count and
/// sample rate are those a BRSTM header can hold (at most 255 channels,
/// rates below 2^16) and the sample data with the 36 bytes of header after
/// the RIFF size field stays below 4 GiB; no limit is set on the length as
/// such.
pub proof fn lemma_wav_fields_fit_small(chs: Seq<Seq<i16>>, sample_rate: u32)
    requires
        1 <= chs.len() <= 255,
        sample_rate <= 0xffff,
        2 * chs.len() * chs[0].len() + 36 <= u32::MAX,
    ensures
        wav_fields_fit(chs, sample_rate),
{
    let k = chs.len() as int;
    let n = chs[0].len() as int;
    assert(wav_channel_field(chs) == k);
    assert(interleaved(chs).len() == n * k);
    assert(sample_rate * k * 2 <= 0xffff * 255 * 2) by (nonlinear_arith)
        requires sample_rate <= 0xffff, 0 <= k <= 255;
    assert(2 * k * n == 2 * (n * k)) by (nonlinear_arith);
    assert(0 <= n * k) by (nonlinear_arith)
        requires 0 <= n, 0 <= k;
    assert(wav_data_len(chs) == 2 * k * n);
    assert(wav_size_field(chs) == wav_data_len(chs));
}

} // verus!
