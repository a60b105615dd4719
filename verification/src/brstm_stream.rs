//! BRSTM streams: reading the header and the ADPCM data of a file held in
//! memory, decoding it to PCM, rendering WAV files of it, and encoding PCM
//! back into a BRSTM file. The format work is done by the `brstm` crate
//! (see `brstm_io`); this module states what the tool decides around it.

use vstd::prelude::*;
use crate::brstm_format::{
    block_layout_check, check_reader_arithmetic, coefficients_check, decoded_len,
    encoder_accepts, encoder_rejection_is, encoder_supports_input, lengths_agree, reader_arithmetic_safe,
    serialiser_fits_check, EncodeError, StreamHeader,
    StreamInfoView,
};
use crate::brstm_io::{
    brstm_channel_pcm, brstm_file_of, brstm_info_of, brstm_load_of, brstm_pcm_of, brstm_pcm_safe,
    encode_pcm, load_brstm, opened_info, read_brstm, write_brstm_bytes,
};
use crate::pcm::{
    channels_cover_first, concat_pcm, concatenated, copy_range, frames_of, interleaved,
    loop_head_segment, loop_preview_segments, pcm_view, saturating_product, tail_segment,
};
use crate::wav::{
    lemma_wav_fields_fit_small, wav_data_len, wav_fields_fit, wav_fits, wav_pcm16, wav_pcm16_bytes,
    wav_size_field,
};

verus! {

/// Why a BRSTM file could not be turned into PCM or WAV.
#[derive(Debug, Clone, Copy, PartialEq, Eq)]
pub enum BrstmError {
    /// The header could not be read.
    Header,
    /// The stream uses a codec other than 4-bit ADPCM.
    UnsupportedCodec(u8),
    /// The stream has no loop, so there is nothing to preview.
    NoLoop,
    /// The ADPCM data could not be loaded.
    Data,
    /// The block layout does not fit the loaded data, or a channel's
    /// predictor coefficients are outside the range within which decoding
    /// is known not to overflow, whatever the samples.
    UnsupportedLayout,
    /// The stream has no channel, or its loop start lies beyond the end.
    InconsistentPcm,
    /// The PCM does not fit in the 32-bit size fields of a WAV file.
    WavTooLarge,
}

/// The file's header chunks are read without failing.
pub open spec fn stream_readable(b: Seq<u8>) -> bool {
    reader_arithmetic_safe(b) && brstm_info_of(b) is Some
}

/// What the header chunks of a readable file hold.
pub open spec fn stream_info(b: Seq<u8>) -> StreamInfoView {
    brstm_info_of(b)->Some_0
}

/// The header of a readable file.
pub open spec fn brstm_header_of(b: Seq<u8>) -> Option<StreamHeader> {
    if stream_readable(b) {
        Some(stream_info(b).header)
    } else {
        None
    }
}

/// Every channel of a loaded file can be decoded.
pub open spec fn channels_decodable(b: Seq<u8>) -> bool {
    forall|c: u8| c < stream_info(b).header.channel_count ==> #[trigger] brstm_pcm_safe(b, c)
}

/// The decoded PCM of every channel of a file.
pub open spec fn stream_pcm(b: Seq<u8>) -> Seq<Seq<i16>> {
    Seq::new(stream_info(b).header.channel_count as nat, |c: int| brstm_pcm_of(b, c as u8))
}

/// The number of samples decoded per channel.
pub open spec fn stream_frames(b: Seq<u8>) -> int {
    decoded_len(stream_info(b).layout)
}

/// Why decoding a file fails, checked in order, or `None` where it
/// succeeds; `need_loop` asks for a looping stream.
pub open spec fn decode_error(b: Seq<u8>, need_loop: bool) -> Option<BrstmError> {
    if !stream_readable(b) {
        Some(BrstmError::Header)
    } else if need_loop && stream_info(b).header.loop_flag == 0 {
        Some(BrstmError::NoLoop)
    } else if stream_info(b).header.codec != 2 {
        Some(BrstmError::UnsupportedCodec(stream_info(b).header.codec))
    } else if brstm_load_of(b) is None {
        Some(BrstmError::Data)
    } else if !channels_decodable(b) {
        Some(BrstmError::UnsupportedLayout)
    } else {
        None
    }
}

/// Reads the header chunks of a file, or the error of an unreadable one.
fn read_info(bytes: &[u8]) -> (res: Result<(crate::brstm_io::OpenedBrstm, crate::brstm_format::StreamInfo), BrstmError>)
    ensures
        res is Ok <==> stream_readable(bytes@),
        res matches Err(e) ==> e == BrstmError::Header,
        res matches Ok((o, info)) ==> o.source() == bytes@ && info@ == stream_info(bytes@),
{
    if !check_reader_arithmetic(bytes) {
        return Err(BrstmError::Header);
    }
    let opened = match read_brstm(bytes) {
        Ok(o) => o,
        Err(_) => return Err(BrstmError::Header),
    };
    let info = opened_info(&opened);
    Ok((opened, info))
}

/// The header of the file, without decoding it.
pub fn loop_info(bytes: &[u8]) -> (res: Result<StreamHeader, BrstmError>)
    ensures
        res is Ok <==> stream_readable(bytes@),
        res matches Err(e) ==> e == BrstmError::Header,
        res matches Ok(h) ==> brstm_header_of(bytes@) == Some(h),
{
    let (_, info) = read_info(bytes)?;
    Ok(info.header)
}

/// Opens, checks and decodes a file.
fn open_and_decode(bytes: &[u8], need_loop: bool) -> (res: Result<(StreamHeader, Vec<Vec<i16>>), BrstmError>)
    ensures
        res is Ok <==> decode_error(bytes@, need_loop) is None,
        res matches Err(e) ==> decode_error(bytes@, need_loop) == Some(e),
        res matches Ok((h, chs)) ==> {
            &&& h == stream_info(bytes@).header
            &&& pcm_view(chs@) == stream_pcm(bytes@)
            &&& forall|c: int| 0 <= c < chs@.len() ==> #[trigger] chs@[c]@.len() == stream_frames(bytes@)
        },
{
    let ghost b = bytes@;
    let (opened, info) = read_info(bytes)?;
    let header = info.header;
    if need_loop && header.loop_flag == 0 {
        return Err(BrstmError::NoLoop);
    }
    if header.codec != 2 {
        return Err(BrstmError::UnsupportedCodec(header.codec));
    }
    let (loaded, a, d) = match load_brstm(opened) {
        Ok(p) => p,
        Err(_) => return Err(BrstmError::Data),
    };
    let mut c: u8 = 0;
    while c < header.channel_count
        invariant
            c <= header.channel_count,
            header == stream_info(b).header,
            b == bytes@,
            stream_readable(b),
            !(need_loop && header.loop_flag == 0),
            header.codec == 2,
            info@ == stream_info(b),
            brstm_info_of(b) == Some(info@),
            brstm_load_of(b) == Some((a, d)),
            forall|k: u8| k < c ==> #[trigger] brstm_pcm_safe(b, k),
        decreases header.channel_count - c,
    {
        let ok = block_layout_check(info.layout, a, d, c) && (c as usize) < info.coefficients.len()
            && coefficients_check(&info.coefficients[c as usize]);
        if !ok {
            assert(!brstm_pcm_safe(b, c));
            return Err(BrstmError::UnsupportedLayout);
        }
        assert(brstm_pcm_safe(b, c));
        c += 1;
    }
    assert(channels_decodable(b));
    let mut channels: Vec<Vec<i16>> = Vec::new();
    let mut ch: u8 = 0;
    while ch < header.channel_count
        invariant
            ch <= header.channel_count,
            header == stream_info(b).header,
            loaded.source() == b,
            channels_decodable(b),
            channels@.len() == ch,
            forall|k: int| 0 <= k < ch ==> #[trigger] channels@[k]@ == brstm_pcm_of(b, k as u8),
            forall|k: int| 0 <= k < ch ==> #[trigger] channels@[k]@.len() == stream_frames(b),
        decreases header.channel_count - ch,
    {
        assert(brstm_pcm_safe(b, ch));
        let pcm = brstm_channel_pcm(&loaded, ch);
        channels.push(pcm);
        ch += 1;
    }
    assert(pcm_view(channels@) =~= stream_pcm(b));
    Ok((header, channels))
}

/// A stream decoded to one PCM buffer per channel.
pub struct DecodedStream {
    pub header: StreamHeader,
    pub channels: Vec<Vec<i16>>,
}

/// Decodes a 4-bit ADPCM stream to PCM.
pub fn decode_adpcm_stream(bytes: &[u8]) -> (res: Result<DecodedStream, BrstmError>)
    ensures
        res is Ok <==> decode_error(bytes@, false) is None,
        res matches Err(e) ==> decode_error(bytes@, false) == Some(e),
        res matches Ok(d) ==> {
            &&& brstm_header_of(bytes@) == Some(d.header)
            &&& pcm_view(d.channels@) == stream_pcm(bytes@)
            &&& forall|c: int| 0 <= c < d.channels@.len() ==> #[trigger] d.channels@[c]@.len() == stream_frames(bytes@)
        },
{
    let (header, channels) = open_and_decode(bytes, false)?;
    Ok(DecodedStream { header, channels })
}

/// Length in seconds of each of the two parts of a loop preview.
pub const LOOP_PREVIEW_SEC: u32 = 5;

/// The loop point of a stream, if it loops.
pub open spec fn loop_point_of(h: StreamHeader) -> Option<u32> {
    if h.loop_flag != 0 {
        Some(h.loop_start)
    } else {
        None
    }
}

/// The loop point of a stream, if it loops.
pub fn stream_loop_point(header: &StreamHeader) -> (r: Option<u32>)
    ensures
        r == loop_point_of(*header),
{
    if header.loop_flag != 0 {
        Some(header.loop_start)
    } else {
        None
    }
}

/// Whether at least one channel is present and no channel is shorter than
/// the first.
pub fn channels_consistent(channels: &[Vec<i16>]) -> (r: bool)
    ensures
        r == channels_cover_first(pcm_view(channels@)),
{
    let ghost chs = pcm_view(channels@);
    if channels.len() == 0 {
        return false;
    }
    let n = channels[0].len();
    let mut c: usize = 0;
    while c < channels.len()
        invariant
            c <= channels@.len(),
            chs == pcm_view(channels@),
            chs.len() > 0,
            n == chs[0].len(),
            forall|cc: int| 0 <= cc < c ==> #[trigger] chs[cc].len() >= n,
        decreases channels@.len() - c,
    {
        if channels[c].len() < n {
            assert(chs[c as int].len() < chs[0].len());
            return false;
        }
        c += 1;
    }
    true
}

/// `tail` and `head` are the two parts of the loop preview of the channels
/// `chs`: the last `LOOP_PREVIEW_SEC` seconds, and as many seconds from the
/// loop start.
pub open spec fn is_loop_preview(
    chs: Seq<Seq<i16>>,
    sample_rate: u32,
    loop_start: u32,
    tail: Seq<Seq<i16>>,
    head: Seq<Seq<i16>>,
) -> bool {
    let span = saturating_product(sample_rate, LOOP_PREVIEW_SEC);
    &&& channels_cover_first(chs)
    &&& loop_start <= frames_of(chs)
    &&& tail == tail_segment(chs, span)
    &&& head == loop_head_segment(chs, loop_start as int, span)
}

/// The frames in each part of the loop preview of a file.
pub open spec fn preview_span(b: Seq<u8>) -> int {
    saturating_product(stream_info(b).header.sample_rate as u32, LOOP_PREVIEW_SEC)
}

/// Why the loop preview of a file cannot be made, or `None` where it can.
pub open spec fn preview_error(b: Seq<u8>) -> Option<BrstmError> {
    match decode_error(b, true) {
        Some(e) => Some(e),
        None => {
            let h = stream_info(b).header;
            if h.channel_count == 0 || h.loop_start > stream_frames(b) || h.loop_start + preview_span(b)
                > usize::MAX {
                Some(BrstmError::InconsistentPcm)
            } else {
                None
            }
        },
    }
}

proof fn lemma_decoded_cover_first(b: Seq<u8>, chs: Seq<Seq<i16>>)
    requires
        chs.len() > 0,
        forall|c: int| 0 <= c < chs.len() ==> #[trigger] chs[c].len() == stream_frames(b),
    ensures
        channels_cover_first(chs),
        frames_of(chs) == stream_frames(b),
{
    assert(chs[0].len() == stream_frames(b));
}

/// Decodes a looping ADPCM stream and cuts the two parts of its preview.
fn preview_parts(bytes: &[u8]) -> (res: Result<(Vec<Vec<i16>>, Vec<Vec<i16>>, StreamHeader), BrstmError>)
    ensures
        res is Ok <==> preview_error(bytes@) is None,
        res matches Err(e) ==> preview_error(bytes@) == Some(e),
        res matches Ok((a, c, h)) ==> {
            &&& h == stream_info(bytes@).header
            &&& is_loop_preview(stream_pcm(bytes@), h.sample_rate as u32, h.loop_start, pcm_view(a@), pcm_view(c@))
        },
{
    let ghost b = bytes@;
    let (header, channels) = open_and_decode(bytes, true)?;
    let sample_rate = header.sample_rate as u32;
    let loop_start = header.loop_start;
    assert(pcm_view(channels@).len() == channels@.len());
    assert(stream_pcm(b).len() == header.channel_count);
    if channels.len() == 0 {
        return Err(BrstmError::InconsistentPcm);
    }
    proof {
        lemma_decoded_cover_first(b, pcm_view(channels@));
    }
    if loop_start as usize > channels[0].len() {
        return Err(BrstmError::InconsistentPcm);
    }
    // the span is at most 5 * u16::MAX samples
    let secs: u64 = LOOP_PREVIEW_SEC as u64;
    assert(sample_rate <= 0xffff && secs == 5);
    let span: u64 = sample_rate as u64 * secs;
    if loop_start as u64 + span > usize::MAX as u64 {
        return Err(BrstmError::InconsistentPcm);
    }
    let (seg1, seg2) = loop_preview_segments(channels.as_slice(), sample_rate, loop_start, LOOP_PREVIEW_SEC);
    Ok((seg1, seg2, header))
}

/// The two parts of the loop preview of a looping ADPCM stream, with its
/// sample rate: the last `LOOP_PREVIEW_SEC` seconds of the decoded PCM and
/// as many seconds from the loop start.
pub fn decode_loop_preview_parts(bytes: &[u8]) -> (res: Result<(Vec<Vec<i16>>, Vec<Vec<i16>>, u32), BrstmError>)
    ensures
        res is Ok <==> preview_error(bytes@) is None,
        res matches Err(e) ==> preview_error(bytes@) == Some(e),
        res matches Ok((a, c, sr)) ==> {
            &&& sr == stream_info(bytes@).header.sample_rate
            &&& is_loop_preview(stream_pcm(bytes@), sr, stream_info(bytes@).header.loop_start, pcm_view(a@), pcm_view(c@))
        },
{
    let (seg1, seg2, header) = preview_parts(bytes)?;
    Ok((seg1, seg2, header.sample_rate as u32))
}

/// Law: the loop preview of a stream of at most 255 channels at a sample
/// rate below 2^16, its two parts joined channel by channel, has channels of
/// equal length and fits every field of a WAV header.
pub proof fn lemma_preview_wav_fits(
    chs: Seq<Seq<i16>>,
    sample_rate: u32,
    loop_start: u32,
    tail: Seq<Seq<i16>>,
    head: Seq<Seq<i16>>,
)
    requires
        is_loop_preview(chs, sample_rate, loop_start, tail, head),
        chs.len() <= 255,
        sample_rate <= 0xffff,
    ensures
        tail.len() == chs.len(),
        head.len() == chs.len(),
        channels_cover_first(concatenated(tail, head)),
        wav_fields_fit(concatenated(tail, head), sample_rate),
{
    let span = saturating_product(sample_rate, LOOP_PREVIEW_SEC);
    assert(span == sample_rate * 5);
    let n = frames_of(chs);
    let t0 = if span < n { n - span } else { 0 };
    let e = if loop_start + span < n { loop_start + span } else { n };
    let comb = concatenated(tail, head);
    let k = chs.len() as int;
    let m = (n - t0) + (e - loop_start);
    assert forall|c: int| 0 <= c < k implies #[trigger] comb[c].len() == m by {
        assert(chs[c].len() >= n);
        assert(tail[c] == chs[c].subrange(t0, n));
        assert(head[c] == chs[c].subrange(loop_start as int, e));
    }
    assert(comb.len() == k);
    assert(channels_cover_first(comb));
    assert(0 <= m <= 655350);
    assert(interleaved(comb).len() == m * k);
    assert(m * k * 2 <= 655350 * 255 * 2) by (nonlinear_arith)
        requires 0 <= m <= 655350, 0 <= k <= 255;
    assert(0 <= m * k) by (nonlinear_arith)
        requires 0 <= m, 0 <= k;
    assert(wav_data_len(comb) == 2 * (m * k));
    assert(wav_size_field(comb) == wav_data_len(comb));
    assert(sample_rate * k * 2 <= 0xffff * 255 * 2) by (nonlinear_arith)
        requires sample_rate <= 0xffff, 0 <= k <= 255;
}

/// A loop preview rendered as a WAV file.
pub struct LoopPreviewWav {
    /// The WAV file: the tail of the stream followed by its loop head.
    pub wav: Vec<u8>,
    /// Frames in the tail part (the point where playback jumps).
    pub tail_frames: usize,
    /// Frames in the loop-head part.
    pub head_frames: usize,
    pub sample_rate: u32,
}

/// The WAV file of the loop preview of a file: the two parts of
/// [`decode_loop_preview_parts`] joined channel by channel.
pub open spec fn preview_wav_of(b: Seq<u8>) -> Seq<u8> {
    let h = stream_info(b).header;
    let pcm = stream_pcm(b);
    wav_pcm16(
        concatenated(tail_segment(pcm, preview_span(b)), loop_head_segment(pcm, h.loop_start as int, preview_span(b))),
        h.sample_rate as u32,
    )
}

/// The loop transition of a looping ADPCM stream as a WAV file: the last
/// `LOOP_PREVIEW_SEC` seconds followed by as many seconds from the loop
/// start.
pub fn loop_preview_wav(bytes: &[u8]) -> (res: Result<LoopPreviewWav, BrstmError>)
    ensures
        res is Ok <==> preview_error(bytes@) is None,
        res matches Err(e) ==> preview_error(bytes@) == Some(e),
        res matches Ok(p) ==> {
            &&& p.sample_rate == stream_info(bytes@).header.sample_rate
            &&& p.wav@ == preview_wav_of(bytes@)
            &&& p.tail_frames == tail_segment(stream_pcm(bytes@), preview_span(bytes@))[0].len()
            &&& p.head_frames == loop_head_segment(
                stream_pcm(bytes@),
                stream_info(bytes@).header.loop_start as int,
                preview_span(bytes@),
            )[0].len()
        },
{
    let ghost b = bytes@;
    let (seg1, seg2, header) = preview_parts(bytes)?;
    let p = render_preview(&seg1, &seg2, header, Ghost(stream_pcm(b)));
    Ok(p)
}

fn render_preview(seg1: &Vec<Vec<i16>>, seg2: &Vec<Vec<i16>>, header: StreamHeader, Ghost(chs): Ghost<Seq<Seq<i16>>>) -> (p: LoopPreviewWav)
    requires
        is_loop_preview(chs, header.sample_rate as u32, header.loop_start, pcm_view(seg1@), pcm_view(seg2@)),
        chs.len() == header.channel_count,
    ensures
        p.sample_rate == header.sample_rate,
        p.wav@ == wav_pcm16(concatenated(pcm_view(seg1@), pcm_view(seg2@)), p.sample_rate),
        p.tail_frames == pcm_view(seg1@)[0].len(),
        p.head_frames == pcm_view(seg2@)[0].len(),
{
    let sample_rate = header.sample_rate as u32;
    proof {
        lemma_preview_wav_fits(chs, sample_rate, header.loop_start, pcm_view(seg1@), pcm_view(seg2@));
    }
    let combined = concat_pcm(seg1.as_slice(), seg2.as_slice());
    let wav = wav_pcm16_bytes(combined.as_slice(), sample_rate);
    let tail_frames = seg1[0].len();
    let head_frames = seg2[0].len();
    LoopPreviewWav { wav, tail_frames, head_frames, sample_rate }
}

/// A whole stream rendered as a WAV file.
pub struct ExportedWav {
    pub wav: Vec<u8>,
    pub channel_count: u8,
    pub sample_rate: u32,
}

/// Why the WAV export of a file cannot be made, or `None` where it can.
pub open spec fn export_error(b: Seq<u8>) -> Option<BrstmError> {
    match decode_error(b, false) {
        Some(e) => Some(e),
        None => {
            if stream_info(b).header.channel_count == 0 {
                Some(BrstmError::InconsistentPcm)
            } else if !wav_fields_fit(stream_pcm(b), stream_info(b).header.sample_rate as u32) {
                Some(BrstmError::WavTooLarge)
            } else {
                None
            }
        },
    }
}

/// Law: an export is refused only for a file that does not decode, for a
/// stream without channels, or for PCM whose WAV header fields do not fit
/// their widths; each refusal is reported with its own error, and every
/// other file is exported.
pub proof fn lemma_export_refusals(b: Seq<u8>)
    ensures
        decode_error(b, false) matches Some(e) ==> export_error(b) == Some(e),
        decode_error(b, false) is None && stream_info(b).header.channel_count == 0 ==> export_error(b)
            == Some(BrstmError::InconsistentPcm),
        decode_error(b, false) is None && stream_info(b).header.channel_count > 0 && !wav_fields_fit(
            stream_pcm(b),
            stream_info(b).header.sample_rate as u32,
        ) ==> export_error(b) == Some(BrstmError::WavTooLarge),
        decode_error(b, false) is None && stream_info(b).header.channel_count > 0 && wav_fields_fit(
            stream_pcm(b),
            stream_info(b).header.sample_rate as u32,
        ) ==> export_error(b) is None,
{
}

/// Law: a file that decodes, with at least one channel, is exported
/// whatever its length, as long as its samples (2 bytes each) and the 36
/// header bytes after the RIFF size field stay below 4 GiB.
pub proof fn lemma_export_any_length(b: Seq<u8>)
    requires
        decode_error(b, false) is None,
        stream_info(b).header.channel_count >= 1,
        2 * stream_info(b).header.channel_count * brstm_pcm_of(b, 0).len() + 36 <= u32::MAX,
    ensures
        export_error(b) is None,
{
    let chs = stream_pcm(b);
    assert(chs[0] == brstm_pcm_of(b, 0));
    lemma_wav_fields_fit_small(chs, stream_info(b).header.sample_rate as u32);
}

/// Decodes a 4-bit ADPCM stream and renders it as a 16-bit PCM WAV file.
pub fn export_wav(bytes: &[u8]) -> (res: Result<ExportedWav, BrstmError>)
    ensures
        res is Ok <==> export_error(bytes@) is None,
        res matches Err(e) ==> export_error(bytes@) == Some(e),
        res matches Ok(x) ==> {
            &&& x.channel_count == stream_info(bytes@).header.channel_count
            &&& x.sample_rate == stream_info(bytes@).header.sample_rate
            &&& x.wav@ == wav_pcm16(stream_pcm(bytes@), x.sample_rate)
        },
{
    let ghost b = bytes@;
    let stream = decode_adpcm_stream(bytes)?;
    let sample_rate = stream.header.sample_rate as u32;
    assert(pcm_view(stream.channels@).len() == stream.channels@.len());
    assert(stream_pcm(b).len() == stream.header.channel_count);
    if stream.channels.len() == 0 {
        return Err(BrstmError::InconsistentPcm);
    }
    proof {
        lemma_decoded_cover_first(b, pcm_view(stream.channels@));
    }
    if !wav_fits(stream.channels.as_slice(), sample_rate) {
        return Err(BrstmError::WavTooLarge);
    }
    let wav = wav_pcm16_bytes(stream.channels.as_slice(), sample_rate);
    Ok(ExportedWav { wav, channel_count: stream.header.channel_count, sample_rate })
}

/// Whether all channels have the same length.
fn lengths_agree_check(channels: &[Vec<i16>]) -> (r: bool)
    requires
        channels@.len() > 0,
    ensures
        r == lengths_agree(pcm_view(channels@)),
{
    let ghost chs = pcm_view(channels@);
    let n = channels[0].len();
    let mut c: usize = 0;
    while c < channels.len()
        invariant
            c <= channels@.len(),
            chs == pcm_view(channels@),
            n == chs[0].len(),
            forall|cc: int| 0 <= cc < c ==> #[trigger] chs[cc].len() == n,
        decreases channels@.len() - c,
    {
        if channels[c].len() != n {
            assert(chs[c as int].len() != chs[0].len());
            return false;
        }
        c += 1;
    }
    true
}

/// Whether the encoder and the serialiser handle `channels` and
/// `loop_point` without failing: either the encoder refuses them, or their
/// length and size are ones it encodes.
pub fn encoder_supports(channels: &[Vec<i16>], loop_point: Option<u32>) -> (r: bool)
    ensures
        r == encoder_supports_input(pcm_view(channels@), loop_point),
{
    let ghost chs = pcm_view(channels@);
    let k = channels.len();
    if k == 0 || k % 2 != 0 || k > 16 {
        return true;
    }
    if !lengths_agree_check(channels) {
        return true;
    }
    let n = channels[0].len();
    match loop_point {
        Some(p) => {
            if p as usize > n {
                return true;
            }
        },
        None => {},
    }
    if n < 2 || n % 14336 == 1 {
        return false;
    }
    serialiser_fits_check(k, n)
}

/// A copy of every channel.
fn copy_channels(channels: &[Vec<i16>]) -> (out: Vec<Vec<i16>>)
    ensures
        pcm_view(out@) == pcm_view(channels@),
{
    let mut out: Vec<Vec<i16>> = Vec::new();
    let mut c: usize = 0;
    while c < channels.len()
        invariant
            c <= channels@.len(),
            out@.len() == c,
            forall|k: int| 0 <= k < c ==> #[trigger] out@[k]@ == channels@[k]@,
        decreases channels@.len() - c,
    {
        let v = copy_range(&channels[c], 0, channels[c].len());
        assert(channels@[c as int]@.subrange(0, channels@[c as int]@.len() as int) =~= channels@[c as int]@);
        out.push(v);
        c += 1;
    }
    assert(pcm_view(out@) =~= pcm_view(channels@));
    out
}

/// Encodes PCM channels into the bytes of a BRSTM file.
pub fn encode_brstm_file(channels: &[Vec<i16>], sample_rate: u16, loop_point: Option<u32>) -> (res: Result<
    Vec<u8>,
    EncodeError,
>)
    requires
        encoder_supports_input(pcm_view(channels@), loop_point),
    ensures
        res is Ok <==> encoder_accepts(pcm_view(channels@), loop_point),
        res matches Ok(bytes) ==> bytes@ == brstm_file_of(pcm_view(channels@), sample_rate, loop_point),
        res matches Err(e) ==> encoder_rejection_is(pcm_view(channels@), loop_point, e),
{
    let owned = copy_channels(channels);
    let encoded = encode_pcm(owned, sample_rate, loop_point)?;
    match write_brstm_bytes(&encoded) {
        Ok(bytes) => Ok(bytes),
        Err(_) => Err(EncodeError::Unrecognized),
    }
}

/// The last frame index of a stream of `frames` frames (0 for an empty
/// stream), taken as a `u32`.
pub open spec fn last_frame_index(frames: usize) -> u32 {
    if frames > 0 {
        (frames - 1) as u32
    } else {
        0u32
    }
}

/// `scaled`, kept within the last frame of the stream.
pub open spec fn clamped_loop_point(scaled: u32, frames: usize) -> u32 {
    if scaled <= last_frame_index(frames) {
        scaled
    } else {
        last_frame_index(frames)
    }
}

/// The loop point of a resampled stream, kept within its last frame:
/// `min(scaled, frames - 1)` (0 for an empty stream).
pub fn clamp_loop_point(scaled: u32, frames: usize) -> (r: u32)
    ensures
        r == clamped_loop_point(scaled, frames),
{
    let max_lp = frames.saturating_sub(1) as u32;
    if scaled <= max_lp {
        scaled
    } else {
        max_lp
    }
}

/// Law: a clamped loop point never makes the encoder refuse a stream:
/// where the channels themselves are accepted without a loop, they are
/// accepted with the clamped loop point too.
pub proof fn lemma_clamped_loop_point_accepted(chs: Seq<Seq<i16>>, scaled: u32)
    requires
        encoder_accepts(chs, None),
    ensures
        encoder_accepts(chs, Some(clamped_loop_point(scaled, chs[0].len() as usize))),
{
}

} // verus!
