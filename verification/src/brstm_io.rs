//! The calls into the `brstm` crate. Each reader state travels with the
//! bytes it was read from, and each encoded stream with the samples it was
//! encoded from, so that what the crate computes can be named as a function
//! of those plain values. The fields are private and only the functions of
//! this module build these values.

use vstd::prelude::*;
use std::io::Cursor;
use brstm::{BrstmInfoWithData, BrstmInformation};
use brstm::encoder::{encode_brstm, EncodingError};
use crate::brstm_format::{
    block_layout_fits, coefficients_bounded, decoded_len, encoder_accepts, encoder_length_supported,
    encoder_rejection_is, encoder_size_supported, reader_arithmetic_safe, BlockLayout, EncodeError,
    StreamHeader, StreamInfo, StreamInfoView,
};
use crate::pcm::pcm_view;

verus! {

#[verifier::external_type_specification]
#[verifier::external_body]
pub struct ExBrstmInformation(BrstmInformation);

#[verifier::external_type_specification]
#[verifier::external_body]
pub struct ExBrstmInfoWithData(BrstmInfoWithData);

#[verifier::external_type_specification]
#[verifier::external_body]
pub struct ExBinError(binrw::Error);

#[verifier::external_type_specification]
#[verifier::external_body]
pub struct ExIoError(std::io::Error);

/// What the `brstm` reader reads from the header chunks of a file, or
/// `None` where it refuses the file.
pub uninterp spec fn brstm_info_of(bytes: Seq<u8>) -> Option<StreamInfoView>;

/// The sizes of the ADPCM history and of the sample data that the `brstm`
/// crate loads from a file that it read, or `None` where loading fails.
pub uninterp spec fn brstm_load_of(bytes: Seq<u8>) -> Option<(usize, usize)>;

/// The PCM that the `brstm` crate decodes for one channel of a file.
pub uninterp spec fn brstm_pcm_of(bytes: Seq<u8>, channel: u8) -> Seq<i16>;

/// The bytes of the BRSTM file that the `brstm` crate encodes and
/// serialises for PCM channels, a sample rate and a loop point.
pub uninterp spec fn brstm_file_of(channels: Seq<Seq<i16>>, sample_rate: u16, loop_point: Option<u32>) -> Seq<u8>;

/// Decoding `channel` of a read and loaded file stays within the loaded
/// data, and its coefficients keep the decoder's arithmetic in range.
pub open spec fn brstm_pcm_safe(bytes: Seq<u8>, channel: u8) -> bool {
    &&& brstm_info_of(bytes) is Some
    &&& brstm_load_of(bytes) is Some
    &&& block_layout_fits(
        brstm_info_of(bytes)->Some_0.layout,
        brstm_load_of(bytes)->Some_0.0 as int,
        brstm_load_of(bytes)->Some_0.1 as int,
        channel as int,
    )
    &&& (channel as int) < brstm_info_of(bytes)->Some_0.coefficients.len()
    &&& coefficients_bounded(brstm_info_of(bytes)->Some_0.coefficients[channel as int])
}

/// A file whose header chunks were read, with the bytes it was read from.
pub struct OpenedBrstm {
    info: BrstmInformation,
    source: Vec<u8>,
}

impl OpenedBrstm {
    /// The bytes the file was read from.
    pub closed spec fn source(&self) -> Seq<u8> {
        self.source@
    }
}

/// A file whose sample data was loaded, with the bytes it was read from.
pub struct LoadedBrstm {
    data: BrstmInfoWithData,
    source: Vec<u8>,
}

impl LoadedBrstm {
    /// The bytes the file was read from.
    pub closed spec fn source(&self) -> Seq<u8> {
        self.source@
    }
}

/// An encoded stream, with the input it was encoded from.
pub struct EncodedBrstm {
    data: BrstmInfoWithData,
    channels: Vec<Vec<i16>>,
    sample_rate: u16,
    loop_point: Option<u32>,
}

impl EncodedBrstm {
    /// The PCM channels the stream was encoded from.
    pub closed spec fn channels(&self) -> Seq<Seq<i16>> {
        pcm_view(self.channels@)
    }

    /// The sample rate the stream was encoded with.
    pub closed spec fn sample_rate(&self) -> u16 {
        self.sample_rate
    }

    /// The loop point the stream was encoded with.
    pub closed spec fn loop_point(&self) -> Option<u32> {
        self.loop_point
    }
}

/// Reads the header chunks of a file held in memory with
/// `brstm::BrstmInformation::from_reader` over a `Cursor`, and keeps a copy
/// of the bytes. Claimed: the outcome depends on the bytes alone. The
/// `requires` leaves out the files on which the reader's unchecked 32-bit
/// offset arithmetic would overflow.
#[verifier::external_body]
pub(crate) fn read_brstm(bytes: &[u8]) -> (res: Result<OpenedBrstm, binrw::Error>)
    requires
        reader_arithmetic_safe(bytes@),
    ensures
        res is Ok <==> brstm_info_of(bytes@) is Some,
        res matches Ok(o) ==> o.source() == bytes@,
{
    let info = BrstmInformation::from_reader(&mut Cursor::new(bytes))?;
    Ok(OpenedBrstm { info, source: bytes.to_vec() })
}

/// Takes from the reader's result the header fields (`codec`, `loop_flag`,
/// `sample_rate`, `loop_start`, `total_samples`, and the channel count,
/// the length of `channels`), the block layout fields and each channel's
/// `adpcm_coefficients`. Claimed: these are what [`brstm_info_of`] names
/// for the bytes the file was read from.
#[verifier::external_body]
pub(crate) fn opened_info(o: &OpenedBrstm) -> (info: StreamInfo)
    requires
        brstm_info_of(o.source()) is Some,
    ensures
        brstm_info_of(o.source()) == Some(info@),
{
    let i = &o.info.info;
    StreamInfo {
        header: StreamHeader { codec: i.codec, loop_flag: i.loop_flag, channel_count: o.info.channels.len() as u8,
            sample_rate: i.sample_rate, loop_start: i.loop_start, total_samples: i.total_samples },
        layout: BlockLayout { num_channels: i.num_channels, total_blocks: i.total_blocks, blocks_size: i.blocks_size,
            blocks_samples: i.blocks_samples, final_block_size_padded: i.final_block_size_padded,
            final_block_samples: i.final_block_samples },
        coefficients: o.info.channels.iter().map(|c| c.adpcm_coefficients.to_vec()).collect(),
    }
}

/// Loads the ADPCM history and the sample data of a read file with
/// `brstm::BrstmInformation::into_with_data` over a `Cursor` on the same
/// bytes, and returns the loaded sizes. Claimed: the outcome and the sizes
/// are what [`brstm_load_of`] names for those bytes.
#[verifier::external_body]
pub(crate) fn load_brstm(o: OpenedBrstm) -> (res: Result<(LoadedBrstm, usize, usize), std::io::Error>)
    requires
        brstm_info_of(o.source()) is Some,
    ensures
        res is Ok <==> brstm_load_of(o.source()) is Some,
        res matches Ok((l, a, d)) ==> l.source() == o.source() && brstm_load_of(o.source()) == Some((a, d)),
{
    let OpenedBrstm { info, source } = o;
    let data = info.into_with_data(&mut Cursor::new(&source))?;
    let (a, d) = (data.adpcm_bytes.len(), data.data_bytes.len());
    Ok((LoadedBrstm { data, source }, a, d))
}

/// Decodes one channel with `brstm::BrstmInfoWithData::get_pcm`. Claimed:
/// the samples are what [`brstm_pcm_of`] names, and there are as many as
/// the block layout's sample counts add up to (the decoder emits each
/// block's sample count). The `requires` leaves out the channels whose
/// blocks the decoder would slice past the loaded data, and coefficient
/// pairs large enough to overflow its 32-bit prediction sum.
#[verifier::external_body]
pub(crate) fn brstm_channel_pcm(l: &LoadedBrstm, channel: u8) -> (pcm: Vec<i16>)
    requires
        brstm_pcm_safe(l.source(), channel),
    ensures
        pcm@ == brstm_pcm_of(l.source(), channel),
        pcm@.len() == decoded_len(brstm_info_of(l.source())->Some_0.layout),
{
    l.data.get_pcm(channel)
}

/// Encodes PCM channels to 4-bit ADPCM with `brstm::encoder::encode_brstm`,
/// keeping the input beside the result. Claimed, as the encoder's source
/// shows: its checks and their order (no channel; lengths that differ; an
/// odd channel count; more than 16; a loop point past the end). The
/// `requires` leaves out the lengths on which the encoder indexes past the
/// end of a channel.
#[verifier::external_body]
pub(crate) fn encode_pcm(channels: Vec<Vec<i16>>, sample_rate: u16, loop_point: Option<u32>) -> (res: Result<
    EncodedBrstm,
    EncodeError,
>)
    requires
        encoder_accepts(pcm_view(channels@), loop_point) ==> encoder_length_supported(
            pcm_view(channels@)[0].len() as int,
        ),
    ensures
        res is Ok <==> encoder_accepts(pcm_view(channels@), loop_point),
        res matches Ok(e) ==> e.channels() == pcm_view(channels@) && e.sample_rate() == sample_rate
            && e.loop_point() == loop_point,
        res matches Err(e) ==> encoder_rejection_is(pcm_view(channels@), loop_point, e),
{
    match encode_brstm(&channels, sample_rate, loop_point) {
        Ok(data) => Ok(EncodedBrstm { data, channels, sample_rate, loop_point }),
        Err(EncodingError::EmptyChannels) => Err(EncodeError::EmptyChannels),
        Err(EncodingError::MissmatchedLengths(v)) => Err(EncodeError::MismatchedLengths(v)),
        Err(EncodingError::UnevenChannelCount(n)) => Err(EncodeError::UnevenChannelCount(n)),
        Err(EncodingError::TooHighChannelCount(n)) => Err(EncodeError::TooHighChannelCount(n)),
        Err(EncodingError::LoopOutOfBounds { loop_point, size }) => Err(EncodeError::LoopOutOfBounds { loop_point, size }),
        Err(_) => Err(EncodeError::Unrecognized),
    }
}

/// Serialises an encoded stream into a new buffer with
/// `brstm::BrstmInfoWithData::write_brstm` over a `Cursor`. Claimed: writing
/// to memory does not fail, and the bytes are what [`brstm_file_of`] names
/// for the encoder's input. The `requires` leaves out the sizes at which the
/// serialiser's unchecked 32-bit offset arithmetic would overflow
/// ([`crate::brstm_format::serialiser_fits`]).
#[verifier::external_body]
pub(crate) fn write_brstm_bytes(e: &EncodedBrstm) -> (res: Result<Vec<u8>, binrw::Error>)
    requires
        encoder_accepts(e.channels(), e.loop_point()),
        encoder_size_supported(e.channels()),
    ensures
        res is Ok,
        res matches Ok(b) ==> b@ == brstm_file_of(e.channels(), e.sample_rate(), e.loop_point()),
{
    let mut dest: Vec<u8> = Vec::new();
    e.data.write_brstm(&mut Cursor::new(&mut dest))?;
    Ok(dest)
}

} // verus!
