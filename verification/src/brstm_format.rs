//! Plain values read from and written to BRSTM files, and the conditions on
//! them under which the `brstm` crate reads, decodes and encodes without
//! failing.

use vstd::prelude::*;
use crate::pcm::pcm_view;

verus! {

/// The header values of a BRSTM stream that the tool reads.
#[derive(Debug, Clone, Copy, PartialEq, Eq)]
pub struct StreamHeader {
    /// 2 is 4-bit ADPCM, the only codec the tool decodes.
    pub codec: u8,
    /// Non-zero when the stream loops.
    pub loop_flag: u8,
    pub channel_count: u8,
    pub sample_rate: u16,
    /// The sample at which playback resumes after the end.
    pub loop_start: u32,
    pub total_samples: u32,
}

/// The block layout of the sample data, as recorded in the stream header.
#[derive(Debug, Clone, Copy, PartialEq, Eq)]
pub struct BlockLayout {
    /// The channel count recorded beside the layout (it strides the blocks).
    pub num_channels: u8,
    pub total_blocks: u32,
    pub blocks_size: u32,
    pub blocks_samples: u32,
    pub final_block_size_padded: u32,
    pub final_block_samples: u32,
}

/// Everything the tool reads from a stream's header chunks.
pub struct StreamInfo {
    pub header: StreamHeader,
    pub layout: BlockLayout,
    /// The sixteen ADPCM predictor coefficients of each channel.
    pub coefficients: Vec<Vec<i16>>,
}

/// The model of a [`StreamInfo`].
pub struct StreamInfoView {
    pub header: StreamHeader,
    pub layout: BlockLayout,
    pub coefficients: Seq<Seq<i16>>,
}

impl View for StreamInfo {
    type V = StreamInfoView;

    open spec fn view(&self) -> StreamInfoView {
        StreamInfoView { header: self.header, layout: self.layout, coefficients: pcm_view(self.coefficients@) }
    }
}

/// The big-endian 32-bit value at `p`.
pub open spec fn be32(b: Seq<u8>, p: int) -> int {
    b[p] * 0x100_0000 + b[p + 1] * 0x1_0000 + b[p + 2] * 0x100 + b[p + 3]
}

/// The big-endian 32-bit value at `p`.
pub fn read_be32(b: &[u8], p: usize) -> (v: u32)
    requires
        p + 4 <= b@.len(),
    ensures
        v == be32(b@, p as int),
{
    let len = b.len();
    assert(p + 4 <= len);
    (b[p] as u32) * 0x100_0000 + (b[p + 1] as u32) * 0x1_0000 + (b[p + 2] as u32) * 0x100 + (b[p + 3] as u32)
}

/// Every offset in the table of `count` 8-byte entries at `table` (the
/// offset is the second word of an entry) stays below 2^32 once `base` is
/// added, for the entries that lie within the file.
pub open spec fn table_offsets_fit(b: Seq<u8>, base: int, table: int, count: int) -> bool {
    forall|i: int|
        0 <= i < count && table + 8 * i + 12 <= b.len() ==> base + #[trigger] be32(b, table + 8 * i + 8)
            <= u32::MAX
}

/// The offset table that starts with a count byte at `table`, if the file
/// holds that byte.
pub open spec fn table_fits(b: Seq<u8>, base: int, table: int) -> bool {
    0 <= table < b.len() ==> table_offsets_fit(b, base, table, b[table] as int)
}

/// The 32-bit offset arithmetic of the `brstm` reader stays in range for
/// `b`. The reader adds 8 to the HEAD offset (0x10) to get the base of all
/// HEAD-relative offsets, adds that base to the three chunk offsets and to
/// the track and channel offsets of the second and third chunks, adds 8 and
/// 0x20 to the ADPC and DATA offsets (0x18, 0x20) and subtracts 8 and 0x20
/// from their sizes (0x1C, 0x24). The fixed header fields end at 0x28 (the
/// padding after them is skipped by a seek, which succeeds past the end of
/// the data). Each value is checked where the file holds it; where it does
/// not, the reader fails before it gets there.
pub open spec fn reader_arithmetic_safe(b: Seq<u8>) -> bool {
    b.len() >= 0x28 ==> {
        let base = be32(b, 0x10) + 8;
        &&& base <= u32::MAX
        &&& be32(b, 0x18) + 8 <= u32::MAX
        &&& be32(b, 0x1C) >= 8
        &&& be32(b, 0x20) + 0x20 <= u32::MAX
        &&& be32(b, 0x24) >= 0x20
        &&& base + 24 <= b.len() ==> {
            &&& base + be32(b, base + 4) <= u32::MAX
            &&& base + be32(b, base + 12) <= u32::MAX
            &&& base + be32(b, base + 20) <= u32::MAX
            &&& table_fits(b, base, base + be32(b, base + 12))
            &&& table_fits(b, base, base + be32(b, base + 20))
        }
    }
}

fn table_fits_check(b: &[u8], base: u64, table: u64) -> (r: bool)
    requires
        base <= u32::MAX,
    ensures
        r == table_fits(b@, base as int, table as int),
{
    let len = b.len();
    if table >= len as u64 {
        return true;
    }
    let t = table as usize;
    let count = b[t] as u64;
    let mut i: u64 = 0;
    while i < count
        invariant
            i <= count,
            count == b@[t as int],
            t == table,
            t < len,
            len == b@.len(),
            base <= u32::MAX,
            forall|k: int|
                0 <= k < i && table + 8 * k + 12 <= len ==> base + #[trigger] be32(b@, table + 8 * k + 8)
                    <= u32::MAX,
        decreases count - i,
    {
        let pos = table as u128 + 8 * (i as u128) + 8;
        if pos + 4 <= len as u128 {
            let v = read_be32(b, pos as usize);
            if base + v as u64 > 0xffff_ffff {
                return false;
            }
        }
        i += 1;
    }
    true
}

/// Whether the `brstm` reader's offset arithmetic stays in range for `b`.
pub fn check_reader_arithmetic(b: &[u8]) -> (r: bool)
    ensures
        r == reader_arithmetic_safe(b@),
{
    let len = b.len();
    if len < 0x28 {
        return true;
    }
    let base = read_be32(b, 0x10) as u64 + 8;
    if base > 0xffff_ffff {
        return false;
    }
    if read_be32(b, 0x18) as u64 + 8 > 0xffff_ffff || read_be32(b, 0x1C) < 8 {
        return false;
    }
    if read_be32(b, 0x20) as u64 + 0x20 > 0xffff_ffff || read_be32(b, 0x24) < 0x20 {
        return false;
    }
    if base + 24 > len as u64 {
        return true;
    }
    let p = base as usize;
    let c0 = read_be32(b, p + 4) as u64;
    let c1 = read_be32(b, p + 12) as u64;
    let c2 = read_be32(b, p + 20) as u64;
    if base + c0 > 0xffff_ffff || base + c1 > 0xffff_ffff || base + c2 > 0xffff_ffff {
        return false;
    }
    table_fits_check(b, base, base + c1) && table_fits_check(b, base, base + c2)
}

/// Bytes of an ADPCM block that decoding `n` samples reads: 8 per frame of
/// 14 samples, and a header byte plus one byte per two samples for a
/// partial frame.
pub open spec fn frame_bytes(n: int) -> int {
    (n / 14) * 8 + if n % 14 > 0 {
        1 + (n % 14 + 1) / 2
    } else {
        0
    }
}

/// Decoding channel `c` stays within the loaded ADPCM history (`adpcm_len`
/// bytes) and sample data (`data_len` bytes): the history entry of every
/// block, every full block and the final block, and the frames that each
/// block's sample count reads.
pub open spec fn block_layout_fits(l: BlockLayout, adpcm_len: int, data_len: int, c: int) -> bool {
    let t = l.total_blocks as int;
    let nc = l.num_channels as int;
    let bs = l.blocks_size as int;
    let fp = l.final_block_size_padded as int;
    t == 0 || {
        &&& (t - 1) * 4 * nc + 4 * c + 4 <= adpcm_len
        &&& t >= 2 ==> ((t - 2) * nc + c) * bs + bs <= data_len && frame_bytes(
            l.blocks_samples as int,
        ) <= bs
        &&& (t - 1) * nc * bs + c * fp + fp <= data_len
        &&& frame_bytes(l.final_block_samples as int) <= fp
    }
}

/// The absolute value of a coefficient.
pub open spec fn abs16(x: i16) -> int {
    if x < 0 {
        -x
    } else {
        x as int
    }
}

/// Each pair of predictor coefficients that a frame header can select
/// (`2i, 2i + 1`, and `15, 15` for selectors past the table) sums to at most
/// 49151 in absolute value, which keeps the decoder's 32-bit prediction
/// sum in range for every sample history. The bound is sufficient, not
/// necessary: whether the sum overflows also depends on the samples decoded
/// so far, so a file with larger coefficients whose history stays small (a
/// silent stream, for one) decodes in the crate but is refused here.
pub open spec fn coefficients_bounded(cs: Seq<i16>) -> bool {
    &&& cs.len() == 16
    &&& forall|i: int| 0 <= i < 8 ==> abs16(#[trigger] cs[2 * i]) + abs16(cs[2 * i + 1]) <= 49151
    &&& 2 * abs16(cs[15]) <= 49151
}

/// The number of samples that decoding one channel yields.
pub open spec fn decoded_len(l: BlockLayout) -> int {
    if l.total_blocks == 0 {
        0
    } else {
        (l.total_blocks - 1) * l.blocks_samples + l.final_block_samples
    }
}

/// Whether decoding channel `c` under `l` stays within the loaded sizes.
pub fn block_layout_check(l: BlockLayout, adpcm_len: usize, data_len: usize, c: u8) -> (r: bool)
    ensures
        r == block_layout_fits(l, adpcm_len as int, data_len as int, c as int),
{
    if l.total_blocks == 0 {
        return true;
    }
    let t = l.total_blocks as u128;
    let nc = l.num_channels as u128;
    let bs = l.blocks_size as u128;
    let fp = l.final_block_size_padded as u128;
    let c = c as u128;
    assert((t - 1) * 4 * nc <= 0xffff_ffff * 4 * 255) by (nonlinear_arith)
        requires t <= 0xffff_ffff, nc <= 255, t >= 1;
    if (t - 1) * 4 * nc + 4 * c + 4 > adpcm_len as u128 {
        return false;
    }
    if t >= 2 {
        let m = t - 2;
        assert(m * nc <= 0xffff_ffffu128 * 255) by (nonlinear_arith)
            requires m <= 0xffff_ffff, nc <= 255;
        let row = m * nc + c;
        assert(row * bs <= (0xffff_ffffu128 * 255 + 255) * 0xffff_ffff) by (nonlinear_arith)
            requires row <= 0xffff_ffffu128 * 255 + 255, bs <= 0xffff_ffff;
        if row * bs + bs > data_len as u128 {
            return false;
        }
        let bsamp = l.blocks_samples as u128;
        let need = (bsamp / 14) * 8 + if bsamp % 14 > 0 { 1 + (bsamp % 14 + 1) / 2 } else { 0 };
        if need > bs {
            return false;
        }
    }
    let m1 = t - 1;
    assert(m1 * nc <= 0xffff_ffffu128 * 255) by (nonlinear_arith)
        requires m1 <= 0xffff_ffff, nc <= 255;
    let blocks_before = m1 * nc;
    assert(blocks_before * bs <= 0xffff_ffffu128 * 255 * 0xffff_ffff) by (nonlinear_arith)
        requires blocks_before <= 0xffff_ffffu128 * 255, bs <= 0xffff_ffff;
    assert(c * fp <= 255 * 0xffff_ffffu128) by (nonlinear_arith)
        requires c <= 255, fp <= 0xffff_ffff;
    if blocks_before * bs + c * fp + fp > data_len as u128 {
        return false;
    }
    let fsamp = l.final_block_samples as u128;
    let need = (fsamp / 14) * 8 + if fsamp % 14 > 0 { 1 + (fsamp % 14 + 1) / 2 } else { 0 };
    need <= fp
}

fn abs_i16(x: i16) -> (r: u32)
    ensures
        r == abs16(x),
{
    if x < 0 {
        (0 - (x as i32)) as u32
    } else {
        x as u32
    }
}

/// Whether a channel's coefficients satisfy [`coefficients_bounded`].
pub fn coefficients_check(cs: &Vec<i16>) -> (r: bool)
    ensures
        r == coefficients_bounded(cs@),
{
    if cs.len() != 16 {
        return false;
    }
    let mut i: usize = 0;
    while i < 8
        invariant
            i <= 8,
            cs@.len() == 16,
            forall|k: int| 0 <= k < i ==> abs16(#[trigger] cs@[2 * k]) + abs16(cs@[2 * k + 1]) <= 49151,
        decreases 8 - i,
    {
        if abs_i16(cs[2 * i]) + abs_i16(cs[2 * i + 1]) > 49151 {
            assert(abs16(cs@[2 * (i as int)]) + abs16(cs@[2 * (i as int) + 1]) > 49151);
            return false;
        }
        i += 1;
    }
    2 * abs_i16(cs[15]) <= 49151
}

/// Why the encoder refused PCM.
#[derive(Debug, PartialEq, Eq)]
pub enum EncodeError {
    /// There is no channel.
    EmptyChannels,
    /// The channels differ in length; the lengths of all channels.
    MismatchedLengths(Vec<usize>),
    /// Only stereo pairs are encoded; the channel count.
    UnevenChannelCount(usize),
    /// More than 16 channels; the channel count.
    TooHighChannelCount(usize),
    /// The loop point lies beyond the last sample.
    LoopOutOfBounds { loop_point: usize, size: usize },
    /// An error kind that the encoder does not have in the version used.
    Unrecognized,
}

/// The length of each channel.
pub open spec fn channel_lengths(chs: Seq<Seq<i16>>) -> Seq<usize> {
    chs.map_values(|c: Seq<i16>| c.len() as usize)
}

/// Whether all channels have the same length (vacuously so for none).
pub open spec fn lengths_agree(chs: Seq<Seq<i16>>) -> bool {
    forall|c: int| 0 <= c < chs.len() ==> #[trigger] chs[c].len() == chs[0].len()
}

/// The inputs that the encoder accepts: a non-empty, even number of at most
/// 16 channels of equal length, and a loop point no later than their end.
pub open spec fn encoder_accepts(chs: Seq<Seq<i16>>, loop_point: Option<u32>) -> bool {
    &&& chs.len() > 0
    &&& lengths_agree(chs)
    &&& chs.len() % 2 == 0
    &&& chs.len() <= 16
    &&& (loop_point matches Some(p) ==> p <= chs[0].len())
}

/// The channel lengths that the encoder handles without failing: at least
/// two samples, and not one sample past a whole number of 14336-sample
/// blocks (the encoder reads two samples at the start of every block).
pub open spec fn encoder_length_supported(len: int) -> bool {
    len >= 2 && len % 14336 != 1
}

/// `x` rounded up to a multiple of 32.
pub open spec fn align32(x: int) -> int {
    ((x + 0x1F) / 32) * 32
}

/// The number of 14336-sample blocks the encoder writes for `len` samples
/// per channel.
pub open spec fn encoded_blocks(len: int) -> int {
    (len + 14335) / 14336
}

/// The bytes of the final block of one channel: 8 per started 14-sample
/// packet, padded to a multiple of 32.
pub open spec fn final_block_bytes(len: int) -> int {
    let rest = len - (encoded_blocks(len) - 1) * 14336;
    align32(((rest + 13) / 14) * 8)
}

/// The bytes of ADPCM history the encoder emits for `k` channels: 4 per
/// channel and block.
pub open spec fn encoded_history_len(k: int, len: int) -> int {
    4 * k * encoded_blocks(len)
}

/// The bytes of sample data the encoder emits for `k` channels: 8192 per
/// channel and full block, and the padded final block.
pub open spec fn encoded_data_len(k: int, len: int) -> int {
    k * ((encoded_blocks(len) - 1) * 8192 + final_block_bytes(len))
}

/// The offset of the ADPC section that the serialiser writes for `k`
/// channels in `k / 2` stereo tracks: the header, the HEAD chunks, the
/// track and channel tables and 56 bytes of information per channel,
/// aligned to 32.
pub open spec fn adpc_section_offset(k: int) -> int {
    align32(0x9C + 12 * (k / 2) + 8 * k + 56 * k)
}

/// The serialiser's 32-bit offset arithmetic stays in range for `k`
/// channels of `len` samples: it takes the ADPCM history and sample data
/// lengths modulo 2^32, adds 8 to the first and aligns it, adds it to the
/// ADPC section offset and aligns that, and adds the data length, the DATA
/// header and one more alignment to that.
pub open spec fn serialiser_fits(k: int, len: int) -> bool {
    let a = encoded_history_len(k, len) % 0x1_0000_0000;
    let d = encoded_data_len(k, len) % 0x1_0000_0000;
    let aligned = align32(a + 8);
    let data_off = align32(adpc_section_offset(k) + aligned);
    &&& a + 8 + 0x1F <= u32::MAX
    &&& aligned + 0x1F <= u32::MAX
    &&& adpc_section_offset(k) + aligned + 0x1F <= u32::MAX
    &&& data_off + d + 0x20 + 0x1F <= u32::MAX
}

/// Sizes for which the serialiser writes the encoded stream without
/// overflowing its offsets.
pub open spec fn encoder_size_supported(chs: Seq<Seq<i16>>) -> bool {
    serialiser_fits(chs.len() as int, chs[0].len() as int)
}

/// Accepted input that the encoder and the serialiser handle without
/// failing.
pub open spec fn encoder_supports_input(chs: Seq<Seq<i16>>, loop_point: Option<u32>) -> bool {
    encoder_accepts(chs, loop_point) ==> encoder_length_supported(chs[0].len() as int)
        && encoder_size_supported(chs)
}

/// The error the encoder reports for `chs` and `loop_point`, checked in
/// its order.
pub open spec fn encoder_rejection_is(chs: Seq<Seq<i16>>, loop_point: Option<u32>, e: EncodeError) -> bool {
    if chs.len() == 0 {
        e == EncodeError::EmptyChannels
    } else if !lengths_agree(chs) {
        e matches EncodeError::MismatchedLengths(v) && v@ == channel_lengths(chs)
    } else if chs.len() % 2 != 0 {
        e == EncodeError::UnevenChannelCount(chs.len() as usize)
    } else if chs.len() > 16 {
        e == EncodeError::TooHighChannelCount(chs.len() as usize)
    } else {
        loop_point matches Some(p) && e == EncodeError::LoopOutOfBounds {
            loop_point: p as usize,
            size: chs[0].len() as usize,
        }
    }
}


fn align32_exec(x: u128) -> (r: u128)
    requires
        x <= 0xffff_ffff_ffff_ffff_ffff,
    ensures
        r == align32(x as int),
{
    ((x + 0x1F) / 32) * 32
}

/// Whether the serialiser handles `k` channels of `len` samples without
/// overflowing its offsets.
pub fn serialiser_fits_check(k: usize, len: usize) -> (r: bool)
    requires
        k <= 16,
        len >= 1,
    ensures
        r == serialiser_fits(k as int, len as int),
{
    let k = k as u128;
    let len = len as u128;
    let blocks = (len + 14335) / 14336;
    assert(blocks >= 1);
    let rest = len - (blocks - 1) * 14336;
    assert(0 < rest <= 14336);
    let fin = align32_exec(((rest + 13) / 14) * 8);
    assert(blocks <= 0x1_0000_0000_0000_0000);
    assert(4 * k * blocks <= 64 * 0x1_0000_0000_0000_0000) by (nonlinear_arith)
        requires k <= 16, blocks <= 0x1_0000_0000_0000_0000;
    let a = (4 * k * blocks) % 0x1_0000_0000;
    assert(k * ((blocks - 1) * 8192 + fin) <= 16 * (0x1_0000_0000_0000_0000 * 8192 + 8192)) by (nonlinear_arith)
        requires k <= 16, blocks <= 0x1_0000_0000_0000_0000, fin <= 8192;
    let d = (k * ((blocks - 1) * 8192 + fin)) % 0x1_0000_0000;
    let aligned = align32_exec(a + 8);
    let h = align32_exec(0x9C + 12 * (k / 2) + 8 * k + 56 * k);
    let data_off = align32_exec(h + aligned);
    a + 8 + 0x1F <= 0xffff_ffff && aligned + 0x1F <= 0xffff_ffff && h + aligned + 0x1F <= 0xffff_ffff
        && data_off + d + 0x20 + 0x1F <= 0xffff_ffff
}

} // verus!
