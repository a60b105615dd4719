//! The sample exchange with an external time-stretch filter: interleaved
//! samples go out as raw `s16le` bytes, and the bytes that come back are
//! checked and turned into interleaved samples again.

use vstd::prelude::*;
use crate::le_bytes::{decode_s16le, lemma_s16le_roundtrip, s16le, s16le_samples};
use crate::pcm::{
    channels_same_length, deinterleaved, interleaved, lemma_deinterleave_interleave,
};

verus! {

/// Why the filter's output cannot be read as interleaved samples.
#[derive(Debug, Clone, Copy, PartialEq, Eq)]
pub enum AtempoOutputError {
    /// The byte count is odd, so it is not a whole number of samples.
    OddByteCount,
    /// The samples do not make a whole number of frames.
    PartialFrame { samples: usize, channels: u16 },
}

/// The filter output is a whole number of frames of `channels` samples
/// (an empty output counts as whole).
pub open spec fn atempo_output_whole(bytes: Seq<u8>, channels: u16) -> bool {
    &&& bytes.len() % 2 == 0
    &&& (bytes.len() / 2 == 0 || (bytes.len() as int / 2) % (channels as int) == 0)
}

/// Checks and decodes the raw `s16le` output of the filter for a stream of
/// `channels` channels.
pub fn decode_atempo_output(output_bytes: &[u8], channels: u16) -> (res: Result<
    Vec<i16>,
    AtempoOutputError,
>)
    requires
        channels > 0 || output_bytes@.len() % 2 != 0 || output_bytes@.len() < 2,
    ensures
        res is Ok <==> atempo_output_whole(output_bytes@, channels),
        res matches Ok(v) ==> v@ == s16le_samples(output_bytes@),
        output_bytes@.len() % 2 != 0 ==> res == Err::<Vec<i16>, _>(AtempoOutputError::OddByteCount),
        output_bytes@.len() % 2 == 0 && !atempo_output_whole(output_bytes@, channels) ==> res
            == Err::<Vec<i16>, _>(
            AtempoOutputError::PartialFrame { samples: (output_bytes@.len() / 2) as usize, channels },
        ),
{
    if output_bytes.len() % 2 != 0 {
        return Err(AtempoOutputError::OddByteCount);
    }
    let out = decode_s16le(output_bytes);
    let ch = channels as usize;
    if out.len() != 0 && out.len() % ch != 0 {
        return Err(AtempoOutputError::PartialFrame { samples: out.len(), channels });
    }
    Ok(out)
}


/// Law: with a filter that hands its input back unchanged, the exchange is
/// lossless: the bytes sent for interleaved channels of equal length are
/// accepted on return, and splitting them gives back the channels.
pub proof fn lemma_exchange_roundtrip(chs: Seq<Seq<i16>>)
    requires
        channels_same_length(chs),
        chs.len() <= u16::MAX,
    ensures
        atempo_output_whole(s16le(interleaved(chs)), chs.len() as u16),
        deinterleaved(s16le_samples(s16le(interleaved(chs))), chs.len() as int) == chs,
{
    let x = interleaved(chs);
    let k = chs.len() as int;
    let n = chs[0].len() as int;
    lemma_s16le_roundtrip(x);
    lemma_deinterleave_interleave(chs);
    let b = s16le(x);
    assert(b.len() == 2 * x.len());
    assert(b.len() as int / 2 == x.len());
    assert(x.len() == n * k);
    assert((n * k) % k == 0) by {
        vstd::arithmetic::div_mod::lemma_mod_multiples_basic(n, k);
    }
}

} // verus!
