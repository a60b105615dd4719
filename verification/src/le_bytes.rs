//! Little-endian byte encodings of 16- and 32-bit values, and the raw
//! signed 16-bit little-endian sample format (`s16le`).

use vstd::prelude::*;

verus! {

/// The two low bytes of `x`, least significant first.
pub open spec fn le16(x: int) -> Seq<u8> {
    seq![(x % 256) as u8, ((x / 256) % 256) as u8]
}

/// The four low bytes of `x`, least significant first.
pub open spec fn le32(x: int) -> Seq<u8> {
    seq![
        (x % 256) as u8,
        ((x / 0x100) % 256) as u8,
        ((x / 0x1_0000) % 256) as u8,
        ((x / 0x100_0000) % 256) as u8,
    ]
}

/// The two's complement bit pattern of a sample, as an unsigned number.
pub open spec fn sample_bits(s: i16) -> int {
    if s < 0 {
        s + 0x1_0000
    } else {
        s as int
    }
}

/// The sample whose little-endian bytes are `lo`, `hi`.
pub open spec fn sample_of_bytes(lo: u8, hi: u8) -> i16 {
    let v = lo + 256 * hi;
    if v >= 0x8000 {
        (v - 0x1_0000) as i16
    } else {
        v as i16
    }
}

/// Samples as consecutive little-endian 16-bit pairs.
pub open spec fn s16le(x: Seq<i16>) -> Seq<u8> {
    Seq::new(2 * x.len(), |i: int| le16(sample_bits(x[i / 2]))[i % 2])
}

/// Bytes read as little-endian 16-bit samples; a trailing odd byte is
/// ignored.
pub open spec fn s16le_samples(b: Seq<u8>) -> Seq<i16> {
    Seq::new(b.len() / 2, |i: int| sample_of_bytes(b[2 * i], b[2 * i + 1]))
}

/// Appends `v` as two little-endian bytes.
pub fn push_u16_le(out: &mut Vec<u8>, v: u16)
    ensures
        final(out)@ == old(out)@ + le16(v as int),
{
    out.push((v % 256) as u8);
    out.push(((v / 256) % 256) as u8);
    assert(final(out)@ =~= old(out)@ + le16(v as int));
}

/// Appends `v` as four little-endian bytes.
pub fn push_u32_le(out: &mut Vec<u8>, v: u32)
    ensures
        final(out)@ == old(out)@ + le32(v as int),
{
    out.push((v % 256) as u8);
    out.push(((v / 0x100) % 256) as u8);
    out.push(((v / 0x1_0000) % 256) as u8);
    out.push(((v / 0x100_0000) % 256) as u8);
    assert(final(out)@ =~= old(out)@ + le32(v as int));
}

/// Appends a sample in its little-endian two's complement form.
pub fn push_sample_le(out: &mut Vec<u8>, s: i16)
    ensures
        final(out)@ == old(out)@ + le16(sample_bits(s)),
{
    let bits: u16 = if s < 0 {
        (s as i32 + 0x1_0000) as u16
    } else {
        s as u16
    };
    push_u16_le(out, bits);
}

/// Appends samples as raw `s16le` bytes.
pub fn append_s16le(out: &mut Vec<u8>, samples: &[i16])
    ensures
        final(out)@ == old(out)@ + s16le(samples@),
{
    let ghost start = out@;
    let mut i: usize = 0;
    while i < samples.len()
        invariant
            i <= samples@.len(),
            out@ == start + s16le(samples@.subrange(0, i as int)),
        decreases samples@.len() - i,
    {
        push_sample_le(out, samples[i]);
        proof {
            let x = samples@.subrange(0, i as int);
            let one = seq![samples@[i as int]];
            lemma_s16le_append(x, one);
            assert(x + one =~= samples@.subrange(0, i + 1));
            assert(s16le(one) =~= le16(sample_bits(samples@[i as int])));
            assert(out@ =~= start + s16le(samples@.subrange(0, i + 1)));
        }
        i += 1;
    }
    assert(samples@.subrange(0, samples@.len() as int) =~= samples@);
}

/// Encodes samples as raw `s16le` bytes.
pub fn encode_s16le(samples: &[i16]) -> (out: Vec<u8>)
    ensures
        out@ == s16le(samples@),
{
    let mut out: Vec<u8> = Vec::new();
    append_s16le(&mut out, samples);
    assert(out@ =~= s16le(samples@));
    out
}

/// Reads the sample stored little-endian at `b[2 * i]`, `b[2 * i + 1]`.
pub fn read_sample_le(b: &[u8], i: usize) -> (s: i16)
    requires
        2 * i + 1 < b@.len(),
    ensures
        s == sample_of_bytes(b@[2 * i], b@[2 * i + 1]),
{
    let len = b.len();
    assert(2 * i + 1 < len);
    let lo = b[2 * i] as i32;
    let hi = b[2 * i + 1] as i32;
    let v = lo + 256 * hi;
    if v >= 0x8000 {
        (v - 0x1_0000) as i16
    } else {
        v as i16
    }
}

/// Decodes raw `s16le` bytes; a trailing odd byte is ignored.
pub fn decode_s16le(b: &[u8]) -> (out: Vec<i16>)
    ensures
        out@ == s16le_samples(b@),
{
    let n = b.len() / 2;
    let mut out: Vec<i16> = Vec::new();
    let mut i: usize = 0;
    while i < n
        invariant
            i <= n,
            n == b@.len() / 2,
            out@ == s16le_samples(b@).subrange(0, i as int),
        decreases n - i,
    {
        let s = read_sample_le(b, i);
        out.push(s);
        i += 1;
        assert(out@ =~= s16le_samples(b@).subrange(0, i as int));
    }
    assert(s16le_samples(b@).subrange(0, n as int) =~= s16le_samples(b@));
    out
}

/// Law: decoding the `s16le` bytes of samples gives back the samples.
pub proof fn lemma_s16le_roundtrip(x: Seq<i16>)
    ensures
        s16le_samples(s16le(x)) == x,
{
    let b = s16le(x);
    let y = s16le_samples(b);
    assert forall|i: int| 0 <= i < x.len() implies #[trigger] y[i] == x[i] by {
        assert((2 * i) / 2 == i && (2 * i) % 2 == 0);
        assert((2 * i + 1) / 2 == i && (2 * i + 1) % 2 == 1);
    }
    assert(y =~= x);
}

/// Law: the `s16le` form of a sample sequence is twice as long, and the
/// encodings of two sequences concatenate.
pub proof fn lemma_s16le_append(x: Seq<i16>, y: Seq<i16>)
    ensures
        s16le(x + y) == s16le(x) + s16le(y),
        s16le(x).len() == 2 * x.len(),
{
    let l = s16le(x + y);
    let r = s16le(x) + s16le(y);
    assert forall|j: int| 0 <= j < l.len() implies #[trigger] l[j] == r[j] by {
        if j < 2 * x.len() {
            assert((x + y)[j / 2] == x[j / 2]);
        } else {
            let k = j - 2 * x.len();
            assert(j / 2 == k / 2 + x.len());
            assert(j % 2 == k % 2);
            assert((x + y)[j / 2] == y[k / 2]);
        }
    }
    assert(l =~= r);
}

} // verus!
