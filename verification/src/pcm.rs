//! Multi-channel 16-bit PCM: interleaving, de-interleaving, slicing and
//! concatenation of per-channel sample buffers.

use vstd::prelude::*;
use vstd::arithmetic::div_mod::lemma_fundamental_div_mod_converse;

verus! {

/// The mathematical model of a set of channel buffers.
pub open spec fn pcm_view(chs: Seq<Vec<i16>>) -> Seq<Seq<i16>> {
    chs.map_values(|v: Vec<i16>| v@)
}

/// Every channel holds at least as many samples as the first one
/// (the first channel's length is the number of frames that are read).
pub open spec fn channels_cover_first(chs: Seq<Seq<i16>>) -> bool {
    &&& chs.len() > 0
    &&& forall|c: int| 0 <= c < chs.len() ==> #[trigger] chs[c].len() >= chs[0].len()
}

/// All channels hold the same number of samples.
pub open spec fn channels_same_length(chs: Seq<Seq<i16>>) -> bool {
    &&& chs.len() > 0
    &&& forall|c: int| 0 <= c < chs.len() ==> #[trigger] chs[c].len() == chs[0].len()
}

/// Frame-major interleaving: sample `f` of channel `c` sits at `f * k + c`,
/// where `k` is the number of channels and the frame count is the first
/// channel's length.
pub open spec fn interleaved(chs: Seq<Seq<i16>>) -> Seq<i16> {
    let k = chs.len() as int;
    Seq::new((chs[0].len() * k) as nat, |i: int| chs[i % k][i / k])
}

/// Splitting an interleaved buffer into `k` channels; a trailing partial
/// frame is dropped.
pub open spec fn deinterleaved(x: Seq<i16>, k: int) -> Seq<Seq<i16>> {
    Seq::new(k as nat, |c: int| Seq::new((x.len() as int / k) as nat, |f: int| x[f * k + c]))
}

/// Every channel cut to the sample range `start..end`.
pub open spec fn sliced(chs: Seq<Seq<i16>>, start: int, end: int) -> Seq<Seq<i16>> {
    chs.map_values(|ch: Seq<i16>| ch.subrange(start, end))
}

/// Channel-wise concatenation.
pub open spec fn concatenated(a: Seq<Seq<i16>>, b: Seq<Seq<i16>>) -> Seq<Seq<i16>> {
    Seq::new(a.len(), |c: int| a[c] + b[c])
}

/// `start..end` is a valid sample range of every channel (any range is,
/// where there is no channel).
pub open spec fn range_in_all(chs: Seq<Seq<i16>>, start: int, end: int) -> bool {
    &&& chs.len() > 0 ==> 0 <= start <= end
    &&& forall|c: int| 0 <= c < chs.len() ==> end <= #[trigger] chs[c].len()
}

proof fn lemma_frame_index(f: int, c: int, k: int)
    requires
        0 <= c < k,
    ensures
        (f * k + c) / k == f,
        (f * k + c) % k == c,
{
    lemma_fundamental_div_mod_converse(f * k + c, k, f, c);
}

/// Interleaves per-channel buffers frame by frame.
pub fn interleave(channels: &[Vec<i16>]) -> (out: Vec<i16>)
    requires
        channels_cover_first(pcm_view(channels@)),
    ensures
        out@ == interleaved(pcm_view(channels@)),
{
    let ghost chs = pcm_view(channels@);
    let n = channels[0].len();
    let k = channels.len();
    let mut out: Vec<i16> = Vec::new();
    let mut i: usize = 0;
    while i < n
        invariant
            i <= n,
            n == chs[0].len(),
            k == chs.len(),
            chs == pcm_view(channels@),
            channels_cover_first(chs),
            out@.len() == i * k,
            forall|j: int| 0 <= j < out@.len() ==> #[trigger] out@[j] == chs[j % (k as int)][j / (k as int)],
        decreases n - i,
    {
        let mut c: usize = 0;
        while c < k
            invariant
                i < n,
                c <= k,
                n == chs[0].len(),
                k == chs.len(),
                chs == pcm_view(channels@),
                channels_cover_first(chs),
                out@.len() == i * k + c,
                forall|j: int| 0 <= j < out@.len() ==> #[trigger] out@[j] == chs[j % (k as int)][j / (k as int)],
            decreases k - c,
        {
            assert(chs[c as int].len() >= n);
            proof {
                lemma_frame_index(i as int, c as int, k as int);
            }
            out.push(channels[c][i]);
            c += 1;
        }
        assert((i + 1) * k == i * k + k) by (nonlinear_arith);
        i += 1;
    }
    assert(out@ =~= interleaved(chs));
    out
}


/// Splits frame-major interleaved samples into `num_channels` buffers.
pub fn deinterleave(interleaved: &[i16], num_channels: usize) -> (out: Vec<Vec<i16>>)
    requires
        num_channels > 0,
    ensures
        pcm_view(out@) == deinterleaved(interleaved@, num_channels as int),
{
    let ghost x = interleaved@;
    let ghost k = num_channels as int;
    let len = interleaved.len();
    let frames = len / num_channels;
    assert(frames * k <= x.len()) by (nonlinear_arith)
        requires frames == x.len() as int / k, k > 0;
    let mut out: Vec<Vec<i16>> = Vec::new();
    let mut c: usize = 0;
    while c < num_channels
        invariant
            c <= num_channels,
            k == num_channels,
            x == interleaved@,
            x.len() == len,
            frames == x.len() as int / k,
            frames * k <= x.len(),
            out@.len() == c,
            forall|cc: int| 0 <= cc < c ==> #[trigger] out@[cc]@ == deinterleaved(x, k)[cc],
        decreases num_channels - c,
    {
        let mut v: Vec<i16> = Vec::new();
        let mut f: usize = 0;
        while f < frames
            invariant
                f <= frames,
                c < num_channels,
                k == num_channels,
                x == interleaved@,
                frames * k <= x.len(),
                x.len() == len,
                v@.len() == f,
                forall|j: int| 0 <= j < f ==> #[trigger] v@[j] == x[j * k + c],
            decreases frames - f,
        {
            assert(f * k + c < x.len()) by (nonlinear_arith)
                requires f < frames, c < k, frames * k <= x.len();
            assert(f * k <= f * k + c);
            v.push(interleaved[f * num_channels + c]);
            f += 1;
        }
        assert(v@ =~= deinterleaved(x, k)[c as int]);
        out.push(v);
        c += 1;
    }
    assert(pcm_view(out@) =~= deinterleaved(x, k));
    out
}

/// Copies `src[start..end]`.
pub fn copy_range(src: &Vec<i16>, start: usize, end: usize) -> (out: Vec<i16>)
    requires
        start <= end <= src@.len(),
    ensures
        out@ == src@.subrange(start as int, end as int),
{
    let mut out: Vec<i16> = Vec::new();
    let mut i: usize = start;
    while i < end
        invariant
            start <= i <= end,
            end <= src@.len(),
            out@ == src@.subrange(start as int, i as int),
        decreases end - i,
    {
        out.push(src[i]);
        i += 1;
        assert(out@ =~= src@.subrange(start as int, i as int));
    }
    out
}

/// Cuts every channel to the sample range `start..end`.
pub fn slice_pcm(channels: &[Vec<i16>], start: usize, end: usize) -> (out: Vec<Vec<i16>>)
    requires
        range_in_all(pcm_view(channels@), start as int, end as int),
    ensures
        pcm_view(out@) == sliced(pcm_view(channels@), start as int, end as int),
{
    let ghost chs = pcm_view(channels@);
    let mut out: Vec<Vec<i16>> = Vec::new();
    let mut c: usize = 0;
    while c < channels.len()
        invariant
            c <= channels@.len(),
            chs == pcm_view(channels@),
            range_in_all(chs, start as int, end as int),
            out@.len() == c,
            forall|cc: int| 0 <= cc < c ==> #[trigger] out@[cc]@ == chs[cc].subrange(start as int, end as int),
        decreases channels@.len() - c,
    {
        assert(end <= chs[c as int].len());
        let v = copy_range(&channels[c], start, end);
        out.push(v);
        c += 1;
    }
    assert(pcm_view(out@) =~= sliced(chs, start as int, end as int));
    out
}

/// Appends each channel of `b` to the same channel of `a`.
pub fn concat_pcm(a: &[Vec<i16>], b: &[Vec<i16>]) -> (out: Vec<Vec<i16>>)
    requires
        a@.len() == b@.len(),
    ensures
        pcm_view(out@) == concatenated(pcm_view(a@), pcm_view(b@)),
{
    let ghost va = pcm_view(a@);
    let ghost vb = pcm_view(b@);
    let nch = a.len();
    let mut out: Vec<Vec<i16>> = Vec::new();
    let mut c: usize = 0;
    while c < nch
        invariant
            c <= nch,
            nch == a@.len(),
            a@.len() == b@.len(),
            va == pcm_view(a@),
            vb == pcm_view(b@),
            out@.len() == c,
            forall|cc: int| 0 <= cc < c ==> #[trigger] out@[cc]@ == va[cc] + vb[cc],
        decreases nch - c,
    {
        let mut v = copy_range(&a[c], 0, a[c].len());
        let bc = &b[c];
        let mut i: usize = 0;
        while i < bc.len()
            invariant
                i <= bc@.len(),
                v@ == a@[c as int]@ + bc@.subrange(0, i as int),
            decreases bc@.len() - i,
        {
            v.push(bc[i]);
            i += 1;
            assert(v@ =~= a@[c as int]@ + bc@.subrange(0, i as int));
        }
        assert(bc@.subrange(0, bc@.len() as int) =~= bc@);
        out.push(v);
        c += 1;
    }
    assert(pcm_view(out@) =~= concatenated(va, vb));
    out
}

/// `a * b`, or `u32::MAX` where the product does not fit in a `u32`.
pub open spec fn saturating_product(a: u32, b: u32) -> int {
    if a * b <= u32::MAX {
        a * b
    } else {
        u32::MAX as int
    }
}

/// The first channel's length, the frame count of a set of channels.
pub open spec fn frames_of(chs: Seq<Seq<i16>>) -> int {
    chs[0].len() as int
}

/// The last `span` frames (all of them where there are fewer).
pub open spec fn tail_segment(chs: Seq<Seq<i16>>, span: int) -> Seq<Seq<i16>> {
    let n = frames_of(chs);
    sliced(chs, if span < n { n - span } else { 0 }, n)
}

/// `span` frames from `loop_start`, cut at the end of the stream.
pub open spec fn loop_head_segment(chs: Seq<Seq<i16>>, loop_start: int, span: int) -> Seq<Seq<i16>> {
    let n = frames_of(chs);
    sliced(chs, loop_start, if loop_start + span < n { loop_start + span } else { n })
}

fn saturating_mul_u32(a: u32, b: u32) -> (r: u32)
    ensures
        r == saturating_product(a, b),
{
    match a.checked_mul(b) {
        Some(p) => p,
        None => u32::MAX,
    }
}

/// The two parts of a loop preview: the last `preview_sec` seconds of the
/// stream (before it wraps) and the first `preview_sec` seconds from
/// `loop_start`.
pub fn loop_preview_segments(
    channels: &[Vec<i16>],
    sample_rate: u32,
    loop_start: u32,
    preview_sec: u32,
) -> (segs: (Vec<Vec<i16>>, Vec<Vec<i16>>))
    requires
        channels_cover_first(pcm_view(channels@)),
        loop_start <= frames_of(pcm_view(channels@)),
        loop_start + saturating_product(sample_rate, preview_sec) <= usize::MAX,
    ensures
        pcm_view(segs.0@) == tail_segment(
            pcm_view(channels@),
            saturating_product(sample_rate, preview_sec),
        ),
        pcm_view(segs.1@) == loop_head_segment(
            pcm_view(channels@),
            loop_start as int,
            saturating_product(sample_rate, preview_sec),
        ),
{
    let ghost chs = pcm_view(channels@);
    let n = channels[0].len();
    let span = saturating_mul_u32(sample_rate, preview_sec) as usize;
    let seg1_start = n.saturating_sub(span);
    assert(range_in_all(chs, seg1_start as int, n as int));
    let seg1 = slice_pcm(channels, seg1_start, n);
    let lp = loop_start as usize;
    let seg2_end = if lp + span < n { lp + span } else { n };
    assert(range_in_all(chs, lp as int, seg2_end as int));
    let seg2 = slice_pcm(channels, lp, seg2_end);
    (seg1, seg2)
}

/// Law: splitting an interleaved buffer by its channel count gives back the
/// channels it was made from, when all channels have the same length.
pub proof fn lemma_deinterleave_interleave(chs: Seq<Seq<i16>>)
    requires
        channels_same_length(chs),
    ensures
        deinterleaved(interleaved(chs), chs.len() as int) == chs,
{
    let k = chs.len() as int;
    let n = chs[0].len() as int;
    let x = interleaved(chs);
    assert(x.len() as int / k == n) by {
        lemma_fundamental_div_mod_converse(n * k, k, n, 0);
    }
    let d = deinterleaved(x, k);
    assert forall|c: int| 0 <= c < k implies #[trigger] d[c] =~= chs[c] by {
        assert forall|f: int| 0 <= f < n implies #[trigger] d[c][f] == chs[c][f] by {
            lemma_frame_index(f, c, k);
            assert(f * k + c < n * k) by (nonlinear_arith)
                requires 0 <= f < n, 0 <= c < k;
        }
    }
    assert(d =~= chs);
}

/// Law: interleaving the channels of a split buffer gives back the buffer,
/// when its length is a whole number of frames.
pub proof fn lemma_interleave_deinterleave(x: Seq<i16>, k: int)
    requires
        k > 0,
        x.len() as int % k == 0,
    ensures
        interleaved(deinterleaved(x, k)) == x,
{
    let d = deinterleaved(x, k);
    let n = x.len() as int / k;
    assert(n * k == x.len()) by {
        vstd::arithmetic::div_mod::lemma_fundamental_div_mod(x.len() as int, k);
    }
    let y = interleaved(d);
    assert(d[0].len() == n);
    assert(y.len() == x.len());
    assert forall|i: int| 0 <= i < x.len() implies #[trigger] y[i] == x[i] by {
        let f = i / k;
        let c = i % k;
        vstd::arithmetic::div_mod::lemma_fundamental_div_mod(i, k);
        assert(0 <= c < k);
        assert(0 <= f < n) by (nonlinear_arith)
            requires i == k * f + c, 0 <= i < n * k, 0 <= c < k, k > 0;
        assert(f * k + c == i) by (nonlinear_arith)
            requires i == k * f + c;
    }
    assert(y =~= x);
}


/// Law: cutting channel-wise concatenated channels at the length of the
/// first part gives back both parts (the stitch point of a loop preview is
/// the tail's frame count), when each part has channels of equal length.
pub proof fn lemma_concat_split(a: Seq<Seq<i16>>, b: Seq<Seq<i16>>)
    requires
        a.len() == b.len(),
        channels_same_length(a),
        channels_same_length(b),
    ensures
        sliced(concatenated(a, b), 0, a[0].len() as int) == a,
        sliced(concatenated(a, b), a[0].len() as int, (a[0].len() + b[0].len()) as int) == b,
{
    let ab = concatenated(a, b);
    let t = a[0].len() as int;
    let u = b[0].len() as int;
    assert forall|c: int| 0 <= c < a.len() implies #[trigger] sliced(ab, 0, t)[c] == a[c] by {
        assert(a[c].len() == t);
        assert(ab[c].subrange(0, t) =~= a[c]);
    }
    assert forall|c: int| 0 <= c < b.len() implies #[trigger] sliced(ab, t, t + u)[c] == b[c] by {
        assert(a[c].len() == t);
        assert(b[c].len() == u);
        assert(ab[c].subrange(t, t + u) =~= b[c]);
    }
    assert(sliced(ab, 0, t) =~= a);
    assert(sliced(ab, t, t + u) =~= b);
}

} // verus!
