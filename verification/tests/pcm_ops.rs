use brstm_speed_tool::pcm::{
    concat_pcm, deinterleave, interleave, loop_preview_segments, slice_pcm,
};

#[test]
fn interleave_two_channels() {
    let chs = vec![vec![1i16, 2, 3], vec![10i16, 20, 30]];
    assert_eq!(interleave(&chs), vec![1, 10, 2, 20, 3, 30]);
}

#[test]
fn interleave_reads_first_channel_length() {
    let chs = vec![vec![1i16, 2], vec![5i16, 6, 7]];
    assert_eq!(interleave(&chs), vec![1, 5, 2, 6]);
}

#[test]
fn interleave_empty_channels() {
    let chs = vec![Vec::<i16>::new(), Vec::new(), Vec::new()];
    assert!(interleave(&chs).is_empty());
}

#[test]
fn deinterleave_three_channels() {
    let x = vec![1i16, 2, 3, 4, 5, 6];
    assert_eq!(deinterleave(&x, 3), vec![vec![1, 4], vec![2, 5], vec![3, 6]]);
}

#[test]
fn deinterleave_drops_partial_frame() {
    let x = vec![1i16, 2, 3, 4, 5];
    assert_eq!(deinterleave(&x, 2), vec![vec![1, 3], vec![2, 4]]);
}

#[test]
fn deinterleave_of_interleave_is_identity() {
    let chs = vec![vec![7i16, -8, 9, 100], vec![-1i16, 0, 32767, -32768]];
    assert_eq!(deinterleave(&interleave(&chs), chs.len()), chs);
}

#[test]
fn interleave_of_deinterleave_is_identity() {
    let x: Vec<i16> = (0..24).map(|v| v * 3 - 20).collect();
    assert_eq!(interleave(&deinterleave(&x, 4)), x);
}

#[test]
fn slice_pcm_cuts_every_channel() {
    let chs = vec![vec![0i16, 1, 2, 3, 4], vec![10i16, 11, 12, 13, 14, 15]];
    assert_eq!(slice_pcm(&chs, 1, 4), vec![vec![1, 2, 3], vec![11, 12, 13]]);
    assert_eq!(slice_pcm(&chs, 2, 2), vec![Vec::<i16>::new(), Vec::new()]);
}

#[test]
fn concat_pcm_appends_channel_wise() {
    let a = vec![vec![1i16, 2], vec![3i16]];
    let b = vec![vec![9i16], vec![8i16, 7]];
    assert_eq!(concat_pcm(&a, &b), vec![vec![1, 2, 9], vec![3, 8, 7]]);
}

#[test]
fn loop_preview_segments_tail_and_head() {
    let ch: Vec<i16> = (0..10).collect();
    let chs = vec![ch.clone(), ch.iter().map(|v| v + 100).collect()];
    // 2 samples per second, 3 seconds: a span of 6 frames
    let (seg1, seg2) = loop_preview_segments(&chs, 2, 2, 3);
    assert_eq!(seg1, vec![vec![4, 5, 6, 7, 8, 9], vec![104, 105, 106, 107, 108, 109]]);
    assert_eq!(seg2, vec![vec![2, 3, 4, 5, 6, 7], vec![102, 103, 104, 105, 106, 107]]);
}

#[test]
fn loop_preview_segments_span_longer_than_stream() {
    let chs = vec![vec![1i16, 2, 3, 4]];
    let (seg1, seg2) = loop_preview_segments(&chs, 44100, 3, 5);
    assert_eq!(seg1, vec![vec![1, 2, 3, 4]]);
    assert_eq!(seg2, vec![vec![4]]);
}

#[test]
fn loop_preview_segments_saturating_span() {
    let chs = vec![vec![1i16, 2, 3]];
    let (seg1, seg2) = loop_preview_segments(&chs, u32::MAX, 0, 5);
    assert_eq!(seg1, vec![vec![1, 2, 3]]);
    assert_eq!(seg2, vec![vec![1, 2, 3]]);
}

#[test]
fn loop_preview_segments_loop_at_end() {
    let chs = vec![vec![1i16, 2, 3]];
    let (seg1, seg2) = loop_preview_segments(&chs, 1, 3, 1);
    assert_eq!(seg1, vec![vec![3]]);
    assert_eq!(seg2, vec![Vec::<i16>::new()]);
}

#[test]
fn concat_then_slice_at_stitch() {
    let a = vec![vec![1i16, 2, 3], vec![4i16, 5, 6]];
    let b = vec![vec![7i16, 8], vec![9i16, 10]];
    let ab = concat_pcm(&a, &b);
    assert_eq!(slice_pcm(&ab, 0, 3), a);
    assert_eq!(slice_pcm(&ab, 3, 5), b);
}

#[test]
fn slice_pcm_without_channels() {
    let none: Vec<Vec<i16>> = Vec::new();
    assert!(slice_pcm(&none, 5, 2).is_empty());
}
