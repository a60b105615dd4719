//! The one-line JSON summary of a stream header.

use vstd::prelude::*;
use vstd::string::StringExecFns;
use crate::brstm_format::StreamHeader;

verus! {

/// The decimal digit for `d < 10`.
pub open spec fn digit_char(d: int) -> char {
    if d == 0 {
        '0'
    } else if d == 1 {
        '1'
    } else if d == 2 {
        '2'
    } else if d == 3 {
        '3'
    } else if d == 4 {
        '4'
    } else if d == 5 {
        '5'
    } else if d == 6 {
        '6'
    } else if d == 7 {
        '7'
    } else if d == 8 {
        '8'
    } else {
        '9'
    }
}

/// The decimal numeral of `n`, without leading zeros.
pub open spec fn decimal(n: nat) -> Seq<char>
    decreases n,
{
    if n < 10 {
        seq![digit_char(n as int)]
    } else {
        decimal(n / 10) + seq![digit_char((n % 10) as int)]
    }
}

fn digit_str(d: u32) -> (s: &'static str)
    requires
        d < 10,
    ensures
        s@ == seq![digit_char(d as int)],
{
    if d == 0 {
        proof { reveal_strlit("0"); }
        "0"
    } else if d == 1 {
        proof { reveal_strlit("1"); }
        "1"
    } else if d == 2 {
        proof { reveal_strlit("2"); }
        "2"
    } else if d == 3 {
        proof { reveal_strlit("3"); }
        "3"
    } else if d == 4 {
        proof { reveal_strlit("4"); }
        "4"
    } else if d == 5 {
        proof { reveal_strlit("5"); }
        "5"
    } else if d == 6 {
        proof { reveal_strlit("6"); }
        "6"
    } else if d == 7 {
        proof { reveal_strlit("7"); }
        "7"
    } else if d == 8 {
        proof { reveal_strlit("8"); }
        "8"
    } else {
        proof { reveal_strlit("9"); }
        "9"
    }
}

/// Appends the decimal numeral of `v`.
pub fn push_decimal(s: &mut String, v: u32)
    ensures
        final(s)@ == old(s)@ + decimal(v as nat),
    decreases v,
{
    if v >= 10 {
        push_decimal(s, v / 10);
    }
    s.append(digit_str(v % 10));
    assert(final(s)@ =~= old(s)@ + decimal(v as nat));
}

/// The JSON line that describes a stream header.
pub open spec fn loop_info_json_text(h: StreamHeader) -> Seq<char> {
    "{\"sample_rate\":"@ + decimal(h.sample_rate as nat) + ",\"channels\":"@ + decimal(
        h.channel_count as nat,
    ) + ",\"codec\":"@ + decimal(h.codec as nat) + ",\"loop_flag\":"@ + decimal(h.loop_flag as nat)
        + ",\"loop_start\":"@ + decimal(h.loop_start as nat) + ",\"total_samples\":"@ + decimal(
        h.total_samples as nat,
    ) + "}"@
}

/// One JSON line with the sample rate, channel count, codec, loop flag,
/// loop start and total sample count of a stream.
pub fn loop_info_json(h: &StreamHeader) -> (s: String)
    ensures
        s@ == loop_info_json_text(*h),
{
    let mut s = String::from_str("{\"sample_rate\":");
    push_decimal(&mut s, h.sample_rate as u32);
    s.append(",\"channels\":");
    push_decimal(&mut s, h.channel_count as u32);
    s.append(",\"codec\":");
    push_decimal(&mut s, h.codec as u32);
    s.append(",\"loop_flag\":");
    push_decimal(&mut s, h.loop_flag as u32);
    s.append(",\"loop_start\":");
    push_decimal(&mut s, h.loop_start);
    s.append(",\"total_samples\":");
    push_decimal(&mut s, h.total_samples);
    s.append("}");
    s
}

/// `c` is a decimal digit.
pub open spec fn is_digit(c: char) -> bool {
    '0' <= c <= '9'
}

/// The number a string of decimal digits stands for.
pub open spec fn numeral_value(s: Seq<char>) -> int
    decreases s.len(),
{
    if s.len() == 0 {
        0
    } else {
        numeral_value(s.drop_last()) * 10 + (s.last() as int - '0' as int)
    }
}

/// Law: the decimal numeral of `n` is a non-empty string of digits that
/// stands for `n`.
pub proof fn lemma_decimal_reads_back(n: nat)
    ensures
        decimal(n).len() > 0,
        forall|i: int| 0 <= i < decimal(n).len() ==> is_digit(#[trigger] decimal(n)[i]),
        numeral_value(decimal(n)) == n,
    decreases n,
{
    if n < 10 {
        lemma_digit_char(n as int);
        assert(decimal(n).drop_last() =~= Seq::<char>::empty());
        assert(numeral_value(Seq::<char>::empty()) == 0);
    } else {
        lemma_digit_char((n % 10) as int);
        lemma_decimal_reads_back(n / 10);
        let s = decimal(n);
        assert(s.drop_last() =~= decimal(n / 10));
        assert(s.last() == digit_char((n % 10) as int));
        assert(numeral_value(s) == numeral_value(decimal(n / 10)) * 10 + (n % 10));
        assert((n / 10) * 10 + n % 10 == n);
    }
}

/// A JSON object key in quotes, followed by the colon.
pub open spec fn quoted_key(key: Seq<char>) -> Seq<char> {
    "\""@ + key + "\":"@
}

/// `text` holds the key `key` followed by a run of decimal digits that
/// stands for `v` and ends before a `,` or `}`.
pub open spec fn has_number_field(text: Seq<char>, key: Seq<char>, v: nat) -> bool {
    exists|i: int, j: int|
        #![trigger text.subrange(i, i + key.len() + 3), text.subrange(i + key.len() + 3, j)]
        0 <= i && i + key.len() + 3 < j < text.len()
        && text.subrange(i, i + key.len() + 3) == quoted_key(key)
        && (forall|k: int| i + key.len() + 3 <= k < j ==> is_digit(#[trigger] text[k]))
        && numeral_value(text.subrange(i + key.len() + 3, j)) == v
        && (text[j] == ',' || text[j] == '}')
}

proof fn lemma_digit_char(d: int)
    requires
        0 <= d < 10,
    ensures
        is_digit(digit_char(d)),
        digit_char(d) as int - '0' as int == d,
{
}

proof fn lemma_number_field(head: Seq<char>, key: Seq<char>, v: nat, post: Seq<char>)
    requires
        head.len() >= key.len() + 3,
        head.subrange(head.len() - key.len() - 3, head.len() as int) == quoted_key(key),
        post.len() > 0,
        post[0] == ',' || post[0] == '}',
    ensures
        has_number_field(head + decimal(v) + post, key, v),
{
    lemma_decimal_reads_back(v);
    let d = decimal(v);
    let text = head + d + post;
    let i = head.len() - key.len() - 3;
    let j = head.len() + d.len() as int;
    assert(text.subrange(i, i + key.len() + 3) =~= head.subrange(i, head.len() as int));
    assert(text.subrange(i + key.len() + 3, j) =~= d);
    assert(text[j] == post[0]);
    assert forall|k: int| i + key.len() + 3 <= k < j implies is_digit(#[trigger] text[k]) by {
        assert(text[k] == d[k - (i + key.len() + 3)]);
    }
}

proof fn lemma_number_field_extend(text: Seq<char>, key: Seq<char>, v: nat, more: Seq<char>)
    requires
        has_number_field(text, key, v),
    ensures
        has_number_field(text + more, key, v),
{
    let (i, j) = choose|i: int, j: int|
        #![trigger text.subrange(i, i + key.len() + 3), text.subrange(i + key.len() + 3, j)]
        0 <= i && i + key.len() + 3 < j < text.len()
        && text.subrange(i, i + key.len() + 3) == quoted_key(key)
        && (forall|k: int| i + key.len() + 3 <= k < j ==> is_digit(#[trigger] text[k]))
        && numeral_value(text.subrange(i + key.len() + 3, j)) == v
        && (text[j] == ',' || text[j] == '}');
    let t2 = text + more;
    assert(t2.subrange(i, i + key.len() + 3) =~= text.subrange(i, i + key.len() + 3));
    assert(t2.subrange(i + key.len() + 3, j) =~= text.subrange(i + key.len() + 3, j));
    assert forall|k: int| i + key.len() + 3 <= k < j implies is_digit(#[trigger] t2[k]) by {
        assert(t2[k] == text[k]);
    }
    assert(t2[j] == text[j]);
}

/// The pieces of the JSON line of `h`, in order: the key texts and the
/// numerals between them.
spec fn json_pieces(h: StreamHeader) -> Seq<Seq<char>> {
    seq![
        "{\"sample_rate\":"@, decimal(h.sample_rate as nat),
        ",\"channels\":"@, decimal(h.channel_count as nat),
        ",\"codec\":"@, decimal(h.codec as nat),
        ",\"loop_flag\":"@, decimal(h.loop_flag as nat),
        ",\"loop_start\":"@, decimal(h.loop_start as nat),
        ",\"total_samples\":"@, decimal(h.total_samples as nat),
        "}"@,
    ]
}

/// The first `n` pieces joined.
spec fn joined(p: Seq<Seq<char>>, n: int) -> Seq<char>
    decreases n,
{
    if n <= 0 {
        Seq::empty()
    } else {
        joined(p, n - 1) + p[n - 1]
    }
}

/// A number field whose key text is piece `2f` and numeral piece `2f + 1`
/// stays in the line as the later pieces are added.
proof fn lemma_json_field(h: StreamHeader, f: int, key: Seq<char>, v: nat)
    requires
        0 <= f < 6,
        json_pieces(h)[2 * f + 1] == decimal(v),
        json_pieces(h)[2 * f].len() >= key.len() + 3,
        json_pieces(h)[2 * f].subrange(
            json_pieces(h)[2 * f].len() - key.len() - 3,
            json_pieces(h)[2 * f].len() as int,
        ) == quoted_key(key),
        json_pieces(h)[2 * f + 2].len() > 0,
        json_pieces(h)[2 * f + 2][0] == ',' || json_pieces(h)[2 * f + 2][0] == '}',
    ensures
        has_number_field(joined(json_pieces(h), 13), key, v),
{
    let p = json_pieces(h);
    let head = joined(p, 2 * f + 1);
    let piece = p[2 * f];
    assert(head == joined(p, 2 * f) + piece);
    assert(head.subrange(head.len() - key.len() - 3, head.len() as int) =~= piece.subrange(
        piece.len() - key.len() - 3,
        piece.len() as int,
    ));
    lemma_number_field(head, key, v, p[2 * f + 2]);
    assert(joined(p, 2 * f + 2) == head + decimal(v));
    assert(joined(p, 2 * f + 3) == head + decimal(v) + p[2 * f + 2]);
    lemma_json_field_stays(p, key, v, 2 * f + 3);
}

proof fn lemma_json_field_stays(p: Seq<Seq<char>>, key: Seq<char>, v: nat, n: int)
    requires
        0 <= n <= p.len(),
        has_number_field(joined(p, n), key, v),
    ensures
        has_number_field(joined(p, p.len() as int), key, v),
    decreases p.len() - n,
{
    if n < p.len() {
        lemma_number_field_extend(joined(p, n), key, v, p[n]);
        lemma_json_field_stays(p, key, v, n + 1);
    }
}

/// The JSON line is its pieces joined.
proof fn lemma_json_joined(h: StreamHeader)
    ensures
        loop_info_json_text(h) == joined(json_pieces(h), 13),
{
    let p = json_pieces(h);
    assert(joined(p, 0) == Seq::<char>::empty());
    assert(joined(p, 1) =~= p[0]);
    assert(joined(p, 2) == p[0] + p[1]);
    assert(joined(p, 3) == p[0] + p[1] + p[2]);
    assert(joined(p, 4) == p[0] + p[1] + p[2] + p[3]);
    assert(joined(p, 5) == p[0] + p[1] + p[2] + p[3] + p[4]);
    assert(joined(p, 6) == p[0] + p[1] + p[2] + p[3] + p[4] + p[5]);
    assert(joined(p, 7) == p[0] + p[1] + p[2] + p[3] + p[4] + p[5] + p[6]);
    assert(joined(p, 8) == p[0] + p[1] + p[2] + p[3] + p[4] + p[5] + p[6] + p[7]);
    assert(joined(p, 9) == p[0] + p[1] + p[2] + p[3] + p[4] + p[5] + p[6] + p[7] + p[8]);
    assert(joined(p, 10) == p[0] + p[1] + p[2] + p[3] + p[4] + p[5] + p[6] + p[7] + p[8] + p[9]);
    assert(joined(p, 11) == p[0] + p[1] + p[2] + p[3] + p[4] + p[5] + p[6] + p[7] + p[8] + p[9] + p[10]);
    assert(joined(p, 12) == p[0] + p[1] + p[2] + p[3] + p[4] + p[5] + p[6] + p[7] + p[8] + p[9] + p[10]
        + p[11]);
    assert(joined(p, 13) == p[0] + p[1] + p[2] + p[3] + p[4] + p[5] + p[6] + p[7] + p[8] + p[9] + p[10]
        + p[11] + p[12]);
}

/// Law: the JSON line of a header is an object whose `sample_rate`,
/// `channels`, `codec`, `loop_flag`, `loop_start` and `total_samples`
/// fields hold, as decimal numbers, the header's sample rate, channel
/// count, codec, loop flag, loop start and total sample count.
pub proof fn lemma_loop_info_json_fields(h: StreamHeader)
    ensures
        loop_info_json_text(h)[0] == '{',
        loop_info_json_text(h).last() == '}',
        has_number_field(loop_info_json_text(h), "sample_rate"@, h.sample_rate as nat),
        has_number_field(loop_info_json_text(h), "channels"@, h.channel_count as nat),
        has_number_field(loop_info_json_text(h), "codec"@, h.codec as nat),
        has_number_field(loop_info_json_text(h), "loop_flag"@, h.loop_flag as nat),
        has_number_field(loop_info_json_text(h), "loop_start"@, h.loop_start as nat),
        has_number_field(loop_info_json_text(h), "total_samples"@, h.total_samples as nat),
{
    let p = json_pieces(h);
    lemma_json_joined(h);
    assert(has_number_field(joined(p, 13), "sample_rate"@, h.sample_rate as nat)) by {
        reveal_strlit("{\"sample_rate\":");
        reveal_strlit(",\"channels\":");
        reveal_strlit("sample_rate");
        reveal_strlit("\"");
        reveal_strlit("\":");
        assert(p[0].subrange(1, 15) =~= quoted_key("sample_rate"@));
        lemma_json_field(h, 0, "sample_rate"@, h.sample_rate as nat);
    }
    assert(has_number_field(joined(p, 13), "channels"@, h.channel_count as nat)) by {
        reveal_strlit(",\"channels\":");
        reveal_strlit(",\"codec\":");
        reveal_strlit("channels");
        reveal_strlit("\"");
        reveal_strlit("\":");
        assert(p[2].subrange(1, 12) =~= quoted_key("channels"@));
        lemma_json_field(h, 1, "channels"@, h.channel_count as nat);
    }
    assert(has_number_field(joined(p, 13), "codec"@, h.codec as nat)) by {
        reveal_strlit(",\"codec\":");
        reveal_strlit(",\"loop_flag\":");
        reveal_strlit("codec");
        reveal_strlit("\"");
        reveal_strlit("\":");
        assert(p[4].subrange(1, 9) =~= quoted_key("codec"@));
        lemma_json_field(h, 2, "codec"@, h.codec as nat);
    }
    assert(has_number_field(joined(p, 13), "loop_flag"@, h.loop_flag as nat)) by {
        reveal_strlit(",\"loop_flag\":");
        reveal_strlit(",\"loop_start\":");
        reveal_strlit("loop_flag");
        reveal_strlit("\"");
        reveal_strlit("\":");
        assert(p[6].subrange(1, 13) =~= quoted_key("loop_flag"@));
        lemma_json_field(h, 3, "loop_flag"@, h.loop_flag as nat);
    }
    assert(has_number_field(joined(p, 13), "loop_start"@, h.loop_start as nat)) by {
        reveal_strlit(",\"loop_start\":");
        reveal_strlit(",\"total_samples\":");
        reveal_strlit("loop_start");
        reveal_strlit("\"");
        reveal_strlit("\":");
        assert(p[8].subrange(1, 14) =~= quoted_key("loop_start"@));
        lemma_json_field(h, 4, "loop_start"@, h.loop_start as nat);
    }
    assert(has_number_field(joined(p, 13), "total_samples"@, h.total_samples as nat)) by {
        reveal_strlit(",\"total_samples\":");
        reveal_strlit("}");
        reveal_strlit("total_samples");
        reveal_strlit("\"");
        reveal_strlit("\":");
        assert(p[10].subrange(1, 17) =~= quoted_key("total_samples"@));
        lemma_json_field(h, 5, "total_samples"@, h.total_samples as nat);
    }
    assert(loop_info_json_text(h)[0] == '{') by {
        reveal_strlit("{\"sample_rate\":");
        assert(loop_info_json_text(h)[0] == p[0][0]);
    }
    assert(loop_info_json_text(h).last() == '}') by {
        reveal_strlit("}");
    }
}

} // verus!
