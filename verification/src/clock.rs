//! Playback clock texts such as `"1:02:03"` or `"02:03"`, as the browser
//! extension sends them for the current position and the total duration.
use vstd::prelude::*;
use crate::text::{lemma_split_pieces_join, lemma_split_pieces_single, chars_of, decimal_i64, decimal_in, lemma_split_pieces_nonempty, split_bounds, split_pieces};

verus! {

/// The largest number of whole seconds that a `chrono::TimeDelta` can hold
/// (`i64::MAX / 1000`); `TimeDelta::seconds` panics beyond it in either direction.
pub const MAX_DELTA_SECONDS: i64 = 9223372036854775;

/// `v` fits in an `i64`.
pub open spec fn fits_i64(v: int) -> bool {
    i64::MIN <= v <= i64::MAX
}

/// One field of a clock text: its `i64::from_str` value, or 0 where it does not read.
pub open spec fn field_value(piece: Seq<char>) -> int {
    match decimal_i64(piece) {
        Some(v) => v as int,
        None => 0,
    }
}

/// Hours, minutes and seconds of a clock text split on `:`: three fields
/// are `h:m:s`, two are `m:s`, any other count reads as all zero.
pub open spec fn clock_fields(s: Seq<char>) -> (int, int, int) {
    let p = split_pieces(s, ':');
    if p.len() == 3 {
        (field_value(p[0]), field_value(p[1]), field_value(p[2]))
    } else if p.len() == 2 {
        (0, field_value(p[0]), field_value(p[1]))
    } else {
        (0, 0, 0)
    }
}

/// The number of seconds that a clock text stands for: `h * 3600 + m * 60 + s`.
pub open spec fn clock_seconds(s: Seq<char>) -> int {
    let (h, m, x) = clock_fields(s);
    h * 3600 + m * 60 + x
}

/// The clock text can be turned into a `TimeDelta` without an arithmetic
/// overflow on the way and within `TimeDelta`'s range.
pub open spec fn clock_fits(s: Seq<char>) -> bool {
    let (h, m, x) = clock_fields(s);
    &&& fits_i64(h * 3600)
    &&& fits_i64(m * 60)
    &&& fits_i64(h * 3600 + m * 60)
    &&& -MAX_DELTA_SECONDS <= h * 3600 + m * 60 + x <= MAX_DELTA_SECONDS
}

/// The value of one field `chars[lo..hi]`, 0 where it is not a decimal integer.
fn field(chars: &Vec<char>, lo: usize, hi: usize) -> (v: i64)
    requires
        lo <= hi <= chars.len(),
    ensures
        v == field_value(chars@.subrange(lo as int, hi as int)),
{
    match decimal_in(chars, lo, hi) {
        Some(v) => v,
        None => 0,
    }
}

/// Reads a clock text into seconds, or `None` where the arithmetic would leave
/// `i64` or the result would not fit in a `TimeDelta`.
pub fn try_parse(s: &str) -> (r: Option<i64>)
    ensures
        r is Some <==> clock_fits(s@),
        r matches Some(v) ==> v == clock_seconds(s@),
{
    let chars = chars_of(s);
    let b = split_bounds(&chars, ':');
    proof {
        lemma_split_pieces_nonempty(s@, ':');
    }
    let ghost p = split_pieces(s@, ':');
    let (h, m, x): (i64, i64, i64) = if b.len() == 3 {
        (field(&chars, b[0].0, b[0].1), field(&chars, b[1].0, b[1].1), field(&chars, b[2].0, b[2].1))
    } else if b.len() == 2 {
        (0, field(&chars, b[0].0, b[0].1), field(&chars, b[1].0, b[1].1))
    } else {
        (0, 0, 0)
    };
    assert((h as int, m as int, x as int) == clock_fields(s@));
    let hs: i128 = h as i128 * 3600;
    let ms: i128 = m as i128 * 60;
    let min: i128 = i64::MIN as i128;
    let max: i128 = i64::MAX as i128;
    if hs < min || hs > max || ms < min || ms > max || hs + ms < min || hs + ms > max {
        return None;
    }
    let total: i128 = hs + ms + x as i128;
    if total < -(MAX_DELTA_SECONDS as i128) || total > MAX_DELTA_SECONDS as i128 {
        return None;
    }
    Some(total as i64)
}

/// Reads a clock text into seconds: `"h:m:s"` gives `h * 3600 + m * 60 + s`,
/// `"m:s"` gives `m * 60 + s`, a field that is not a decimal integer counts as
/// 0 and any other number of fields gives 0.
pub fn parse(s: &str) -> (secs: i64)
    requires
        clock_fits(s@),
    ensures
        secs == clock_seconds(s@),
{
    match try_parse(s) {
        Some(v) => v,
        None => 0,
    }
}

/// A clock text of three colon-free fields `h:m:s` stands for
/// `3600 * h + 60 * m + s` seconds, each field read as a decimal integer or 0.
pub proof fn lemma_clock_hours_minutes_seconds(h: Seq<char>, m: Seq<char>, x: Seq<char>)
    requires
        !h.contains(':'),
        !m.contains(':'),
        !x.contains(':'),
    ensures
        clock_seconds(h.push(':') + m.push(':') + x) == 3600 * field_value(h) + 60 * field_value(m)
            + field_value(x),
{
    lemma_split_pieces_join(m, x, ':');
    lemma_split_pieces_join(h, m.push(':') + x, ':');
    lemma_split_pieces_single(h, ':');
    lemma_split_pieces_single(m, ':');
    lemma_split_pieces_single(x, ':');
    assert(h.push(':') + (m.push(':') + x) =~= h.push(':') + m.push(':') + x);
    assert(split_pieces(h.push(':') + m.push(':') + x, ':') =~= seq![h, m, x]);
}

/// A clock text of two colon-free fields `m:s` stands for `60 * m + s` seconds.
pub proof fn lemma_clock_minutes_seconds(m: Seq<char>, x: Seq<char>)
    requires
        !m.contains(':'),
        !x.contains(':'),
    ensures
        clock_seconds(m.push(':') + x) == 60 * field_value(m) + field_value(x),
{
    lemma_split_pieces_join(m, x, ':');
    lemma_split_pieces_single(m, ':');
    lemma_split_pieces_single(x, ':');
    assert(split_pieces(m.push(':') + x, ':') =~= seq![m, x]);
}

/// A clock text without any colon stands for no time at all.
pub proof fn lemma_clock_single_field(x: Seq<char>)
    requires
        !x.contains(':'),
    ensures
        clock_seconds(x) == 0,
        clock_fits(x),
{
    lemma_split_pieces_single(x, ':');
}


/// Exactly which `h:m:s` texts can be read: those whose fields `h`, `m`, `s`
/// give `h * 3600`, `m * 60` and their sum within `i64` and a total within
/// `TimeDelta`'s range of ±9223372036854775 seconds; the total is then
/// `h * 3600 + m * 60 + s`, however long the time.
pub proof fn lemma_clock_fits_hours_minutes_seconds(h: Seq<char>, m: Seq<char>, x: Seq<char>)
    requires
        !h.contains(':'),
        !m.contains(':'),
        !x.contains(':'),
    ensures
        ({
            let (hv, mv, xv) = (field_value(h), field_value(m), field_value(x));
            clock_fits(h.push(':') + m.push(':') + x) <==> (i64::MIN <= hv * 3600 <= i64::MAX
                && i64::MIN <= mv * 60 <= i64::MAX && i64::MIN <= hv * 3600 + mv * 60 <= i64::MAX
                && -9223372036854775 <= hv * 3600 + mv * 60 + xv <= 9223372036854775)
        }),
        clock_seconds(h.push(':') + m.push(':') + x) == 3600 * field_value(h) + 60 * field_value(m)
            + field_value(x),
{
    lemma_clock_hours_minutes_seconds(h, m, x);
    lemma_split_pieces_join(m, x, ':');
    lemma_split_pieces_join(h, m.push(':') + x, ':');
    lemma_split_pieces_single(h, ':');
    lemma_split_pieces_single(m, ':');
    lemma_split_pieces_single(x, ':');
    assert(h.push(':') + (m.push(':') + x) =~= h.push(':') + m.push(':') + x);
    assert(split_pieces(h.push(':') + m.push(':') + x, ':') =~= seq![h, m, x]);
}

/// Exactly which `m:s` texts can be read: those whose `m * 60` fits in `i64`
/// and whose total `m * 60 + s` lies within `TimeDelta`'s range.
pub proof fn lemma_clock_fits_minutes_seconds(m: Seq<char>, x: Seq<char>)
    requires
        !m.contains(':'),
        !x.contains(':'),
    ensures
        ({
            let (mv, xv) = (field_value(m), field_value(x));
            clock_fits(m.push(':') + x) <==> (i64::MIN <= mv * 60 <= i64::MAX
                && -9223372036854775 <= mv * 60 + xv <= 9223372036854775)
        }),
{
    lemma_split_pieces_join(m, x, ':');
    lemma_split_pieces_single(m, ':');
    lemma_split_pieces_single(x, ':');
    assert(split_pieces(m.push(':') + x, ':') =~= seq![m, x]);
}

} // verus!
