//! Character-level text helpers shared by the other modules: splitting on a
//! separator, reading a decimal integer, trimming white space, searching and
//! replacing.
use vstd::prelude::*;

verus! {

/// `c` is an ASCII decimal digit.
pub open spec fn is_digit(c: char) -> bool {
    '0' <= c && c <= '9'
}

/// The value of the ASCII digit `c`.
pub open spec fn digit_value(c: char) -> int {
    (c as int) - ('0' as int)
}

/// Every character of `s` is an ASCII decimal digit.
pub open spec fn all_digits(s: Seq<char>) -> bool {
    forall|i: int| 0 <= i < s.len() ==> is_digit(#[trigger] s[i])
}

/// The number that the digit string `s` denotes in base ten (0 for the empty string).
pub open spec fn digits_value(s: Seq<char>) -> int
    decreases s.len(),
{
    if s.len() == 0 {
        0
    } else {
        digits_value(s.drop_last()) * 10 + digit_value(s.last())
    }
}

/// What `i64::from_str` gives for `s`: an optional sign (`+` or `-`) followed
/// by at least one ASCII digit, and a value that fits in `i64`; `None` for
/// every other string.
pub open spec fn decimal_i64(s: Seq<char>) -> Option<i64> {
    let signed = s.len() > 0 && (s[0] == '-' || s[0] == '+');
    let digits = if signed { s.drop_first() } else { s };
    let magnitude = digits_value(digits);
    let value = if s.len() > 0 && s[0] == '-' { -magnitude } else { magnitude };
    if digits.len() == 0 || !all_digits(digits) {
        None
    } else if i64::MIN <= value <= i64::MAX {
        Some(value as i64)
    } else {
        None
    }
}

pub proof fn lemma_digits_value_nonneg(s: Seq<char>)
    requires
        all_digits(s),
    ensures
        digits_value(s) >= 0,
    decreases s.len(),
{
    if s.len() > 0 {
        assert(is_digit(s[s.len() - 1]));
        lemma_digits_value_nonneg(s.drop_last());
    }
}

/// A digit string denotes at least what any of its prefixes denotes.
pub proof fn lemma_digits_value_prefix(s: Seq<char>, k: int)
    requires
        all_digits(s),
        0 <= k <= s.len(),
    ensures
        digits_value(s.take(k)) <= digits_value(s),
    decreases s.len(),
{
    if k < s.len() {
        let t = s.drop_last();
        assert(t.take(k) =~= s.take(k));
        lemma_digits_value_prefix(t, k);
        lemma_digits_value_nonneg(t);
        assert(is_digit(s[s.len() - 1]));
    } else {
        assert(s.take(k) =~= s);
    }
}

/// Reads `chars[lo..hi]` as `i64::from_str` would.
pub fn decimal_in(chars: &Vec<char>, lo: usize, hi: usize) -> (r: Option<i64>)
    requires
        lo <= hi <= chars.len(),
    ensures
        r == decimal_i64(chars@.subrange(lo as int, hi as int)),
{
    let ghost s = chars@.subrange(lo as int, hi as int);
    if lo == hi {
        return None;
    }
    let first = chars[lo];
    let negative = first == '-';
    let start: usize = if first == '-' || first == '+' { lo + 1 } else { lo };
    let ghost digits = chars@.subrange(start as int, hi as int);
    assert(digits =~= (if first == '-' || first == '+' { s.drop_first() } else { s }));
    if start == hi {
        return None;
    }
    // The largest magnitude that still fits: 2^63 - 1, or 2^63 with a minus sign.
    let limit: i128 = if negative { 9223372036854775808 } else { 9223372036854775807 };
    let mut acc: i128 = 0;
    let mut i: usize = start;
    while i < hi
        invariant
            s == chars@.subrange(lo as int, hi as int),
            s.len() > 0,
            s[0] == first,
            negative == (first == '-'),
            digits == (if first == '-' || first == '+' { s.drop_first() } else { s }),
            digits.len() > 0,
            start <= i <= hi <= chars.len(),
            digits == chars@.subrange(start as int, hi as int),
            all_digits(chars@.subrange(start as int, i as int)),
            acc == digits_value(chars@.subrange(start as int, i as int)),
            0 <= acc <= limit,
            limit == (if negative { 9223372036854775808i128 } else { 9223372036854775807i128 }),
        decreases hi - i,
    {
        let c = chars[i];
        let ghost prev = chars@.subrange(start as int, i as int);
        let ghost next = chars@.subrange(start as int, i + 1);
        assert(next.drop_last() =~= prev);
        assert(digits.take(i - start) =~= prev);
        if !('0' <= c && c <= '9') {
            assert(digits[i - start] == c);
            assert(!all_digits(digits));
            return None;
        }
        let d = (c as u32 - '0' as u32) as i128;
        acc = acc * 10 + d;
        i = i + 1;
        assert(all_digits(next)) by {
            assert forall|j: int| 0 <= j < next.len() implies is_digit(#[trigger] next[j]) by {
                if j < prev.len() {
                    assert(next[j] == prev[j]);
                }
            }
        }
        if acc > limit {
            proof {
                if all_digits(digits) {
                    assert(digits.take(i - start) =~= next);
                    lemma_digits_value_prefix(digits, i - start);
                }
            }
            return None;
        }
    }
    assert(chars@.subrange(start as int, i as int) =~= digits);
    if negative {
        Some((0 - acc) as i64)
    } else {
        Some(acc as i64)
    }
}

/// The pieces that `str::split` with a single-character pattern yields: the
/// text between consecutive occurrences of `sep`, with the text before the
/// first and after the last occurrence; one empty piece for empty text.
pub open spec fn split_pieces(s: Seq<char>, sep: char) -> Seq<Seq<char>>
    decreases s.len(),
{
    if s.len() == 0 {
        seq![Seq::<char>::empty()]
    } else {
        let prev = split_pieces(s.drop_last(), sep);
        if s.last() == sep {
            prev.push(Seq::<char>::empty())
        } else {
            prev.update(prev.len() - 1, prev.last().push(s.last()))
        }
    }
}

pub proof fn lemma_split_pieces_nonempty(s: Seq<char>, sep: char)
    ensures
        split_pieces(s, sep).len() >= 1,
    decreases s.len(),
{
    if s.len() > 0 {
        lemma_split_pieces_nonempty(s.drop_last(), sep);
    }
}

/// Text without the separator is a single piece.
pub proof fn lemma_split_pieces_single(x: Seq<char>, sep: char)
    requires
        !x.contains(sep),
    ensures
        split_pieces(x, sep) == seq![x],
    decreases x.len(),
{
    if x.len() > 0 {
        let t = x.drop_last();
        assert(!t.contains(sep)) by {
            if t.contains(sep) {
                let i = choose|i: int| 0 <= i < t.len() && t[i] == sep;
                assert(x[i] == sep);
            }
        }
        lemma_split_pieces_single(t, sep);
        assert(x[x.len() - 1] != sep);
        assert(t.push(x.last()) =~= x);
        assert(seq![t].update(0, x) =~= seq![x]);
    } else {
        assert(x =~= Seq::<char>::empty());
    }
}

/// Splitting text joined by the separator splits each side and joins the pieces.
pub proof fn lemma_split_pieces_join(x: Seq<char>, y: Seq<char>, sep: char)
    ensures
        split_pieces(x.push(sep) + y, sep) == split_pieces(x, sep) + split_pieces(y, sep),
    decreases y.len(),
{
    let xs = x.push(sep);
    lemma_split_pieces_nonempty(x, sep);
    if y.len() == 0 {
        assert(xs + y =~= xs);
        assert(xs.drop_last() =~= x);
        assert(split_pieces(x, sep).push(Seq::<char>::empty()) =~= split_pieces(x, sep) + seq![
            Seq::<char>::empty(),
        ]);
    } else {
        let y0 = y.drop_last();
        lemma_split_pieces_join(x, y0, sep);
        lemma_split_pieces_nonempty(y0, sep);
        assert((xs + y).drop_last() =~= xs + y0);
        assert((xs + y).last() == y.last());
        let a = split_pieces(x, sep);
        let b = split_pieces(y0, sep);
        if y.last() == sep {
            assert((a + b).push(Seq::<char>::empty()) =~= a + b.push(Seq::<char>::empty()));
        } else {
            let ab = a + b;
            assert(ab.last() == b.last());
            assert(ab.update(ab.len() - 1, ab.last().push(y.last())) =~= a + b.update(
                b.len() - 1,
                b.last().push(y.last()),
            ));
        }
    }
}

/// The characters of `s`, one by one.
pub fn chars_of(s: &str) -> (v: Vec<char>)
    ensures
        v@ == s@,
{
    let mut v: Vec<char> = Vec::new();
    for c in it: s.chars()
        invariant
            v@ == it.seq().take(it.index() as int),
    {
        v.push(c);
    }
    v
}

/// Where the pieces of `split_pieces(chars, sep)` lie: piece `k` is
/// `chars[bounds[k].0 .. bounds[k].1]`.
pub fn split_bounds(chars: &Vec<char>, sep: char) -> (bounds: Vec<(usize, usize)>)
    ensures
        bounds.len() == split_pieces(chars@, sep).len(),
        forall|k: int|
            #![trigger bounds[k]]
            0 <= k < bounds.len() ==> {
                &&& bounds[k].0 <= bounds[k].1 <= chars.len()
                &&& chars@.subrange(bounds[k].0 as int, bounds[k].1 as int) == split_pieces(
                    chars@,
                    sep,
                )[k]
            },
{
    let mut done: Vec<(usize, usize)> = Vec::new();
    let mut cur: usize = 0;
    let mut i: usize = 0;
    while i < chars.len()
        invariant
            cur <= i <= chars.len(),
            split_pieces(chars@.take(i as int), sep).len() == done.len() + 1,
            forall|k: int|
                #![trigger done[k]]
                0 <= k < done.len() ==> {
                    &&& done[k].0 <= done[k].1 <= chars.len()
                    &&& chars@.subrange(done[k].0 as int, done[k].1 as int) == split_pieces(
                        chars@.take(i as int),
                        sep,
                    )[k]
                },
            split_pieces(chars@.take(i as int), sep).last() == chars@.subrange(cur as int, i as int),
        decreases chars.len() - i,
    {
        let ghost prev = split_pieces(chars@.take(i as int), sep);
        let ghost next_prefix = chars@.take(i + 1);
        assert(next_prefix.drop_last() =~= chars@.take(i as int));
        assert(next_prefix.last() == chars@[i as int]);
        let ghost next = split_pieces(next_prefix, sep);
        let ghost old_done = done@;
        if chars[i] == sep {
            assert(next == prev.push(Seq::<char>::empty()));
            done.push((cur, i));
            assert forall|k: int| 0 <= k < done.len() implies {
                &&& done[k].0 <= done[k].1 <= chars.len()
                &&& chars@.subrange(done[k].0 as int, done[k].1 as int) == next[k]
            } by {
                assert(next[k] == prev[k]);
                if k < old_done.len() {
                    assert(done[k] == old_done[k]);
                    assert(old_done[k].0 <= old_done[k].1 <= chars.len());
                    assert(chars@.subrange(old_done[k].0 as int, old_done[k].1 as int) == prev[k]);
                } else {
                    assert(prev[k] == prev.last());
                }
            }
            cur = i + 1;
            i = i + 1;
            assert(chars@.subrange(cur as int, i as int) =~= Seq::<char>::empty());
        } else {
            assert(next == prev.update(prev.len() - 1, prev.last().push(chars@[i as int])));
            assert forall|k: int| 0 <= k < done.len() implies {
                &&& done[k].0 <= done[k].1 <= chars.len()
                &&& chars@.subrange(done[k].0 as int, done[k].1 as int) == next[k]
            } by {
                assert(next[k] == prev[k]);
            }
            assert(chars@.subrange(cur as int, i + 1) =~= chars@.subrange(cur as int, i as int).push(
                chars@[i as int],
            ));
            i = i + 1;
        }
    }
    assert(chars@.take(i as int) =~= chars@);
    let ghost all = split_pieces(chars@, sep);
    let ghost old_done = done@;
    done.push((cur, i));
    assert forall|k: int| 0 <= k < done.len() implies {
        &&& done[k].0 <= done[k].1 <= chars.len()
        &&& chars@.subrange(done[k].0 as int, done[k].1 as int) == all[k]
    } by {
        if k < old_done.len() {
            assert(done[k] == old_done[k]);
            assert(old_done[k].0 <= old_done[k].1 <= chars.len());
            assert(chars@.subrange(old_done[k].0 as int, old_done[k].1 as int) == all[k]);
        } else {
            assert(all[k] == all.last());
        }
    }
    done
}

/// The Unicode `White_Space` property, which `char::is_whitespace` and
/// `str::trim` go by.
pub open spec fn is_white_space(c: char) -> bool {
    let u = c as u32;
    ||| 0x09 <= u <= 0x0D
    ||| u == 0x20
    ||| u == 0x85
    ||| u == 0xA0
    ||| u == 0x1680
    ||| 0x2000 <= u <= 0x200A
    ||| u == 0x2028
    ||| u == 0x2029
    ||| u == 0x202F
    ||| u == 0x205F
    ||| u == 0x3000
}

/// `char::is_whitespace`.
pub fn white_space(c: char) -> (b: bool)
    ensures
        b == is_white_space(c),
{
    let u = c as u32;
    (0x09 <= u && u <= 0x0D) || u == 0x20 || u == 0x85 || u == 0xA0 || u == 0x1680 || (0x2000
        <= u && u <= 0x200A) || u == 0x2028 || u == 0x2029 || u == 0x202F || u == 0x205F || u
        == 0x3000
}

/// `s` without its leading white space.
pub open spec fn trim_start(s: Seq<char>) -> Seq<char>
    decreases s.len(),
{
    if s.len() > 0 && is_white_space(s[0]) {
        trim_start(s.drop_first())
    } else {
        s
    }
}

/// `s` without its trailing white space.
pub open spec fn trim_end(s: Seq<char>) -> Seq<char>
    decreases s.len(),
{
    if s.len() > 0 && is_white_space(s.last()) {
        trim_end(s.drop_last())
    } else {
        s
    }
}

/// What `str::trim` leaves of `s`: no white space at either end.
pub open spec fn trimmed(s: Seq<char>) -> Seq<char> {
    trim_end(trim_start(s))
}

/// `trim_start` keeps a suffix, which is empty or starts with a non-space.
pub proof fn lemma_trim_start_shape(s: Seq<char>)
    ensures
        exists|i: int| 0 <= i <= s.len() && trim_start(s) == s.subrange(i, s.len() as int),
        trim_start(s).len() > 0 ==> !is_white_space(trim_start(s)[0]),
    decreases s.len(),
{
    if s.len() > 0 && is_white_space(s[0]) {
        lemma_trim_start_shape(s.drop_first());
        let i = choose|i: int|
            0 <= i <= s.drop_first().len() && trim_start(s.drop_first()) == s.drop_first().subrange(
                i,
                s.drop_first().len() as int,
            );
        assert(s.drop_first().subrange(i, s.drop_first().len() as int) =~= s.subrange(
            i + 1,
            s.len() as int,
        ));
    } else {
        assert(s.subrange(0, s.len() as int) =~= s);
    }
}

/// `trim_end` keeps a prefix, which is empty or ends with a non-space.
pub proof fn lemma_trim_end_shape(s: Seq<char>)
    ensures
        exists|j: int| 0 <= j <= s.len() && trim_end(s) == s.subrange(0, j),
        trim_end(s).len() > 0 ==> !is_white_space(trim_end(s).last()),
    decreases s.len(),
{
    if s.len() > 0 && is_white_space(s.last()) {
        lemma_trim_end_shape(s.drop_last());
        let j = choose|j: int|
            0 <= j <= s.drop_last().len() && trim_end(s.drop_last()) == s.drop_last().subrange(0, j);
        assert(s.drop_last().subrange(0, j) =~= s.subrange(0, j));
    } else {
        assert(s.subrange(0, s.len() as int) =~= s);
    }
}

/// Trimming twice trims no more than trimming once.
pub proof fn lemma_trimmed_idempotent(s: Seq<char>)
    ensures
        trimmed(trimmed(s)) == trimmed(s),
{
    let u = trim_start(s);
    let v = trim_end(u);
    lemma_trim_start_shape(s);
    lemma_trim_end_shape(u);
    if v.len() > 0 {
        let j = choose|j: int| 0 <= j <= u.len() && v == u.subrange(0, j);
        assert(v[0] == u[0]);
        assert(trim_start(v) == v);
        assert(trim_end(v) == v);
    } else {
        assert(trim_start(v) == v);
        assert(trim_end(v) == v);
    }
}

/// `str::trim`: `s` without leading and trailing white space.
pub fn trim(s: &str) -> (r: String)
    ensures
        r@ == trimmed(s@),
{
    let chars = chars_of(s);
    let n = chars.len();
    let mut i: usize = 0;
    assert(s@.subrange(0, n as int) =~= s@);
    while i < n && white_space(chars[i])
        invariant
            n == chars.len(),
            i <= n,
            trim_start(s@) == trim_start(s@.subrange(i as int, n as int)),
            chars@ == s@,
        decreases n - i,
    {
        let ghost rest = s@.subrange(i as int, n as int);
        assert(rest.drop_first() =~= s@.subrange(i + 1, n as int));
        i = i + 1;
    }
    let ghost start = s@.subrange(i as int, n as int);
    assert(trim_start(start) == start);
    let mut j: usize = n;
    while j > i && white_space(chars[j - 1])
        invariant
            n == chars.len(),
            i <= j <= n,
            trim_end(start) == trim_end(s@.subrange(i as int, j as int)),
            chars@ == s@,
            start == s@.subrange(i as int, n as int),
        decreases j - i,
    {
        let ghost part = s@.subrange(i as int, j as int);
        assert(part.drop_last() =~= s@.subrange(i as int, j - 1));
        j = j - 1;
    }
    let ghost kept = s@.subrange(i as int, j as int);
    assert(trim_end(kept) == kept);
    String::from_str(s.substring_char(i, j))
}

/// What `str::replace` makes of `s` for a non-empty pattern: every occurrence
/// of `pat`, found from the left and not overlapping, replaced by `rep`.
pub open spec fn replace_all(s: Seq<char>, pat: Seq<char>, rep: Seq<char>) -> Seq<char>
    decreases s.len(),
{
    if pat.len() == 0 || s.len() < pat.len() {
        s
    } else if s.take(pat.len() as int) == pat {
        rep + replace_all(s.skip(pat.len() as int), pat, rep)
    } else {
        seq![s[0]] + replace_all(s.drop_first(), pat, rep)
    }
}

/// `pat` starts at position `i` of `s`.
pub open spec fn occurs_at(s: Seq<char>, pat: Seq<char>, i: int) -> bool {
    0 <= i && i + pat.len() <= s.len() && s.subrange(i, i + pat.len()) == pat
}

/// Text in which the pattern does not occur is left as it is.
pub proof fn lemma_replace_absent(s: Seq<char>, pat: Seq<char>, rep: Seq<char>)
    requires
        forall|i: int| !occurs_at(s, pat, i),
    ensures
        replace_all(s, pat, rep) == s,
    decreases s.len(),
{
    if pat.len() == 0 || s.len() < pat.len() {
    } else {
        assert(s.take(pat.len() as int) =~= s.subrange(0, pat.len() as int));
        assert(!occurs_at(s, pat, 0));
        let t = s.drop_first();
        assert forall|i: int| !occurs_at(t, pat, i) by {
            if occurs_at(t, pat, i) {
                assert(t.subrange(i, i + pat.len()) =~= s.subrange(i + 1, i + 1 + pat.len()));
                assert(occurs_at(s, pat, i + 1));
            }
        }
        lemma_replace_absent(t, pat, rep);
        assert(seq![s[0]] + t =~= s);
    }
}

/// Whether `pat` occurs in `chars` at position `i`.
pub fn occurs_at_exec(chars: &Vec<char>, pat: &Vec<char>, i: usize) -> (b: bool)
    requires
        i <= chars.len(),
    ensures
        b == occurs_at(chars@, pat@, i as int),
{
    if pat.len() > chars.len() - i {
        return false;
    }
    let mut j: usize = 0;
    while j < pat.len()
        invariant
            i + pat.len() <= chars.len(),
            j <= pat.len(),
            forall|m: int| 0 <= m < j ==> chars@[i + m] == pat@[m],
        decreases pat.len() - j,
    {
        if chars[i + j] != pat[j] {
            assert(chars@.subrange(i as int, i + pat.len())[j as int] != pat@[j as int]);
            return false;
        }
        j = j + 1;
    }
    assert(chars@.subrange(i as int, i + pat.len()) =~= pat@);
    true
}

/// The replacement of `s[i..]` starts with `s[i]` when `pat` does not occur at `i`.
proof fn lemma_replace_step_plain(s: Seq<char>, pat: Seq<char>, rep: Seq<char>, i: int)
    requires
        0 <= i < s.len(),
        pat.len() > 0,
        !occurs_at(s, pat, i),
    ensures
        replace_all(s.subrange(i, s.len() as int), pat, rep) == seq![s[i]] + replace_all(
            s.subrange(i + 1, s.len() as int),
            pat,
            rep,
        ),
{
    let t = s.subrange(i, s.len() as int);
    assert(t.drop_first() =~= s.subrange(i + 1, s.len() as int));
    if t.len() < pat.len() {
        let u = s.subrange(i + 1, s.len() as int);
        assert(replace_all(u, pat, rep) == u);
        assert(seq![s[i]] + u =~= t);
    } else {
        assert(t.take(pat.len() as int) =~= s.subrange(i, i + pat.len()));
    }
}

/// The replacement of `s[i..]` starts with `rep` when `pat` occurs at `i`.
proof fn lemma_replace_step_match(s: Seq<char>, pat: Seq<char>, rep: Seq<char>, i: int)
    requires
        pat.len() > 0,
        occurs_at(s, pat, i),
    ensures
        replace_all(s.subrange(i, s.len() as int), pat, rep) == rep + replace_all(
            s.subrange(i + pat.len(), s.len() as int),
            pat,
            rep,
        ),
{
    let t = s.subrange(i, s.len() as int);
    assert(t.take(pat.len() as int) =~= s.subrange(i, i + pat.len()));
    assert(t.skip(pat.len() as int) =~= s.subrange(i + pat.len(), s.len() as int));
}

/// `str::replace` for a non-empty pattern.
pub fn replace(s: &str, pat: &str, rep: &str) -> (r: String)
    requires
        pat@.len() > 0,
    ensures
        r@ == replace_all(s@, pat@, rep@),
{
    let chars = chars_of(s);
    let pv = chars_of(pat);
    let n = chars.len();
    let mut out = String::new();
    let mut seg: usize = 0;
    let mut i: usize = 0;
    assert(s@.subrange(0, n as int) =~= s@);
    while i < n
        invariant
            chars@ == s@,
            pv@ == pat@,
            pv.len() > 0,
            n == chars.len(),
            seg <= i <= n,
            replace_all(s@, pat@, rep@) == out@ + s@.subrange(seg as int, i as int) + replace_all(
                s@.subrange(i as int, n as int),
                pat@,
                rep@,
            ),
        decreases n - i,
    {
        if occurs_at_exec(&chars, &pv, i) {
            proof {
                lemma_replace_step_match(s@, pat@, rep@, i as int);
            }
            let ghost before = out@;
            out.append(s.substring_char(seg, i));
            out.append(rep);
            assert(out@ + s@.subrange(i + pv.len(), i + pv.len()) =~= before + s@.subrange(
                seg as int,
                i as int,
            ) + rep@);
            i = i + pv.len();
            seg = i;
        } else {
            proof {
                lemma_replace_step_plain(s@, pat@, rep@, i as int);
            }
            assert(s@.subrange(seg as int, i + 1) =~= s@.subrange(seg as int, i as int) + seq![
                s@[i as int],
            ]);
            i = i + 1;
        }
    }
    out.append(s.substring_char(seg, n));
    assert(s@.subrange(n as int, n as int) =~= Seq::<char>::empty());
    assert(replace_all(Seq::<char>::empty(), pat@, rep@) =~= Seq::<char>::empty());
    out
}

/// `pat` occurs somewhere in `text` (`str::contains`).
pub open spec fn occurs_in(text: Seq<char>, pat: Seq<char>) -> bool {
    exists|i: int| occurs_at(text, pat, i)
}

/// Whether `pat` occurs in `text`.
pub fn find(text: &Vec<char>, pat: &Vec<char>) -> (b: bool)
    ensures
        b == occurs_in(text@, pat@),
{
    let mut i: usize = 0;
    while i < text.len()
        invariant
            i <= text.len(),
            forall|k: int| 0 <= k < i ==> !occurs_at(text@, pat@, k),
        decreases text.len() - i,
    {
        if occurs_at_exec(text, pat, i) {
            return true;
        }
        i = i + 1;
    }
    if occurs_at_exec(text, pat, i) {
        return true;
    }
    assert forall|k: int| !occurs_at(text@, pat@, k) by {
        if 0 <= k && k + pat.len() <= text.len() {
            assert(k <= i);
        }
    }
    false
}

/// A line without the carriage return that ends it, if any.
pub open spec fn strip_cr(x: Seq<char>) -> Seq<char> {
    if x.len() > 0 && x.last() == '\r' {
        x.drop_last()
    } else {
        x
    }
}

/// Line `k` of text split into `p` on `\n`: every line but the last loses a
/// carriage return before its line feed; the last is kept as it is.
pub open spec fn line_at(p: Seq<Seq<char>>, k: int) -> Seq<char> {
    if k < p.len() - 1 {
        strip_cr(p[k])
    } else {
        p[k]
    }
}

/// How many lines `str::lines` yields: one per `\n`-separated piece, less an
/// empty last piece.
pub open spec fn line_count(text: Seq<char>) -> int {
    let p = split_pieces(text, '\n');
    if p.last().len() > 0 {
        p.len() as int
    } else {
        p.len() - 1
    }
}

/// The lines that `str::lines` yields.
pub open spec fn lines_of(text: Seq<char>) -> Seq<Seq<char>> {
    Seq::new(line_count(text) as nat, |k: int| line_at(split_pieces(text, '\n'), k))
}

/// What `str::to_lowercase` makes of a text (Unicode lower-case mapping).
pub uninterp spec fn lowercase(s: Seq<char>) -> Seq<char>;

/// Calls `str::to_lowercase`. Claims only that the result is the one
/// `lowercase` names for the text; the Unicode mapping itself is left unstated.
#[verifier::external_body]
pub(crate) fn lowercase_text(s: &str) -> (r: String)
    ensures
        r@ == lowercase(s@),
{
    s.to_lowercase()
}


/// Appending a digit to a digit string multiplies what it denotes by ten and
/// adds the digit's value, `c - '0'`.
pub proof fn lemma_digits_push(s: Seq<char>, c: char)
    requires
        '0' <= c <= '9',
    ensures
        digits_value(s.push(c)) == 10 * digits_value(s) + (c as int - 48),
{
    assert(s.push(c).drop_last() =~= s);
}

/// A nonempty string of ASCII digits reads as the number it denotes, with a
/// leading `+` changing nothing and a leading `-` negating it, exactly when
/// that number fits in `i64`.
pub proof fn lemma_decimal_signs(d: Seq<char>)
    requires
        d.len() > 0,
        forall|i: int| 0 <= i < d.len() ==> '0' <= #[trigger] d[i] <= '9',
    ensures
        decimal_i64(d) == (if digits_value(d) <= i64::MAX {
            Some(digits_value(d) as i64)
        } else {
            None
        }),
        decimal_i64(seq!['+'] + d) == decimal_i64(d),
        decimal_i64(seq!['-'] + d) == (if -digits_value(d) >= i64::MIN {
            Some((-digits_value(d)) as i64)
        } else {
            None
        }),
{
    assert((seq!['+'] + d).drop_first() =~= d);
    assert((seq!['-'] + d).drop_first() =~= d);
    assert((seq!['+'] + d)[0] == '+');
    assert((seq!['-'] + d)[0] == '-');
    assert(all_digits(d));
    lemma_digits_value_nonneg(d);
}

} // verus!
