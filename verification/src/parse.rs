//! Small text parsers: splitting at a character, trimming white space and
//! reading unsigned decimal numbers, as the standard library does them.

use vstd::prelude::*;
use crate::text::{chars_of, decimal_spec, digit_char, signed_decimal_spec, string_from_chars};

verus! {

/// The pieces of `s` between occurrences of `sep`, as `str::split` with a
/// character gives them: empty pieces included, one piece for an empty text.
pub open spec fn split_spec(s: Seq<char>, sep: char) -> Seq<Seq<char>>
    decreases s.len(),
{
    if s.len() == 0 {
        seq![Seq::empty()]
    } else {
        let p = split_spec(s.drop_last(), sep);
        if s.last() == sep {
            p.push(Seq::empty())
        } else {
            p.update(p.len() - 1, p.last().push(s.last()))
        }
    }
}

/// A split never yields zero pieces.
proof fn lemma_split_nonempty(s: Seq<char>, sep: char)
    ensures
        split_spec(s, sep).len() >= 1,
    decreases s.len(),
{
    if s.len() > 0 {
        lemma_split_nonempty(s.drop_last(), sep);
    }
}

/// The characters Unicode gives the `White_Space` property, which
/// `char::is_whitespace` tests.
pub open spec fn is_white_space(c: char) -> bool {
    ||| '\u{9}' <= c <= '\u{d}'
    ||| c == ' '
    ||| c == '\u{85}'
    ||| c == '\u{a0}'
    ||| c == '\u{1680}'
    ||| '\u{2000}' <= c <= '\u{200a}'
    ||| c == '\u{2028}'
    ||| c == '\u{2029}'
    ||| c == '\u{202f}'
    ||| c == '\u{205f}'
    ||| c == '\u{3000}'
}

/// `s` without its leading white space.
pub open spec fn trim_start_spec(s: Seq<char>) -> Seq<char>
    decreases s.len(),
{
    if s.len() > 0 && is_white_space(s[0]) {
        trim_start_spec(s.subrange(1, s.len() as int))
    } else {
        s
    }
}

/// `s` without its trailing white space.
pub open spec fn trim_end_spec(s: Seq<char>) -> Seq<char>
    decreases s.len(),
{
    if s.len() > 0 && is_white_space(s.last()) {
        trim_end_spec(s.drop_last())
    } else {
        s
    }
}

/// `s` without leading and trailing white space, as `str::trim` gives it.
pub open spec fn trim_spec(s: Seq<char>) -> Seq<char> {
    trim_end_spec(trim_start_spec(s))
}

/// Every character is an ASCII digit.
pub open spec fn all_digits(s: Seq<char>) -> bool {
    forall|i: int| 0 <= i < s.len() ==> '0' <= #[trigger] s[i] <= '9'
}

/// The number the ASCII digits of `s` write in decimal.
pub open spec fn digits_value(s: Seq<char>) -> nat
    decreases s.len(),
{
    if s.len() == 0 {
        0
    } else {
        digits_value(s.drop_last()) * 10 + (s.last() as nat - '0' as nat) as nat
    }
}

/// What `str::parse::<u32>` gives: an optional `+`, then at least one
/// decimal digit and nothing else, for a value that fits in 32 bits.
pub open spec fn parse_u32_spec(s: Seq<char>) -> Option<u32> {
    let d = if s.len() > 0 && s[0] == '+' { s.subrange(1, s.len() as int) } else { s };
    if d.len() > 0 && all_digits(d) && digits_value(d) <= u32::MAX {
        Some(digits_value(d) as u32)
    } else {
        None
    }
}

/// Appending digits never makes a number smaller.
proof fn lemma_digits_value_grows(s: Seq<char>, k: int)
    requires
        0 <= k <= s.len(),
        all_digits(s),
    ensures
        digits_value(s.subrange(0, k)) <= digits_value(s),
    decreases s.len() - k,
{
    if k < s.len() {
        lemma_digits_value_grows(s, k + 1);
        assert(s.subrange(0, k + 1).drop_last() =~= s.subrange(0, k));
    } else {
        assert(s.subrange(0, k) =~= s);
    }
}

/// Splits `s` at each occurrence of `sep`.
pub fn split_char(s: &str, sep: char) -> (r: Vec<String>)
    ensures
        r@.map_values(|p: String| p@) == split_spec(s@, sep),
{
    let v = chars_of(s);
    let mut pieces: Vec<Vec<char>> = Vec::new();
    let mut cur: Vec<char> = Vec::new();
    let mut i: usize = 0;
    while i < v.len()
        invariant
            i <= v@.len(),
            v@ == s@,
            pieces@.map_values(|p: Vec<char>| p@).push(cur@) == split_spec(v@.subrange(0, i as int), sep),
        decreases v@.len() - i,
    {
        let ghost before = pieces@.map_values(|p: Vec<char>| p@).push(cur@);
        proof {
            assert(v@.subrange(0, i + 1).drop_last() =~= v@.subrange(0, i as int));
            lemma_split_nonempty(v@.subrange(0, i as int), sep);
        }
        if v[i] == sep {
            let done = cur;
            pieces.push(done);
            cur = Vec::new();
            assert(pieces@.map_values(|p: Vec<char>| p@).push(cur@) =~= before.push(Seq::empty()));
        } else {
            cur.push(v[i]);
            assert(pieces@.map_values(|p: Vec<char>| p@).push(cur@) =~= before.update(
                before.len() - 1,
                before.last().push(v@[i as int]),
            ));
        }
        i = i + 1;
    }
    assert(v@.subrange(0, i as int) =~= v@);
    pieces.push(cur);
    let ghost views = pieces@.map_values(|p: Vec<char>| p@);
    let mut out: Vec<String> = Vec::new();
    let mut j: usize = 0;
    while j < pieces.len()
        invariant
            j <= pieces@.len(),
            views == pieces@.map_values(|p: Vec<char>| p@),
            out@.map_values(|p: String| p@) == views.subrange(0, j as int),
        decreases pieces@.len() - j,
    {
        let ghost before = out@;
        let piece = string_from_chars(pieces[j].as_slice());
        out.push(piece);
        assert(out@.map_values(|p: String| p@) =~= before.map_values(|p: String| p@).push(views[j as int]));
        assert(views.subrange(0, j + 1) =~= views.subrange(0, j as int).push(views[j as int]));
        j = j + 1;
    }
    assert(views.subrange(0, j as int) =~= views);
    out
}

/// Whether `c` has the Unicode `White_Space` property.
pub fn white_space(c: char) -> (r: bool)
    ensures
        r == is_white_space(c),
{
    ('\u{9}' <= c && c <= '\u{d}') || c == ' ' || c == '\u{85}' || c == '\u{a0}' || c == '\u{1680}'
        || ('\u{2000}' <= c && c <= '\u{200a}') || c == '\u{2028}' || c == '\u{2029}' || c == '\u{202f}'
        || c == '\u{205f}' || c == '\u{3000}'
}

/// `s` without leading and trailing white space.
pub fn trim(s: &str) -> (r: String)
    ensures
        r@ == trim_spec(s@),
{
    let v = chars_of(s);
    let mut start: usize = 0;
    assert(v@.subrange(0, v@.len() as int) =~= v@);
    while start < v.len() && white_space(v[start])
        invariant
            start <= v@.len(),
            v@ == s@,
            trim_start_spec(s@) == trim_start_spec(v@.subrange(start as int, v@.len() as int)),
        decreases v@.len() - start,
    {
        assert(v@.subrange(start as int, v@.len() as int).subrange(1, v@.len() - start)
            =~= v@.subrange(start + 1, v@.len() as int));
        start = start + 1;
    }
    let mut end: usize = v.len();
    let ghost front = v@.subrange(start as int, v@.len() as int);
    assert(trim_start_spec(front) == front) by {
        assert(v@.subrange(start as int, v@.len() as int) =~= front);
    }
    while end > start && white_space(v[end - 1])
        invariant
            start <= end <= v@.len(),
            v@ == s@,
            front == v@.subrange(start as int, v@.len() as int),
            trim_spec(s@) == trim_end_spec(v@.subrange(start as int, end as int)),
        decreases end - start,
    {
        assert(v@.subrange(start as int, end as int).drop_last() =~= v@.subrange(start as int, end - 1));
        end = end - 1;
    }
    let piece = slice_chars(&v, start, end);
    piece
}

/// The characters of `v` from `start` up to `end`.
fn slice_chars(v: &Vec<char>, start: usize, end: usize) -> (r: String)
    requires
        start <= end <= v@.len(),
    ensures
        r@ == v@.subrange(start as int, end as int),
{
    let mut out: Vec<char> = Vec::new();
    let mut i: usize = start;
    while i < end
        invariant
            start <= i <= end <= v@.len(),
            out@ == v@.subrange(start as int, i as int),
        decreases end - i,
    {
        out.push(v[i]);
        assert(out@ =~= v@.subrange(start as int, i + 1));
        i = i + 1;
    }
    string_from_chars(out.as_slice())
}

/// Reads an unsigned 32-bit decimal number as `str::parse::<u32>` does.
pub fn parse_u32(s: &str) -> (r: Option<u32>)
    ensures
        r == parse_u32_spec(s@),
{
    let v = chars_of(s);
    let start: usize = if v.len() > 0 && v[0] == '+' { 1 } else { 0 };
    let ghost d = if s@.len() > 0 && s@[0] == '+' { s@.subrange(1, s@.len() as int) } else { s@ };
    assert(d =~= v@.subrange(start as int, v@.len() as int));
    if start >= v.len() {
        return None;
    }
    let mut acc: u64 = 0;
    let mut i: usize = start;
    while i < v.len()
        invariant
            start <= i <= v@.len(),
            v@ == s@,
            d == v@.subrange(start as int, v@.len() as int),
            d == (if s@.len() > 0 && s@[0] == '+' { s@.subrange(1, s@.len() as int) } else { s@ }),
            d.len() > 0,
            all_digits(v@.subrange(start as int, i as int)),
            acc == digits_value(v@.subrange(start as int, i as int)),
            acc <= u32::MAX,
        decreases v@.len() - i,
    {
        let c = v[i];
        assert(v@.subrange(start as int, i + 1).drop_last() =~= v@.subrange(start as int, i as int));
        if !('0' <= c && c <= '9') {
            assert(d[i - start] == c);
            assert(!all_digits(d));
            return None;
        }
        let digit: u64 = (c as u32 - '0' as u32) as u64;
        acc = acc * 10 + digit;
        assert(acc == digits_value(v@.subrange(start as int, i + 1)));
        assert(all_digits(v@.subrange(start as int, i + 1)));
        i = i + 1;
        if acc > u32::MAX as u64 {
            proof {
                if all_digits(d) {
                    lemma_digits_value_grows(d, i - start);
                    assert(d.subrange(0, i - start) =~= v@.subrange(start as int, i as int));
                }
            }
            return None;
        }
    }
    assert(v@.subrange(start as int, i as int) =~= d);
    Some(acc as u32)
}

/// What `str::parse::<i64>` gives: an optional `+` or `-`, then at least
/// one decimal digit and nothing else, for a value that fits in 64 bits.
pub open spec fn parse_i64_spec(s: Seq<char>) -> Option<i64> {
    let neg = s.len() > 0 && s[0] == '-';
    let d = if s.len() > 0 && (s[0] == '+' || s[0] == '-') { s.subrange(1, s.len() as int) } else { s };
    if d.len() > 0 && all_digits(d) && (if neg { digits_value(d) <= 0x8000_0000_0000_0000 } else { digits_value(d) <= i64::MAX }) {
        Some((if neg { -(digits_value(d) as int) } else { digits_value(d) as int }) as i64)
    } else {
        None
    }
}

/// Reads a signed 64-bit decimal number as `str::parse::<i64>` does.
pub fn parse_i64(s: &str) -> (r: Option<i64>)
    ensures
        r == parse_i64_spec(s@),
{
    let v = chars_of(s);
    let neg = v.len() > 0 && v[0] == '-';
    let start: usize = if v.len() > 0 && (v[0] == '+' || v[0] == '-') { 1 } else { 0 };
    let ghost d = if s@.len() > 0 && (s@[0] == '+' || s@[0] == '-') { s@.subrange(1, s@.len() as int) } else { s@ };
    assert(d =~= v@.subrange(start as int, v@.len() as int));
    if start >= v.len() {
        return None;
    }
    let limit: u64 = if neg { 0x8000_0000_0000_0000 } else { 0x7fff_ffff_ffff_ffff };
    let mut acc: u64 = 0;
    let mut i: usize = start;
    while i < v.len()
        invariant
            start <= i <= v@.len(),
            v@ == s@,
            d == v@.subrange(start as int, v@.len() as int),
            d == (if s@.len() > 0 && (s@[0] == '+' || s@[0] == '-') { s@.subrange(1, s@.len() as int) } else { s@ }),
            d.len() > 0,
            all_digits(v@.subrange(start as int, i as int)),
            acc == digits_value(v@.subrange(start as int, i as int)),
            acc <= limit,
            limit == (if neg { 0x8000_0000_0000_0000u64 } else { 0x7fff_ffff_ffff_ffffu64 }),
            neg == (s@.len() > 0 && s@[0] == '-'),
        decreases v@.len() - i,
    {
        let c = v[i];
        assert(v@.subrange(start as int, i + 1).drop_last() =~= v@.subrange(start as int, i as int));
        if !('0' <= c && c <= '9') {
            assert(d[i - start] == c);
            assert(!all_digits(d));
            return None;
        }
        let digit: u64 = (c as u32 - '0' as u32) as u64;
        if acc > (limit - digit) / 10 {
            proof {
                assert(acc * 10 + digit > limit) by (nonlinear_arith)
                    requires acc > (limit - digit) / 10, digit <= 9, limit >= 9;
                assert(digits_value(v@.subrange(start as int, i + 1)) == acc * 10 + digit);
                if all_digits(d) {
                    lemma_digits_value_grows(d, i + 1 - start);
                    assert(d.subrange(0, i + 1 - start) =~= v@.subrange(start as int, i + 1));
                    assert(digits_value(d) > limit);
                    assert(neg == (s@.len() > 0 && s@[0] == '-'));
                }
                assert(parse_i64_spec(s@) is None);
            }
            return None;
        }
        proof {
            assert(acc * 10 + digit <= limit) by (nonlinear_arith)
                requires acc <= (limit - digit) / 10, digit <= 9, limit >= 9;
        }
        acc = acc * 10 + digit;
        assert(acc == digits_value(v@.subrange(start as int, i + 1)));
        assert(all_digits(v@.subrange(start as int, i + 1)));
        i = i + 1;
    }
    assert(v@.subrange(start as int, i as int) =~= d);
    if neg {
        if acc == 0x8000_0000_0000_0000 {
            Some(i64::MIN)
        } else {
            Some(-(acc as i64))
        }
    } else {
        Some(acc as i64)
    }
}

/// What `str::split` with a non-empty pattern yields: the pieces between
/// the non-overlapping occurrences of `p`, scanned from the left.
pub open spec fn split_str_spec(s: Seq<char>, p: Seq<char>) -> Seq<Seq<char>>
    recommends
        p.len() > 0,
    decreases s.len(),
{
    if p.len() == 0 || s.len() < p.len() {
        seq![s]
    } else if s.subrange(0, p.len() as int) == p {
        seq![Seq::<char>::empty()] + split_str_spec(s.skip(p.len() as int), p)
    } else {
        let r = split_str_spec(s.skip(1), p);
        seq![seq![s[0]] + r[0]] + r.skip(1)
    }
}

/// A split yields at least one piece.
pub proof fn lemma_split_str_nonempty(s: Seq<char>, p: Seq<char>)
    ensures
        split_str_spec(s, p).len() >= 1,
    decreases s.len(),
{
    if p.len() == 0 || s.len() < p.len() {
    } else if s.subrange(0, p.len() as int) == p {
        lemma_split_str_nonempty(s.skip(p.len() as int), p);
    } else {
        lemma_split_str_nonempty(s.skip(1), p);
    }
}

/// `x` put in front of the first piece.
pub open spec fn prepend_first(x: Seq<char>, r: Seq<Seq<char>>) -> Seq<Seq<char>> {
    seq![x + r[0]] + r.skip(1)
}

/// Splits `s` at each non-overlapping occurrence of `p`, from the left.
pub fn split_str(s: &str, p: &str) -> (r: Vec<String>)
    requires
        p@.len() > 0,
    ensures
        r@.map_values(|x: String| x@) == split_str_spec(s@, p@),
{
    let v = chars_of(s);
    let pv = chars_of(p);
    let mut pieces: Vec<String> = Vec::new();
    let mut cur: Vec<char> = Vec::new();
    let mut i: usize = 0;
    proof {
        lemma_split_str_nonempty(s@, p@);
        assert(s@.skip(0) =~= s@);
        let r = split_str_spec(s@, p@);
        assert(prepend_first(Seq::empty(), r) =~= r) by {
            assert(Seq::<char>::empty() + r[0] =~= r[0]);
        }
        assert(pieces@.map_values(|x: String| x@) =~= Seq::<Seq<char>>::empty());
    }
    while pv.len() <= v.len() - i
        invariant
            v@ == s@,
            pv@ == p@,
            p@.len() > 0,
            i <= v@.len(),
            split_str_spec(s@, p@) == pieces@.map_values(|x: String| x@) + prepend_first(cur@, split_str_spec(s@.skip(i as int), p@)),
        decreases v@.len() - i,
    {
        let ghost rest = s@.skip(i as int);
        proof {
            lemma_split_str_nonempty(rest, p@);
        }
        if crate::text::matches_at(&v, i, &pv) {
            proof {
                assert(rest.subrange(0, p@.len() as int) =~= s@.subrange(i as int, i + p@.len()));
                assert(rest.skip(p@.len() as int) =~= s@.skip(i + p@.len()));
                lemma_split_str_nonempty(s@.skip(i + p@.len()), p@);
                let r2 = split_str_spec(s@.skip(i + p@.len()), p@);
                assert(prepend_first(cur@, seq![Seq::<char>::empty()] + r2) =~= seq![cur@] + prepend_first(Seq::empty(), r2)) by {
                    assert(cur@ + Seq::<char>::empty() =~= cur@);
                    assert(Seq::<char>::empty() + r2[0] =~= r2[0]);
                    assert((seq![Seq::<char>::empty()] + r2).skip(1) =~= r2);
                }
            }
            let ghost before = pieces@;
            pieces.push(string_from_chars(cur.as_slice()));
            proof {
                assert(pieces@.map_values(|x: String| x@) =~= before.map_values(|x: String| x@).push(cur@));
            }
            cur = Vec::new();
            i = i + pv.len();
        } else {
            proof {
                assert(rest.subrange(0, p@.len() as int) =~= s@.subrange(i as int, i + p@.len()));
                assert(rest.skip(1) =~= s@.skip(i + 1));
                assert(rest[0] == v@[i as int]);
                lemma_split_str_nonempty(s@.skip(i + 1), p@);
                let r2 = split_str_spec(s@.skip(i + 1), p@);
                assert(prepend_first(cur@, prepend_first(seq![v@[i as int]], r2)) =~= prepend_first(cur@.push(v@[i as int]), r2)) by {
                    assert(prepend_first(seq![v@[i as int]], r2)[0] =~= seq![v@[i as int]] + r2[0]);
                    assert(cur@ + (seq![v@[i as int]] + r2[0]) =~= cur@.push(v@[i as int]) + r2[0]);
                    assert(prepend_first(seq![v@[i as int]], r2).skip(1) =~= r2.skip(1));
                }
            }
            cur.push(v[i]);
            i = i + 1;
        }
    }
    proof {
        let rest = s@.skip(i as int);
        assert(split_str_spec(rest, p@) == seq![rest]);
        assert(prepend_first(cur@, seq![rest]) =~= seq![cur@ + rest]);
    }
    let mut j: usize = i;
    while j < v.len()
        invariant
            i <= j <= v@.len(),
            v@ == s@,
            p@.len() > 0,
            split_str_spec(s@, p@) == pieces@.map_values(|x: String| x@) + seq![cur@ + s@.skip(j as int)],
        decreases v@.len() - j,
    {
        proof {
            assert(cur@.push(v@[j as int]) + s@.skip(j + 1) =~= cur@ + s@.skip(j as int));
        }
        cur.push(v[j]);
        j = j + 1;
    }
    let ghost before = pieces@;
    pieces.push(string_from_chars(cur.as_slice()));
    proof {
        assert(s@.skip(j as int) =~= Seq::<char>::empty());
        assert(cur@ + Seq::<char>::empty() =~= cur@);
        assert(pieces@.map_values(|x: String| x@) =~= before.map_values(|x: String| x@).push(cur@));
    }
    pieces
}

/// The decimal rendering of a number is a non-empty run of digits that
/// reads back as the number.
pub proof fn lemma_decimal_reads_back(n: nat)
    ensures
        decimal_spec(n).len() > 0,
        all_digits(decimal_spec(n)),
        digits_value(decimal_spec(n)) == n,
    decreases n,
{
    if n < 10 {
        let s = decimal_spec(n);
        assert(s == seq![digit_char(n)]);
        assert(s.drop_last() =~= Seq::<char>::empty());
        assert(digits_value(s.drop_last()) == 0);
    } else {
        lemma_decimal_reads_back(n / 10);
        let s = decimal_spec(n);
        assert(s == decimal_spec(n / 10).push(digit_char(n % 10)));
        assert(s.drop_last() =~= decimal_spec(n / 10));
        assert forall|i: int| 0 <= i < s.len() implies '0' <= #[trigger] s[i] <= '9' by {
            if i < s.len() - 1 {
                assert(s[i] == decimal_spec(n / 10)[i]);
            }
        }
    }
}

/// A signed 64-bit integer written in decimal reads back, as `str::parse`
/// reads it, as the same integer.
pub proof fn lemma_signed_decimal_reads_back(i: i64)
    ensures
        parse_i64_spec(signed_decimal_spec(i as int)) == Some(i),
{
    if i < 0 {
        let m = (-(i as int)) as nat;
        lemma_decimal_reads_back(m);
        let s = signed_decimal_spec(i as int);
        assert(s == seq!['-'] + decimal_spec(m));
        assert(s.subrange(1, s.len() as int) =~= decimal_spec(m));
    } else {
        lemma_decimal_reads_back(i as nat);
        let d = decimal_spec(i as nat);
        assert('0' <= d[0] <= '9');
    }
}

} // verus!
