//! Text utilities shared by the configuration and logging modules:
//! pattern replacement, prefix tests, joining and decimal rendering.

use vstd::prelude::*;
use vstd::string::*;
use vstd::utf8::encode_utf8;

verus! {

/// What `str::replace` yields: every non-overlapping occurrence of `pat`,
/// scanned from the left, is replaced by `rep`; an empty pattern matches
/// before every character and at the end.
pub open spec fn replace_spec(s: Seq<char>, pat: Seq<char>, rep: Seq<char>) -> Seq<char>
    decreases s.len(),
{
    if pat.len() == 0 {
        interleave_spec(s, rep)
    } else if s.len() < pat.len() {
        s
    } else if s.subrange(0, pat.len() as int) == pat {
        rep + replace_spec(s.subrange(pat.len() as int, s.len() as int), pat, rep)
    } else {
        seq![s[0]] + replace_spec(s.subrange(1, s.len() as int), pat, rep)
    }
}

/// `rep` placed before every character of `s` and once more at the end.
pub open spec fn interleave_spec(s: Seq<char>, rep: Seq<char>) -> Seq<char>
    decreases s.len(),
{
    if s.len() == 0 {
        rep
    } else {
        rep + seq![s[0]] + interleave_spec(s.subrange(1, s.len() as int), rep)
    }
}

/// `p` is a prefix of `s`.
pub open spec fn has_prefix(s: Seq<char>, p: Seq<char>) -> bool {
    p.len() <= s.len() && s.subrange(0, p.len() as int) == p
}

/// `p` is a suffix of `s`.
pub open spec fn has_suffix(s: Seq<char>, p: Seq<char>) -> bool {
    p.len() <= s.len() && s.subrange(s.len() - p.len(), s.len() as int) == p
}

/// `p` occurs somewhere in `s`.
pub open spec fn contains_spec(s: Seq<char>, p: Seq<char>) -> bool {
    exists|i: int| 0 <= i && i + p.len() <= s.len() && #[trigger] s.subrange(i, i + p.len()) == p
}

/// The parts joined with `sep` between consecutive parts.
pub open spec fn join_spec(parts: Seq<Seq<char>>, sep: Seq<char>) -> Seq<char>
    decreases parts.len(),
{
    if parts.len() == 0 {
        Seq::empty()
    } else if parts.len() == 1 {
        parts[0]
    } else {
        join_spec(parts.drop_last(), sep) + sep + parts.last()
    }
}

/// The decimal digit character for a value below ten.
pub open spec fn digit_char(d: nat) -> char {
    if d == 0 { '0' }
    else if d == 1 { '1' }
    else if d == 2 { '2' }
    else if d == 3 { '3' }
    else if d == 4 { '4' }
    else if d == 5 { '5' }
    else if d == 6 { '6' }
    else if d == 7 { '7' }
    else if d == 8 { '8' }
    else { '9' }
}

/// Decimal rendering of a natural number, without leading zeros.
pub open spec fn decimal_spec(n: nat) -> Seq<char>
    decreases n,
{
    if n < 10 {
        seq![digit_char(n)]
    } else {
        decimal_spec(n / 10).push(digit_char(n % 10))
    }
}

/// The lower-case hexadecimal digit character for a value below sixteen.
pub open spec fn hex_digit_char(d: nat) -> char {
    if d < 10 { digit_char(d) }
    else if d == 10 { 'a' }
    else if d == 11 { 'b' }
    else if d == 12 { 'c' }
    else if d == 13 { 'd' }
    else if d == 14 { 'e' }
    else { 'f' }
}

/// Lower-case hexadecimal rendering of a natural number, without leading
/// zeros, as `{:x}` writes it.
pub open spec fn hex_spec(n: nat) -> Seq<char>
    decreases n,
{
    if n < 16 {
        seq![hex_digit_char(n)]
    } else {
        hex_spec(n / 16).push(hex_digit_char(n % 16))
    }
}

/// Decimal rendering of an integer, with a leading `-` for negatives.
pub open spec fn signed_decimal_spec(n: int) -> Seq<char> {
    if n < 0 {
        seq!['-'] + decimal_spec((-n) as nat)
    } else {
        decimal_spec(n as nat)
    }
}

/// The views of a list of strings.
pub open spec fn string_views(s: Seq<String>) -> Seq<Seq<char>> {
    s.map_values(|x: String| x@)
}

/// The characters of a string slice, in order.
pub fn chars_of(s: &str) -> (v: Vec<char>)
    ensures
        v@ == s@,
{
    proof {
        broadcast use vstd::string::axiom_spec_iter;
    }
    let mut v: Vec<char> = Vec::new();
    for c in it: s.chars()
        invariant
            it.seq() == s@,
            v@ == s@.take(it.index() as int),
    {
        assert(s@.take(it.index() + 1) =~= s@.take(it.index() as int).push(c));
        v.push(c);
    }
    assert(v@ =~= s@);
    v
}

/// A string holding the given characters.
#[verifier::external_body]
pub fn string_from_chars(v: &[char]) -> (s: String)
    ensures
        s@ == v@,
{
    v.iter().collect()
}

/// The full Unicode lower-case mapping that `str::to_lowercase` applies.
pub uninterp spec fn lowercase_spec(s: Seq<char>) -> Seq<char>;

/// The full Unicode upper-case mapping that `str::to_uppercase` applies.
pub uninterp spec fn uppercase_spec(s: Seq<char>) -> Seq<char>;

/// Calls `str::to_lowercase`; its result depends on the characters alone and
/// is named `lowercase_spec`.
#[verifier::external_body]
pub fn to_lower(s: &str) -> (r: String)
    ensures
        r@ == lowercase_spec(s@),
{
    s.to_lowercase()
}

/// Calls `str::to_uppercase`; its result depends on the characters alone and
/// is named `uppercase_spec`.
#[verifier::external_body]
pub fn to_upper(s: &str) -> (r: String)
    ensures
        r@ == uppercase_spec(s@),
{
    s.to_uppercase()
}

/// Whether `p` occurs in `s` starting at position `i`.
pub fn matches_at(s: &Vec<char>, i: usize, p: &Vec<char>) -> (b: bool)
    requires
        i <= s.len(),
    ensures
        b == (i + p.len() <= s.len() && s@.subrange(i as int, i + p.len()) == p@),
{
    if p.len() > s.len() - i {
        return false;
    }
    let mut k: usize = 0;
    while k < p.len()
        invariant
            i + p.len() <= s.len(),
            k <= p.len(),
            forall|j: int| 0 <= j < k ==> s@[i + j] == p@[j],
        decreases p.len() - k,
    {
        if s[i + k] != p[k] {
            assert(s@.subrange(i as int, i + p.len())[k as int] != p@[k as int]);
            return false;
        }
        k = k + 1;
    }
    assert(s@.subrange(i as int, i + p.len()) =~= p@);
    true
}

proof fn lemma_replace_step(s: Seq<char>, i: int, pat: Seq<char>, rep: Seq<char>)
    requires
        pat.len() > 0,
        0 <= i <= s.len(),
    ensures
        i + pat.len() <= s.len() && s.subrange(i, i + pat.len()) == pat ==>
            replace_spec(s.subrange(i, s.len() as int), pat, rep)
                == rep + replace_spec(s.subrange(i + pat.len(), s.len() as int), pat, rep),
        i + pat.len() <= s.len() && s.subrange(i, i + pat.len()) != pat ==>
            replace_spec(s.subrange(i, s.len() as int), pat, rep)
                == seq![s[i]] + replace_spec(s.subrange(i + 1, s.len() as int), pat, rep),
        i + pat.len() > s.len() ==> replace_spec(s.subrange(i, s.len() as int), pat, rep)
            == s.subrange(i, s.len() as int),
{
    let t = s.subrange(i, s.len() as int);
    if i + pat.len() <= s.len() {
        assert(t.subrange(0, pat.len() as int) =~= s.subrange(i, i + pat.len()));
        assert(t.subrange(pat.len() as int, t.len() as int) =~= s.subrange(
            i + pat.len(),
            s.len() as int,
        ));
        assert(t.subrange(1, t.len() as int) =~= s.subrange(i + 1, s.len() as int));
    }
}

proof fn lemma_interleave_step(s: Seq<char>, i: int, rep: Seq<char>)
    requires
        0 <= i < s.len(),
    ensures
        interleave_spec(s.subrange(i, s.len() as int), rep)
            == rep + seq![s[i]] + interleave_spec(s.subrange(i + 1, s.len() as int), rep),
{
    let t = s.subrange(i, s.len() as int);
    assert(t.subrange(1, t.len() as int) =~= s.subrange(i + 1, s.len() as int));
}

/// `s` with every occurrence of `pat` replaced by `rep`, as `str::replace`
/// does it.
pub fn replace_all(s: &str, pat: &str, rep: &str) -> (r: String)
    ensures
        r@ == replace_spec(s@, pat@, rep@),
{
    let sv = chars_of(s);
    let pv = chars_of(pat);
    let rv = chars_of(rep);
    let n = sv.len();
    let mut out: Vec<char> = Vec::new();
    let mut i: usize = 0;
    if pv.len() == 0 {
        assert(sv@.subrange(0, n as int) =~= sv@);
        while i < n
            invariant
                n == sv.len(),
                i <= n,
                interleave_spec(sv@, rv@) == out@ + interleave_spec(
                    sv@.subrange(i as int, n as int),
                    rv@,
                ),
            decreases n - i,
        {
            proof {
                lemma_interleave_step(sv@, i as int, rv@);
            }
            let ghost before = out@;
            let mut k: usize = 0;
            while k < rv.len()
                invariant
                    k <= rv.len(),
                    out@ == before + rv@.subrange(0, k as int),
                decreases rv.len() - k,
            {
                out.push(rv[k]);
                k = k + 1;
                proof {
                    assert(rv@.subrange(0, k as int) =~= rv@.subrange(0, k - 1).push(rv@[k - 1]));
                }
            }
            assert(rv@.subrange(0, rv.len() as int) =~= rv@);
            out.push(sv[i]);
            i = i + 1;
            proof {
                assert(out@ =~= before + rv@ + seq![sv@[i - 1]]);
            }
        }
        assert(sv@.subrange(0, n as int) =~= sv@);
        assert(sv@.subrange(n as int, n as int) =~= Seq::<char>::empty());
        let ghost before = out@;
        let mut k: usize = 0;
        while k < rv.len()
            invariant
                k <= rv.len(),
                out@ == before + rv@.subrange(0, k as int),
            decreases rv.len() - k,
        {
            out.push(rv[k]);
            k = k + 1;
            proof {
                assert(rv@.subrange(0, k as int) =~= rv@.subrange(0, k - 1).push(rv@[k - 1]));
            }
        }
        assert(rv@.subrange(0, rv.len() as int) =~= rv@);
        return string_from_chars(out.as_slice());
    }
    assert(sv@.subrange(0, n as int) =~= sv@);
    while i < n
        invariant
            n == sv.len(),
            i <= n,
            pv.len() > 0,
            replace_spec(sv@, pv@, rv@) == out@ + replace_spec(
                sv@.subrange(i as int, n as int),
                pv@,
                rv@,
            ),
        decreases n - i,
    {
        proof {
            lemma_replace_step(sv@, i as int, pv@, rv@);
        }
        if matches_at(&sv, i, &pv) {
            let ghost before = out@;
            let mut k: usize = 0;
            while k < rv.len()
                invariant
                    k <= rv.len(),
                    out@ == before + rv@.subrange(0, k as int),
                decreases rv.len() - k,
            {
                out.push(rv[k]);
                k = k + 1;
                proof {
                    assert(rv@.subrange(0, k as int) =~= rv@.subrange(0, k - 1).push(rv@[k - 1]));
                }
            }
            assert(rv@.subrange(0, rv.len() as int) =~= rv@);
            i = i + pv.len();
        } else if pv.len() > n - i {
            let ghost before = out@;
            let ghost start = i;
            while i < n
                invariant
                    n == sv.len(),
                    start <= i <= n,
                    out@ == before + sv@.subrange(start as int, i as int),
                decreases n - i,
            {
                out.push(sv[i]);
                i = i + 1;
                proof {
                    assert(sv@.subrange(start as int, i as int) =~= sv@.subrange(
                        start as int,
                        i - 1,
                    ).push(sv@[i - 1]));
                }
            }
            proof {
                assert(sv@.subrange(n as int, n as int) =~= Seq::<char>::empty());
                assert(replace_spec(Seq::<char>::empty(), pv@, rv@) == Seq::<char>::empty());
            }
        } else {
            out.push(sv[i]);
            i = i + 1;
        }
    }
    string_from_chars(out.as_slice())
}


/// The digit character for `d`, which is below ten.
fn digit_of(d: u64) -> (c: char)
    requires
        d < 10,
    ensures
        c == digit_char(d as nat),
{
    if d == 0 { '0' }
    else if d == 1 { '1' }
    else if d == 2 { '2' }
    else if d == 3 { '3' }
    else if d == 4 { '4' }
    else if d == 5 { '5' }
    else if d == 6 { '6' }
    else if d == 7 { '7' }
    else if d == 8 { '8' }
    else { '9' }
}

/// Appends the decimal rendering of `n`.
fn push_decimal(out: &mut Vec<char>, n: u64)
    ensures
        final(out)@ == old(out)@ + decimal_spec(n as nat),
    decreases n,
{
    if n >= 10 {
        push_decimal(out, n / 10);
    }
    out.push(digit_of(n % 10));
    proof {
        if n < 10 {
            assert(decimal_spec(n as nat) == seq![digit_char(n as nat)]);
        } else {
            assert(decimal_spec(n as nat) == decimal_spec((n / 10) as nat).push(
                digit_char((n % 10) as nat),
            ));
        }
    }
}

/// The lower-case hexadecimal digit character for `d`, which is below
/// sixteen.
fn hex_digit_of(d: u64) -> (c: char)
    requires
        d < 16,
    ensures
        c == hex_digit_char(d as nat),
{
    if d < 10 { digit_of(d) }
    else if d == 10 { 'a' }
    else if d == 11 { 'b' }
    else if d == 12 { 'c' }
    else if d == 13 { 'd' }
    else if d == 14 { 'e' }
    else { 'f' }
}

/// Appends the hexadecimal rendering of `n`.
fn push_hex(out: &mut Vec<char>, n: u64)
    ensures
        final(out)@ == old(out)@ + hex_spec(n as nat),
    decreases n,
{
    if n >= 16 {
        push_hex(out, n / 16);
    }
    out.push(hex_digit_of(n % 16));
    proof {
        if n < 16 {
            assert(hex_spec(n as nat) == seq![hex_digit_char(n as nat)]);
        } else {
            assert(hex_spec(n as nat) == hex_spec((n / 16) as nat).push(hex_digit_char((n % 16) as nat)));
        }
    }
}

/// Lower-case hexadecimal rendering of an unsigned integer, as `{:x}`
/// writes it.
pub fn u64_to_hex(n: u64) -> (r: String)
    ensures
        r@ == hex_spec(n as nat),
{
    let mut out: Vec<char> = Vec::new();
    push_hex(&mut out, n);
    assert(out@ =~= hex_spec(n as nat));
    string_from_chars(out.as_slice())
}

/// Decimal rendering of an unsigned integer, as `to_string` gives it.
pub fn u64_to_decimal(n: u64) -> (r: String)
    ensures
        r@ == decimal_spec(n as nat),
{
    let mut out: Vec<char> = Vec::new();
    push_decimal(&mut out, n);
    assert(out@ =~= decimal_spec(n as nat));
    string_from_chars(out.as_slice())
}

/// Decimal rendering of a signed integer, as `to_string` gives it.
pub fn i64_to_decimal(n: i64) -> (r: String)
    ensures
        r@ == signed_decimal_spec(n as int),
{
    let mut out: Vec<char> = Vec::new();
    if n < 0 {
        out.push('-');
        let m: u64 = if n == i64::MIN { 9223372036854775808u64 } else { (-n) as u64 };
        push_decimal(&mut out, m);
        assert(out@ =~= seq!['-'] + decimal_spec((-(n as int)) as nat));
    } else {
        push_decimal(&mut out, n as u64);
        assert(out@ =~= decimal_spec(n as nat));
    }
    string_from_chars(out.as_slice())
}

/// Appends `s` to `out`.
pub fn push_str(out: &mut String, s: &str)
    ensures
        final(out)@ == old(out)@ + s@,
{
    out.append(s);
}

/// A fresh string holding the characters of `s`.
pub fn owned(s: &str) -> (r: String)
    ensures
        r@ == s@,
{
    String::from_str(s)
}

/// The concatenation of a list of string slices.
pub fn concat(parts: &[&str]) -> (r: String)
    ensures
        r@ == parts@.map_values(|p: &str| p@).fold_left(Seq::<char>::empty(), |acc: Seq<char>, x: Seq<char>| acc + x),
{
    let mut out = String::new();
    let mut i: usize = 0;
    let ghost views = parts@.map_values(|p: &str| p@);
    while i < parts.len()
        invariant
            i <= parts.len(),
            views == parts@.map_values(|p: &str| p@),
            out@ == views.subrange(0, i as int).fold_left(Seq::<char>::empty(), |acc: Seq<char>, x: Seq<char>| acc + x),
        decreases parts.len() - i,
    {
        proof {
            let f = |acc: Seq<char>, x: Seq<char>| acc + x;
            assert(views.subrange(0, i + 1).drop_last() =~= views.subrange(0, i as int));
        }
        out.append(parts[i]);
        i = i + 1;
    }
    assert(views.subrange(0, parts.len() as int) =~= views);
    out
}

/// Whether `s` starts with `p`.
pub fn starts_with(s: &str, p: &str) -> (b: bool)
    ensures
        b == has_prefix(s@, p@),
{
    let sv = chars_of(s);
    let pv = chars_of(p);
    matches_at(&sv, 0, &pv)
}

/// Whether `s` ends with `p`.
pub fn ends_with(s: &str, p: &str) -> (b: bool)
    ensures
        b == has_suffix(s@, p@),
{
    let sv = chars_of(s);
    let pv = chars_of(p);
    if pv.len() > sv.len() {
        return false;
    }
    matches_at(&sv, sv.len() - pv.len(), &pv)
}

/// The first position at which `p` occurs in `s`, if any.
pub fn find(s: &str, p: &str) -> (r: Option<usize>)
    ensures
        match r {
            Some(i) => i + p@.len() <= s@.len() && s@.subrange(i as int, i + p@.len()) == p@
                && forall|j: int| 0 <= j < i ==> #[trigger] s@.subrange(j, j + p@.len()) != p@,
            None => !contains_spec(s@, p@),
        },
{
    let sv = chars_of(s);
    let pv = chars_of(p);
    let mut i: usize = 0;
    while i < sv.len()
        invariant
            i <= sv.len(),
            sv@ == s@,
            pv@ == p@,
            forall|j: int| 0 <= j < i && j + p@.len() <= s@.len() ==> #[trigger] s@.subrange(j, j + p@.len()) != p@,
        decreases sv.len() - i,
    {
        if matches_at(&sv, i, &pv) {
            return Some(i);
        }
        i = i + 1;
    }
    if matches_at(&sv, i, &pv) {
        return Some(i);
    }
    proof {
        assert forall|j: int| 0 <= j && j + p@.len() <= s@.len() implies #[trigger] s@.subrange(j, j + p@.len()) != p@ by {}
    }
    None
}

/// Whether `p` occurs in `s`.
pub fn contains(s: &str, p: &str) -> (b: bool)
    ensures
        b == contains_spec(s@, p@),
{
    match find(s, p) {
        Some(_) => true,
        None => false,
    }
}

/// The parts joined with `sep` between them, as `[String]::join` gives it.
pub fn join(parts: &Vec<String>, sep: &str) -> (r: String)
    ensures
        r@ == join_spec(parts@.map_values(|p: String| p@), sep@),
{
    let ghost views = parts@.map_values(|p: String| p@);
    let mut out = String::new();
    let mut i: usize = 0;
    while i < parts.len()
        invariant
            i <= parts.len(),
            views == parts@.map_values(|p: String| p@),
            out@ == join_spec(views.subrange(0, i as int), sep@),
        decreases parts.len() - i,
    {
        proof {
            assert(views.subrange(0, i + 1).drop_last() =~= views.subrange(0, i as int));
        }
        if i > 0 {
            out.append(sep);
        } else {
            assert(join_spec(views.subrange(0, 0), sep@) =~= Seq::<char>::empty());
            assert(views.subrange(0, 1)[0] == views[0]);
        }
        out.append(parts[i].as_str());
        i = i + 1;
    }
    assert(views.subrange(0, parts.len() as int) =~= views);
    out
}

/// What `Debug` prints for a list of strings: `[`, each item as `Debug`
/// prints a string (quoted and escaped), with `, ` between them, and `]`.
pub open spec fn debug_string_list(items: Seq<Seq<char>>) -> Seq<char> {
    "["@ + join_spec(items.map_values(|x: Seq<char>| debug_quoted(x)), ", "@) + "]"@
}

/// The `Debug` text of a list of strings.
pub fn debug_list(items: &Vec<String>) -> (r: String)
    ensures
        r@ == debug_string_list(items@.map_values(|s: String| s@)),
{
    let ghost views = items@.map_values(|s: String| s@);
    let mut parts: Vec<String> = Vec::new();
    let mut i: usize = 0;
    while i < items.len()
        invariant
            i <= items@.len(),
            views == items@.map_values(|s: String| s@),
            parts@.map_values(|p: String| p@) == views.subrange(0, i as int).map_values(|x: Seq<char>| debug_quoted(x)),
        decreases items@.len() - i,
    {
        let ghost before = parts@;
        parts.push(debug_str(items[i].as_str()));
        assert(parts@.map_values(|p: String| p@) =~= before.map_values(|p: String| p@).push(debug_quoted(views[i as int])));
        assert(views.subrange(0, i + 1).map_values(|x: Seq<char>| debug_quoted(x))
            =~= views.subrange(0, i as int).map_values(|x: Seq<char>| debug_quoted(x)).push(debug_quoted(views[i as int])));
        i = i + 1;
    }
    assert(views.subrange(0, i as int) =~= views);
    let joined = join(&parts, ", ");
    let mut out = owned("[");
    push_str(&mut out, joined.as_str());
    push_str(&mut out, "]");
    out
}

/// The characters of `s` from position `k` on.
pub fn skip_chars(s: &str, k: usize) -> (r: String)
    requires
        k <= s@.len(),
    ensures
        r@ == s@.subrange(k as int, s@.len() as int),
{
    let v = chars_of(s);
    let mut out: Vec<char> = Vec::new();
    let mut i: usize = k;
    while i < v.len()
        invariant
            k <= i <= v.len(),
            v@ == s@,
            out@ == v@.subrange(k as int, i as int),
        decreases v.len() - i,
    {
        out.push(v[i]);
        i = i + 1;
        proof {
            assert(v@.subrange(k as int, i as int) =~= v@.subrange(k as int, i - 1).push(v@[i - 1]));
        }
    }
    string_from_chars(out.as_slice())
}

/// The characters of `s` from position `from` up to, not including, `to`.
pub fn chars_between(s: &str, from: usize, to: usize) -> (r: String)
    requires
        from <= to <= s@.len(),
    ensures
        r@ == s@.subrange(from as int, to as int),
{
    let v = chars_of(s);
    let mut out: Vec<char> = Vec::new();
    let mut i: usize = from;
    while i < to
        invariant
            from <= i <= to,
            to <= v@.len(),
            v@ == s@,
            out@ == v@.subrange(from as int, i as int),
        decreases to - i,
    {
        out.push(v[i]);
        i = i + 1;
        proof {
            assert(v@.subrange(from as int, i as int) =~= v@.subrange(from as int, i - 1).push(v@[i - 1]));
        }
    }
    string_from_chars(out.as_slice())
}

/// `s` without `open` in front and `close` at the end, where it has both
/// (and they do not overlap); `s` itself otherwise.
pub open spec fn strip_enclosing_spec(s: Seq<char>, open: Seq<char>, close: Seq<char>) -> Seq<char> {
    if has_prefix(s, open) && has_suffix(s, close) && open.len() + close.len() <= s.len() {
        s.subrange(open.len() as int, s.len() - close.len())
    } else {
        s
    }
}

/// `s` without `open` in front and `close` at the end, where it has both.
pub fn strip_enclosing(s: &str, open: &str, close: &str) -> (r: String)
    ensures
        r@ == strip_enclosing_spec(s@, open@, close@),
{
    let n = char_len(s);
    let a = char_len(open);
    let b = char_len(close);
    if starts_with(s, open) && ends_with(s, close) && a <= n && b <= n - a {
        chars_between(s, a, n - b)
    } else {
        owned(s)
    }
}

/// The number of bytes of the UTF-8 encoding of `s`, which is what
/// `str::len` counts.
pub open spec fn utf8_len(s: Seq<char>) -> nat {
    encode_utf8(s).len()
}

/// The length of the string in bytes.
pub fn byte_len(s: &str) -> (n: usize)
    ensures
        n == utf8_len(s@),
{
    s.as_bytes().len()
}

/// A copy of a list of strings.
pub fn copy_strings(v: &Vec<String>) -> (r: Vec<String>)
    ensures
        string_views(r@) == string_views(v@),
{
    let mut out: Vec<String> = Vec::new();
    let mut i: usize = 0;
    while i < v.len()
        invariant
            i <= v@.len(),
            string_views(out@) == string_views(v@.subrange(0, i as int)),
        decreases v@.len() - i,
    {
        let ghost before = out@;
        out.push(v[i].clone());
        assert(string_views(out@) =~= string_views(before).push(v@[i as int]@));
        assert(string_views(v@.subrange(0, i + 1)) =~= string_views(v@.subrange(0, i as int)).push(v@[i as int]@));
        i = i + 1;
    }
    assert(v@.subrange(0, i as int) =~= v@);
    out
}

/// The number of characters of `s`.
pub fn char_len(s: &str) -> (n: usize)
    ensures
        n == s@.len(),
{
    chars_of(s).len()
}

/// Whether two strings hold the same characters.
pub fn str_eq(a: &str, b: &str) -> (r: bool)
    ensures
        r == (a@ == b@),
{
    let av = chars_of(a);
    let bv = chars_of(b);
    if av.len() != bv.len() {
        return false;
    }
    let r = matches_at(&av, 0, &bv);
    proof {
        if r {
            assert(av@.subrange(0, bv@.len() as int) =~= av@);
        } else {
            assert(av@.subrange(0, bv@.len() as int) =~= av@);
        }
    }
    r
}

/// What `{:?}` prints for a string: the text in double quotes, with
/// quotes, backslashes and control characters escaped.
pub uninterp spec fn debug_quoted(s: Seq<char>) -> Seq<char>;

/// Calls the `Debug` formatting of a string slice; the result depends on
/// the characters alone and is named `debug_quoted`.
#[verifier::external_body]
pub fn debug_str(s: &str) -> (r: String)
    ensures
        r@ == debug_quoted(s@),
{
    format!("{:?}", s)
}

} // verus!
