//! The order of strings (character by character, a prefix first) and
//! sorting a list of strings without repeats.

use vstd::prelude::*;
use crate::text::{chars_of, string_views};

verus! {

/// `a` comes before `b`: at the first place they differ `a` has the
/// smaller character, or `a` is a proper prefix of `b`.
pub open spec fn lex_lt(a: Seq<char>, b: Seq<char>) -> bool
    decreases a.len(),
{
    if a.len() == 0 {
        b.len() > 0
    } else if b.len() == 0 {
        false
    } else if a[0] < b[0] {
        true
    } else if a[0] == b[0] {
        lex_lt(a.drop_first(), b.drop_first())
    } else {
        false
    }
}

/// No string comes before itself.
pub proof fn lemma_lex_irreflexive(a: Seq<char>)
    ensures
        !lex_lt(a, a),
    decreases a.len(),
{
    if a.len() > 0 {
        lemma_lex_irreflexive(a.drop_first());
    }
}

/// The order is transitive.
pub proof fn lemma_lex_transitive(a: Seq<char>, b: Seq<char>, c: Seq<char>)
    requires
        lex_lt(a, b),
        lex_lt(b, c),
    ensures
        lex_lt(a, c),
    decreases a.len(),
{
    if a.len() > 0 && b.len() > 0 && c.len() > 0 && a[0] == b[0] && b[0] == c[0] {
        lemma_lex_transitive(a.drop_first(), b.drop_first(), c.drop_first());
    }
}

/// Of two different strings, one comes before the other, and not both
/// ways.
pub proof fn lemma_lex_total(a: Seq<char>, b: Seq<char>)
    ensures
        a != b ==> (lex_lt(a, b) || lex_lt(b, a)),
        !(lex_lt(a, b) && lex_lt(b, a)),
    decreases a.len(),
{
    if a.len() > 0 && b.len() > 0 {
        lemma_lex_total(a.drop_first(), b.drop_first());
        if a[0] == b[0] && a.drop_first() == b.drop_first() {
            assert(a =~= seq![a[0]] + a.drop_first());
            assert(b =~= seq![b[0]] + b.drop_first());
        }
    } else if a.len() == 0 && b.len() == 0 {
        assert(a =~= b);
    }
}

/// Whether `a` comes before `b`.
pub fn str_lt(a: &str, b: &str) -> (r: bool)
    ensures
        r == lex_lt(a@, b@),
{
    let av = chars_of(a);
    let bv = chars_of(b);
    let mut i: usize = 0;
    assert(a@.skip(0) =~= a@);
    assert(b@.skip(0) =~= b@);
    while i < av.len() && i < bv.len()
        invariant
            i <= av@.len(),
            i <= bv@.len(),
            av@ == a@,
            bv@ == b@,
            lex_lt(a@, b@) == lex_lt(a@.skip(i as int), b@.skip(i as int)),
        decreases av@.len() - i,
    {
        let x = av[i];
        let y = bv[i];
        proof {
            assert(a@.skip(i as int)[0] == x);
            assert(b@.skip(i as int)[0] == y);
            assert(a@.skip(i as int).drop_first() =~= a@.skip(i + 1));
            assert(b@.skip(i as int).drop_first() =~= b@.skip(i + 1));
        }
        if x < y {
            return true;
        }
        if x != y {
            return false;
        }
        i = i + 1;
    }
    i < bv.len()
}

/// The strings are in strictly increasing order.
pub open spec fn strictly_sorted(s: Seq<Seq<char>>) -> bool {
    forall|i: int, j: int| 0 <= i < j < s.len() ==> lex_lt(#[trigger] s[i], #[trigger] s[j])
}

/// The strings of `v`, in increasing order, each once.
pub fn sort_dedup(v: Vec<String>) -> (r: Vec<String>)
    ensures
        strictly_sorted(string_views(r@)),
        forall|x: Seq<char>| string_views(r@).contains(x) <==> string_views(v@).contains(x),
{
    let mut out: Vec<String> = Vec::new();
    let mut i: usize = 0;
    while i < v.len()
        invariant
            i <= v@.len(),
            strictly_sorted(string_views(out@)),
            forall|x: Seq<char>| string_views(out@).contains(x) <==> string_views(v@.subrange(0, i as int)).contains(x),
        decreases v@.len() - i,
    {
        let s = &v[i];
        let mut j: usize = 0;
        let mut go = true;
        while go && j < out.len()
            invariant
                j <= out@.len(),
                forall|k: int| 0 <= k < j ==> lex_lt(#[trigger] out@[k]@, s@),
                !go ==> j < out@.len() && !lex_lt(out@[j as int]@, s@),
            decreases out@.len() - j, (if go { 1int } else { 0int }),
        {
            if str_lt(out[j].as_str(), s.as_str()) {
                j = j + 1;
            } else {
                go = false;
            }
        }
        let ghost before = string_views(out@);
        let ghost sv = s@;
        if !go && !str_lt(s.as_str(), out[j].as_str()) {
            proof {
                lemma_lex_total(out@[j as int]@, sv);
                assert(before[j as int] == sv);
            }
        } else {
            let copy = s.clone();
            out.insert(j, copy);
            proof {
                let after = string_views(out@);
                assert(after =~= before.subrange(0, j as int).push(sv) + before.subrange(j as int, before.len() as int));
                assert forall|p: int, q: int| 0 <= p < q < after.len() implies lex_lt(#[trigger] after[p], #[trigger] after[q]) by {
                    if q == j {
                        assert(after[p] == before[p]);
                    } else if p == j {
                        assert(after[q] == before[q - 1]);
                        if q - 1 > j {
                            assert(lex_lt(before[j as int], before[q - 1]));
                            lemma_lex_transitive(sv, before[j as int], before[q - 1]);
                        }
                    } else if p < j && q > j {
                        assert(after[p] == before[p]);
                        assert(after[q] == before[q - 1]);
                        assert(lex_lt(before[p], sv));
                        if q - 1 > j {
                            lemma_lex_transitive(sv, before[j as int], before[q - 1]);
                        }
                        lemma_lex_transitive(before[p], sv, before[q - 1]);
                    } else if q < j {
                        assert(after[p] == before[p]);
                        assert(after[q] == before[q]);
                    } else {
                        assert(after[p] == before[p - 1]);
                        assert(after[q] == before[q - 1]);
                    }
                }
                assert forall|x: Seq<char>| after.contains(x) <==> before.contains(x) || x == sv by {
                    if after.contains(x) {
                        let k = choose|k: int| 0 <= k < after.len() && after[k] == x;
                        if k < j { assert(before[k] == x); }
                        else if k > j { assert(before[k - 1] == x); }
                    }
                    if before.contains(x) {
                        let k = choose|k: int| 0 <= k < before.len() && before[k] == x;
                        if k < j { assert(after[k] == x); } else { assert(after[k + 1] == x); }
                    }
                    if x == sv { assert(after[j as int] == x); }
                }
            }
        }
        proof {
            let pre = string_views(v@.subrange(0, i as int));
            let nxt = string_views(v@.subrange(0, i + 1));
            assert(nxt =~= pre.push(sv));
            assert forall|x: Seq<char>| nxt.contains(x) <==> pre.contains(x) || x == sv by {
                if nxt.contains(x) {
                    let k = choose|k: int| 0 <= k < nxt.len() && nxt[k] == x;
                    if k < pre.len() { assert(pre[k] == x); }
                }
                if pre.contains(x) {
                    let k = choose|k: int| 0 <= k < pre.len() && pre[k] == x;
                    assert(nxt[k] == x);
                }
                if x == sv { assert(nxt[i as int] == x); }
            }
        }
        i = i + 1;
    }
    assert(v@.subrange(0, i as int) =~= v@);
    out
}

} // verus!
