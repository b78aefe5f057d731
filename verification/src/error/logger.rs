//! The computations behind the error log: statistics over the logged
//! errors since an instant, with a breakdown by operation, the operations
//! with the most errors, and which lines of the log are the most recent.

use vstd::prelude::*;
use crate::assoc::{as_map, get_value, has_key, insert_value, keys_unique, index_of_key, lemma_index_of_key};
use crate::error::types::ErrorSeverity;

verus! {

/// What the statistics read of one logged error: when (milliseconds since
/// the Unix epoch), how severe, and in which operation if one was named.
#[derive(Debug)]
pub struct LoggedError {
    pub timestamp: i64,
    pub severity: ErrorSeverity,
    pub operation: Option<String>,
}

/// Numbers of errors, in all, by severity and by operation (each operation
/// once).
#[derive(Debug)]
pub struct ErrorStats {
    pub total_errors: usize,
    pub critical: usize,
    pub high: usize,
    pub medium: usize,
    pub low: usize,
    pub operation_counts: Vec<(String, usize)>,
}

/// The errors of `s` logged after `since`.
pub open spec fn count_since(s: Seq<LoggedError>, since: i64) -> nat
    decreases s.len(),
{
    if s.len() == 0 {
        0
    } else {
        count_since(s.drop_last(), since) + if s.last().timestamp > since { 1nat } else { 0nat }
    }
}

/// The errors of `s` of severity `sev` logged after `since`.
pub open spec fn severity_since(s: Seq<LoggedError>, since: i64, sev: ErrorSeverity) -> nat
    decreases s.len(),
{
    if s.len() == 0 {
        0
    } else {
        severity_since(s.drop_last(), since, sev)
            + if s.last().timestamp > since && s.last().severity == sev { 1nat } else { 0nat }
    }
}

/// The number of errors of `s` logged after `since`, by named operation.
pub open spec fn operations_since(s: Seq<LoggedError>, since: i64) -> Map<Seq<char>, nat>
    decreases s.len(),
{
    if s.len() == 0 {
        Map::empty()
    } else {
        let prev = operations_since(s.drop_last(), since);
        match s.last().operation {
            Some(op) => if s.last().timestamp > since {
                prev.insert(op@, if prev.contains_key(op@) { prev[op@] + 1 } else { 1nat })
            } else {
                prev
            },
            None => prev,
        }
    }
}

/// The counts `c` are the map `m`.
pub open spec fn counts_are(c: Seq<(String, usize)>, m: Map<Seq<char>, nat>) -> bool {
    &&& as_map(c).dom() == m.dom()
    &&& forall|k: Seq<char>| #[trigger] m.contains_key(k) ==> as_map(c)[k] == m[k]
}

/// No operation's count exceeds `n`.
pub open spec fn counts_at_most(m: Map<Seq<char>, nat>, n: int) -> bool {
    forall|k: Seq<char>| #[trigger] m.contains_key(k) ==> m[k] <= n
}

/// The statistics of the errors logged after `since`.
pub fn stats_since(entries: &Vec<LoggedError>, since: i64) -> (r: ErrorStats)
    ensures
        r.total_errors == count_since(entries@, since),
        r.critical == severity_since(entries@, since, ErrorSeverity::Critical),
        r.high == severity_since(entries@, since, ErrorSeverity::High),
        r.medium == severity_since(entries@, since, ErrorSeverity::Medium),
        r.low == severity_since(entries@, since, ErrorSeverity::Low),
        keys_unique(r.operation_counts@),
        counts_are(r.operation_counts@, operations_since(entries@, since)),
{
    let mut stats = ErrorStats { total_errors: 0, critical: 0, high: 0, medium: 0, low: 0, operation_counts: Vec::new() };
    let mut i: usize = 0;
    proof {
        assert(entries@.subrange(0, 0) =~= Seq::<LoggedError>::empty());
        assert(as_map(stats.operation_counts@) =~= Map::<Seq<char>, usize>::empty());
    }
    while i < entries.len()
        invariant
            i <= entries@.len(),
            stats.total_errors == count_since(entries@.subrange(0, i as int), since),
            stats.critical == severity_since(entries@.subrange(0, i as int), since, ErrorSeverity::Critical),
            stats.high == severity_since(entries@.subrange(0, i as int), since, ErrorSeverity::High),
            stats.medium == severity_since(entries@.subrange(0, i as int), since, ErrorSeverity::Medium),
            stats.low == severity_since(entries@.subrange(0, i as int), since, ErrorSeverity::Low),
            stats.total_errors <= i,
            stats.critical + stats.high + stats.medium + stats.low == stats.total_errors,
            keys_unique(stats.operation_counts@),
            counts_are(stats.operation_counts@, operations_since(entries@.subrange(0, i as int), since)),
            counts_at_most(operations_since(entries@.subrange(0, i as int), since), i as int),
        decreases entries@.len() - i,
    {
        let ghost sub = entries@.subrange(0, i + 1);
        let ghost prev = operations_since(entries@.subrange(0, i as int), since);
        proof {
            assert(sub.drop_last() =~= entries@.subrange(0, i as int));
            assert(sub.last() == entries@[i as int]);
        }
        let e = &entries[i];
        if e.timestamp > since {
            stats.total_errors = stats.total_errors + 1;
            match e.severity {
                ErrorSeverity::Critical => stats.critical = stats.critical + 1,
                ErrorSeverity::High => stats.high = stats.high + 1,
                ErrorSeverity::Medium => stats.medium = stats.medium + 1,
                ErrorSeverity::Low => stats.low = stats.low + 1,
            }
            match &e.operation {
                Some(op) => {
                    let ghost before = as_map(stats.operation_counts@);
                    let current: usize = match get_value(&stats.operation_counts, op.as_str()) {
                        Some(n) => *n,
                        None => 0,
                    };
                    proof {
                        if prev.contains_key(op@) {
                            assert(prev[op@] <= i);
                        }
                    }
                    insert_value(&mut stats.operation_counts, op.clone(), current + 1);
                    proof {
                        let now = operations_since(sub, since);
                        assert(as_map(stats.operation_counts@).dom() =~= now.dom());
                        assert forall|k: Seq<char>| #[trigger] now.contains_key(k) implies as_map(stats.operation_counts@)[k] == now[k] by {
                            if k != op@ {
                                assert(before.contains_key(k));
                            }
                        }
                        assert forall|k: Seq<char>| #[trigger] now.contains_key(k) implies now[k] <= i + 1 by {
                            if k != op@ {
                                assert(prev.contains_key(k));
                            }
                        }
                    }
                },
                None => {},
            }
        }
        i = i + 1;
    }
    assert(entries@.subrange(0, i as int) =~= entries@);
    stats
}

/// The number of `false` entries.
pub open spec fn count_false(t: Seq<bool>) -> nat
    decreases t.len(),
{
    if t.len() == 0 {
        0
    } else {
        count_false(t.drop_last()) + if !t.last() { 1nat } else { 0nat }
    }
}

proof fn lemma_count_false_update(t: Seq<bool>, b: int)
    requires
        0 <= b < t.len(),
        !t[b],
    ensures
        count_false(t.update(b, true)) + 1 == count_false(t),
    decreases t.len(),
{
    let u = t.update(b, true);
    if b == t.len() - 1 {
        assert(u.drop_last() =~= t.drop_last());
    } else {
        lemma_count_false_update(t.drop_last(), b);
        assert(u.drop_last() =~= t.drop_last().update(b, true));
    }
}

proof fn lemma_count_false_all_true(t: Seq<bool>)
    requires
        forall|j: int| 0 <= j < t.len() ==> #[trigger] t[j],
    ensures
        count_false(t) == 0,
    decreases t.len(),
{
    if t.len() > 0 {
        lemma_count_false_all_true(t.drop_last());
    }
}

proof fn lemma_count_false_all_false(n: nat)
    ensures
        count_false(Seq::new(n, |j: int| false)) == n,
    decreases n,
{
    if n > 0 {
        lemma_count_false_all_false((n - 1) as nat);
        assert(Seq::new(n, |j: int| false).drop_last() =~= Seq::new((n - 1) as nat, |j: int| false));
    }
}

impl ErrorStats {
    /// The `limit` operations with the most errors, most first; among
    /// operations with equal counts any may come first.
    pub fn get_top_operations(&self, limit: usize) -> (r: Vec<(String, usize)>)
        requires
            keys_unique(self.operation_counts@),
        ensures
            r@.len() == if limit < self.operation_counts@.len() { limit as int } else { self.operation_counts@.len() as int },
            keys_unique(r@),
            forall|i: int| 0 <= i < r@.len() ==> as_map(self.operation_counts@).contains_key((#[trigger] r@[i]).0@)
                && as_map(self.operation_counts@)[r@[i].0@] == r@[i].1,
            forall|i: int, j: int| 0 <= i < j < r@.len() ==> (#[trigger] r@[i]).1 >= (#[trigger] r@[j]).1,
            forall|k: Seq<char>, i: int| #[trigger] as_map(self.operation_counts@).contains_key(k) && !has_key(r@, k)
                && 0 <= i < r@.len() ==> as_map(self.operation_counts@)[k] <= (#[trigger] r@[i]).1,
    {
        let ops = &self.operation_counts;
        let n = ops.len();
        let mut taken: Vec<bool> = Vec::new();
        let mut t: usize = 0;
        while t < n
            invariant
                t <= n,
                n == ops@.len(),
                taken@ =~= Seq::new(t as nat, |j: int| false),
            decreases n - t,
        {
            taken.push(false);
            t = t + 1;
        }
        proof {
            lemma_count_false_all_false(n as nat);
        }
        let mut out: Vec<(String, usize)> = Vec::new();
        let ghost mut idx: Seq<int> = Seq::empty();
        let mut k: usize = 0;
        while k < limit && k < n
            invariant
                n == ops@.len(),
                keys_unique(ops@),
                taken@.len() == n,
                k <= n,
                k <= limit,
                out@.len() == k,
                idx.len() == k,
                count_false(taken@) == n - k,
                forall|a: int| 0 <= a < k ==> 0 <= #[trigger] idx[a] < n && taken@[idx[a]]
                    && out@[a].0@ == ops@[idx[a]].0@ && out@[a].1 == ops@[idx[a]].1,
                forall|a: int, b: int| 0 <= a < k && 0 <= b < k && a != b ==> #[trigger] idx[a] != #[trigger] idx[b],
                forall|j: int| 0 <= j < n && #[trigger] taken@[j] ==> exists|a: int| 0 <= a < k && idx[a] == j,
                forall|a: int, b: int| 0 <= a < b < k ==> (#[trigger] out@[a]).1 >= (#[trigger] out@[b]).1,
                forall|j: int, a: int| 0 <= j < n && !(#[trigger] taken@[j]) && 0 <= a < k ==> ops@[j].1 <= (#[trigger] out@[a]).1,
            decreases n - k,
        {
            let mut best: usize = n;
            let mut j: usize = 0;
            while j < n
                invariant
                    n == ops@.len(),
                    taken@.len() == n,
                    j <= n,
                    best == n || (best < j && !taken@[best as int]),
                    best < n ==> forall|x: int| 0 <= x < j && !(#[trigger] taken@[x]) ==> ops@[x].1 <= ops@[best as int].1,
                    best == n ==> forall|x: int| 0 <= x < j ==> #[trigger] taken@[x],
                decreases n - j,
            {
                if !taken[j] {
                    if best == n || ops[j].1 > ops[best].1 {
                        best = j;
                    }
                }
                j = j + 1;
            }
            proof {
                if best == n {
                    lemma_count_false_all_true(taken@);
                    assert(false);
                }
            }
            proof {
                lemma_count_false_update(taken@, best as int);
            }
            let ghost old_taken = taken@;
            taken.set(best, true);
            let key = ops[best].0.clone();
            out.push((key, ops[best].1));
            proof {
                let old_idx = idx;
                idx = idx.push(best as int);
                assert forall|x: int| 0 <= x < n && #[trigger] taken@[x] implies exists|a: int| 0 <= a < k + 1 && idx[a] == x by {
                    if x == best as int {
                        assert(0 <= k < k + 1 && idx[k as int] == x);
                    } else {
                        assert(old_taken[x]);
                        let a = choose|a: int| 0 <= a < k && old_idx[a] == x;
                        assert(idx[a] == x);
                    }
                }
            }
            k = k + 1;
        }
        proof {
            assert forall|a: int, b: int| 0 <= a < out@.len() && 0 <= b < out@.len() && a != b implies out@[a].0@ != out@[b].0@ by {
                assert(idx[a] != idx[b]);
            }
            assert forall|i: int| 0 <= i < out@.len() implies as_map(ops@).contains_key((#[trigger] out@[i]).0@)
                && as_map(ops@)[out@[i].0@] == out@[i].1 by {
                lemma_index_of_key(ops@, idx[i]);
            }
            assert forall|kk: Seq<char>, i: int| #[trigger] as_map(ops@).contains_key(kk) && !has_key(out@, kk)
                && 0 <= i < out@.len() implies as_map(ops@)[kk] <= (#[trigger] out@[i]).1 by {
                let j = index_of_key(ops@, kk);
                assert(ops@[j].0@ == kk);
                lemma_index_of_key(ops@, j);
                if taken@[j] {
                    let a = choose|a: int| 0 <= a < out@.len() && idx[a] == j;
                    assert(out@[a].0@ == kk);
                }
            }
        }
        out
    }
}

/// The last `limit` lines, the latest first.
pub fn recent_lines(lines: &Vec<String>, limit: usize) -> (r: Vec<String>)
    ensures
        r@.len() == if limit < lines@.len() { limit as int } else { lines@.len() as int },
        forall|i: int| 0 <= i < r@.len() ==> (#[trigger] r@[i])@ == lines@[lines@.len() - 1 - i]@,
{
    let mut out: Vec<String> = Vec::new();
    let n = lines.len();
    let mut i: usize = 0;
    while i < limit && i < n
        invariant
            n == lines@.len(),
            i <= n,
            i <= limit,
            out@.len() == i,
            forall|a: int| 0 <= a < i ==> (#[trigger] out@[a])@ == lines@[n - 1 - a]@,
        decreases n - i,
    {
        out.push(lines[n - 1 - i].clone());
        i = i + 1;
    }
    out
}

/// The log needs a new file once it has grown past the limit.
pub fn needs_rotation(size: u64, max_file_size: u64) -> (r: bool)
    ensures
        r == (size > max_file_size),
{
    size > max_file_size
}

} // verus!
