//! Error contexts kept by error id, their retrieval by user or session,
//! their expiry, and counts by severity.

use vstd::prelude::*;
use crate::assoc::{as_map, get_value, insert_value, keys_unique};
use crate::error::types::{ErrorContext, ErrorSeverity, opt_str};
use crate::text::str_eq;

verus! {

/// Numbers of errors, in all and by severity.
#[derive(Debug, Clone, Copy)]
pub struct ErrorStats {
    pub total_errors: usize,
    pub critical: usize,
    pub high: usize,
    pub medium: usize,
    pub low: usize,
}

impl Default for ErrorStats {
    fn default() -> (r: Self)
        ensures
            r.total_errors == 0 && r.critical == 0 && r.high == 0 && r.medium == 0 && r.low == 0,
    {
        ErrorStats { total_errors: 0, critical: 0, high: 0, medium: 0, low: 0 }
    }
}

/// The number of contexts of the given severity.
pub open spec fn severity_count(s: Seq<(String, ErrorContext)>, sev: ErrorSeverity) -> nat
    decreases s.len(),
{
    if s.len() == 0 {
        0
    } else {
        severity_count(s.drop_last(), sev) + if s.last().1.severity == sev { 1nat } else { 0nat }
    }
}

/// The contexts whose optional field picked by `user` (else the session)
/// equals `id`, in stored order.
pub open spec fn matching(s: Seq<(String, ErrorContext)>, id: Seq<char>, user: bool) -> Seq<ErrorContext>
    decreases s.len(),
{
    if s.len() == 0 {
        Seq::empty()
    } else {
        let c = s.last().1;
        let field = if user { c.user_id } else { c.session_id };
        let prev = matching(s.drop_last(), id, user);
        if opt_str(field) == Some(id) { prev.push(c) } else { prev }
    }
}

/// The entries of `s` that are younger than `max_age` at `now`, in order.
pub open spec fn young(s: Seq<(String, ErrorContext)>, now: i64, max_age: i64) -> Seq<(String, ErrorContext)>
    decreases s.len(),
{
    if s.len() == 0 {
        Seq::empty()
    } else {
        let prev = young(s.drop_last(), now, max_age);
        if now - s.last().1.timestamp < max_age { prev.push(s.last()) } else { prev }
    }
}

/// The error contexts stored so far, by error id.
pub struct ErrorContextManager {
    contexts: Vec<(String, ErrorContext)>,
}

impl ErrorContextManager {
    /// The stored contexts, each id once, in the order they were first stored.
    pub closed spec fn spec_entries(&self) -> Seq<(String, ErrorContext)> {
        self.contexts@
    }

    /// Each error id is stored once.
    pub open spec fn wf(&self) -> bool {
        keys_unique(self.spec_entries())
    }

    /// A manager without contexts.
    pub fn new() -> (r: Self)
        ensures
            r.wf(),
            r.spec_entries().len() == 0,
    {
        ErrorContextManager { contexts: Vec::new() }
    }

    /// Stores a context under its error id, replacing one with the same id.
    pub fn store_context(&mut self, context: ErrorContext)
        requires
            old(self).wf(),
        ensures
            final(self).wf(),
            as_map(final(self).spec_entries()) == as_map(old(self).spec_entries()).insert(context.error_id@, context),
    {
        let id = context.error_id.clone();
        insert_value(&mut self.contexts, id, context);
    }

    /// A copy of the context stored under `error_id`.
    pub fn get_context(&self, error_id: &str) -> (r: Option<ErrorContext>)
        requires
            self.wf(),
        ensures
            match r {
                Some(c) => as_map(self.spec_entries()).contains_key(error_id@)
                    && as_map(self.spec_entries())[error_id@].same_as(c),
                None => !as_map(self.spec_entries()).contains_key(error_id@),
            },
    {
        match get_value(&self.contexts, error_id) {
            Some(c) => Some(c.duplicate()),
            None => None,
        }
    }

    /// Copies of the contexts of a user (`user`) or of a session, in stored
    /// order.
    fn matching_contexts(&self, id: &str, user: bool) -> (r: Vec<ErrorContext>)
        ensures
            r@.len() == matching(self.spec_entries(), id@, user).len(),
            forall|i: int| 0 <= i < r@.len() ==> matching(self.spec_entries(), id@, user)[i].same_as(#[trigger] r@[i]),
    {
        let mut out: Vec<ErrorContext> = Vec::new();
        let mut i: usize = 0;
        assert(self.contexts@.subrange(0, 0) =~= Seq::<(String, ErrorContext)>::empty());
        while i < self.contexts.len()
            invariant
                i <= self.contexts@.len(),
                out@.len() == matching(self.contexts@.subrange(0, i as int), id@, user).len(),
                forall|j: int| 0 <= j < out@.len() ==> matching(self.contexts@.subrange(0, i as int), id@, user)[j].same_as(#[trigger] out@[j]),
            decreases self.contexts@.len() - i,
        {
            let ghost sub = self.contexts@.subrange(0, i + 1);
            proof {
                assert(sub.drop_last() =~= self.contexts@.subrange(0, i as int));
                assert(sub.last() == self.contexts@[i as int]);
            }
            let c = &self.contexts[i].1;
            let field = if user { &c.user_id } else { &c.session_id };
            let hit = match field {
                Some(v) => str_eq(v.as_str(), id),
                None => false,
            };
            if hit {
                out.push(c.duplicate());
            }
            i = i + 1;
        }
        assert(self.contexts@.subrange(0, i as int) =~= self.contexts@);
        out
    }

    /// Copies of the contexts recorded for a user, in stored order.
    pub fn get_user_contexts(&self, user_id: &str) -> (r: Vec<ErrorContext>)
        ensures
            r@.len() == matching(self.spec_entries(), user_id@, true).len(),
            forall|i: int| 0 <= i < r@.len() ==> matching(self.spec_entries(), user_id@, true)[i].same_as(#[trigger] r@[i]),
    {
        self.matching_contexts(user_id, true)
    }

    /// Copies of the contexts recorded for a session, in stored order.
    pub fn get_session_contexts(&self, session_id: &str) -> (r: Vec<ErrorContext>)
        ensures
            r@.len() == matching(self.spec_entries(), session_id@, false).len(),
            forall|i: int| 0 <= i < r@.len() ==> matching(self.spec_entries(), session_id@, false)[i].same_as(#[trigger] r@[i]),
    {
        self.matching_contexts(session_id, false)
    }

    /// Drops the contexts that are `max_age` milliseconds old or older at
    /// `now`.
    pub fn cleanup_old_contexts(&mut self, max_age: i64, now: i64)
        requires
            old(self).wf(),
            forall|i: int| 0 <= i < old(self).spec_entries().len() ==>
                i64::MIN <= now - (#[trigger] old(self).spec_entries()[i]).1.timestamp <= i64::MAX,
        ensures
            final(self).wf(),
            final(self).spec_entries() == young(old(self).spec_entries(), now, max_age),
    {
        let ghost orig = self.contexts@;
        let mut rest: Vec<(String, ErrorContext)> = Vec::new();
        std::mem::swap(&mut rest, &mut self.contexts);
        let mut kept: Vec<(String, ErrorContext)> = Vec::new();
        let ghost mut idx: Seq<int> = Seq::empty();
        let mut i: usize = 0;
        assert(orig.subrange(0, 0) =~= Seq::<(String, ErrorContext)>::empty());
        assert(orig.len() == rest.len());
        while rest.len() > 0
            invariant
                i <= orig.len(),
                orig.len() <= usize::MAX,
                rest@ == orig.skip(i as int),
                kept@ == young(orig.subrange(0, i as int), now, max_age),
                keys_unique(orig),
                idx.len() == kept@.len(),
                forall|a: int, b: int| 0 <= a < b < idx.len() ==> idx[a] < idx[b],
                forall|a: int| 0 <= a < idx.len() ==> 0 <= #[trigger] idx[a] < i && kept@[a] == orig[idx[a]],
                forall|j: int| 0 <= j < orig.len() ==> i64::MIN <= now - (#[trigger] orig[j]).1.timestamp <= i64::MAX,
            decreases rest@.len(),
        {
            let e = rest.remove(0);
            proof {
                assert(e == orig[i as int]);
                let sub = orig.subrange(0, i + 1);
                assert(sub.drop_last() =~= orig.subrange(0, i as int));
                assert(sub.last() == e);
                assert(rest@ =~= orig.skip(i + 1));
            }
            if now - e.1.timestamp < max_age {
                kept.push(e);
                proof {
                    idx = idx.push(i as int);
                }
            }
            i = i + 1;
        }
        assert(orig.subrange(0, i as int) =~= orig);
        assert(keys_unique(kept@)) by {
            assert forall|a: int, b: int| 0 <= a < kept@.len() && 0 <= b < kept@.len() && a != b implies kept@[a].0@ != kept@[b].0@ by {
                if a < b {
                    assert(idx[a] < idx[b]);
                } else {
                    assert(idx[b] < idx[a]);
                }
            }
        }
        self.contexts = kept;
    }

    /// The number of stored contexts, in all and by severity.
    pub fn get_error_stats(&self) -> (r: ErrorStats)
        ensures
            r.total_errors == self.spec_entries().len(),
            r.critical == severity_count(self.spec_entries(), ErrorSeverity::Critical),
            r.high == severity_count(self.spec_entries(), ErrorSeverity::High),
            r.medium == severity_count(self.spec_entries(), ErrorSeverity::Medium),
            r.low == severity_count(self.spec_entries(), ErrorSeverity::Low),
    {
        let mut stats = ErrorStats { total_errors: 0, critical: 0, high: 0, medium: 0, low: 0 };
        let mut i: usize = 0;
        assert(self.contexts@.subrange(0, 0) =~= Seq::<(String, ErrorContext)>::empty());
        while i < self.contexts.len()
            invariant
                i <= self.contexts@.len(),
                stats.total_errors == i,
                stats.critical == severity_count(self.contexts@.subrange(0, i as int), ErrorSeverity::Critical),
                stats.high == severity_count(self.contexts@.subrange(0, i as int), ErrorSeverity::High),
                stats.medium == severity_count(self.contexts@.subrange(0, i as int), ErrorSeverity::Medium),
                stats.low == severity_count(self.contexts@.subrange(0, i as int), ErrorSeverity::Low),
                stats.critical + stats.high + stats.medium + stats.low == i,
            decreases self.contexts@.len() - i,
        {
            let ghost sub = self.contexts@.subrange(0, i + 1);
            proof {
                assert(sub.drop_last() =~= self.contexts@.subrange(0, i as int));
                assert(sub.last() == self.contexts@[i as int]);
            }
            stats.total_errors = stats.total_errors + 1;
            match self.contexts[i].1.severity {
                ErrorSeverity::Critical => stats.critical = stats.critical + 1,
                ErrorSeverity::High => stats.high = stats.high + 1,
                ErrorSeverity::Medium => stats.medium = stats.medium + 1,
                ErrorSeverity::Low => stats.low = stats.low + 1,
            }
            i = i + 1;
        }
        assert(self.contexts@.subrange(0, i as int) =~= self.contexts@);
        stats
    }
}

} // verus!
