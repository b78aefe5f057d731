//! Log context management: a provider that keeps named contexts with a
//! bounded scope depth, a builder for contexts, and an extractor that finds
//! fields and scopes in messages by plain-text patterns.

use vstd::prelude::*;
use crate::assoc::{as_map, get_value, has_key, insert_value, keys_unique};
use crate::error::types::AppError;
use crate::logging::traits::{ContextMetadata, LogContext, LogFieldValue, LogLevel, LogScope};
use crate::parse::{lemma_split_str_nonempty, split_str, split_str_spec};
use crate::text::{chars_of, contains, contains_spec, decimal_spec, owned, push_str, string_from_chars, u64_to_decimal};

verus! {

/// What `extract_with_pattern` finds of `pattern` in `message`: nothing
/// where the pattern does not occur; else the pieces of the split at the
/// pattern after the first, if there are any. An empty pattern occurs
/// everywhere and splits the message into its characters, with an empty
/// piece at each end.
pub open spec fn captures_spec(message: Seq<char>, pattern: Seq<char>) -> Option<Seq<Seq<char>>> {
    if pattern.len() == 0 {
        Some(message.map_values(|c: char| seq![c]) + seq![Seq::<char>::empty()])
    } else if contains_spec(message, pattern) && split_str_spec(message, pattern).len() > 1 {
        Some(split_str_spec(message, pattern).skip(1))
    } else {
        None
    }
}

/// The fields that the captures of one field pattern give: capture `i`
/// under `{name}_{i}`.
pub open spec fn capture_fields(name: Seq<char>, caps: Seq<Seq<char>>) -> Map<Seq<char>, Seq<char>>
    decreases caps.len(),
{
    if caps.len() == 0 {
        Map::empty()
    } else {
        capture_fields(name, caps.drop_last()).insert(
            name + "_"@ + decimal_spec((caps.len() - 1) as nat),
            caps.last(),
        )
    }
}

/// The fields found in `message` by the field patterns, taken in order, a
/// later pattern's field replacing an earlier one of the same name.
pub open spec fn extracted_fields(pats: Seq<(String, String)>, message: Seq<char>) -> Map<Seq<char>, Seq<char>>
    decreases pats.len(),
{
    if pats.len() == 0 {
        Map::empty()
    } else {
        let prev = extracted_fields(pats.drop_last(), message);
        match captures_spec(message, pats.last().1@) {
            Some(caps) => prev.union_prefer_right(capture_fields(pats.last().0@, caps)),
            None => prev,
        }
    }
}

/// The scope names found in `message` by the scope patterns: the first
/// capture of each pattern that captures anything, in order.
pub open spec fn extracted_scopes(pats: Seq<String>, message: Seq<char>) -> Seq<Seq<char>>
    decreases pats.len(),
{
    if pats.len() == 0 {
        Seq::empty()
    } else {
        let prev = extracted_scopes(pats.drop_last(), message);
        match captures_spec(message, pats.last()@) {
            Some(caps) => if caps.len() > 0 { prev.push(caps[0]) } else { prev },
            None => prev,
        }
    }
}

/// The fields `fs` are string fields holding exactly the entries of `m`.
pub open spec fn string_fields(fs: Seq<(String, LogFieldValue)>, m: Map<Seq<char>, Seq<char>>) -> bool {
    &&& as_map(fs).dom() == m.dom()
    &&& forall|k: Seq<char>| #[trigger] m.contains_key(k) ==> (as_map(fs)[k] matches LogFieldValue::String(s) && s@ == m[k])
}

/// Finds fields and scopes in log messages by plain-text patterns.
pub struct ContextExtractor {
    field_patterns: Vec<(String, String)>,
    scope_patterns: Vec<String>,
}

impl ContextExtractor {
    /// The field patterns, by field name (each name once).
    pub closed spec fn spec_field_patterns(&self) -> Seq<(String, String)> {
        self.field_patterns@
    }

    /// The scope patterns, in the order they were added.
    pub closed spec fn spec_scope_patterns(&self) -> Seq<String> {
        self.scope_patterns@
    }

    /// Each field name has one pattern.
    pub open spec fn wf(&self) -> bool {
        keys_unique(self.spec_field_patterns())
    }

    /// An extractor without patterns.
    pub fn new() -> (r: Self)
        ensures
            r.wf(),
            r.spec_field_patterns().len() == 0,
            r.spec_scope_patterns().len() == 0,
    {
        ContextExtractor { field_patterns: Vec::new(), scope_patterns: Vec::new() }
    }

    /// Sets the pattern of a field, replacing an earlier one for the same
    /// field name.
    pub fn add_field_pattern(self, field_name: String, pattern: String) -> (r: Self)
        requires
            self.wf(),
        ensures
            r.wf(),
            as_map(r.spec_field_patterns()) == as_map(self.spec_field_patterns()).insert(field_name@, pattern),
            r.spec_scope_patterns() == self.spec_scope_patterns(),
    {
        let mut s = self;
        insert_value(&mut s.field_patterns, field_name, pattern);
        s
    }

    /// Adds a scope pattern.
    pub fn add_scope_pattern(self, pattern: String) -> (r: Self)
        ensures
            r.spec_field_patterns() == self.spec_field_patterns(),
            r.spec_scope_patterns() == self.spec_scope_patterns().push(pattern),
    {
        let mut s = self;
        s.scope_patterns.push(pattern);
        s
    }

    /// The pieces of `message` after each occurrence of `pattern`.
    fn extract_with_pattern(&self, message: &str, pattern: &str) -> (r: Option<Vec<String>>)
        ensures
            match r {
                Some(v) => captures_spec(message@, pattern@) == Some(v@.map_values(|x: String| x@)),
                None => captures_spec(message@, pattern@) is None,
            },
    {
        if pattern.unicode_len() == 0 {
            let cs = chars_of(message);
            let mut out: Vec<String> = Vec::new();
            let mut i: usize = 0;
            while i < cs.len()
                invariant
                    i <= cs@.len(),
                    cs@ == message@,
                    out@.map_values(|x: String| x@) =~= message@.subrange(0, i as int).map_values(|c: char| seq![c]),
                decreases cs@.len() - i,
            {
                let mut one: Vec<char> = Vec::new();
                one.push(cs[i]);
                let piece = string_from_chars(one.as_slice());
                out.push(piece);
                proof {
                    assert(one@ =~= seq![cs@[i as int]]);
                    assert(message@.subrange(0, i + 1).map_values(|c: char| seq![c]) =~=
                        message@.subrange(0, i as int).map_values(|c: char| seq![c]).push(seq![message@[i as int]]));
                }
                i = i + 1;
            }
            out.push(String::new());
            proof {
                assert(message@.subrange(0, i as int) =~= message@);
                assert(out@.map_values(|x: String| x@) =~= message@.map_values(|c: char| seq![c]) + seq![Seq::<char>::empty()]);
            }
            Some(out)
        } else if contains(message, pattern) {
            let parts = split_str(message, pattern);
            if parts.len() > 1 {
                let mut out: Vec<String> = Vec::new();
                let mut i: usize = 1;
                while i < parts.len()
                    invariant
                        1 <= i <= parts@.len(),
                        out@.map_values(|x: String| x@) =~= parts@.map_values(|x: String| x@).subrange(1, i as int),
                    decreases parts@.len() - i,
                {
                    let piece = parts[i].clone();
                    out.push(piece);
                    proof {
                        assert(parts@.map_values(|x: String| x@).subrange(1, i + 1) =~=
                            parts@.map_values(|x: String| x@).subrange(1, i as int).push(parts@[i as int]@));
                    }
                    i = i + 1;
                }
                proof {
                    assert(parts@.map_values(|x: String| x@).subrange(1, i as int) =~= split_str_spec(message@, pattern@).skip(1));
                }
                Some(out)
            } else {
                None
            }
        } else {
            None
        }
    }

    /// The fields and scopes that the patterns find in `message`: for each
    /// field pattern the captures `{name}_{i}`, for each scope pattern that
    /// captures anything an `Info` scope named by its first capture.
    pub fn extract_from_message(&self, message: &str) -> (r: LogContext)
        requires
            self.wf(),
        ensures
            r.wf(),
            string_fields(r.fields@, extracted_fields(self.spec_field_patterns(), message@)),
            r.scopes@.len() == extracted_scopes(self.spec_scope_patterns(), message@).len(),
            forall|i: int| 0 <= i < r.scopes@.len() ==> (#[trigger] r.scopes@[i]).name@ == extracted_scopes(self.spec_scope_patterns(), message@)[i]
                && r.scopes@[i].level == LogLevel::Info,
    {
        let mut context = LogContext::new();
        let mut p: usize = 0;
        proof {
            assert(self.field_patterns@.subrange(0, 0) =~= Seq::<(String, String)>::empty());
            assert(as_map(context.fields@) =~= Map::<Seq<char>, LogFieldValue>::empty());
        }
        while p < self.field_patterns.len()
            invariant
                p <= self.field_patterns@.len(),
                context.wf(),
                context.scopes@.len() == 0,
                string_fields(context.fields@, extracted_fields(self.field_patterns@.subrange(0, p as int), message@)),
            decreases self.field_patterns@.len() - p,
        {
            let ghost sub = self.field_patterns@.subrange(0, p + 1);
            proof {
                assert(sub.drop_last() =~= self.field_patterns@.subrange(0, p as int));
                assert(sub.last() == self.field_patterns@[p as int]);
            }
            let caps_opt = self.extract_with_pattern(message, self.field_patterns[p].1.as_str());
            match caps_opt {
                Some(caps) => {
                    self.add_captures(&mut context, &self.field_patterns[p].0, &caps,
                        Ghost(extracted_fields(self.field_patterns@.subrange(0, p as int), message@)));
                },
                None => {},
            }
            p = p + 1;
        }
        assert(self.field_patterns@.subrange(0, p as int) =~= self.field_patterns@);
        let mut q: usize = 0;
        assert(self.scope_patterns@.subrange(0, 0) =~= Seq::<String>::empty());
        while q < self.scope_patterns.len()
            invariant
                q <= self.scope_patterns@.len(),
                context.wf(),
                string_fields(context.fields@, extracted_fields(self.field_patterns@, message@)),
                context.scopes@.len() == extracted_scopes(self.scope_patterns@.subrange(0, q as int), message@).len(),
                forall|i: int| 0 <= i < context.scopes@.len() ==> (#[trigger] context.scopes@[i]).name@
                    == extracted_scopes(self.scope_patterns@.subrange(0, q as int), message@)[i]
                    && context.scopes@[i].level == LogLevel::Info,
            decreases self.scope_patterns@.len() - q,
        {
            let ghost sub = self.scope_patterns@.subrange(0, q + 1);
            proof {
                assert(sub.drop_last() =~= self.scope_patterns@.subrange(0, q as int));
                assert(sub.last() == self.scope_patterns@[q as int]);
            }
            let caps_opt = self.extract_with_pattern(message, self.scope_patterns[q].as_str());
            match caps_opt {
                Some(caps) => {
                    if caps.len() > 0 {
                        let name = caps[0].clone();
                        proof {
                            assert(caps@.map_values(|x: String| x@)[0] == caps@[0]@);
                        }
                        context.push_scope(LogScope::new(name, LogLevel::Info));
                    }
                },
                None => {},
            }
            q = q + 1;
        }
        assert(self.scope_patterns@.subrange(0, q as int) =~= self.scope_patterns@);
        context
    }

    /// Sets the fields `{name}_{i}` to the captures.
    fn add_captures(&self, context: &mut LogContext, name: &String, caps: &Vec<String>, Ghost(prev): Ghost<Map<Seq<char>, Seq<char>>>)
        requires
            old(context).wf(),
            string_fields(old(context).fields@, prev),
        ensures
            final(context).wf(),
            final(context).scopes == old(context).scopes,
            string_fields(final(context).fields@, prev.union_prefer_right(capture_fields(name@, caps@.map_values(|x: String| x@)))),
    {
        let ghost views = caps@.map_values(|x: String| x@);
        let mut j: usize = 0;
        proof {
            assert(views.subrange(0, 0) =~= Seq::<Seq<char>>::empty());
            assert(prev.union_prefer_right(capture_fields(name@, views.subrange(0, 0))) =~= prev);
        }
        while j < caps.len()
            invariant
                j <= caps@.len(),
                views == caps@.map_values(|x: String| x@),
                context.wf(),
                context.scopes == old(context).scopes,
                string_fields(context.fields@, prev.union_prefer_right(capture_fields(name@, views.subrange(0, j as int)))),
            decreases caps@.len() - j,
        {
            let ghost before = as_map(context.fields@);
            let ghost target0 = prev.union_prefer_right(capture_fields(name@, views.subrange(0, j as int)));
            let mut key = name.clone();
            push_str(&mut key, "_");
            let idx = u64_to_decimal(j as u64);
            push_str(&mut key, idx.as_str());
            let value = caps[j].clone();
            let ghost kv = key@;
            let ghost vv = value@;
            context.add_field(key, LogFieldValue::String(value));
            proof {
                let s2 = views.subrange(0, j + 1);
                assert(s2.drop_last() =~= views.subrange(0, j as int));
                assert(s2.last() == views[j as int]);
                assert(kv == name@ + "_"@ + decimal_spec((s2.len() - 1) as nat));
                let target = prev.union_prefer_right(capture_fields(name@, s2));
                assert(target =~= target0.insert(kv, vv));
                assert(as_map(context.fields@).dom() =~= target.dom());
                assert forall|k: Seq<char>| #[trigger] target.contains_key(k) implies
                    (as_map(context.fields@)[k] matches LogFieldValue::String(s) && s@ == target[k]) by {
                    if k != kv {
                        assert(target0.contains_key(k));
                    }
                }
            }
            j = j + 1;
        }
        assert(views.subrange(0, j as int) =~= views);
    }
}

impl Default for ContextExtractor {
    fn default() -> (r: Self)
        ensures
            r.wf(),
            r.spec_field_patterns().len() == 0,
            r.spec_scope_patterns().len() == 0,
    {
        ContextExtractor::new()
    }
}

/// The map after inserting each pair in order, a later pair replacing an
/// earlier one of the same key.
pub open spec fn inserted_all(m: Map<Seq<char>, LogFieldValue>, s: Seq<(String, LogFieldValue)>) -> Map<Seq<char>, LogFieldValue>
    decreases s.len(),
{
    if s.len() == 0 {
        m
    } else {
        inserted_all(m, s.drop_last()).insert(s.last().0@, s.last().1)
    }
}

/// Builds a log context from fields and scopes.
pub struct ContextBuilder {
    fields: Vec<(String, LogFieldValue)>,
    scopes: Vec<LogScope>,
}

impl ContextBuilder {
    /// The fields set so far (each key once).
    pub closed spec fn spec_fields(&self) -> Seq<(String, LogFieldValue)> {
        self.fields@
    }

    /// The scopes added so far, outermost first.
    pub closed spec fn spec_scopes(&self) -> Seq<LogScope> {
        self.scopes@
    }

    /// Each field key is set once.
    pub open spec fn wf(&self) -> bool {
        keys_unique(self.spec_fields())
    }

    /// A builder without fields or scopes.
    pub fn new() -> (r: Self)
        ensures
            r.wf(),
            r.spec_fields().len() == 0,
            r.spec_scopes().len() == 0,
    {
        ContextBuilder { fields: Vec::new(), scopes: Vec::new() }
    }

    /// Sets a field, replacing the value of an existing key.
    pub fn add_field(self, key: String, value: LogFieldValue) -> (r: Self)
        requires
            self.wf(),
        ensures
            r.wf(),
            as_map(r.spec_fields()) == as_map(self.spec_fields()).insert(key@, value),
            r.spec_scopes() == self.spec_scopes(),
    {
        let mut s = self;
        insert_value(&mut s.fields, key, value);
        s
    }

    /// Sets each of the fields in order, a later one replacing an earlier
    /// value of the same key.
    pub fn add_fields(self, fields: Vec<(String, LogFieldValue)>) -> (r: Self)
        requires
            self.wf(),
        ensures
            r.wf(),
            as_map(r.spec_fields()) == inserted_all(as_map(self.spec_fields()), fields@),
            r.spec_scopes() == self.spec_scopes(),
    {
        let ghost orig = fields@;
        let ghost base = as_map(self.fields@);
        let mut s = self;
        let mut rest = fields;
        let mut i: usize = 0;
        assert(orig.subrange(0, 0) =~= Seq::<(String, LogFieldValue)>::empty());
        assert(orig.len() == rest.len());
        while rest.len() > 0
            invariant
                i <= orig.len(),
                orig.len() <= usize::MAX,
                rest@ == orig.skip(i as int),
                keys_unique(s.fields@),
                as_map(s.fields@) == inserted_all(base, orig.subrange(0, i as int)),
                s.scopes == self.scopes,
            decreases rest@.len(),
        {
            let e = rest.remove(0);
            proof {
                assert(e == orig[i as int]);
                let sub = orig.subrange(0, i + 1);
                assert(sub.drop_last() =~= orig.subrange(0, i as int));
                assert(sub.last() == e);
                assert(rest@ =~= orig.skip(i + 1));
            }
            insert_value(&mut s.fields, e.0, e.1);
            i = i + 1;
        }
        assert(orig.subrange(0, i as int) =~= orig);
        s
    }

    /// Adds a scope inside the ones added before.
    pub fn add_scope(self, scope: LogScope) -> (r: Self)
        ensures
            r.spec_fields() == self.spec_fields(),
            r.spec_scopes() == self.spec_scopes().push(scope),
    {
        let mut s = self;
        s.scopes.push(scope);
        s
    }

    /// Adds a new scope with the given name and level.
    pub fn add_scope_with_level(self, name: String, level: LogLevel) -> (r: Self)
        ensures
            r.spec_fields() == self.spec_fields(),
            r.spec_scopes().len() == self.spec_scopes().len() + 1,
            r.spec_scopes().drop_last() == self.spec_scopes(),
            r.spec_scopes().last().name == name,
            r.spec_scopes().last().level == level,
            r.spec_scopes().last().fields@.len() == 0,
    {
        let mut s = self;
        s.scopes.push(LogScope::new(name, level));
        proof {
            assert(s.scopes@.drop_last() =~= self.scopes@);
        }
        s
    }

    /// The context holding the fields and the scopes, stamped with the
    /// current time.
    pub fn build(self) -> (r: LogContext)
        requires
            self.wf(),
        ensures
            r.wf(),
            r.fields@ == self.spec_fields(),
            r.scopes@ == self.spec_scopes(),
    {
        let mut context = LogContext::with_fields(self.fields);
        context.scopes = self.scopes;
        context
    }
}

impl Default for ContextBuilder {
    fn default() -> (r: Self)
        ensures
            r.wf(),
            r.spec_fields().len() == 0,
            r.spec_scopes().len() == 0,
    {
        ContextBuilder::new()
    }
}

/// No key other than `k` is in `m`.
pub open spec fn only_key(m: Map<Seq<char>, LogContext>, k: Seq<char>) -> bool {
    forall|j: Seq<char>| #[trigger] m.contains_key(j) ==> j == k
}

/// Keeps named log contexts, one of them current, each with at most
/// `max_depth` scopes pushed through the provider.
pub struct HierarchicalContextProvider {
    contexts: Vec<(String, LogContext)>,
    current_context: String,
    max_depth: usize,
    metadata: ContextMetadata,
}

impl HierarchicalContextProvider {
    /// The contexts by name.
    pub closed spec fn spec_contexts(&self) -> Map<Seq<char>, LogContext> {
        as_map(self.contexts@)
    }

    /// The name of the current context.
    pub closed spec fn spec_current(&self) -> Seq<char> {
        self.current_context@
    }

    /// The scope depth up to which scopes are pushed.
    pub closed spec fn spec_max_depth(&self) -> usize {
        self.max_depth
    }

    /// The provider's description.
    pub closed spec fn spec_metadata(&self) -> ContextMetadata {
        self.metadata
    }

    /// Each name is held once, and each context's fields have distinct keys.
    pub closed spec fn wf(&self) -> bool {
        &&& keys_unique(self.contexts@)
        &&& forall|i: int| 0 <= i < self.contexts@.len() ==> (#[trigger] self.contexts@[i]).1.wf()
    }

    /// A provider without contexts whose current name is `default`.
    pub fn new(max_depth: usize) -> (r: Self)
        ensures
            r.wf(),
            r.spec_contexts() == Map::<Seq<char>, LogContext>::empty(),
            r.spec_current() == "default"@,
            r.spec_max_depth() == max_depth,
            r.spec_metadata().name@ == "hierarchical"@,
            r.spec_metadata().version@ == "1.0.0"@,
            r.spec_metadata().description@ == "Hierarchical log context provider with nested scopes"@,
            r.spec_metadata().supports_nesting,
            r.spec_metadata().max_depth == max_depth,
    {
        let metadata = ContextMetadata {
            name: owned("hierarchical"),
            version: owned("1.0.0"),
            description: owned("Hierarchical log context provider with nested scopes"),
            supports_nesting: true,
            max_depth,
        };
        let r = HierarchicalContextProvider {
            contexts: Vec::new(),
            current_context: owned("default"),
            max_depth,
            metadata,
        };
        assert(as_map(r.contexts@) =~= Map::<Seq<char>, LogContext>::empty());
        r
    }

    /// Creates (or resets) the context `name` empty; it becomes current when
    /// it is the only context.
    pub fn create_context(&mut self, name: String) -> (r: Result<(), AppError>)
        requires
            old(self).wf(),
        ensures
            r is Ok,
            final(self).wf(),
            final(self).spec_contexts().dom() == old(self).spec_contexts().dom().insert(name@),
            forall|k: Seq<char>| k != name@ && #[trigger] old(self).spec_contexts().contains_key(k)
                ==> final(self).spec_contexts()[k] == old(self).spec_contexts()[k],
            final(self).spec_contexts()[name@].fields@.len() == 0,
            final(self).spec_contexts()[name@].scopes@.len() == 0,
            final(self).spec_current() == if only_key(old(self).spec_contexts(), name@) {
                name@
            } else {
                old(self).spec_current()
            },
            final(self).spec_max_depth() == old(self).spec_max_depth(),
            final(self).spec_metadata() == old(self).spec_metadata(),
    {
        let ghost before = self.contexts@;
        let fresh = LogContext::new();
        let ghost fresh_v = fresh;
        insert_value(&mut self.contexts, name.clone(), fresh);
        proof {
            assert forall|i: int| 0 <= i < self.contexts@.len() implies (#[trigger] self.contexts@[i]).1.wf() by {
                let k = self.contexts@[i].0@;
                crate::assoc::lemma_index_of_key(self.contexts@, i);
                if k != name@ {
                    let j = crate::assoc::index_of_key(before, k);
                    assert(before[j].0@ == k);
                    crate::assoc::lemma_index_of_key(before, j);
                    assert(before[j].1.wf());
                }
            }
        }
        let ghost after = self.contexts@;
        if self.contexts.len() == 1 {
            proof {
                assert forall|j: Seq<char>| #[trigger] as_map(before).contains_key(j) implies j == name@ by {
                    assert(as_map(after).contains_key(j));
                    let a = choose|a: int| 0 <= a < after.len() && #[trigger] after[a].0@ == j;
                    assert(as_map(after).contains_key(name@));
                    let b = choose|b: int| 0 <= b < after.len() && #[trigger] after[b].0@ == name@;
                    assert(a == 0 && b == 0);
                }
            }
            self.current_context = name;
        } else {
            proof {
                assert(as_map(after).contains_key(name@));
                assert(has_key(after, name@));
                assert(after.len() >= 2);
                let x = after[0].0@;
                let y = after[1].0@;
                assert(x != y);
                assert(after[0].0@ == x);
                assert(has_key(after, x));
                assert(after[1].0@ == y);
                assert(has_key(after, y));
                assert(as_map(after).contains_key(x));
                assert(as_map(after).contains_key(y));
                if x != name@ {
                    assert(as_map(before).contains_key(x));
                } else {
                    assert(as_map(before).contains_key(y));
                }
            }
        }
        Ok(())
    }

    /// Makes `name` current; an error when no such context exists.
    pub fn set_current_context(&mut self, name: String) -> (r: Result<(), AppError>)
        requires
            old(self).wf(),
        ensures
            final(self).wf(),
            final(self).spec_contexts() == old(self).spec_contexts(),
            final(self).spec_max_depth() == old(self).spec_max_depth(),
            final(self).spec_metadata() == old(self).spec_metadata(),
            old(self).spec_contexts().contains_key(name@) ==> r is Ok && final(self).spec_current() == name@,
            !old(self).spec_contexts().contains_key(name@) ==> final(self).spec_current() == old(self).spec_current(),
            !old(self).spec_contexts().contains_key(name@) ==> (r matches Err(AppError::Validation { message, field: None })
                && message@ == "Context '"@ + name@ + "' does not exist"@),
    {
        match get_value(&self.contexts, name.as_str()) {
            Some(_) => {
                self.current_context = name;
                Ok(())
            },
            None => {
                let mut message = owned("Context '");
                push_str(&mut message, name.as_str());
                push_str(&mut message, "' does not exist");
                Err(AppError::Validation { message, field: None })
            },
        }
    }

    /// The current context, where it exists.
    pub fn current_context(&self) -> (r: Option<&LogContext>)
        requires
            self.wf(),
        ensures
            match r {
                Some(c) => self.spec_contexts().contains_key(self.spec_current()) && *c == self.spec_contexts()[self.spec_current()],
                None => !self.spec_contexts().contains_key(self.spec_current()),
            },
    {
        get_value(&self.contexts, self.current_context.as_str())
    }

    /// Replaces (or creates) the context under the current name.
    pub fn set_context(&mut self, context: LogContext)
        requires
            old(self).wf(),
            context.wf(),
        ensures
            final(self).wf(),
            final(self).spec_contexts() == old(self).spec_contexts().insert(old(self).spec_current(), context),
            final(self).spec_current() == old(self).spec_current(),
            final(self).spec_max_depth() == old(self).spec_max_depth(),
            final(self).spec_metadata() == old(self).spec_metadata(),
    {
        let ghost before = self.contexts@;
        let ghost c = context;
        let name = self.current_context.clone();
        insert_value(&mut self.contexts, name, context);
        proof {
            self.lemma_wf_after_insert(before, c);
        }
    }

    /// The contexts stay well formed when one well-formed context is stored.
    proof fn lemma_wf_after_insert(&self, before: Seq<(String, LogContext)>, c: LogContext)
        requires
            keys_unique(before),
            forall|i: int| 0 <= i < before.len() ==> (#[trigger] before[i]).1.wf(),
            keys_unique(self.contexts@),
            c.wf(),
            exists|k: Seq<char>| as_map(self.contexts@) == #[trigger] as_map(before).insert(k, c),
        ensures
            self.wf(),
    {
        let k = choose|k: Seq<char>| as_map(self.contexts@) == #[trigger] as_map(before).insert(k, c);
        assert forall|i: int| 0 <= i < self.contexts@.len() implies (#[trigger] self.contexts@[i]).1.wf() by {
            let kk = self.contexts@[i].0@;
            crate::assoc::lemma_index_of_key(self.contexts@, i);
            if kk != k {
                assert(as_map(before).contains_key(kk));
                let j = crate::assoc::index_of_key(before, kk);
                assert(before[j].0@ == kk);
                crate::assoc::lemma_index_of_key(before, j);
                assert(before[j].1.wf());
            }
        }
    }

    /// Pushes a scope onto the current context, unless it is missing or
    /// already holds `max_depth` scopes.
    pub fn push_scope(&mut self, scope: LogScope)
        requires
            old(self).wf(),
        ensures
            final(self).wf(),
            final(self).spec_current() == old(self).spec_current(),
            final(self).spec_max_depth() == old(self).spec_max_depth(),
            final(self).spec_metadata() == old(self).spec_metadata(),
            ({
                let cur = old(self).spec_current();
                let m = old(self).spec_contexts();
                if m.contains_key(cur) && m[cur].scopes@.len() < old(self).spec_max_depth() {
                    final(self).spec_contexts().dom() == m.dom()
                    && (forall|k: Seq<char>| k != cur && #[trigger] m.contains_key(k) ==> final(self).spec_contexts()[k] == m[k])
                    && final(self).spec_contexts()[cur].fields == m[cur].fields
                    && final(self).spec_contexts()[cur].scopes@ == m[cur].scopes@.push(scope)
                } else {
                    final(self).spec_contexts() == m
                }
            }),
    {
        let ghost before = self.contexts@;
        let name = self.current_context.clone();
        let depth_ok = match get_value(&self.contexts, name.as_str()) {
            Some(c) => c.scopes.len() < self.max_depth,
            None => false,
        };
        if depth_ok {
            let taken = crate::assoc::remove_value(&mut self.contexts, name.as_str());
            match taken {
                Some(c) => {
                    let mut c = c;
                    proof {
                        let j = crate::assoc::index_of_key(before, name@);
                        assert(before[j].0@ == name@);
                        crate::assoc::lemma_index_of_key(before, j);
                    }
                    c.push_scope(scope);
                    let ghost cv = c;
                    let ghost mid = self.contexts@;
                    insert_value(&mut self.contexts, name, c);
                    proof {
                        assert(as_map(self.contexts@) =~= as_map(before).insert(name@, cv));
                        self.lemma_wf_after_insert(before, cv);
                    }
                },
                None => {},
            }
        }
    }

    /// Pops the innermost scope of the current context, if there is one.
    pub fn pop_scope(&mut self) -> (r: Option<LogScope>)
        requires
            old(self).wf(),
        ensures
            final(self).wf(),
            final(self).spec_current() == old(self).spec_current(),
            final(self).spec_max_depth() == old(self).spec_max_depth(),
            final(self).spec_metadata() == old(self).spec_metadata(),
            ({
                let cur = old(self).spec_current();
                let m = old(self).spec_contexts();
                if m.contains_key(cur) && m[cur].scopes@.len() > 0 {
                    r == Some(m[cur].scopes@.last())
                    && final(self).spec_contexts().dom() == m.dom()
                    && (forall|k: Seq<char>| k != cur && #[trigger] m.contains_key(k) ==> final(self).spec_contexts()[k] == m[k])
                    && final(self).spec_contexts()[cur].fields == m[cur].fields
                    && final(self).spec_contexts()[cur].scopes@ == m[cur].scopes@.drop_last()
                } else {
                    r is None && final(self).spec_contexts() == m
                }
            }),
    {
        let ghost before = self.contexts@;
        let name = self.current_context.clone();
        let has_scope = match get_value(&self.contexts, name.as_str()) {
            Some(c) => c.scopes.len() > 0,
            None => false,
        };
        if has_scope {
            let taken = crate::assoc::remove_value(&mut self.contexts, name.as_str());
            match taken {
                Some(c) => {
                    let mut c = c;
                    proof {
                        let j = crate::assoc::index_of_key(before, name@);
                        assert(before[j].0@ == name@);
                        crate::assoc::lemma_index_of_key(before, j);
                    }
                    let popped = c.pop_scope();
                    let ghost cv = c;
                    insert_value(&mut self.contexts, name, c);
                    proof {
                        assert(as_map(self.contexts@) =~= as_map(before).insert(name@, cv));
                        self.lemma_wf_after_insert(before, cv);
                    }
                    popped
                },
                None => None,
            }
        } else {
            None
        }
    }

    /// The provider's description.
    pub fn metadata(&self) -> (r: &ContextMetadata)
        ensures
            *r == self.spec_metadata(),
    {
        &self.metadata
    }
}

impl Default for HierarchicalContextProvider {
    fn default() -> (r: Self)
        ensures
            r.wf(),
            r.spec_contexts() == Map::<Seq<char>, LogContext>::empty(),
            r.spec_current() == "default"@,
            r.spec_max_depth() == 50,
    {
        HierarchicalContextProvider::new(50)
    }
}

} // verus!
