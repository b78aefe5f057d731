//! Log levels, field values, records, contexts and the metadata types of
//! the logging components.

use vstd::prelude::*;
use crate::assoc::{as_map, get_value, insert_value, keys_unique, has_key, key_seq, index_of_key, lemma_index_of_key, lemma_as_map_prefix};
use crate::clock::now_millis;
use crate::text::{owned, str_eq, to_lower, lowercase_spec};

verus! {

/// Log level enumeration, from least to most severe.
#[derive(Debug, Clone, Copy, PartialEq, Eq, Structural, Hash)]
pub enum LogLevel {
    Trace,
    Debug,
    Info,
    Warn,
    Error,
    Fatal,
}

impl LogLevel {
    /// The position of the level in the severity order (Trace is 0,
    /// Fatal is 5).
    pub open spec fn spec_rank(self) -> u8 {
        match self {
            LogLevel::Trace => 0,
            LogLevel::Debug => 1,
            LogLevel::Info => 2,
            LogLevel::Warn => 3,
            LogLevel::Error => 4,
            LogLevel::Fatal => 5,
        }
    }

    /// The upper-case name of the level.
    pub open spec fn spec_as_str(self) -> Seq<char> {
        match self {
            LogLevel::Trace => "TRACE"@,
            LogLevel::Debug => "DEBUG"@,
            LogLevel::Info => "INFO"@,
            LogLevel::Warn => "WARN"@,
            LogLevel::Error => "ERROR"@,
            LogLevel::Fatal => "FATAL"@,
        }
    }

    /// The ANSI color escape of the level.
    pub open spec fn spec_ansi_color(self) -> Seq<char> {
        match self {
            LogLevel::Trace => "\x1b[37m"@,
            LogLevel::Debug => "\x1b[36m"@,
            LogLevel::Info => "\x1b[32m"@,
            LogLevel::Warn => "\x1b[33m"@,
            LogLevel::Error => "\x1b[31m"@,
            LogLevel::Fatal => "\x1b[41;37m"@,
        }
    }

    /// The position of the level in the severity order.
    pub fn rank(self) -> (r: u8)
        ensures
            r == self.spec_rank(),
    {
        match self {
            LogLevel::Trace => 0,
            LogLevel::Debug => 1,
            LogLevel::Info => 2,
            LogLevel::Warn => 3,
            LogLevel::Error => 4,
            LogLevel::Fatal => 5,
        }
    }

    /// Get the string representation of the log level
    pub fn as_str(self) -> (r: &'static str)
        ensures
            r@ == self.spec_as_str(),
    {
        match self {
            LogLevel::Trace => "TRACE",
            LogLevel::Debug => "DEBUG",
            LogLevel::Info => "INFO",
            LogLevel::Warn => "WARN",
            LogLevel::Error => "ERROR",
            LogLevel::Fatal => "FATAL",
        }
    }

    /// Get the ANSI color code for the log level
    pub fn ansi_color(self) -> (r: &'static str)
        ensures
            r@ == self.spec_ansi_color(),
    {
        match self {
            LogLevel::Trace => "\x1b[37m",
            LogLevel::Debug => "\x1b[36m",
            LogLevel::Info => "\x1b[32m",
            LogLevel::Warn => "\x1b[33m",
            LogLevel::Error => "\x1b[31m",
            LogLevel::Fatal => "\x1b[41;37m",
        }
    }

    /// Get the reset ANSI color code
    pub fn ansi_reset() -> (r: &'static str)
        ensures
            r@ == "\x1b[0m"@,
    {
        "\x1b[0m"
    }

    /// Check if this level should be logged for the given filter level:
    /// it must be at least as severe.
    pub fn should_log(self, filter_level: LogLevel) -> (r: bool)
        ensures
            r == (self.spec_rank() >= filter_level.spec_rank()),
    {
        self.rank() >= filter_level.rank()
    }
}

/// Structured field values. A floating-point value is held as its IEEE-754
/// bit pattern; a timestamp as milliseconds since the Unix epoch; a
/// duration in milliseconds; an object as key/value pairs with distinct keys.
#[derive(Debug)]
pub enum LogFieldValue {
    String(String),
    Integer(i64),
    Float(u64),
    Boolean(bool),
    DateTime(i64),
    Duration(u64),
    Array(Vec<LogFieldValue>),
    Object(Vec<(String, LogFieldValue)>),
    Null,
}

impl LogFieldValue {
    /// The type name of each kind of value.
    pub open spec fn spec_value_type_name(&self) -> Seq<char> {
        match self {
            LogFieldValue::String(_) => "string"@,
            LogFieldValue::Integer(_) => "integer"@,
            LogFieldValue::Float(_) => "float"@,
            LogFieldValue::Boolean(_) => "boolean"@,
            LogFieldValue::DateTime(_) => "datetime"@,
            LogFieldValue::Duration(_) => "duration"@,
            LogFieldValue::Array(_) => "array"@,
            LogFieldValue::Object(_) => "object"@,
            LogFieldValue::Null => "null"@,
        }
    }

    /// Get the string representation
    pub fn as_string(&self) -> (r: Option<&str>)
        ensures
            match self {
                LogFieldValue::String(s) => r matches Some(x) && x@ == s@,
                _ => r is None,
            },
    {
        match self {
            LogFieldValue::String(s) => Some(s.as_str()),
            _ => None,
        }
    }

    /// Get the boolean representation: a boolean, or one of the words
    /// true/1/yes/on and false/0/no/off in any case.
    pub fn as_bool(&self) -> (r: Option<bool>)
        ensures
            r == match self {
                LogFieldValue::Boolean(b) => Some(*b),
                LogFieldValue::String(s) => bool_word(lowercase_spec(s@)),
                _ => None,
            },
    {
        match self {
            LogFieldValue::Boolean(b) => Some(*b),
            LogFieldValue::String(s) => {
                let lower = to_lower(s.as_str());
                parse_bool_word(lower.as_str())
            },
            _ => None,
        }
    }

    /// Get the array representation
    pub fn as_array(&self) -> (r: Option<&Vec<LogFieldValue>>)
        ensures
            match self {
                LogFieldValue::Array(a) => r == Some(a),
                _ => r is None,
            },
    {
        match self {
            LogFieldValue::Array(a) => Some(a),
            _ => None,
        }
    }

    /// Get the object representation
    pub fn as_object(&self) -> (r: Option<&Vec<(String, LogFieldValue)>>)
        ensures
            match self {
                LogFieldValue::Object(o) => r == Some(o),
                _ => r is None,
            },
    {
        match self {
            LogFieldValue::Object(o) => Some(o),
            _ => None,
        }
    }

    /// Get the type name
    pub fn value_type_name(&self) -> (r: &'static str)
        ensures
            r@ == self.spec_value_type_name(),
    {
        match self {
            LogFieldValue::String(_) => "string",
            LogFieldValue::Integer(_) => "integer",
            LogFieldValue::Float(_) => "float",
            LogFieldValue::Boolean(_) => "boolean",
            LogFieldValue::DateTime(_) => "datetime",
            LogFieldValue::Duration(_) => "duration",
            LogFieldValue::Array(_) => "array",
            LogFieldValue::Object(_) => "object",
            LogFieldValue::Null => "null",
        }
    }

    /// Check if the value is empty
    pub fn is_empty(&self) -> (r: bool)
        ensures
            r == match self {
                LogFieldValue::String(s) => s@.len() == 0,
                LogFieldValue::Array(a) => a@.len() == 0,
                LogFieldValue::Object(o) => o@.len() == 0,
                LogFieldValue::Null => true,
                _ => false,
            },
    {
        match self {
            LogFieldValue::String(s) => s.as_str().is_empty(),
            LogFieldValue::Array(a) => a.len() == 0,
            LogFieldValue::Object(o) => o.len() == 0,
            LogFieldValue::Null => true,
            _ => false,
        }
    }

    /// Get the size of the value: the byte length of a string, the number
    /// of items of an array or object, one otherwise.
    pub fn size(&self) -> (r: usize)
        ensures
            r == match self {
                LogFieldValue::String(s) => vstd::utf8::encode_utf8(s@).len() as usize,
                LogFieldValue::Array(a) => a@.len() as usize,
                LogFieldValue::Object(o) => o@.len() as usize,
                _ => 1usize,
            },
    {
        match self {
            LogFieldValue::String(s) => s.as_str().len(),
            LogFieldValue::Array(a) => a.len(),
            LogFieldValue::Object(o) => o.len(),
            _ => 1,
        }
    }
}

/// The boolean a lower-case word stands for.
pub open spec fn bool_word(w: Seq<char>) -> Option<bool> {
    if w == "true"@ || w == "1"@ || w == "yes"@ || w == "on"@ {
        Some(true)
    } else if w == "false"@ || w == "0"@ || w == "no"@ || w == "off"@ {
        Some(false)
    } else {
        None
    }
}

/// The boolean a lower-case word stands for.
pub fn parse_bool_word(w: &str) -> (r: Option<bool>)
    ensures
        r == bool_word(w@),
{
    if str_eq(w, "true") || str_eq(w, "1") || str_eq(w, "yes") || str_eq(w, "on") {
        Some(true)
    } else if str_eq(w, "false") || str_eq(w, "0") || str_eq(w, "no") || str_eq(w, "off") {
        Some(false)
    } else {
        None
    }
}

/// `b` is a copy of `a`: the same variant and contents, down to the order
/// of array items and object entries.
pub open spec fn same_field(a: LogFieldValue, b: LogFieldValue) -> bool
    decreases a,
{
    match a {
        LogFieldValue::String(x) => b matches LogFieldValue::String(y) && x@ == y@,
        LogFieldValue::Integer(x) => b matches LogFieldValue::Integer(y) && x == y,
        LogFieldValue::Float(x) => b matches LogFieldValue::Float(y) && x == y,
        LogFieldValue::Boolean(x) => b matches LogFieldValue::Boolean(y) && x == y,
        LogFieldValue::DateTime(x) => b matches LogFieldValue::DateTime(y) && x == y,
        LogFieldValue::Duration(x) => b matches LogFieldValue::Duration(y) && x == y,
        LogFieldValue::Array(x) => b matches LogFieldValue::Array(y) && x@.len() == y@.len()
            && forall|i: int| 0 <= i < x@.len() ==> same_field(#[trigger] x@[i], y@[i]),
        LogFieldValue::Object(x) => b matches LogFieldValue::Object(y) && x@.len() == y@.len()
            && forall|i: int| 0 <= i < x@.len() ==> (#[trigger] x@[i]).0@ == y@[i].0@
                && same_field(x@[i].1, y@[i].1),
        LogFieldValue::Null => b is Null,
    }
}

/// `b` is an entry-by-entry copy of `a`.
pub open spec fn same_entries(a: Seq<(String, LogFieldValue)>, b: Seq<(String, LogFieldValue)>) -> bool {
    &&& a.len() == b.len()
    &&& forall|i: int| 0 <= i < a.len() ==> (#[trigger] a[i]).0@ == b[i].0@ && same_field(a[i].1, b[i].1)
}

/// A deep copy of a field value.
pub fn copy_field(v: &LogFieldValue) -> (r: LogFieldValue)
    ensures
        same_field(*v, r),
    decreases *v, 1nat,
{
    match v {
        LogFieldValue::String(x) => LogFieldValue::String(x.clone()),
        LogFieldValue::Integer(x) => LogFieldValue::Integer(*x),
        LogFieldValue::Float(x) => LogFieldValue::Float(*x),
        LogFieldValue::Boolean(x) => LogFieldValue::Boolean(*x),
        LogFieldValue::DateTime(x) => LogFieldValue::DateTime(*x),
        LogFieldValue::Duration(x) => LogFieldValue::Duration(*x),
        LogFieldValue::Array(x) => LogFieldValue::Array(copy_items(x)),
        LogFieldValue::Object(x) => LogFieldValue::Object(copy_entries(x)),
        LogFieldValue::Null => LogFieldValue::Null,
    }
}

/// A deep copy of array items.
fn copy_items(x: &Vec<LogFieldValue>) -> (r: Vec<LogFieldValue>)
    ensures
        r@.len() == x@.len(),
        forall|j: int| 0 <= j < x@.len() ==> same_field(#[trigger] x@[j], r@[j]),
    decreases *x, 0nat,
{
    let mut out: Vec<LogFieldValue> = Vec::new();
    let mut i: usize = 0;
    while i < x.len()
        invariant
            i <= x@.len(),
            out@.len() == i,
            forall|j: int| 0 <= j < i ==> same_field(#[trigger] x@[j], out@[j]),
        decreases x@.len() - i,
    {
        proof {
            assert(decreases_to!(*x => x[i as int]));
        }
        let c = copy_field(&x[i]);
        out.push(c);
        i = i + 1;
    }
    out
}

/// A deep copy of key/value entries.
pub fn copy_entries(x: &Vec<(String, LogFieldValue)>) -> (r: Vec<(String, LogFieldValue)>)
    ensures
        same_entries(x@, r@),
    decreases *x, 0nat,
{
    let mut out: Vec<(String, LogFieldValue)> = Vec::new();
    let mut i: usize = 0;
    while i < x.len()
        invariant
            i <= x@.len(),
            out@.len() == i,
            forall|j: int| 0 <= j < i ==> (#[trigger] x@[j]).0@ == out@[j].0@ && same_field(x@[j].1, out@[j].1),
        decreases x@.len() - i,
    {
        proof {
            assert(decreases_to!(*x => x[i as int]));
            assert(decreases_to!(x[i as int] => x[i as int].1));
        }
        let c = copy_field(&x[i].1);
        out.push((x[i].0.clone(), c));
        i = i + 1;
    }
    out
}

/// A named scope of a log context.
#[derive(Debug)]
pub struct LogScope {
    pub name: String,
    pub level: LogLevel,
    pub fields: Vec<(String, LogFieldValue)>,
    pub timestamp: i64,
}

impl LogScope {
    /// A scope without fields, stamped with the current time.
    pub fn new(name: String, level: LogLevel) -> (r: Self)
        ensures
            r.name == name,
            r.level == level,
            r.fields@.len() == 0,
    {
        LogScope { name, level, fields: Vec::new(), timestamp: now_millis() }
    }

    /// The fields have distinct keys.
    pub open spec fn wf(&self) -> bool {
        keys_unique(self.fields@)
    }

    /// Replaces the fields.
    pub fn with_fields(self, fields: Vec<(String, LogFieldValue)>) -> (r: Self)
        ensures
            r == (LogScope { fields, ..self }),
    {
        LogScope { fields, ..self }
    }

    /// Sets a field, replacing the value of an existing key.
    pub fn add_field(&mut self, key: String, value: LogFieldValue)
        requires
            old(self).wf(),
        ensures
            final(self).wf(),
            as_map(final(self).fields@) == as_map(old(self).fields@).insert(key@, value),
            final(self).name == old(self).name,
            final(self).level == old(self).level,
            final(self).timestamp == old(self).timestamp,
    {
        insert_value(&mut self.fields, key, value);
    }
}

/// `r` holds the keys of `m`, each with a copy of its value.
pub open spec fn copies_map(m: Map<Seq<char>, LogFieldValue>, r: Map<Seq<char>, LogFieldValue>) -> bool {
    &&& m.dom() == r.dom()
    &&& forall|k: Seq<char>| #[trigger] r.contains_key(k) ==> same_field(m[k], r[k])
}

/// A copy of entries with unique keys: the same keys, each with a copy of
/// its value.
pub proof fn lemma_same_entries_map(a: Seq<(String, LogFieldValue)>, b: Seq<(String, LogFieldValue)>)
    requires
        keys_unique(a),
        same_entries(a, b),
    ensures
        keys_unique(b),
        copies_map(as_map(a), as_map(b)),
{
    assert forall|i: int, j: int| 0 <= i < b.len() && 0 <= j < b.len() && i != j implies b[i].0@ != b[j].0@ by {
        assert(a[i].0@ == b[i].0@ && a[j].0@ == b[j].0@);
    }
    assert forall|k: Seq<char>| has_key(a, k) <==> has_key(b, k) by {
        if has_key(a, k) {
            let i = choose|i: int| 0 <= i < a.len() && #[trigger] a[i].0@ == k;
            assert(b[i].0@ == k);
        }
        if has_key(b, k) {
            let i = choose|i: int| 0 <= i < b.len() && #[trigger] b[i].0@ == k;
            assert(a[i].0@ == k);
        }
    }
    assert(as_map(a).dom() =~= as_map(b).dom());
    assert forall|k: Seq<char>| #[trigger] as_map(b).contains_key(k) implies same_field(as_map(a)[k], as_map(b)[k]) by {
        let j = index_of_key(a, k);
        assert(a[j].0@ == k);
        lemma_index_of_key(a, j);
        lemma_index_of_key(b, j);
    }
}

/// Log context: fields with distinct keys, and a stack of scopes.
#[derive(Debug)]
pub struct LogContext {
    pub fields: Vec<(String, LogFieldValue)>,
    pub scopes: Vec<LogScope>,
    pub timestamp: i64,
}

impl LogContext {
    /// The fields have distinct keys.
    pub open spec fn wf(&self) -> bool {
        keys_unique(self.fields@)
    }

    /// An empty context stamped with the current time.
    pub fn new() -> (r: Self)
        ensures
            r.wf(),
            r.fields@.len() == 0,
            r.scopes@.len() == 0,
    {
        LogContext { fields: Vec::new(), scopes: Vec::new(), timestamp: now_millis() }
    }

    /// A context holding `fields` and no scope, stamped with the current time.
    pub fn with_fields(fields: Vec<(String, LogFieldValue)>) -> (r: Self)
        ensures
            r.fields == fields,
            r.scopes@.len() == 0,
    {
        LogContext { fields, scopes: Vec::new(), timestamp: now_millis() }
    }

    /// A context holding `scopes` and no field, stamped with the current time.
    pub fn with_scopes(scopes: Vec<LogScope>) -> (r: Self)
        ensures
            r.wf(),
            r.fields@.len() == 0,
            r.scopes == scopes,
    {
        LogContext { fields: Vec::new(), scopes, timestamp: now_millis() }
    }

    /// Sets each of `fields`, replacing the values of existing keys.
    pub fn add_fields(&mut self, fields: Vec<(String, LogFieldValue)>)
        requires
            old(self).wf(),
            keys_unique(fields@),
        ensures
            final(self).wf(),
            as_map(final(self).fields@) == as_map(old(self).fields@).union_prefer_right(as_map(fields@)),
            final(self).scopes == old(self).scopes,
    {
        let ghost orig = fields@;
        let ghost base = as_map(self.fields@);
        let mut rest = fields;
        let mut i: usize = 0;
        assert(orig.len() == rest.len());
        assert(orig.subrange(0, 0) =~= Seq::<(String, LogFieldValue)>::empty());
        assert(base.union_prefer_right(as_map(orig.subrange(0, 0))) =~= base);
        while rest.len() > 0
            invariant
                i <= orig.len(),
                orig.len() <= usize::MAX,
                rest@ == orig.skip(i as int),
                keys_unique(orig),
                self.wf(),
                as_map(self.fields@) == base.union_prefer_right(as_map(orig.subrange(0, i as int))),
                self.scopes == old(self).scopes,
            decreases rest@.len(),
        {
            let e = rest.remove(0);
            proof {
                assert(e == orig[i as int]);
                lemma_as_map_prefix(orig, i as int);
                assert(base.union_prefer_right(as_map(orig.subrange(0, i + 1))) =~=
                    base.union_prefer_right(as_map(orig.subrange(0, i as int))).insert(e.0@, e.1));
                assert(rest@ =~= orig.skip(i + 1));
            }
            insert_value(&mut self.fields, e.0, e.1);
            i = i + 1;
        }
        assert(orig.subrange(0, i as int) =~= orig);
    }

    /// The context's fields overridden by `record_fields`, as copies.
    pub fn merge_fields(&self, record_fields: &Vec<(String, LogFieldValue)>) -> (r: Vec<(String, LogFieldValue)>)
        requires
            self.wf(),
            keys_unique(record_fields@),
        ensures
            keys_unique(r@),
            copies_map(as_map(self.fields@).union_prefer_right(as_map(record_fields@)), as_map(r@)),
    {
        let mut out = copy_entries(&self.fields);
        let ghost base = as_map(self.fields@);
        proof {
            lemma_same_entries_map(self.fields@, out@);
            assert(record_fields@.subrange(0, 0) =~= Seq::<(String, LogFieldValue)>::empty());
            assert(base.union_prefer_right(as_map(record_fields@.subrange(0, 0))) =~= base);
        }
        let mut i: usize = 0;
        while i < record_fields.len()
            invariant
                i <= record_fields@.len(),
                keys_unique(record_fields@),
                base == as_map(self.fields@),
                keys_unique(out@),
                copies_map(base.union_prefer_right(as_map(record_fields@.subrange(0, i as int))), as_map(out@)),
            decreases record_fields@.len() - i,
        {
            let ghost before = as_map(out@);
            let ghost target0 = base.union_prefer_right(as_map(record_fields@.subrange(0, i as int)));
            let c = copy_field(&record_fields[i].1);
            let k = record_fields[i].0.clone();
            insert_value(&mut out, k, c);
            proof {
                let e = record_fields@[i as int];
                lemma_as_map_prefix(record_fields@, i as int);
                let target = base.union_prefer_right(as_map(record_fields@.subrange(0, i + 1)));
                assert(target =~= target0.insert(e.0@, e.1));
                assert(target.dom() =~= as_map(out@).dom());
                assert forall|kk: Seq<char>| #[trigger] as_map(out@).contains_key(kk) implies same_field(target[kk], as_map(out@)[kk]) by {
                    if kk != e.0@ {
                        assert(before.contains_key(kk));
                    }
                }
            }
            i = i + 1;
        }
        assert(record_fields@.subrange(0, i as int) =~= record_fields@);
        out
    }

    /// Sets a field, replacing the value of an existing key.
    pub fn add_field(&mut self, key: String, value: LogFieldValue)
        requires
            old(self).wf(),
        ensures
            final(self).wf(),
            as_map(final(self).fields@) == as_map(old(self).fields@).insert(key@, value),
            final(self).scopes == old(self).scopes,
    {
        insert_value(&mut self.fields, key, value);
    }

    /// The value of a field.
    pub fn get_field(&self, key: &str) -> (r: Option<&LogFieldValue>)
        requires
            self.wf(),
        ensures
            match r {
                Some(v) => as_map(self.fields@).contains_key(key@) && as_map(self.fields@)[key@] == *v,
                None => !as_map(self.fields@).contains_key(key@),
            },
    {
        get_value(&self.fields, key)
    }

    /// Whether a field is set.
    pub fn has_field(&self, key: &str) -> (r: bool)
        requires
            self.wf(),
        ensures
            r == as_map(self.fields@).contains_key(key@),
    {
        get_value(&self.fields, key).is_some()
    }

    /// Pushes a scope.
    pub fn push_scope(&mut self, scope: LogScope)
        ensures
            final(self).scopes@ == old(self).scopes@.push(scope),
            final(self).fields == old(self).fields,
    {
        self.scopes.push(scope);
    }

    /// Pops the innermost scope.
    pub fn pop_scope(&mut self) -> (r: Option<LogScope>)
        ensures
            final(self).fields == old(self).fields,
            old(self).scopes@.len() == 0 ==> r is None && final(self).scopes@ == old(self).scopes@,
            old(self).scopes@.len() > 0 ==> r == Some(old(self).scopes@.last())
                && final(self).scopes@ == old(self).scopes@.drop_last(),
    {
        self.scopes.pop()
    }

    /// Whether the context has neither fields nor scopes.
    pub fn is_empty(&self) -> (r: bool)
        ensures
            r == (self.fields@.len() == 0 && self.scopes@.len() == 0),
    {
        self.fields.len() == 0 && self.scopes.len() == 0
    }

    /// The number of fields plus the number of scopes.
    pub fn len(&self) -> (r: usize)
        requires
            self.fields@.len() + self.scopes@.len() <= usize::MAX,
        ensures
            r == self.fields@.len() + self.scopes@.len(),
    {
        self.fields.len() + self.scopes.len()
    }
}

/// Description of a logger.
#[derive(Debug, Clone)]
pub struct LoggerMetadata {
    pub name: String,
    pub version: String,
    pub description: String,
    pub capabilities: Vec<String>,
    pub max_level: LogLevel,
    pub filters: Vec<String>,
}

/// Description of a formatter.
#[derive(Debug, Clone)]
pub struct FormatterMetadata {
    pub name: String,
    pub version: String,
    pub description: String,
    pub format_type: String,
    pub supports_colors: bool,
    pub supports_structured: bool,
}

/// Description of an appender.
#[derive(Debug, Clone)]
pub struct AppenderMetadata {
    pub name: String,
    pub version: String,
    pub description: String,
    pub appender_type: String,
    pub is_async: bool,
    pub supports_buffering: bool,
    pub supports_rotation: bool,
}

/// Description of a filter.
#[derive(Debug, Clone)]
pub struct FilterMetadata {
    pub name: String,
    pub version: String,
    pub description: String,
    pub filter_type: String,
}

/// Description of a context provider.
#[derive(Debug, Clone)]
pub struct ContextMetadata {
    pub name: String,
    pub version: String,
    pub description: String,
    pub supports_nesting: bool,
    pub max_depth: usize,
}

/// Description of a metrics collector.
#[derive(Debug, Clone)]
pub struct MetricsMetadata {
    pub name: String,
    pub version: String,
    pub description: String,
    pub supported_metrics: Vec<String>,
}

/// A log record: level, target, message, time (milliseconds since the Unix
/// epoch), location and structured fields with distinct keys.
#[derive(Debug)]
pub struct SimpleLogRecord {
    pub level: LogLevel,
    pub target: String,
    pub message: String,
    pub timestamp: i64,
    pub module: Option<String>,
    pub file: Option<String>,
    pub line: Option<u32>,
    pub fields: Vec<(String, LogFieldValue)>,
    pub id: Option<String>,
    pub span_id: Option<String>,
    pub trace_id: Option<String>,
    pub parent_span_id: Option<String>,
}

impl SimpleLogRecord {
    /// The fields have distinct keys.
    pub open spec fn wf(&self) -> bool {
        keys_unique(self.fields@)
    }

    /// A record stamped with the current time, without fields or location.
    pub fn new(level: LogLevel, target: String, message: String) -> (r: Self)
        ensures
            r.wf(),
            r.level == level,
            r.target == target,
            r.message == message,
            r.fields@.len() == 0,
            r.module is None && r.file is None && r.line is None,
            r.id is None && r.span_id is None && r.trace_id is None && r.parent_span_id is None,
    {
        SimpleLogRecord {
            level,
            target,
            message,
            timestamp: now_millis(),
            module: None,
            file: None,
            line: None,
            fields: Vec::new(),
            id: None,
            span_id: None,
            trace_id: None,
            parent_span_id: None,
        }
    }

    /// Sets a field, replacing the value of an existing key.
    pub fn with_field(self, key: String, value: LogFieldValue) -> (r: Self)
        requires
            self.wf(),
        ensures
            r.wf(),
            as_map(r.fields@) == as_map(self.fields@).insert(key@, value),
            r.level == self.level && r.target == self.target && r.message == self.message,
            r.timestamp == self.timestamp,
    {
        let mut s = self;
        insert_value(&mut s.fields, key, value);
        s
    }

    /// Sets the module path.
    pub fn with_module(self, module: String) -> (r: Self)
        ensures
            r == (SimpleLogRecord { module: Some(module), ..self }),
    {
        SimpleLogRecord { module: Some(module), ..self }
    }

    /// Sets the source location.
    pub fn with_location(self, file: String, line: u32) -> (r: Self)
        ensures
            r == (SimpleLogRecord { file: Some(file), line: Some(line), ..self }),
    {
        SimpleLogRecord { file: Some(file), line: Some(line), ..self }
    }

    /// The value of a field.
    pub fn get_field(&self, key: &str) -> (r: Option<&LogFieldValue>)
        requires
            self.wf(),
        ensures
            match r {
                Some(v) => as_map(self.fields@).contains_key(key@) && as_map(self.fields@)[key@] == *v,
                None => !as_map(self.fields@).contains_key(key@),
            },
    {
        get_value(&self.fields, key)
    }
}

/// The levels from least to most severe.
pub open spec fn severity_order() -> Seq<LogLevel> {
    seq![LogLevel::Trace, LogLevel::Debug, LogLevel::Info, LogLevel::Warn, LogLevel::Error, LogLevel::Fatal]
}

/// Severity grows along Trace, Debug, Info, Warn, Error, Fatal: a level
/// ranks at least as high as another exactly when it comes at or after it
/// in that order.
pub proof fn lemma_rank_follows_severity(i: int, j: int)
    requires
        0 <= i < 6,
        0 <= j < 6,
    ensures
        severity_order()[i].spec_rank() >= severity_order()[j].spec_rank() <==> i >= j,
{
}

/// Each level has its own name: two levels print the same name exactly
/// when they are the same level.
pub proof fn lemma_level_names_distinct(i: int, j: int)
    requires
        0 <= i < 6,
        0 <= j < 6,
    ensures
        severity_order()[i].spec_as_str() == severity_order()[j].spec_as_str() <==> i == j,
{
    reveal_strlit("TRACE");
    reveal_strlit("DEBUG");
    reveal_strlit("INFO");
    reveal_strlit("WARN");
    reveal_strlit("ERROR");
    reveal_strlit("FATAL");
    assert("TRACE"@[0] == 'T' && "DEBUG"@[0] == 'D' && "INFO"@[0] == 'I' && "WARN"@[0] == 'W'
        && "ERROR"@[0] == 'E' && "FATAL"@[0] == 'F');
}

} // verus!
