//! Configuration values: their kinds, equality and textual rendering.

use vstd::prelude::*;
use crate::config::double::{double_as_i64, double_eq, double_bits_eq, double_to_i64};
use crate::assoc::{as_map, get_value, has_key, keys_unique, lemma_index_of_key};
use crate::logging::traits::{bool_word, parse_bool_word};
use crate::clock::{instant_debug_text, duration_debug_text, debug_instant, debug_duration};
use crate::text::{
    debug_quoted, debug_str, owned, push_str, signed_decimal_spec, i64_to_decimal, to_lower,
    lowercase_spec,
};

verus! {

/// Configuration value. A floating-point number is held as its IEEE-754
/// bit pattern together with the text that `{:?}` prints for it; a
/// timestamp as milliseconds since the Unix epoch; a duration in
/// milliseconds; an object as key/value pairs.
#[derive(Debug)]
pub enum ConfigValue {
    String(String),
    Integer(i64),
    Float { bits: u64, text: String },
    Boolean(bool),
    DateTime(i64),
    Duration(u64),
    List(Vec<ConfigValue>),
    Object(Vec<(String, ConfigValue)>),
    Null,
}

impl ConfigValue {
    /// The type name of each kind of value.
    pub open spec fn spec_value_type_name(&self) -> Seq<char> {
        match self {
            ConfigValue::String(_) => "string"@,
            ConfigValue::Integer(_) => "integer"@,
            ConfigValue::Float { .. } => "float"@,
            ConfigValue::Boolean(_) => "boolean"@,
            ConfigValue::DateTime(_) => "datetime"@,
            ConfigValue::Duration(_) => "duration"@,
            ConfigValue::List(_) => "list"@,
            ConfigValue::Object(_) => "object"@,
            ConfigValue::Null => "null"@,
        }
    }

    /// The name of the value's type.
    pub fn value_type_name(&self) -> (r: &'static str)
        ensures
            r@ == self.spec_value_type_name(),
    {
        match self {
            ConfigValue::String(_) => "string",
            ConfigValue::Integer(_) => "integer",
            ConfigValue::Float { .. } => "float",
            ConfigValue::Boolean(_) => "boolean",
            ConfigValue::DateTime(_) => "datetime",
            ConfigValue::Duration(_) => "duration",
            ConfigValue::List(_) => "list",
            ConfigValue::Object(_) => "object",
            ConfigValue::Null => "null",
        }
    }

    /// The text of a string value.
    pub fn as_str(&self) -> (r: Option<&str>)
        ensures
            match self {
                ConfigValue::String(s) => r matches Some(x) && x@ == s@,
                _ => r is None,
            },
    {
        match self {
            ConfigValue::String(s) => Some(s.as_str()),
            _ => None,
        }
    }

    /// An integer, or a float converted as `as i64` converts it (toward
    /// zero, held to the range of `i64`, NaN as 0).
    pub fn as_i64(&self) -> (r: Option<i64>)
        ensures
            r == match self {
                ConfigValue::Integer(i) => Some(*i),
                ConfigValue::Float { bits, .. } => Some(double_as_i64(*bits)),
                _ => None,
            },
    {
        match self {
            ConfigValue::Integer(i) => Some(*i),
            ConfigValue::Float { bits, .. } => Some(double_to_i64(*bits)),
            _ => None,
        }
    }

    /// A boolean, or one of the words true/1/yes/on and false/0/no/off in
    /// any case.
    pub fn as_bool(&self) -> (r: Option<bool>)
        ensures
            r == match self {
                ConfigValue::Boolean(b) => Some(*b),
                ConfigValue::String(s) => bool_word(lowercase_spec(s@)),
                _ => None,
            },
    {
        match self {
            ConfigValue::Boolean(b) => Some(*b),
            ConfigValue::String(s) => {
                let lower = to_lower(s.as_str());
                parse_bool_word(lower.as_str())
            },
            _ => None,
        }
    }

    /// The items of a list value.
    pub fn as_list(&self) -> (r: Option<&Vec<ConfigValue>>)
        ensures
            match self {
                ConfigValue::List(l) => r == Some(l),
                _ => r is None,
            },
    {
        match self {
            ConfigValue::List(l) => Some(l),
            _ => None,
        }
    }

    /// The entries of an object value.
    pub fn as_object(&self) -> (r: Option<&Vec<(String, ConfigValue)>>)
        ensures
            match self {
                ConfigValue::Object(o) => r == Some(o),
                _ => r is None,
            },
    {
        match self {
            ConfigValue::Object(o) => Some(o),
            _ => None,
        }
    }

    /// Strings, integers, floats and booleans are scalars.
    pub fn is_scalar(&self) -> (r: bool)
        ensures
            r == (self is String || self is Integer || self is Float || self is Boolean),
    {
        match self {
            ConfigValue::String(_) | ConfigValue::Integer(_) | ConfigValue::Float { .. }
            | ConfigValue::Boolean(_) => true,
            _ => false,
        }
    }

    /// Lists and objects are collections.
    pub fn is_collection(&self) -> (r: bool)
        ensures
            r == (self is List || self is Object),
    {
        match self {
            ConfigValue::List(_) | ConfigValue::Object(_) => true,
            _ => false,
        }
    }
}

/// Equality of configuration values, field by field as a derived
/// `PartialEq` compares them: IEEE-754 equality for floats, item-wise
/// equality for lists, and for objects the same keys with equal values,
/// whatever their order.
pub open spec fn value_eq(a: ConfigValue, b: ConfigValue) -> bool
    decreases a,
{
    match a {
        ConfigValue::String(x) => b matches ConfigValue::String(y) && x@ == y@,
        ConfigValue::Integer(x) => b matches ConfigValue::Integer(y) && x == y,
        ConfigValue::Float { bits: x, .. } => b matches ConfigValue::Float { bits: y, .. } && double_eq(x, y),
        ConfigValue::Boolean(x) => b matches ConfigValue::Boolean(y) && x == y,
        ConfigValue::DateTime(x) => b matches ConfigValue::DateTime(y) && x == y,
        ConfigValue::Duration(x) => b matches ConfigValue::Duration(y) && x == y,
        ConfigValue::List(x) => b matches ConfigValue::List(y) && x@.len() == y@.len()
            && forall|i: int| 0 <= i < x@.len() ==> value_eq(#[trigger] x@[i], y@[i]),
        ConfigValue::Object(x) => b matches ConfigValue::Object(y) && x@.len() == y@.len()
            && forall|i: int| 0 <= i < x@.len() ==> has_key(y@, #[trigger] x@[i].0@)
                && value_eq(x@[i].1, as_map(y@)[x@[i].0@]),
        ConfigValue::Null => b is Null,
    }
}

/// Whether two configuration values are equal, as `value_eq` defines it.
/// Object values are expected to hold each key once.
pub fn values_equal(a: &ConfigValue, b: &ConfigValue) -> (r: bool)
    requires
        objects_wf(*b),
    ensures
        r == value_eq(*a, *b),
    decreases *a, 1nat,
{
    match a {
        ConfigValue::String(x) => match b {
            ConfigValue::String(y) => crate::text::str_eq(x.as_str(), y.as_str()),
            _ => false,
        },
        ConfigValue::Integer(x) => match b {
            ConfigValue::Integer(y) => *x == *y,
            _ => false,
        },
        ConfigValue::Float { bits: x, .. } => match b {
            ConfigValue::Float { bits: y, .. } => double_bits_eq(*x, *y),
            _ => false,
        },
        ConfigValue::Boolean(x) => match b {
            ConfigValue::Boolean(y) => *x == *y,
            _ => false,
        },
        ConfigValue::DateTime(x) => match b {
            ConfigValue::DateTime(y) => *x == *y,
            _ => false,
        },
        ConfigValue::Duration(x) => match b {
            ConfigValue::Duration(y) => *x == *y,
            _ => false,
        },
        ConfigValue::List(x) => match b {
            ConfigValue::List(y) => lists_equal(x, y),
            _ => false,
        },
        ConfigValue::Object(x) => match b {
            ConfigValue::Object(y) => entries_equal(x, y),
            _ => false,
        },
        ConfigValue::Null => match b {
            ConfigValue::Null => true,
            _ => false,
        },
    }
}

/// Item-wise equality of two lists of values.
fn lists_equal(x: &Vec<ConfigValue>, y: &Vec<ConfigValue>) -> (r: bool)
    requires
        objects_wf(ConfigValue::List(*y)),
    ensures
        r == value_eq(ConfigValue::List(*x), ConfigValue::List(*y)),
    decreases *x, 0nat,
{
    if x.len() != y.len() {
        return false;
    }
    let mut i: usize = 0;
    while i < x.len()
        invariant
            i <= x@.len(),
            x@.len() == y@.len(),
            objects_wf(ConfigValue::List(*y)),
            forall|j: int| 0 <= j < i ==> value_eq(#[trigger] x@[j], y@[j]),
        decreases x@.len() - i,
    {
        proof {
            lemma_list_item_wf(*y, i as int);
            assert(decreases_to!(*x => x[i as int]));
        }
        if !values_equal(&x[i], &y[i]) {
            return false;
        }
        i = i + 1;
    }
    true
}

/// Equality of two objects: the same number of entries, and each key of
/// the first found in the second with an equal value.
fn entries_equal(x: &Vec<(String, ConfigValue)>, y: &Vec<(String, ConfigValue)>) -> (r: bool)
    requires
        objects_wf(ConfigValue::Object(*y)),
    ensures
        r == value_eq(ConfigValue::Object(*x), ConfigValue::Object(*y)),
    decreases *x, 0nat,
{
    if x.len() != y.len() {
        return false;
    }
    let mut i: usize = 0;
    while i < x.len()
        invariant
            i <= x@.len(),
            x@.len() == y@.len(),
            objects_wf(ConfigValue::Object(*y)),
            forall|j: int| 0 <= j < i ==> has_key(y@, #[trigger] x@[j].0@)
                && value_eq(x@[j].1, as_map(y@)[x@[j].0@]),
        decreases x@.len() - i,
    {
        match get_value(y, x[i].0.as_str()) {
            Some(v) => {
                proof {
                    reveal_with_fuel(objects_wf, 2);
                    let k = x@[i as int].0@;
                    let j = crate::assoc::index_of_key(y@, k);
                    lemma_index_of_key(y@, j);
                    assert(objects_wf(y@[j].1));
                    assert(decreases_to!(*x => x[i as int]));
                    assert(decreases_to!(x[i as int] => x[i as int].1));
                }
                if !values_equal(&x[i].1, v) {
                    return false;
                }
            },
            None => {
                return false;
            },
        }
        i = i + 1;
    }
    true
}

proof fn lemma_list_item_wf(y: Vec<ConfigValue>, i: int)
    requires
        objects_wf(ConfigValue::List(y)),
        0 <= i < y@.len(),
    ensures
        objects_wf(y@[i]),
{
    let v = ConfigValue::List(y);
    assert(v is List);
    assert(v->List_0 == y);
    assert(forall|k: int| 0 <= k < y@.len() ==> objects_wf(#[trigger] y@[k]));
}

/// Every object inside the value holds each key once.
pub open spec fn objects_wf(v: ConfigValue) -> bool
    decreases v,
{
    match v {
        ConfigValue::List(x) => forall|i: int| 0 <= i < x@.len() ==> objects_wf(#[trigger] x@[i]),
        ConfigValue::Object(x) => keys_unique(x@) && forall|i: int| 0 <= i < x@.len() ==> objects_wf(#[trigger] x@[i].1),
        _ => true,
    }
}

/// `b` is a copy of `a`: the same variant and the same contents, down to
/// the float's text and the order of list items and object entries.
pub open spec fn same_value(a: ConfigValue, b: ConfigValue) -> bool
    decreases a,
{
    match a {
        ConfigValue::String(x) => b matches ConfigValue::String(y) && x@ == y@,
        ConfigValue::Integer(x) => b matches ConfigValue::Integer(y) && x == y,
        ConfigValue::Float { bits: x, text: tx } => b matches ConfigValue::Float { bits: y, text: ty } && x == y
            && tx@ == ty@,
        ConfigValue::Boolean(x) => b matches ConfigValue::Boolean(y) && x == y,
        ConfigValue::DateTime(x) => b matches ConfigValue::DateTime(y) && x == y,
        ConfigValue::Duration(x) => b matches ConfigValue::Duration(y) && x == y,
        ConfigValue::List(x) => b matches ConfigValue::List(y) && x@.len() == y@.len()
            && forall|i: int| 0 <= i < x@.len() ==> same_value(#[trigger] x@[i], y@[i]),
        ConfigValue::Object(x) => b matches ConfigValue::Object(y) && x@.len() == y@.len()
            && forall|i: int| 0 <= i < x@.len() ==> (#[trigger] x@[i]).0@ == y@[i].0@
                && same_value(x@[i].1, y@[i].1),
        ConfigValue::Null => b is Null,
    }
}

/// A deep copy of a configuration value.
pub fn clone_value(v: &ConfigValue) -> (r: ConfigValue)
    ensures
        same_value(*v, r),
    decreases *v, 1nat,
{
    match v {
        ConfigValue::String(x) => ConfigValue::String(x.clone()),
        ConfigValue::Integer(x) => ConfigValue::Integer(*x),
        ConfigValue::Float { bits, text } => ConfigValue::Float { bits: *bits, text: text.clone() },
        ConfigValue::Boolean(x) => ConfigValue::Boolean(*x),
        ConfigValue::DateTime(x) => ConfigValue::DateTime(*x),
        ConfigValue::Duration(x) => ConfigValue::Duration(*x),
        ConfigValue::List(x) => ConfigValue::List(clone_list(x)),
        ConfigValue::Object(x) => ConfigValue::Object(clone_entries(x)),
        ConfigValue::Null => ConfigValue::Null,
    }
}

/// A deep copy of a list of values.
fn clone_list(x: &Vec<ConfigValue>) -> (r: Vec<ConfigValue>)
    ensures
        same_value(ConfigValue::List(*x), ConfigValue::List(r)),
    decreases *x, 0nat,
{
    let mut out: Vec<ConfigValue> = Vec::new();
    let mut i: usize = 0;
    while i < x.len()
        invariant
            i <= x@.len(),
            out@.len() == i,
            forall|j: int| 0 <= j < i ==> same_value(#[trigger] x@[j], out@[j]),
        decreases x@.len() - i,
    {
        proof {
            assert(decreases_to!(*x => x[i as int]));
        }
        let c = clone_value(&x[i]);
        out.push(c);
        i = i + 1;
    }
    out
}

/// A deep copy of the entries of an object.
pub fn clone_entries(x: &Vec<(String, ConfigValue)>) -> (r: Vec<(String, ConfigValue)>)
    ensures
        same_value(ConfigValue::Object(*x), ConfigValue::Object(r)),
    decreases *x, 0nat,
{
    let mut out: Vec<(String, ConfigValue)> = Vec::new();
    let mut i: usize = 0;
    while i < x.len()
        invariant
            i <= x@.len(),
            out@.len() == i,
            forall|j: int| 0 <= j < i ==> (#[trigger] x@[j]).0@ == out@[j].0@ && same_value(x@[j].1, out@[j].1),
        decreases x@.len() - i,
    {
        proof {
            assert(decreases_to!(*x => x[i as int]));
            assert(decreases_to!(x[i as int] => x[i as int].1));
        }
        let c = clone_value(&x[i].1);
        out.push((x[i].0.clone(), c));
        i = i + 1;
    }
    out
}

/// What the derived `Debug` prints for a value: the variant name with its
/// contents in brackets, strings quoted and escaped, list items and object
/// entries separated by `, `. An instant outside chrono's range shows its
/// milliseconds.
pub open spec fn value_debug(v: ConfigValue) -> Seq<char>
    decreases v, 2nat,
{
    match v {
        ConfigValue::String(x) => "String("@ + debug_quoted(x@) + ")"@,
        ConfigValue::Integer(x) => "Integer("@ + signed_decimal_spec(x as int) + ")"@,
        ConfigValue::Float { text, .. } => "Float("@ + text@ + ")"@,
        ConfigValue::Boolean(x) => "Boolean("@ + (if x { "true"@ } else { "false"@ }) + ")"@,
        ConfigValue::DateTime(x) => "DateTime("@ + (match instant_debug_text(x) {
            Some(t) => t,
            None => signed_decimal_spec(x as int),
        }) + ")"@,
        ConfigValue::Duration(x) => "Duration("@ + duration_debug_text(x) + ")"@,
        ConfigValue::List(x) => "List("@ + items_debug(x@) + ")"@,
        ConfigValue::Object(x) => "Object({"@ + entries_debug(x@) + "})"@,
        ConfigValue::Null => "Null"@,
    }
}

/// The `Debug` text of a list of values: brackets around the items.
pub open spec fn items_debug(s: Seq<ConfigValue>) -> Seq<char>
    decreases s, 1nat,
{
    "["@ + items_text(s) + "]"@
}

/// The items' `Debug` texts separated by `, `.
pub open spec fn items_text(s: Seq<ConfigValue>) -> Seq<char>
    decreases s, 0nat,
{
    if s.len() == 0 {
        Seq::empty()
    } else {
        proof {
            assert(decreases_to!(s => s[s.len() - 1]));
            assert(decreases_to!(s => s.drop_last()));
        }
        if s.len() == 1 {
            value_debug(s.last())
        } else {
            items_text(s.drop_last()) + ", "@ + value_debug(s.last())
        }
    }
}

/// Object entries as `"key": value`, separated by `, `.
pub open spec fn entries_debug(s: Seq<(String, ConfigValue)>) -> Seq<char>
    decreases s, 0nat,
{
    if s.len() == 0 {
        Seq::empty()
    } else {
        proof {
            assert(decreases_to!(s => s[s.len() - 1]));
            assert(decreases_to!(s[s.len() - 1] => s[s.len() - 1].1));
            assert(decreases_to!(s => s.drop_last()));
        }
        let e = debug_quoted(s.last().0@) + ": "@ + value_debug(s.last().1);
        if s.len() == 1 {
            e
        } else {
            entries_debug(s.drop_last()) + ", "@ + e
        }
    }
}

/// The `Debug` text of a value, as `value_debug` gives it.
pub fn debug_value(v: &ConfigValue) -> (r: String)
    ensures
        r@ == value_debug(*v),
    decreases *v, 1nat,
{
    match v {
        ConfigValue::String(x) => {
            let mut out = owned("String(");
            let q = debug_str(x.as_str());
            push_str(&mut out, q.as_str());
            push_str(&mut out, ")");
            out
        },
        ConfigValue::Integer(x) => {
            let mut out = owned("Integer(");
            let d = i64_to_decimal(*x);
            push_str(&mut out, d.as_str());
            push_str(&mut out, ")");
            out
        },
        ConfigValue::Float { text, .. } => {
            let mut out = owned("Float(");
            push_str(&mut out, text.as_str());
            push_str(&mut out, ")");
            out
        },
        ConfigValue::Boolean(x) => {
            let mut out = owned("Boolean(");
            push_str(&mut out, if *x { "true" } else { "false" });
            push_str(&mut out, ")");
            out
        },
        ConfigValue::DateTime(x) => {
            let mut out = owned("DateTime(");
            let t = match debug_instant(*x) {
                Some(t) => t,
                None => i64_to_decimal(*x),
            };
            push_str(&mut out, t.as_str());
            push_str(&mut out, ")");
            out
        },
        ConfigValue::Duration(x) => {
            let mut out = owned("Duration(");
            let t = debug_duration(*x);
            push_str(&mut out, t.as_str());
            push_str(&mut out, ")");
            out
        },
        ConfigValue::List(x) => {
            let mut out = owned("List(");
            let t = debug_items(x);
            push_str(&mut out, t.as_str());
            push_str(&mut out, ")");
            out
        },
        ConfigValue::Object(x) => {
            let mut out = owned("Object({");
            let t = debug_entries(x);
            push_str(&mut out, t.as_str());
            push_str(&mut out, "})");
            out
        },
        ConfigValue::Null => owned("Null"),
    }
}

/// The `Debug` text of a list of values.
pub fn debug_items(x: &Vec<ConfigValue>) -> (r: String)
    ensures
        r@ == items_debug(x@),
    decreases *x, 0nat,
{
    let mut out = String::new();
    let mut i: usize = 0;
    while i < x.len()
        invariant
            i <= x@.len(),
            out@ == items_text(x@.subrange(0, i as int)),
        decreases x@.len() - i,
    {
        proof {
            assert(decreases_to!(*x => x[i as int]));
            let s = x@.subrange(0, i + 1);
            assert(s.drop_last() =~= x@.subrange(0, i as int));
            assert(s.last() == x@[i as int]);
        }
        if i > 0 {
            push_str(&mut out, ", ");
        }
        let d = debug_value(&x[i]);
        push_str(&mut out, d.as_str());
        i = i + 1;
    }
    assert(x@.subrange(0, i as int) =~= x@);
    let mut r = owned("[");
    push_str(&mut r, out.as_str());
    push_str(&mut r, "]");
    r
}

/// The `Debug` text of the entries of an object.
fn debug_entries(x: &Vec<(String, ConfigValue)>) -> (r: String)
    ensures
        r@ == entries_debug(x@),
    decreases *x, 0nat,
{
    let mut out = String::new();
    let mut i: usize = 0;
    while i < x.len()
        invariant
            i <= x@.len(),
            out@ == entries_debug(x@.subrange(0, i as int)),
        decreases x@.len() - i,
    {
        proof {
            assert(decreases_to!(*x => x[i as int]));
            assert(decreases_to!(x[i as int] => x[i as int].1));
            let s = x@.subrange(0, i + 1);
            assert(s.drop_last() =~= x@.subrange(0, i as int));
            assert(s.last() == x@[i as int]);
        }
        if i > 0 {
            push_str(&mut out, ", ");
        }
        let k = debug_str(x[i].0.as_str());
        push_str(&mut out, k.as_str());
        push_str(&mut out, ": ");
        let d = debug_value(&x[i].1);
        push_str(&mut out, d.as_str());
        i = i + 1;
    }
    assert(x@.subrange(0, i as int) =~= x@);
    out
}

/// A copy keeps each object's keys distinct.
pub proof fn lemma_same_value_wf(a: ConfigValue, b: ConfigValue)
    requires
        same_value(a, b),
        objects_wf(a),
    ensures
        objects_wf(b),
    decreases a,
{
    match a {
        ConfigValue::List(x) => {
            let y = b->List_0;
            assert forall|i: int| 0 <= i < y@.len() implies objects_wf(#[trigger] y@[i]) by {
                assert(decreases_to!(a => x));
                assert(decreases_to!(x => x@[i]));
                lemma_list_item_wf(x, i);
                lemma_same_value_wf(x@[i], y@[i]);
            }
        },
        ConfigValue::Object(x) => {
            let y = b->Object_0;
            assert forall|i: int, j: int| 0 <= i < y@.len() && 0 <= j < y@.len() && i != j implies y@[i].0@ != y@[j].0@ by {
                assert(x@[i].0@ == y@[i].0@ && x@[j].0@ == y@[j].0@);
            }
            assert forall|i: int| 0 <= i < y@.len() implies objects_wf(#[trigger] y@[i].1) by {
                assert(decreases_to!(a => x));
                assert(decreases_to!(x => x@[i]));
                assert(decreases_to!(x@[i] => x@[i].1));
                assert(objects_wf(x@[i].1));
                lemma_same_value_wf(x@[i].1, y@[i].1);
            }
        },
        _ => {},
    }
}

} // verus!
