//! Log formatters: plain text, coloured text, templates and a compact
//! form. Floating-point field values are rendered by a function the
//! caller supplies; instants are rendered through chrono.

use vstd::prelude::*;
use crate::clock::{format_instant, formatted_instant, rfc3339_instant, rfc3339_text};
use crate::error::types::AppError;
use crate::parse::{lemma_decimal_reads_back, lemma_signed_decimal_reads_back, parse_i64_spec};
use crate::logging::traits::{bool_word, FormatterMetadata, LogContext, LogFieldValue, LogLevel, LogScope, SimpleLogRecord};
use crate::parse::{trim, trim_spec};
use crate::text::{chars_of, skip_chars, contains, contains_spec, decimal_spec, find, i64_to_decimal, join, join_spec, owned, push_str, replace_all, replace_spec, signed_decimal_spec, string_from_chars, string_views, u64_to_decimal};

verus! {

/// The texts a float renderer gives, when it gives one text per bit
/// pattern.
pub open spec fn rendered<R: Fn(u64) -> String>(render: R) -> spec_fn(u64) -> Seq<char> {
    |b: u64| (choose|t: String| render.ensures((b,), t))@
}

/// The renderer gives the same text for the same bits.
pub open spec fn deterministic<R: Fn(u64) -> String>(render: R) -> bool {
    forall|b: u64, t1: String, t2: String| render.ensures((b,), t1) && render.ensures((b,), t2) ==> t1@ == t2@
}

/// `ft` says what the renderer gives.
pub open spec fn renders_as<R: Fn(u64) -> String>(render: R, ft: spec_fn(u64) -> Seq<char>) -> bool {
    forall|b: u64, t: String| render.ensures((b,), t) ==> t@ == ft(b)
}

/// A deterministic renderer renders as `rendered` says.
pub proof fn lemma_rendered<R: Fn(u64) -> String>(render: R)
    requires
        deterministic(render),
    ensures
        renders_as(render, rendered(render)),
{
    assert forall|b: u64, t: String| render.ensures((b,), t) implies t@ == rendered(render)(b) by {
        let c = choose|t: String| render.ensures((b,), t);
        assert(render.ensures((b,), c));
    }
}

/// How field values are written: the plain-text formatter quotes strings;
/// the template formatter writes them bare; both write instants as
/// `%Y-%m-%d %H:%M:%S` and object entries as `key: value`. The default
/// formatter writes strings bare, instants in RFC 3339 and object entries
/// as `key=value`.
#[derive(Debug, Clone, Copy, PartialEq, Eq, Structural)]
pub enum FieldStyle {
    Quoted,
    Bare,
    KeyValue,
}

/// How a field value reads in the text formats, in a style: floats as
/// `ft` renders their bits, durations in milliseconds, lists in brackets
/// and objects in braces with `, ` between items. `None` when an instant
/// is outside chrono's range.
pub open spec fn field_text(v: LogFieldValue, style: FieldStyle, ft: spec_fn(u64) -> Seq<char>) -> Option<Seq<char>>
    decreases v, 1nat,
{
    match v {
        LogFieldValue::String(s) => Some(if style == FieldStyle::Quoted { "\""@ + s@ + "\""@ } else { s@ }),
        LogFieldValue::Integer(i) => Some(signed_decimal_spec(i as int)),
        LogFieldValue::Float(b) => Some(ft(b)),
        LogFieldValue::Boolean(b) => Some(if b { "true"@ } else { "false"@ }),
        LogFieldValue::DateTime(ms) => if style == FieldStyle::KeyValue {
            rfc3339_text(ms)
        } else {
            formatted_instant(ms, "%Y-%m-%d %H:%M:%S"@)
        },
        LogFieldValue::Duration(ms) => Some(decimal_spec(ms as nat) + "ms"@),
        LogFieldValue::Array(items) => match items_text(items@, style, ft) {
            Some(t) => Some("["@ + t + "]"@),
            None => None,
        },
        LogFieldValue::Object(pairs) => match pairs_text(pairs@, style, ft, if style == FieldStyle::KeyValue { "="@ } else { ": "@ }, ", "@) {
            Some(t) => Some("{"@ + t + "}"@),
            None => None,
        },
        LogFieldValue::Null => Some("null"@),
    }
}

/// The items' texts separated by `, `.
pub open spec fn items_text(s: Seq<LogFieldValue>, style: FieldStyle, ft: spec_fn(u64) -> Seq<char>) -> Option<Seq<char>>
    decreases s, 0nat,
{
    if s.len() == 0 {
        Some(Seq::empty())
    } else {
        proof {
            assert(decreases_to!(s => s[s.len() - 1]));
            assert(decreases_to!(s => s.drop_last()));
        }
        match (items_text(s.drop_last(), style, ft), field_text(s.last(), style, ft)) {
            (Some(a), Some(b)) => Some(if s.len() == 1 { b } else { a + ", "@ + b }),
            _ => None,
        }
    }
}

/// Key/value pairs as key, `mid`, the value's text, separated by `sep`.
pub open spec fn pairs_text(s: Seq<(String, LogFieldValue)>, style: FieldStyle, ft: spec_fn(u64) -> Seq<char>, mid: Seq<char>, sep: Seq<char>) -> Option<Seq<char>>
    decreases s, 0nat,
{
    if s.len() == 0 {
        Some(Seq::empty())
    } else {
        proof {
            assert(decreases_to!(s => s[s.len() - 1]));
            assert(decreases_to!(s[s.len() - 1] => s[s.len() - 1].1));
            assert(decreases_to!(s => s.drop_last()));
        }
        match (pairs_text(s.drop_last(), style, ft, mid, sep), field_text(s.last().1, style, ft)) {
            (Some(a), Some(b)) => {
                let e = s.last().0@ + mid + b;
                Some(if s.len() == 1 { e } else { a + sep + e })
            },
            _ => None,
        }
    }
}

/// The text of a field value, as `field_text` gives it.
pub(crate) fn render_field<R: Fn(u64) -> String>(v: &LogFieldValue, style: FieldStyle, render: &R, Ghost(ft): Ghost<spec_fn(u64) -> Seq<char>>) -> (r: Option<String>)
    requires
        forall|b: u64| render.requires((b,)),
    ensures
        renders_as(*render, ft) ==> match r {
            Some(s) => field_text(*v, style, ft) == Some(s@),
            None => field_text(*v, style, ft) is None,
        },
    decreases *v, 1nat,
{
    match v {
        LogFieldValue::String(s) => {
            if style == FieldStyle::Quoted {
                let mut out = owned("\"");
                push_str(&mut out, s.as_str());
                push_str(&mut out, "\"");
                Some(out)
            } else {
                Some(s.clone())
            }
        },
        LogFieldValue::Integer(i) => Some(i64_to_decimal(*i)),
        LogFieldValue::Float(b) => Some(render(*b)),
        LogFieldValue::Boolean(b) => Some(owned(if *b { "true" } else { "false" })),
        LogFieldValue::DateTime(ms) => if style == FieldStyle::KeyValue {
            rfc3339_instant(*ms)
        } else {
            format_instant(*ms, "%Y-%m-%d %H:%M:%S")
        },
        LogFieldValue::Duration(ms) => {
            let mut out = u64_to_decimal(*ms);
            push_str(&mut out, "ms");
            Some(out)
        },
        LogFieldValue::Array(items) => {
            match render_items(items, style, render, Ghost(ft)) {
                Some(t) => {
                    let mut out = owned("[");
                    push_str(&mut out, t.as_str());
                    push_str(&mut out, "]");
                    Some(out)
                },
                None => None,
            }
        },
        LogFieldValue::Object(pairs) => {
            let mid: &str = if style == FieldStyle::KeyValue { "=" } else { ": " };
            match render_pairs(pairs, style, render, mid, ", ", Ghost(ft)) {
                Some(t) => {
                    let mut out = owned("{");
                    push_str(&mut out, t.as_str());
                    push_str(&mut out, "}");
                    Some(out)
                },
                None => None,
            }
        },
        LogFieldValue::Null => Some(owned("null")),
    }
}

/// The items' texts separated by `, `.
fn render_items<R: Fn(u64) -> String>(items: &Vec<LogFieldValue>, style: FieldStyle, render: &R, Ghost(ft): Ghost<spec_fn(u64) -> Seq<char>>) -> (r: Option<String>)
    requires
        forall|b: u64| render.requires((b,)),
    ensures
        renders_as(*render, ft) ==> match r {
            Some(s) => items_text(items@, style, ft) == Some(s@),
            None => items_text(items@, style, ft) is None,
        },
    decreases *items, 0nat,
{
    let mut out = String::new();
    let mut i: usize = 0;
    while i < items.len()
        invariant
            i <= items@.len(),
            forall|b: u64| render.requires((b,)),
            renders_as(*render, ft) ==> items_text(items@.subrange(0, i as int), style, ft) == Some(out@),
        decreases items@.len() - i,
    {
        proof {
            assert(decreases_to!(*items => items[i as int]));
            let s = items@.subrange(0, i + 1);
            assert(s.drop_last() =~= items@.subrange(0, i as int));
            assert(s.last() == items@[i as int]);
        }
        let t = render_field(&items[i], style, render, Ghost(ft));
        match t {
            Some(t) => {
                if i > 0 {
                    push_str(&mut out, ", ");
                }
                push_str(&mut out, t.as_str());
            },
            None => {
                proof {
                    if renders_as(*render, ft) {
                        lemma_items_none(items@, i as int, style, ft);
                    }
                }
                return None;
            },
        }
        i = i + 1;
    }
    assert(items@.subrange(0, i as int) =~= items@);
    Some(out)
}

/// Once an item has no text, no longer list of them has one.
proof fn lemma_items_none(s: Seq<LogFieldValue>, i: int, style: FieldStyle, ft: spec_fn(u64) -> Seq<char>)
    requires
        0 <= i < s.len(),
        field_text(s[i], style, ft) is None,
    ensures
        items_text(s, style, ft) is None,
    decreases s.len(),
{
    if i < s.len() - 1 {
        lemma_items_none(s.drop_last(), i, style, ft);
    }
}

/// Once a value has no text, no longer list of pairs has one.
proof fn lemma_pairs_none(s: Seq<(String, LogFieldValue)>, i: int, style: FieldStyle, ft: spec_fn(u64) -> Seq<char>, mid: Seq<char>, sep: Seq<char>)
    requires
        0 <= i < s.len(),
        field_text(s[i].1, style, ft) is None,
    ensures
        pairs_text(s, style, ft, mid, sep) is None,
    decreases s.len(),
{
    if i < s.len() - 1 {
        lemma_pairs_none(s.drop_last(), i, style, ft, mid, sep);
    }
}

/// Key/value pairs as key, `mid`, the value's text, separated by `sep`.
pub(crate) fn render_pairs<R: Fn(u64) -> String>(pairs: &Vec<(String, LogFieldValue)>, style: FieldStyle, render: &R, mid: &str, sep: &str, Ghost(ft): Ghost<spec_fn(u64) -> Seq<char>>) -> (r: Option<String>)
    requires
        forall|b: u64| render.requires((b,)),
    ensures
        renders_as(*render, ft) ==> match r {
            Some(s) => pairs_text(pairs@, style, ft, mid@, sep@) == Some(s@),
            None => pairs_text(pairs@, style, ft, mid@, sep@) is None,
        },
    decreases *pairs, 0nat,
{
    let mut out = String::new();
    let mut i: usize = 0;
    while i < pairs.len()
        invariant
            i <= pairs@.len(),
            forall|b: u64| render.requires((b,)),
            renders_as(*render, ft) ==> pairs_text(pairs@.subrange(0, i as int), style, ft, mid@, sep@) == Some(out@),
        decreases pairs@.len() - i,
    {
        proof {
            assert(decreases_to!(*pairs => pairs[i as int]));
            assert(decreases_to!(pairs[i as int] => pairs[i as int].1));
            let s = pairs@.subrange(0, i + 1);
            assert(s.drop_last() =~= pairs@.subrange(0, i as int));
            assert(s.last() == pairs@[i as int]);
        }
        let t = render_field(&pairs[i].1, style, render, Ghost(ft));
        match t {
            Some(t) => {
                if i > 0 {
                    push_str(&mut out, sep);
                }
                push_str(&mut out, pairs[i].0.as_str());
                push_str(&mut out, mid);
                push_str(&mut out, t.as_str());
            },
            None => {
                proof {
                    if renders_as(*render, ft) {
                        lemma_pairs_none(pairs@, i as int, style, ft, mid@, sep@);
                    }
                }
                return None;
            },
        }
        i = i + 1;
    }
    assert(pairs@.subrange(0, i as int) =~= pairs@);
    Some(out)
}

/// The settings of the plain-text formatter.
pub struct SimpleSettings {
    pub include_timestamp: bool,
    pub include_level: bool,
    pub include_target: bool,
    pub timestamp_format: Seq<char>,
}

/// The parts of a plain-text line, in order: the timestamp, level and
/// target when included, the message, and the record's fields in brackets
/// when it has any. `None` when an instant cannot be rendered: outside
/// chrono's range, or under a timestamp pattern that chrono cannot render.
pub open spec fn simple_parts(st: SimpleSettings, rec: SimpleLogRecord, ft: spec_fn(u64) -> Seq<char>) -> Option<Seq<Seq<char>>> {
    let ts = formatted_instant(rec.timestamp, st.timestamp_format);
    let fields = pairs_text(rec.fields@, FieldStyle::Quoted, ft, "="@, ", "@);
    if (st.include_timestamp && ts is None) || fields is None {
        None
    } else {
        Some((if st.include_timestamp { seq![ts->0] } else { Seq::empty() })
            + (if st.include_level { seq![rec.level.spec_as_str()] } else { Seq::empty() })
            + (if st.include_target { seq![rec.target@] } else { Seq::empty() })
            + seq![rec.message@]
            + (if rec.fields@.len() > 0 { seq!["["@ + fields->0 + "]"@] } else { Seq::empty() }))
    }
}

/// A plain-text line: its parts joined by ` - `.
pub open spec fn simple_line(st: SimpleSettings, rec: SimpleLogRecord, ft: spec_fn(u64) -> Seq<char>) -> Option<Seq<char>> {
    match simple_parts(st, rec, ft) {
        Some(p) => Some(join_spec(p, " - "@)),
        None => None,
    }
}

/// The scope names of a context.
pub open spec fn scope_names(scopes: Seq<LogScope>) -> Seq<Seq<char>> {
    scopes.map_values(|sc: LogScope| sc.name@)
}

/// A plain-text line followed by the context's fields (` | ctx: ` and
/// `key=value` pairs) and scopes (` | scopes: ` and the names joined by
/// ` -> `), each when there are any.
pub open spec fn simple_line_with_context(st: SimpleSettings, rec: SimpleLogRecord, ctx: LogContext, ft: spec_fn(u64) -> Seq<char>) -> Option<Seq<char>> {
    let cf = pairs_text(ctx.fields@, FieldStyle::Quoted, ft, "="@, ", "@);
    match (simple_line(st, rec, ft), cf) {
        (Some(base), Some(c)) => Some(base
            + (if ctx.fields@.len() > 0 { " | ctx: "@ + c } else { Seq::empty() })
            + (if ctx.scopes@.len() > 0 { " | scopes: "@ + join_spec(scope_names(ctx.scopes@), " -> "@) } else { Seq::empty() })),
        _ => None,
    }
}

/// The error of an instant that cannot be rendered.
pub open spec fn instant_error(e: AppError) -> bool {
    e matches AppError::Logging { message, field } && message@ == "Timestamp cannot be rendered"@ && field@ == "timestamp"@
}

/// An error for an instant that cannot be rendered.
pub(crate) fn instant_out_of_range() -> (e: AppError)
    ensures
        instant_error(e),
{
    AppError::Logging { message: owned("Timestamp cannot be rendered"), field: owned("timestamp") }
}

/// Human-readable one-line records.
pub struct SimpleFormatter {
    include_timestamp: bool,
    include_level: bool,
    include_target: bool,
    timestamp_format: String,
    metadata: FormatterMetadata,
}

/// The description of a formatter.
pub open spec fn formatter_meta(m: FormatterMetadata, name: Seq<char>, description: Seq<char>, format_type: Seq<char>, colors: bool, structured: bool) -> bool {
    &&& m.name@ == name
    &&& m.version@ == "1.0.0"@
    &&& m.description@ == description
    &&& m.format_type@ == format_type
    &&& m.supports_colors == colors
    &&& m.supports_structured == structured
}

impl SimpleFormatter {
    /// The settings.
    pub closed spec fn settings(&self) -> SimpleSettings {
        SimpleSettings {
            include_timestamp: self.include_timestamp,
            include_level: self.include_level,
            include_target: self.include_target,
            timestamp_format: self.timestamp_format@,
        }
    }

    /// The description.
    pub closed spec fn spec_metadata(&self) -> FormatterMetadata {
        self.metadata
    }

    /// Timestamp, level and target included; timestamps as
    /// `%Y-%m-%d %H:%M:%S%.3f`.
    pub fn new() -> (r: SimpleFormatter)
        ensures
            r.settings() == (SimpleSettings { include_timestamp: true, include_level: true, include_target: true, timestamp_format: "%Y-%m-%d %H:%M:%S%.3f"@ }),
            formatter_meta(r.spec_metadata(), "simple"@, "Simple human-readable log formatter"@, "text"@, false, false),
    {
        SimpleFormatter {
            include_timestamp: true,
            include_level: true,
            include_target: true,
            timestamp_format: owned("%Y-%m-%d %H:%M:%S%.3f"),
            metadata: FormatterMetadata {
                name: owned("simple"),
                version: owned("1.0.0"),
                description: owned("Simple human-readable log formatter"),
                format_type: owned("text"),
                supports_colors: false,
                supports_structured: false,
            },
        }
    }

    /// Another timestamp format.
    pub fn with_timestamp_format(self, format: String) -> (r: SimpleFormatter)
        ensures
            r.settings() == (SimpleSettings { timestamp_format: format@, ..self.settings() }),
            r.spec_metadata() == self.spec_metadata(),
    {
        SimpleFormatter { timestamp_format: format, ..self }
    }

    /// Whether lines carry the timestamp.
    pub fn with_timestamp(self, on: bool) -> (r: SimpleFormatter)
        ensures
            r.settings() == (SimpleSettings { include_timestamp: on, ..self.settings() }),
            r.spec_metadata() == self.spec_metadata(),
    {
        SimpleFormatter { include_timestamp: on, ..self }
    }

    /// Whether lines carry the level.
    pub fn with_level(self, on: bool) -> (r: SimpleFormatter)
        ensures
            r.settings() == (SimpleSettings { include_level: on, ..self.settings() }),
            r.spec_metadata() == self.spec_metadata(),
    {
        SimpleFormatter { include_level: on, ..self }
    }

    /// Whether lines carry the target.
    pub fn with_target(self, on: bool) -> (r: SimpleFormatter)
        ensures
            r.settings() == (SimpleSettings { include_target: on, ..self.settings() }),
            r.spec_metadata() == self.spec_metadata(),
    {
        SimpleFormatter { include_target: on, ..self }
    }

    /// The description.
    pub fn metadata(&self) -> (r: &FormatterMetadata)
        ensures
            *r == self.spec_metadata(),
    {
        &self.metadata
    }

    /// The record as one line, floats rendered by `render`.
    pub fn format<R: Fn(u64) -> String>(&self, record: &SimpleLogRecord, render: &R) -> (r: Result<String, AppError>)
        requires
            forall|b: u64| render.requires((b,)),
        ensures
            deterministic(*render) ==> match simple_line(self.settings(), *record, rendered(*render)) {
                Some(t) => r matches Ok(s) && s@ == t,
                None => r matches Err(e) && instant_error(e),
            },
    {
        let mut parts: Vec<String> = Vec::new();
        let ghost st = self.settings();
        if self.include_timestamp {
            match format_instant(record.timestamp, self.timestamp_format.as_str()) {
                Some(t) => parts.push(t),
                None => return Err(instant_out_of_range()),
            }
        }
        if self.include_level {
            parts.push(owned(record.level.as_str()));
        }
        if self.include_target {
            parts.push(record.target.clone());
        }
        parts.push(record.message.clone());
        proof {
            if deterministic(*render) {
                lemma_rendered(*render);
            }
        }
        let fields = render_pairs(&record.fields, FieldStyle::Quoted, render, "=", ", ", Ghost(rendered(*render)));
        let fields_text = match fields {
            Some(t) => t,
            None => return Err(instant_out_of_range()),
        };
        if record.fields.len() > 0 {
            let mut f = owned("[");
            push_str(&mut f, fields_text.as_str());
            push_str(&mut f, "]");
            parts.push(f);
        }
        let line = join(&parts, " - ");
        proof {
            if deterministic(*render) {
                let p = simple_parts(st, *record, rendered(*render));
                assert(parts@.map_values(|p: String| p@) =~= p->0);
            }
        }
        Ok(line)
    }

    /// The record as one line followed by the context's fields and scopes,
    /// floats rendered by `render`.
    pub fn format_with_context<R: Fn(u64) -> String>(&self, record: &SimpleLogRecord, context: &LogContext, render: &R) -> (r: Result<String, AppError>)
        requires
            forall|b: u64| render.requires((b,)),
        ensures
            deterministic(*render) ==> match simple_line_with_context(self.settings(), *record, *context, rendered(*render)) {
                Some(t) => r matches Ok(s) && s@ == t,
                None => r matches Err(e) && instant_error(e),
            },
    {
        proof {
            if deterministic(*render) {
                lemma_rendered(*render);
            }
        }
        let mut out = match self.format(record, render) {
            Ok(s) => s,
            Err(e) => return Err(e),
        };
        let cf = match render_pairs(&context.fields, FieldStyle::Quoted, render, "=", ", ", Ghost(rendered(*render))) {
            Some(t) => t,
            None => return Err(instant_out_of_range()),
        };
        if context.fields.len() > 0 {
            push_str(&mut out, " | ctx: ");
            push_str(&mut out, cf.as_str());
        }
        if context.scopes.len() > 0 {
            let mut names: Vec<String> = Vec::new();
            let mut i: usize = 0;
            while i < context.scopes.len()
                invariant
                    i <= context.scopes@.len(),
                    names@.map_values(|p: String| p@) == scope_names(context.scopes@.subrange(0, i as int)),
                decreases context.scopes@.len() - i,
            {
                let ghost before = names@;
                names.push(context.scopes[i].name.clone());
                assert(names@.map_values(|p: String| p@) =~= before.map_values(|p: String| p@).push(context.scopes@[i as int].name@));
                assert(scope_names(context.scopes@.subrange(0, i + 1)) =~= scope_names(context.scopes@.subrange(0, i as int)).push(context.scopes@[i as int].name@));
                i = i + 1;
            }
            assert(context.scopes@.subrange(0, i as int) =~= context.scopes@);
            let joined = join(&names, " -> ");
            push_str(&mut out, " | scopes: ");
            push_str(&mut out, joined.as_str());
        }
        Ok(out)
    }
}

impl Default for SimpleFormatter {
    /// The formatter `new` makes.
    fn default() -> (r: SimpleFormatter)
        ensures
            r.settings() == (SimpleSettings { include_timestamp: true, include_level: true, include_target: true, timestamp_format: "%Y-%m-%d %H:%M:%S%.3f"@ }),
    {
        SimpleFormatter::new()
    }
}

/// The last of the pieces that splitting at `::` from the left gives.
pub open spec fn last_piece(s: Seq<char>) -> Seq<char>
    decreases s.len(),
{
    if s.len() < 2 {
        s
    } else if s[0] == ':' && s[1] == ':' {
        last_piece(s.skip(2))
    } else {
        let r = last_piece(s.skip(1));
        if r.len() == s.len() - 1 { s } else { r }
    }
}

/// The last piece is a suffix.
proof fn lemma_last_piece_suffix(s: Seq<char>)
    ensures
        last_piece(s).len() <= s.len(),
        last_piece(s) == s.skip(s.len() - last_piece(s).len()),
    decreases s.len(),
{
    if s.len() < 2 {
        assert(s.skip(0) =~= s);
    } else if s[0] == ':' && s[1] == ':' {
        lemma_last_piece_suffix(s.skip(2));
        assert(s.skip(2).skip(s.skip(2).len() - last_piece(s.skip(2)).len()) =~= s.skip(s.len() - last_piece(s.skip(2)).len()));
    } else {
        lemma_last_piece_suffix(s.skip(1));
        assert(s.skip(1).skip(s.skip(1).len() - last_piece(s.skip(1)).len()) =~= s.skip(s.len() - last_piece(s.skip(1)).len()));
        assert(s.skip(0) =~= s);
    }
}

/// Where the last `::` piece of `v` from `i` on begins.
fn piece_start(v: &Vec<char>, i: usize) -> (k: usize)
    requires
        i <= v@.len(),
    ensures
        i <= k <= v@.len(),
        v@.skip(k as int) == last_piece(v@.skip(i as int)),
    decreases v@.len() - i,
{
    if v.len() - i < 2 {
        return i;
    }
    let ghost s = v@.skip(i as int);
    assert(s[0] == v@[i as int] && s[1] == v@[i + 1]);
    if v[i] == ':' && v[i + 1] == ':' {
        assert(s.skip(2) =~= v@.skip(i + 2));
        piece_start(v, i + 2)
    } else {
        assert(s.skip(1) =~= v@.skip(i + 1));
        let k = piece_start(v, i + 1);
        if k == i + 1 {
            i
        } else {
            proof {
                lemma_last_piece_suffix(s.skip(1));
            }
            k
        }
    }
}

/// The one-letter mark of each level.
pub open spec fn level_mark(l: LogLevel) -> char {
    match l {
        LogLevel::Trace => 'T',
        LogLevel::Debug => 'D',
        LogLevel::Info => 'I',
        LogLevel::Warn => 'W',
        LogLevel::Error => 'E',
        LogLevel::Fatal => 'F',
    }
}

/// A compact line: the time as `%H%M%S%.3f`, the level's letter, the last
/// `::` piece of the target and the message, separated by spaces.
pub open spec fn compact_line(rec: SimpleLogRecord) -> Option<Seq<char>> {
    match formatted_instant(rec.timestamp, "%H%M%S%.3f"@) {
        Some(t) => Some(t + " "@ + seq![level_mark(rec.level)] + " "@ + last_piece(rec.target@) + " "@ + rec.message@),
        None => None,
    }
}

/// Short lines for heavy logging.
pub struct CompactFormatter {
    metadata: FormatterMetadata,
}

impl CompactFormatter {
    /// The description.
    pub closed spec fn spec_metadata(&self) -> FormatterMetadata {
        self.metadata
    }

    /// The compact formatter.
    pub fn new() -> (r: CompactFormatter)
        ensures
            formatter_meta(r.spec_metadata(), "compact"@, "Compact high-performance log formatter"@, "compact"@, false, false),
    {
        CompactFormatter {
            metadata: FormatterMetadata {
                name: owned("compact"),
                version: owned("1.0.0"),
                description: owned("Compact high-performance log formatter"),
                format_type: owned("compact"),
                supports_colors: false,
                supports_structured: false,
            },
        }
    }

    /// The record as a compact line.
    pub fn format(&self, record: &SimpleLogRecord) -> (r: Result<String, AppError>)
        ensures
            match compact_line(*record) {
                Some(t) => r matches Ok(s) && s@ == t,
                None => r matches Err(e) && instant_error(e),
            },
    {
        let mut out = match format_instant(record.timestamp, "%H%M%S%.3f") {
            Some(t) => t,
            None => return Err(instant_out_of_range()),
        };
        let mark: &str = match record.level {
            LogLevel::Trace => "T",
            LogLevel::Debug => "D",
            LogLevel::Info => "I",
            LogLevel::Warn => "W",
            LogLevel::Error => "E",
            LogLevel::Fatal => "F",
        };
        proof {
            reveal_strlit("T");
            reveal_strlit("D");
            reveal_strlit("I");
            reveal_strlit("W");
            reveal_strlit("E");
            reveal_strlit("F");
        }
        push_str(&mut out, " ");
        push_str(&mut out, mark);
        push_str(&mut out, " ");
        let v = chars_of(record.target.as_str());
        let k = piece_start(&v, 0);
        assert(v@.skip(0) =~= v@);
        let mut tail: Vec<char> = Vec::new();
        let mut j: usize = k;
        while j < v.len()
            invariant
                k <= j <= v@.len(),
                tail@ == v@.subrange(k as int, j as int),
            decreases v@.len() - j,
        {
            tail.push(v[j]);
            assert(v@.subrange(k as int, j + 1) =~= v@.subrange(k as int, j as int).push(v@[j as int]));
            j = j + 1;
        }
        assert(tail@ =~= v@.skip(k as int));
        let short = string_from_chars(tail.as_slice());
        push_str(&mut out, short.as_str());
        push_str(&mut out, " ");
        push_str(&mut out, record.message.as_str());
        Ok(out)
    }

    /// The record as a compact line; the context is left out.
    pub fn format_with_context(&self, record: &SimpleLogRecord, context: &LogContext) -> (r: Result<String, AppError>)
        ensures
            match compact_line(*record) {
                Some(t) => r matches Ok(s) && s@ == t,
                None => r matches Err(e) && instant_error(e),
            },
    {
        self.format(record)
    }

    /// The description.
    pub fn metadata(&self) -> (r: &FormatterMetadata)
        ensures
            *r == self.spec_metadata(),
    {
        &self.metadata
    }
}

impl Default for CompactFormatter {
    /// The compact formatter.
    fn default() -> (r: CompactFormatter)
        ensures
            formatter_meta(r.spec_metadata(), "compact"@, "Compact high-performance log formatter"@, "compact"@, false, false),
    {
        CompactFormatter::new()
    }
}

/// `t` with each `{` prefix key `}` placeholder of the fields, in order,
/// replaced by the field's text (strings unquoted).
pub open spec fn replace_fields(t: Seq<char>, fields: Seq<(String, LogFieldValue)>, prefix: Seq<char>, ft: spec_fn(u64) -> Seq<char>) -> Option<Seq<char>>
    decreases fields.len(),
{
    if fields.len() == 0 {
        Some(t)
    } else {
        match (replace_fields(t, fields.drop_last(), prefix, ft), field_text(fields.last().1, FieldStyle::Bare, ft)) {
            (Some(u), Some(x)) => Some(replace_spec(u, "{"@ + prefix + fields.last().0@ + "}"@, x)),
            _ => None,
        }
    }
}

/// The template with `{timestamp}` replaced by the record's time, which is
/// rendered only where the placeholder occurs; `None` when it occurs and
/// the time cannot be rendered.
pub open spec fn timestamp_filled(template: Seq<char>, millis: i64) -> Option<Seq<char>> {
    if contains_spec(template, "{timestamp}"@) {
        match formatted_instant(millis, "%Y-%m-%d %H:%M:%S%.3f"@) {
            Some(ts) => Some(replace_spec(template, "{timestamp}"@, ts)),
            None => None,
        }
    } else {
        Some(template)
    }
}

/// A template filled in: `{timestamp}`, `{level}`, `{target}` and
/// `{message}`, then the record's fields by key, then, with a context, its
/// fields as `{ctx.key}` and, when it has scopes, `{scopes}` as the scope
/// names joined by ` -> `.
pub open spec fn template_text(template: Seq<char>, rec: SimpleLogRecord, ctx: Option<LogContext>, ft: spec_fn(u64) -> Seq<char>) -> Option<Seq<char>> {
    match timestamp_filled(template, rec.timestamp) {
        None => None,
        Some(t1) => {
            let t2 = replace_spec(t1, "{level}"@, rec.level.spec_as_str());
            let t3 = replace_spec(t2, "{target}"@, rec.target@);
            let t4 = replace_spec(t3, "{message}"@, rec.message@);
            match replace_fields(t4, rec.fields@, Seq::empty(), ft) {
                None => None,
                Some(t5) => match ctx {
                    None => Some(t5),
                    Some(c) => match replace_fields(t5, c.fields@, "ctx."@, ft) {
                        None => None,
                        Some(t6) => Some(if c.scopes@.len() > 0 {
                            replace_spec(t6, "{scopes}"@, join_spec(scope_names(c.scopes@), " -> "@))
                        } else {
                            t6
                        }),
                    },
                },
            }
        },
    }
}

/// Fills the placeholders of the fields into `t`.
fn fill_fields<R: Fn(u64) -> String>(t: &str, fields: &Vec<(String, LogFieldValue)>, prefix: &str, render: &R, Ghost(ft): Ghost<spec_fn(u64) -> Seq<char>>) -> (r: Option<String>)
    requires
        forall|b: u64| render.requires((b,)),
    ensures
        renders_as(*render, ft) ==> match r {
            Some(s) => replace_fields(t@, fields@, prefix@, ft) == Some(s@),
            None => replace_fields(t@, fields@, prefix@, ft) is None,
        },
{
    let ghost t0 = t@;
    let mut cur = owned(t);
    let mut i: usize = 0;
    assert(fields@.subrange(0, 0).len() == 0);
    while i < fields.len()
        invariant
            i <= fields@.len(),
            forall|b: u64| render.requires((b,)),
            renders_as(*render, ft) ==> replace_fields(t0, fields@.subrange(0, i as int), prefix@, ft) == Some(cur@),
            t0 == t@,
        decreases fields@.len() - i,
    {
        let ghost sub = fields@.subrange(0, i + 1);
        assert(sub.drop_last() =~= fields@.subrange(0, i as int));
        assert(sub.last() == fields@[i as int]);
        let x = match render_field(&fields[i].1, FieldStyle::Bare, render, Ghost(ft)) {
            Some(x) => x,
            None => {
                proof {
                    if renders_as(*render, ft) {
                        assert(field_text(fields@[i as int].1, FieldStyle::Bare, ft) is None);
                        lemma_fill_none(t0, fields@, i as int, prefix@, ft);
                        assert(replace_fields(t0, fields@, prefix@, ft) is None);
                    }
                }
                return None;
            },
        };
        let mut placeholder = owned("{");
        push_str(&mut placeholder, prefix);
        push_str(&mut placeholder, fields[i].0.as_str());
        push_str(&mut placeholder, "}");
        cur = replace_all(cur.as_str(), placeholder.as_str(), x.as_str());
        i = i + 1;
    }
    assert(fields@.subrange(0, i as int) =~= fields@);
    Some(cur)
}

/// Once a field has no text, filling in any longer list of fields fails.
proof fn lemma_fill_none(t: Seq<char>, fields: Seq<(String, LogFieldValue)>, i: int, prefix: Seq<char>, ft: spec_fn(u64) -> Seq<char>)
    requires
        0 <= i < fields.len(),
        field_text(fields[i].1, FieldStyle::Bare, ft) is None,
    ensures
        replace_fields(t, fields, prefix, ft) is None,
    decreases fields.len(),
{
    if i < fields.len() - 1 {
        lemma_fill_none(t, fields.drop_last(), i, prefix, ft);
    }
}

/// Lines made by filling in a template.
pub struct TemplateFormatter {
    template: String,
    metadata: FormatterMetadata,
}

impl TemplateFormatter {
    /// The template.
    pub closed spec fn spec_template(&self) -> Seq<char> {
        self.template@
    }

    /// The description.
    pub closed spec fn spec_metadata(&self) -> FormatterMetadata {
        self.metadata
    }

    /// A formatter filling in `template`.
    pub fn new(template: String) -> (r: TemplateFormatter)
        ensures
            r.spec_template() == template@,
            formatter_meta(r.spec_metadata(), "template"@, "Template-based log formatter"@, "template"@, false, true),
    {
        TemplateFormatter {
            template,
            metadata: FormatterMetadata {
                name: owned("template"),
                version: owned("1.0.0"),
                description: owned("Template-based log formatter"),
                format_type: owned("template"),
                supports_colors: false,
                supports_structured: true,
            },
        }
    }

    /// The template filled in from the record and, if given, the context.
    fn apply_template<R: Fn(u64) -> String>(&self, record: &SimpleLogRecord, context: Option<&LogContext>, render: &R) -> (r: Result<String, AppError>)
        requires
            forall|b: u64| render.requires((b,)),
        ensures
            deterministic(*render) ==> match template_text(self.template@, *record, match context { Some(c) => Some(*c), None => None }, rendered(*render)) {
                Some(t) => r matches Ok(s) && s@ == t,
                None => r matches Err(e) && instant_error(e),
            },
    {
        proof {
            if deterministic(*render) {
                lemma_rendered(*render);
            }
        }
        let t1 = if contains(self.template.as_str(), "{timestamp}") {
            match format_instant(record.timestamp, "%Y-%m-%d %H:%M:%S%.3f") {
                Some(ts) => replace_all(self.template.as_str(), "{timestamp}", ts.as_str()),
                None => return Err(instant_out_of_range()),
            }
        } else {
            self.template.clone()
        };
        let t2 = replace_all(t1.as_str(), "{level}", record.level.as_str());
        let t3 = replace_all(t2.as_str(), "{target}", record.target.as_str());
        let t4 = replace_all(t3.as_str(), "{message}", record.message.as_str());
        proof {
            reveal_strlit("");
            assert(""@ =~= Seq::<char>::empty());
        }
        let t5 = match fill_fields(t4.as_str(), &record.fields, "", render, Ghost(rendered(*render))) {
            Some(t) => t,
            None => return Err(instant_out_of_range()),
        };
        match context {
            None => Ok(t5),
            Some(c) => {
                let t6 = match fill_fields(t5.as_str(), &c.fields, "ctx.", render, Ghost(rendered(*render))) {
                    Some(t) => t,
                    None => return Err(instant_out_of_range()),
                };
                if c.scopes.len() > 0 {
                    let mut names: Vec<String> = Vec::new();
                    let mut i: usize = 0;
                    while i < c.scopes.len()
                        invariant
                            i <= c.scopes@.len(),
                            names@.map_values(|p: String| p@) == scope_names(c.scopes@.subrange(0, i as int)),
                        decreases c.scopes@.len() - i,
                    {
                        let ghost before = names@;
                        names.push(c.scopes[i].name.clone());
                        assert(names@.map_values(|p: String| p@) =~= before.map_values(|p: String| p@).push(c.scopes@[i as int].name@));
                        assert(scope_names(c.scopes@.subrange(0, i + 1)) =~= scope_names(c.scopes@.subrange(0, i as int)).push(c.scopes@[i as int].name@));
                        i = i + 1;
                    }
                    assert(c.scopes@.subrange(0, i as int) =~= c.scopes@);
                    let joined = join(&names, " -> ");
                    Ok(replace_all(t6.as_str(), "{scopes}", joined.as_str()))
                } else {
                    Ok(t6)
                }
            },
        }
    }

    /// The template filled in from the record.
    pub fn format<R: Fn(u64) -> String>(&self, record: &SimpleLogRecord, render: &R) -> (r: Result<String, AppError>)
        requires
            forall|b: u64| render.requires((b,)),
        ensures
            deterministic(*render) ==> match template_text(self.spec_template(), *record, None, rendered(*render)) {
                Some(t) => r matches Ok(s) && s@ == t,
                None => r matches Err(e) && instant_error(e),
            },
    {
        self.apply_template(record, None, render)
    }

    /// The template filled in from the record and the context.
    pub fn format_with_context<R: Fn(u64) -> String>(&self, record: &SimpleLogRecord, context: &LogContext, render: &R) -> (r: Result<String, AppError>)
        requires
            forall|b: u64| render.requires((b,)),
        ensures
            deterministic(*render) ==> match template_text(self.spec_template(), *record, Some(*context), rendered(*render)) {
                Some(t) => r matches Ok(s) && s@ == t,
                None => r matches Err(e) && instant_error(e),
            },
    {
        self.apply_template(record, Some(context), render)
    }

    /// The description.
    pub fn metadata(&self) -> (r: &FormatterMetadata)
        ensures
            *r == self.spec_metadata(),
    {
        &self.metadata
    }
}

/// `p` occurs in `s` at `i` and nowhere before.
pub open spec fn first_at(s: Seq<char>, p: Seq<char>, i: int) -> bool {
    0 <= i && i + p.len() <= s.len() && s.subrange(i, i + p.len()) == p
        && forall|j: int| 0 <= j < i ==> #[trigger] s.subrange(j, j + p.len()) != p
}

/// The first position at which `p` occurs in `s`, if it does.
pub open spec fn first_match(s: Seq<char>, p: Seq<char>) -> Option<int> {
    if contains_spec(s, p) {
        Some(choose|i: int| #[trigger] first_at(s, p, i))
    } else {
        None
    }
}

/// A found first occurrence is the one `first_match` names.
proof fn lemma_first_match(s: Seq<char>, p: Seq<char>, i: int)
    requires
        0 <= i && i + p.len() <= s.len(),
        s.subrange(i, i + p.len()) == p,
        forall|j: int| 0 <= j < i ==> #[trigger] s.subrange(j, j + p.len()) != p,
    ensures
        first_match(s, p) == Some(i),
{
    assert(contains_spec(s, p));
    assert(first_at(s, p, i));
    let c = choose|c: int| #[trigger] first_at(s, p, c);
    if c < i {
        assert(s.subrange(c, c + p.len()) != p);
    }
    if c > i {
        assert(s.subrange(i, i + p.len()) != p);
    }
}

/// The text with each occurrence of the level's name coloured.
pub open spec fn colour_level(t: Seq<char>, level: LogLevel) -> Seq<char> {
    replace_spec(t, level.spec_as_str(), level.spec_ansi_color() + level.spec_as_str() + "\x1b[0m"@)
}

/// The first `[` comes before the first `]`, or one of them is missing.
pub open spec fn brackets_in_order(t: Seq<char>) -> bool {
    match (first_match(t, "["@), first_match(t, "]"@)) {
        (Some(a), Some(b)) => a <= b,
        _ => true,
    }
}

/// The text with the span from the first `[` to the first `]` (and every
/// other occurrence of that span) greyed.
pub open spec fn grey_span(t: Seq<char>) -> Seq<char> {
    match (first_match(t, "["@), first_match(t, "]"@)) {
        (Some(a), Some(b)) => {
            let span = t.subrange(a, b + 1);
            replace_spec(t, span, "\x1b[90m"@ + span + "\x1b[0m"@)
        },
        _ => t,
    }
}

/// A coloured line: with colours on, the level's name coloured and, when
/// timestamps are included, the bracketed span greyed.
pub open spec fn coloured(t: Seq<char>, level: LogLevel, colours: bool, timestamps: bool) -> Seq<char> {
    if !colours {
        t
    } else if timestamps {
        grey_span(colour_level(t, level))
    } else {
        colour_level(t, level)
    }
}

/// The piece of `s` after the first occurrence of `p`, up to the next
/// one; empty when `p` does not occur.
pub open spec fn second_piece(s: Seq<char>, p: Seq<char>) -> Seq<char> {
    match first_match(s, p) {
        Some(i) => {
            let rest = s.skip(i + p.len());
            match first_match(rest, p) {
                Some(j) => rest.subrange(0, j),
                None => rest,
            }
        },
        None => Seq::empty(),
    }
}

/// The piece of `s` before the first occurrence of `p`, or all of it.
pub open spec fn first_piece(s: Seq<char>, p: Seq<char>) -> Seq<char> {
    match first_match(s, p) {
        Some(i) => s.subrange(0, i),
        None => s,
    }
}

/// A line with its context coloured: the context fields (after `ctx:`, up
/// to the scopes) in cyan, and everything from `scopes:` on in magenta.
pub open spec fn coloured_context(t: Seq<char>) -> Seq<char> {
    let t1 = if contains_spec(t, "ctx:"@) {
        let part = first_piece(second_piece(t, "ctx:"@), " | scopes:"@);
        if part.len() > 0 {
            let tp = trim_spec(part);
            replace_spec(t, "ctx: "@ + tp, "\x1b[36mctx: "@ + tp + "\x1b[0m"@)
        } else {
            t
        }
    } else {
        t
    };
    match first_match(t1, "scopes:"@) {
        Some(i) => {
            let part = t1.skip(i);
            replace_spec(t1, part, "\x1b[35m"@ + part + "\x1b[0m"@)
        },
        None => t1,
    }
}

/// The first position of `p` in `s`, as `first_match` gives it.
fn find_first(s: &str, p: &str) -> (r: Option<usize>)
    ensures
        match r {
            Some(i) => first_match(s@, p@) == Some(i as int) && i + p@.len() <= s@.len(),
            None => first_match(s@, p@) is None,
        },
{
    let r = find(s, p);
    proof {
        if let Some(i) = r {
            lemma_first_match(s@, p@, i as int);
        }
    }
    r
}

/// The characters of `s` from `a` up to `b`.
fn substring(s: &str, a: usize, b: usize) -> (r: String)
    requires
        a <= b <= s@.len(),
    ensures
        r@ == s@.subrange(a as int, b as int),
{
    let v = chars_of(s);
    let mut out: Vec<char> = Vec::new();
    let mut i: usize = a;
    while i < b
        invariant
            a <= i <= b,
            b <= v@.len(),
            v@ == s@,
            out@ == v@.subrange(a as int, i as int),
        decreases b - i,
    {
        out.push(v[i]);
        assert(v@.subrange(a as int, i + 1) =~= v@.subrange(a as int, i as int).push(v@[i as int]));
        i = i + 1;
    }
    string_from_chars(out.as_slice())
}

/// Coloured lines for terminals, built on the plain-text formatter.
pub struct ColoredFormatter {
    base_formatter: SimpleFormatter,
    use_colors: bool,
    metadata: FormatterMetadata,
}

impl ColoredFormatter {
    /// The plain-text settings underneath.
    pub closed spec fn base_settings(&self) -> SimpleSettings {
        self.base_formatter.settings()
    }

    /// Whether colours are used.
    pub closed spec fn spec_use_colors(&self) -> bool {
        self.use_colors
    }

    /// The description.
    pub closed spec fn spec_metadata(&self) -> FormatterMetadata {
        self.metadata
    }

    /// Colours on, over the default plain-text formatter.
    pub fn new() -> (r: ColoredFormatter)
        ensures
            r.spec_use_colors(),
            r.base_settings() == SimpleFormatter::new_settings(),
            formatter_meta(r.spec_metadata(), "colored"@, "Colored console log formatter"@, "colored_text"@, true, false),
    {
        ColoredFormatter {
            base_formatter: SimpleFormatter::new(),
            use_colors: true,
            metadata: FormatterMetadata {
                name: owned("colored"),
                version: owned("1.0.0"),
                description: owned("Colored console log formatter"),
                format_type: owned("colored_text"),
                supports_colors: true,
                supports_structured: false,
            },
        }
    }

    /// Colours on or off.
    pub fn with_colors(self, use_colors: bool) -> (r: ColoredFormatter)
        ensures
            r.spec_use_colors() == use_colors,
            r.base_settings() == self.base_settings(),
            r.spec_metadata() == self.spec_metadata(),
    {
        ColoredFormatter { use_colors, ..self }
    }

    /// Another plain-text formatter underneath.
    pub fn with_base_formatter(self, formatter: SimpleFormatter) -> (r: ColoredFormatter)
        ensures
            r.spec_use_colors() == self.spec_use_colors(),
            r.base_settings() == formatter.settings(),
            r.spec_metadata() == self.spec_metadata(),
    {
        ColoredFormatter { base_formatter: formatter, ..self }
    }

    /// The description.
    pub fn metadata(&self) -> (r: &FormatterMetadata)
        ensures
            *r == self.spec_metadata(),
    {
        &self.metadata
    }

    /// The plain-text line, coloured. The bracketed span can only be
    /// greyed when its `[` comes first.
    pub fn format<R: Fn(u64) -> String>(&self, record: &SimpleLogRecord, render: &R) -> (r: Result<String, AppError>)
        requires
            forall|b: u64| render.requires((b,)),
            deterministic(*render) && self.spec_use_colors() && self.base_settings().include_timestamp ==>
                (simple_line(self.base_settings(), *record, rendered(*render)) matches Some(t)
                    ==> brackets_in_order(colour_level(t, record.level))),
        ensures
            deterministic(*render) ==> match simple_line(self.base_settings(), *record, rendered(*render)) {
                Some(t) => r matches Ok(s) && s@ == coloured(t, record.level, self.spec_use_colors(), self.base_settings().include_timestamp),
                None => r matches Err(e) && instant_error(e),
            },
    {
        let mut formatted = match self.base_formatter.format(record, render) {
            Ok(s) => s,
            Err(e) => return Err(e),
        };
        if self.use_colors {
            let level_str = record.level.as_str();
            let mut coloured_level = owned(record.level.ansi_color());
            push_str(&mut coloured_level, level_str);
            push_str(&mut coloured_level, LogLevel::ansi_reset());
            formatted = replace_all(formatted.as_str(), level_str, coloured_level.as_str());
            if self.base_formatter.include_timestamp {
                proof {
                    reveal_strlit("[");
                    reveal_strlit("]");
                }
                let _n = crate::text::char_len(formatted.as_str());
                let a = find_first(formatted.as_str(), "[");
                let b = find_first(formatted.as_str(), "]");
                if let (Some(a), Some(b)) = (a, b) {
                    if a <= b {
                        let span = substring(formatted.as_str(), a, b + 1);
                        let mut grey = owned("\x1b[90m");
                        push_str(&mut grey, span.as_str());
                        push_str(&mut grey, "\x1b[0m");
                        formatted = replace_all(formatted.as_str(), span.as_str(), grey.as_str());
                    }
                }
            }
        }
        Ok(formatted)
    }

    /// The plain-text line with its context, coloured: the context fields
    /// in cyan and the scopes in magenta.
    pub fn format_with_context<R: Fn(u64) -> String>(&self, record: &SimpleLogRecord, context: &LogContext, render: &R) -> (r: Result<String, AppError>)
        requires
            forall|b: u64| render.requires((b,)),
        ensures
            deterministic(*render) ==> match simple_line_with_context(self.base_settings(), *record, *context, rendered(*render)) {
                Some(t) => r matches Ok(s) && s@ == if self.spec_use_colors() { coloured_context(t) } else { t },
                None => r matches Err(e) && instant_error(e),
            },
    {
        let mut formatted = match self.base_formatter.format_with_context(record, context, render) {
            Ok(s) => s,
            Err(e) => return Err(e),
        };
        if self.use_colors {
            let ghost t0 = formatted@;
            proof {
                reveal_strlit("ctx:");
            }
            let _n = crate::text::char_len(formatted.as_str());
            if let Some(i) = find_first(formatted.as_str(), "ctx:") {
                proof {
                    assert(contains_spec(t0, "ctx:"@));
                }
                let rest = skip_chars(formatted.as_str(), i + 4);
                let piece = match find_first(rest.as_str(), "ctx:") {
                    Some(j) => substring(rest.as_str(), 0, j),
                    None => rest,
                };
                let part = match find_first(piece.as_str(), " | scopes:") {
                    Some(j) => substring(piece.as_str(), 0, j),
                    None => piece,
                };
                if crate::text::char_len(part.as_str()) > 0 {
                    let tp = trim(part.as_str());
                    let mut from = owned("ctx: ");
                    push_str(&mut from, tp.as_str());
                    let mut to = owned("\x1b[36mctx: ");
                    push_str(&mut to, tp.as_str());
                    push_str(&mut to, "\x1b[0m");
                    formatted = replace_all(formatted.as_str(), from.as_str(), to.as_str());
                }
            }
            if let Some(i) = find_first(formatted.as_str(), "scopes:") {
                let part = skip_chars(formatted.as_str(), i);
                let mut to = owned("\x1b[35m");
                push_str(&mut to, part.as_str());
                push_str(&mut to, "\x1b[0m");
                formatted = replace_all(formatted.as_str(), part.as_str(), to.as_str());
            }
        }
        Ok(formatted)
    }
}

impl SimpleFormatter {
    /// The settings `new` gives.
    pub open spec fn new_settings() -> SimpleSettings {
        SimpleSettings { include_timestamp: true, include_level: true, include_target: true, timestamp_format: "%Y-%m-%d %H:%M:%S%.3f"@ }
    }
}

impl Default for ColoredFormatter {
    /// The formatter `new` makes.
    fn default() -> (r: ColoredFormatter)
        ensures
            r.spec_use_colors(),
            r.base_settings() == SimpleFormatter::new_settings(),
    {
        ColoredFormatter::new()
    }
}

/// Settings of the JSON formatter, whose output is built with serde_json
/// around this library.
pub struct JsonFormatter {
    pub pretty_print: bool,
    pub include_metadata: bool,
    pub metadata: FormatterMetadata,
}

impl JsonFormatter {
    /// Compact output with the record's module, file and line.
    pub fn new() -> (r: JsonFormatter)
        ensures
            !r.pretty_print,
            r.include_metadata,
            formatter_meta(r.metadata, "json"@, "JSON structured log formatter"@, "json"@, false, true),
    {
        JsonFormatter {
            pretty_print: false,
            include_metadata: true,
            metadata: FormatterMetadata {
                name: owned("json"),
                version: owned("1.0.0"),
                description: owned("JSON structured log formatter"),
                format_type: owned("json"),
                supports_colors: false,
                supports_structured: true,
            },
        }
    }

    /// Pretty-printed output or not.
    pub fn with_pretty_print(self, pretty: bool) -> (r: JsonFormatter)
        ensures
            r == (JsonFormatter { pretty_print: pretty, ..self }),
    {
        JsonFormatter { pretty_print: pretty, ..self }
    }

    /// Whether the module, file and line are written.
    pub fn with_metadata(self, on: bool) -> (r: JsonFormatter)
        ensures
            r == (JsonFormatter { include_metadata: on, ..self }),
    {
        JsonFormatter { include_metadata: on, ..self }
    }

    /// The description.
    pub fn metadata(&self) -> (r: &FormatterMetadata)
        ensures
            *r == self.metadata,
    {
        &self.metadata
    }
}

impl Default for JsonFormatter {
    /// The formatter `new` makes.
    fn default() -> (r: JsonFormatter)
        ensures
            !r.pretty_print,
            r.include_metadata,
    {
        JsonFormatter::new()
    }
}

/// A boolean field is always rendered, in every style, as a word that
/// reads back as the same boolean: `true` and `false` are told apart.
pub proof fn lemma_boolean_field_reads_back(b: bool, style: FieldStyle, ft: spec_fn(u64) -> Seq<char>)
    ensures
        field_text(LogFieldValue::Boolean(b), style, ft) matches Some(w) && bool_word(w) == Some(b),
{
    reveal_strlit("true");
    reveal_strlit("false");
    reveal_strlit("1");
    reveal_strlit("yes");
    reveal_strlit("on");
    assert("false"@.len() == 5 && "true"@.len() == 4 && "1"@.len() == 1 && "yes"@.len() == 3 && "on"@.len() == 2);
}

/// An integer field is rendered, in every style, as text that reads back
/// (as `str::parse` reads it) as the same integer; a duration field as the
/// milliseconds, read back the same way, followed by `ms`.
pub proof fn lemma_number_fields_read_back(i: i64, ms: u64, style: FieldStyle, ft: spec_fn(u64) -> Seq<char>)
    ensures
        field_text(LogFieldValue::Integer(i), style, ft) matches Some(w) && parse_i64_spec(w) == Some(i),
        ms <= i64::MAX ==> (field_text(LogFieldValue::Duration(ms), style, ft) matches Some(w) && w.len() >= 2
            && w.subrange(w.len() - 2, w.len() as int) == "ms"@
            && parse_i64_spec(w.subrange(0, w.len() - 2)) == Some(ms as i64)),
{
    lemma_signed_decimal_reads_back(i);
    reveal_strlit("ms");
    let d = decimal_spec(ms as nat);
    let w = d + "ms"@;
    lemma_decimal_reads_back(ms as nat);
    assert(w.subrange(w.len() - 2, w.len() as int) =~= "ms"@);
    assert(w.subrange(0, w.len() - 2) =~= d);
    if ms <= i64::MAX {
        lemma_signed_decimal_reads_back(ms as i64);
        assert(signed_decimal_spec(ms as i64 as int) == d);
    }
}

} // verus!
