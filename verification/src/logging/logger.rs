//! The default logger's settings and decisions, the default formatter,
//! the logger factory and the line texts of the console and file
//! appenders.

use vstd::prelude::*;
use crate::clock::{format_instant, formatted_instant};
use crate::error::types::AppError;
use crate::logging::formatter::{
    FieldStyle, deterministic, formatter_meta, instant_error, instant_out_of_range, pairs_text, render_pairs, rendered,
};
use crate::logging::traits::{AppenderMetadata, ContextMetadata, FormatterMetadata, LogContext, LogLevel, LogScope, LoggerMetadata, SimpleLogRecord};
use crate::text::{decimal_spec, owned, push_str, string_views, u64_to_decimal};
use crate::assoc::{distinct_strings, in_list, list_contains, set_insert};
use crate::logging::filter::filter_metadata;
use crate::logging::traits::FilterMetadata;

verus! {

/// Logger settings.
#[derive(Debug, Clone)]
pub struct LoggerConfig {
    pub max_level: LogLevel,
    pub filters: Vec<String>,
    pub async_mode: bool,
    pub buffer_size: usize,
    pub flush_interval_ms: u64,
}

impl Default for LoggerConfig {
    /// Info and above, no filters, asynchronous, a thousand-record buffer
    /// flushed every five seconds.
    fn default() -> (r: LoggerConfig)
        ensures
            r.max_level == LogLevel::Info,
            r.filters@.len() == 0,
            r.async_mode,
            r.buffer_size == 1000,
            r.flush_interval_ms == 5000,
    {
        LoggerConfig { max_level: LogLevel::Info, filters: Vec::new(), async_mode: true, buffer_size: 1000, flush_interval_ms: 5000 }
    }
}

/// Structured output kinds.
#[derive(Debug, Clone, Copy, PartialEq, Eq, Structural)]
pub enum StructuredFormat {
    Text,
    Json,
    CompactJson,
    KeyValue,
}

/// What the default formatter writes.
#[derive(Debug, Clone, Copy, PartialEq, Eq, Structural)]
pub struct FormatterConfig {
    pub include_timestamp: bool,
    pub include_level: bool,
    pub include_target: bool,
    pub include_fields: bool,
    pub include_location: bool,
    pub use_colors: bool,
    pub structured_format: StructuredFormat,
}

impl Default for FormatterConfig {
    /// Everything but the location, in colour, as text.
    fn default() -> (r: FormatterConfig)
        ensures
            r == (FormatterConfig {
                include_timestamp: true,
                include_level: true,
                include_target: true,
                include_fields: true,
                include_location: false,
                use_colors: true,
                structured_format: StructuredFormat::Text,
            }),
    {
        FormatterConfig {
            include_timestamp: true,
            include_level: true,
            include_target: true,
            include_fields: true,
            include_location: false,
            use_colors: true,
            structured_format: StructuredFormat::Text,
        }
    }
}

/// The start of a default-format line: the timestamp and a space, the
/// level (coloured when colours are on) and a space, the target in
/// brackets and a space when it is not empty; each part as configured.
/// `None` when the instant is outside chrono's range.
pub open spec fn default_head(c: FormatterConfig, rec: SimpleLogRecord) -> Option<Seq<char>> {
    let ts = formatted_instant(rec.timestamp, "%Y-%m-%d %H:%M:%S%.3f"@);
    if c.include_timestamp && ts is None {
        None
    } else {
        Some((if c.include_timestamp { ts->0 + " "@ } else { Seq::empty() })
            + (if c.include_level {
                (if c.use_colors {
                    rec.level.spec_ansi_color() + rec.level.spec_as_str() + "\x1b[0m"@
                } else {
                    rec.level.spec_as_str()
                }) + " "@
            } else {
                Seq::empty()
            })
            + (if c.include_target && rec.target@.len() > 0 { "["@ + rec.target@ + "] "@ } else { Seq::empty() }))
    }
}

/// The location part: the module in brackets and `(file:line)`, each when
/// known.
pub open spec fn default_location(rec: SimpleLogRecord) -> Seq<char> {
    (match rec.module { Some(m) => " ["@ + m@ + "]"@, None => Seq::empty() })
        + (match (rec.file, rec.line) {
            (Some(f), Some(l)) => " ("@ + f@ + ":"@ + decimal_spec(l as nat) + ")"@,
            _ => Seq::empty(),
        })
}

/// A default-format line: the start, the message, the fields after ` |`
/// as ` key=value` each, and the location; each part as configured.
/// `None` when an instant is outside chrono's range.
pub open spec fn default_line(c: FormatterConfig, rec: SimpleLogRecord, ft: spec_fn(u64) -> Seq<char>) -> Option<Seq<char>> {
    let fields = pairs_text(rec.fields@, FieldStyle::KeyValue, ft, "="@, " "@);
    let with_fields = c.include_fields && rec.fields@.len() > 0;
    match default_head(c, rec) {
        None => None,
        Some(h) => if with_fields && fields is None {
            None
        } else {
            Some(h + rec.message@
                + (if with_fields { " | "@ + fields->0 } else { Seq::empty() })
                + (if c.include_location { default_location(rec) } else { Seq::empty() }))
        },
    }
}

/// The start of a default-format line.
fn head_text(c: FormatterConfig, record: &SimpleLogRecord) -> (r: Option<String>)
    ensures
        match default_head(c, *record) {
            Some(t) => r matches Some(s) && s@ == t,
            None => r is None,
        },
{
    let mut out = String::new();
    if c.include_timestamp {
        match format_instant(record.timestamp, "%Y-%m-%d %H:%M:%S%.3f") {
            Some(t) => {
                push_str(&mut out, t.as_str());
                push_str(&mut out, " ");
            },
            None => return None,
        }
    }
    if c.include_level {
        if c.use_colors {
            push_str(&mut out, record.level.ansi_color());
            push_str(&mut out, record.level.as_str());
            push_str(&mut out, LogLevel::ansi_reset());
        } else {
            push_str(&mut out, record.level.as_str());
        }
        push_str(&mut out, " ");
    }
    if c.include_target && crate::text::char_len(record.target.as_str()) > 0 {
        push_str(&mut out, "[");
        push_str(&mut out, record.target.as_str());
        push_str(&mut out, "] ");
    }
    Some(out)
}

/// The location part of a default-format line.
fn location_text(record: &SimpleLogRecord) -> (r: String)
    ensures
        r@ == default_location(*record),
{
    let mut out = String::new();
    if let Some(m) = &record.module {
        push_str(&mut out, " [");
        push_str(&mut out, m.as_str());
        push_str(&mut out, "]");
    }
    if let (Some(f), Some(l)) = (&record.file, record.line) {
        push_str(&mut out, " (");
        push_str(&mut out, f.as_str());
        push_str(&mut out, ":");
        let n = u64_to_decimal(l as u64);
        push_str(&mut out, n.as_str());
        push_str(&mut out, ")");
    }
    out
}

/// The default formatter.
pub struct DefaultLogFormatter {
    config: FormatterConfig,
    metadata: FormatterMetadata,
}

impl DefaultLogFormatter {
    /// The settings.
    pub closed spec fn spec_config(&self) -> FormatterConfig {
        self.config
    }

    /// The description.
    pub closed spec fn spec_metadata(&self) -> FormatterMetadata {
        self.metadata
    }

    /// The default settings.
    pub fn new() -> (r: DefaultLogFormatter)
        ensures
            r.spec_config().include_timestamp && r.spec_config().include_level && r.spec_config().include_target,
            r.spec_config().include_fields && !r.spec_config().include_location && r.spec_config().use_colors,
            r.spec_config().structured_format == StructuredFormat::Text,
            formatter_meta(r.spec_metadata(), "default"@, "Default log formatter"@, "text"@, true, true),
    {
        DefaultLogFormatter {
            config: FormatterConfig::default(),
            metadata: FormatterMetadata {
                name: owned("default"),
                version: owned("1.0.0"),
                description: owned("Default log formatter"),
                format_type: owned("text"),
                supports_colors: true,
                supports_structured: true,
            },
        }
    }

    /// Other settings.
    pub fn with_config(self, config: FormatterConfig) -> (r: DefaultLogFormatter)
        ensures
            r.spec_config() == config,
            r.spec_metadata() == self.spec_metadata(),
    {
        DefaultLogFormatter { config, ..self }
    }

    /// The description.
    pub fn metadata(&self) -> (r: &FormatterMetadata)
        ensures
            *r == self.spec_metadata(),
    {
        &self.metadata
    }

    /// The record as a default-format line, floats rendered by `render`.
    pub fn format<R: Fn(u64) -> String>(&self, record: &SimpleLogRecord, render: &R) -> (r: Result<String, AppError>)
        requires
            forall|b: u64| render.requires((b,)),
        ensures
            deterministic(*render) ==> match default_line(self.spec_config(), *record, rendered(*render)) {
                Some(t) => r matches Ok(s) && s@ == t,
                None => r matches Err(e) && instant_error(e),
            },
    {
        proof {
            if deterministic(*render) {
                crate::logging::formatter::lemma_rendered(*render);
            }
        }
        let c = self.config;
        let mut out = match head_text(c, record) {
            Some(h) => h,
            None => return Err(instant_out_of_range()),
        };
        push_str(&mut out, record.message.as_str());
        if c.include_fields && record.fields.len() > 0 {
            match render_pairs(&record.fields, FieldStyle::KeyValue, render, "=", " ", Ghost(rendered(*render))) {
                Some(t) => {
                    push_str(&mut out, " | ");
                    push_str(&mut out, t.as_str());
                },
                None => return Err(instant_out_of_range()),
            }
        }
        if c.include_location {
            let loc = location_text(record);
            push_str(&mut out, loc.as_str());
        }
        Ok(out)
    }
}

impl DefaultLogFormatter {
    /// The record as a default-format line; the context is not written.
    pub fn format_with_context<R: Fn(u64) -> String>(&self, record: &SimpleLogRecord, context: &LogContext, render: &R) -> (r: Result<String, AppError>)
        requires
            forall|b: u64| render.requires((b,)),
        ensures
            deterministic(*render) ==> match default_line(self.spec_config(), *record, rendered(*render)) {
                Some(t) => r matches Ok(s) && s@ == t,
                None => r matches Err(e) && instant_error(e),
            },
    {
        self.format(record, render)
    }
}

/// Holds the current log context.
pub struct DefaultLogContextProvider {
    context: LogContext,
    metadata: ContextMetadata,
}

impl DefaultLogContextProvider {
    /// The context.
    pub closed spec fn spec_context(&self) -> LogContext {
        self.context
    }

    /// The description.
    pub closed spec fn spec_metadata(&self) -> ContextMetadata {
        self.metadata
    }

    /// An empty context; nesting up to ten scopes deep.
    pub fn new() -> (r: DefaultLogContextProvider)
        ensures
            r.spec_context().fields@.len() == 0,
            r.spec_context().scopes@.len() == 0,
            r.spec_metadata().name@ == "default"@,
            r.spec_metadata().supports_nesting,
            r.spec_metadata().max_depth == 10,
    {
        DefaultLogContextProvider {
            context: LogContext::new(),
            metadata: ContextMetadata {
                name: owned("default"),
                version: owned("1.0.0"),
                description: owned("Default log context provider"),
                supports_nesting: true,
                max_depth: 10,
            },
        }
    }

    /// The context.
    pub fn get_context(&self) -> (r: &LogContext)
        ensures
            *r == self.spec_context(),
    {
        &self.context
    }

    /// Replaces the context.
    pub fn set_context(&mut self, context: LogContext)
        ensures
            final(self).spec_context() == context,
            final(self).spec_metadata() == old(self).spec_metadata(),
    {
        self.context = context;
    }

    /// Opens a scope.
    pub fn push_scope(&mut self, scope: LogScope)
        ensures
            final(self).spec_context().scopes@ == old(self).spec_context().scopes@.push(scope),
            final(self).spec_context().fields == old(self).spec_context().fields,
    {
        self.context.push_scope(scope);
    }

    /// Closes the innermost scope.
    pub fn pop_scope(&mut self) -> (r: Option<LogScope>)
        ensures
            final(self).spec_context().fields == old(self).spec_context().fields,
            old(self).spec_context().scopes@.len() == 0 ==> r is None,
            old(self).spec_context().scopes@.len() > 0 ==> r == Some(old(self).spec_context().scopes@.last())
                && final(self).spec_context().scopes@ == old(self).spec_context().scopes@.drop_last(),
    {
        self.context.pop_scope()
    }

    /// The description.
    pub fn metadata(&self) -> (r: &ContextMetadata)
        ensures
            *r == self.spec_metadata(),
    {
        &self.metadata
    }
}

/// The logger's bookkeeping: its name, settings and description.
pub struct DefaultLogger {
    name: String,
    config: LoggerConfig,
    metadata: LoggerMetadata,
}

impl DefaultLogger {
    /// The name.
    pub closed spec fn spec_name(&self) -> Seq<char> {
        self.name@
    }

    /// The settings.
    pub closed spec fn spec_config(&self) -> LoggerConfig {
        self.config
    }

    /// The description.
    pub closed spec fn spec_metadata(&self) -> LoggerMetadata {
        self.metadata
    }

    /// A logger named `name` with the settings `config`; its description
    /// lists the structured, filtering, formatting, metrics and context
    /// capabilities and carries the level limit and filters.
    pub fn new(name: String, config: LoggerConfig) -> (r: DefaultLogger)
        ensures
            r.spec_name() == name@,
            r.spec_config() == config,
            r.spec_metadata().name@ == name@,
            r.spec_metadata().version@ == "1.0.0"@,
            r.spec_metadata().description@ == "Default logger: "@ + name@,
            string_views(r.spec_metadata().capabilities@) == seq!["structured"@, "filtering"@, "formatting"@, "metrics"@, "context"@],
            r.spec_metadata().max_level == config.max_level,
            string_views(r.spec_metadata().filters@) == string_views(config.filters@),
    {
        let mut capabilities: Vec<String> = Vec::new();
        capabilities.push(owned("structured"));
        capabilities.push(owned("filtering"));
        capabilities.push(owned("formatting"));
        capabilities.push(owned("metrics"));
        capabilities.push(owned("context"));
        assert(string_views(capabilities@) =~= seq!["structured"@, "filtering"@, "formatting"@, "metrics"@, "context"@]);
        let mut description = owned("Default logger: ");
        push_str(&mut description, name.as_str());
        let mut filters: Vec<String> = Vec::new();
        let mut i: usize = 0;
        while i < config.filters.len()
            invariant
                i <= config.filters@.len(),
                string_views(filters@) == string_views(config.filters@.subrange(0, i as int)),
            decreases config.filters@.len() - i,
        {
            let ghost before = filters@;
            filters.push(config.filters[i].clone());
            assert(string_views(filters@) =~= string_views(before).push(config.filters@[i as int]@));
            assert(string_views(config.filters@.subrange(0, i + 1)) =~= string_views(config.filters@.subrange(0, i as int)).push(config.filters@[i as int]@));
            i = i + 1;
        }
        assert(config.filters@.subrange(0, i as int) =~= config.filters@);
        let metadata = LoggerMetadata {
            name: name.clone(),
            version: owned("1.0.0"),
            description,
            capabilities,
            max_level: config.max_level,
            filters,
        };
        DefaultLogger { name, config, metadata }
    }

    /// Whether records of `level` are logged: at least as severe as the
    /// configured limit, whatever the target.
    pub fn enabled(&self, level: LogLevel, target: &str) -> (r: bool)
        ensures
            r == (level.spec_rank() >= self.spec_config().max_level.spec_rank()),
    {
        level.should_log(self.config.max_level)
    }

    /// Whether a record is logged: its level is enabled and every filter's
    /// verdict (`filter_verdicts`, one per filter, in order) lets it pass.
    pub fn should_log(&self, record: &SimpleLogRecord, filter_verdicts: &Vec<bool>) -> (r: bool)
        ensures
            r == (record.level.spec_rank() >= self.spec_config().max_level.spec_rank()
                && forall|i: int| 0 <= i < filter_verdicts@.len() ==> filter_verdicts@[i]),
    {
        if !self.enabled(record.level, record.target.as_str()) {
            return false;
        }
        let mut i: usize = 0;
        while i < filter_verdicts.len()
            invariant
                i <= filter_verdicts@.len(),
                forall|k: int| 0 <= k < i ==> filter_verdicts@[k],
            decreases filter_verdicts@.len() - i,
        {
            if !filter_verdicts[i] {
                return false;
            }
            i = i + 1;
        }
        true
    }

    /// The name.
    pub fn name(&self) -> (r: &str)
        ensures
            r@ == self.spec_name(),
    {
        self.name.as_str()
    }

    /// The settings.
    pub fn config(&self) -> (r: &LoggerConfig)
        ensures
            *r == self.spec_config(),
    {
        &self.config
    }

    /// The description.
    pub fn metadata(&self) -> (r: &LoggerMetadata)
        ensures
            *r == self.spec_metadata(),
    {
        &self.metadata
    }
}

/// Makes loggers with shared default settings.
pub struct LoggerFactory {
    default_config: LoggerConfig,
}

impl LoggerFactory {
    /// The default settings.
    pub closed spec fn spec_default_config(&self) -> LoggerConfig {
        self.default_config
    }

    /// A factory with the default logger settings.
    pub fn new() -> (r: LoggerFactory)
        ensures
            r.spec_default_config().max_level == LogLevel::Info,
            r.spec_default_config().buffer_size == 1000,
    {
        LoggerFactory { default_config: LoggerConfig::default() }
    }

    /// Other default settings.
    pub fn with_config(self, config: LoggerConfig) -> (r: LoggerFactory)
        ensures
            r.spec_default_config() == config,
    {
        LoggerFactory { default_config: config }
    }

    /// A logger named `name` with the factory's settings.
    pub fn create_logger(&self, name: String) -> (r: DefaultLogger)
        ensures
            r.spec_name() == name@,
            r.spec_config().max_level == self.spec_default_config().max_level,
            r.spec_config().async_mode == self.spec_default_config().async_mode,
            r.spec_config().buffer_size == self.spec_default_config().buffer_size,
            r.spec_config().flush_interval_ms == self.spec_default_config().flush_interval_ms,
    {
        let c = &self.default_config;
        let mut filters: Vec<String> = Vec::new();
        let mut i: usize = 0;
        while i < c.filters.len()
            invariant
                i <= c.filters@.len(),
            decreases c.filters@.len() - i,
        {
            filters.push(c.filters[i].clone());
            i = i + 1;
        }
        let config = LoggerConfig {
            max_level: c.max_level,
            filters,
            async_mode: c.async_mode,
            buffer_size: c.buffer_size,
            flush_interval_ms: c.flush_interval_ms,
        };
        DefaultLogger::new(name, config)
    }
}

impl Default for LoggerFactory {
    /// A factory with the default logger settings.
    fn default() -> (r: LoggerFactory)
        ensures
            r.spec_default_config().max_level == LogLevel::Info,
    {
        LoggerFactory::new()
    }
}

/// The line an appender writes for a record: the time as
/// `%Y-%m-%d %H:%M:%S` in brackets, the level, ` - `, the target, `: ` and
/// the message. `None` when the instant is outside chrono's range.
pub open spec fn appender_line(rec: SimpleLogRecord) -> Option<Seq<char>> {
    match formatted_instant(rec.timestamp, "%Y-%m-%d %H:%M:%S"@) {
        Some(t) => Some("["@ + t + "] "@ + rec.level.spec_as_str() + " - "@ + rec.target@ + ": "@ + rec.message@),
        None => None,
    }
}

/// The line an appender writes for a record.
pub fn appender_text(record: &SimpleLogRecord) -> (r: Result<String, AppError>)
    ensures
        match appender_line(*record) {
            Some(t) => r matches Ok(s) && s@ == t,
            None => r matches Err(e) && instant_error(e),
        },
{
    let t = match format_instant(record.timestamp, "%Y-%m-%d %H:%M:%S") {
        Some(t) => t,
        None => return Err(instant_out_of_range()),
    };
    let mut out = owned("[");
    push_str(&mut out, t.as_str());
    push_str(&mut out, "] ");
    push_str(&mut out, record.level.as_str());
    push_str(&mut out, " - ");
    push_str(&mut out, record.target.as_str());
    push_str(&mut out, ": ");
    push_str(&mut out, record.message.as_str());
    Ok(out)
}

/// Writes records to standard output, or to standard error.
pub struct ConsoleAppender {
    pub use_stderr: bool,
    pub metadata: AppenderMetadata,
}

impl ConsoleAppender {
    /// Writing to standard output.
    pub fn new() -> (r: ConsoleAppender)
        ensures
            !r.use_stderr,
            r.metadata.name@ == "console"@,
            r.metadata.appender_type@ == "console"@,
            !r.metadata.is_async && !r.metadata.supports_buffering && !r.metadata.supports_rotation,
    {
        ConsoleAppender {
            use_stderr: false,
            metadata: AppenderMetadata {
                name: owned("console"),
                version: owned("1.0.0"),
                description: owned("Console appender for logging to stdout/stderr"),
                appender_type: owned("console"),
                is_async: false,
                supports_buffering: false,
                supports_rotation: false,
            },
        }
    }

    /// Writing to standard error or not.
    pub fn with_stderr(self, use_stderr: bool) -> (r: ConsoleAppender)
        ensures
            r.use_stderr == use_stderr,
            r.metadata == self.metadata,
    {
        ConsoleAppender { use_stderr, ..self }
    }

    /// Whether a record goes to standard error: when so configured, or for
    /// errors and worse.
    pub fn to_stderr(&self, level: LogLevel) -> (r: bool)
        ensures
            r == (self.use_stderr || level.spec_rank() >= LogLevel::Error.spec_rank()),
    {
        self.use_stderr || level.should_log(LogLevel::Error)
    }

    /// The console is always ready.
    pub fn is_ready(&self) -> (r: bool)
        ensures
            r,
    {
        true
    }
}

/// Appends records to a file.
pub struct FileAppender {
    pub file_path: String,
    pub metadata: AppenderMetadata,
}

impl FileAppender {
    /// Appending to `file_path`.
    pub fn new(file_path: String) -> (r: FileAppender)
        ensures
            r.file_path == file_path,
            r.metadata.name@ == "file"@,
            r.metadata.description@ == "File appender for logging to "@ + file_path@,
            r.metadata.appender_type@ == "file"@,
            r.metadata.supports_buffering && !r.metadata.is_async && !r.metadata.supports_rotation,
    {
        let mut description = owned("File appender for logging to ");
        push_str(&mut description, file_path.as_str());
        FileAppender {
            file_path,
            metadata: AppenderMetadata {
                name: owned("file"),
                version: owned("1.0.0"),
                description,
                appender_type: owned("file"),
                is_async: false,
                supports_buffering: true,
                supports_rotation: false,
            },
        }
    }
}

/// A filter that lets through the records of the allowed targets, or
/// every record while no target is allowed.
pub struct TargetFilter {
    allowed_targets: Vec<String>,
    metadata: FilterMetadata,
}

impl TargetFilter {
    /// The allowed targets.
    pub closed spec fn spec_allowed(&self) -> Seq<String> {
        self.allowed_targets@
    }

    /// The filter's description.
    pub closed spec fn spec_metadata(&self) -> FilterMetadata {
        self.metadata
    }

    /// Each target is held once.
    pub open spec fn wf(&self) -> bool {
        distinct_strings(self.spec_allowed())
    }

    /// A filter allowing the given targets (each kept once).
    pub fn new(allowed_targets: Vec<String>) -> (r: Self)
        ensures
            r.wf(),
            forall|x: Seq<char>| in_list(r.spec_allowed(), x) <==> in_list(allowed_targets@, x),
            r.spec_metadata().name@ == "target"@,
            r.spec_metadata().description@ == "Target filter for specific loggers"@,
            r.spec_metadata().filter_type@ == "target"@,
    {
        let mut set: Vec<String> = Vec::new();
        let ghost orig = allowed_targets@;
        let mut rest = allowed_targets;
        let mut i: usize = 0;
        assert(orig.len() == rest.len());
        while rest.len() > 0
            invariant
                i <= orig.len(),
                orig.len() <= usize::MAX,
                rest@ == orig.skip(i as int),
                distinct_strings(set@),
                forall|x: Seq<char>| in_list(set@, x) <==> in_list(orig.subrange(0, i as int), x),
            decreases rest@.len(),
        {
            let e = rest.remove(0);
            let ghost ev = e@;
            let ghost old_set = set@;
            proof {
                assert(e == orig[i as int]);
                assert(orig.subrange(0, i + 1) =~= orig.subrange(0, i as int).push(e));
                assert(rest@ =~= orig.skip(i + 1));
            }
            set_insert(&mut set, e);
            proof {
                assert forall|x: Seq<char>| in_list(set@, x) <==> in_list(orig.subrange(0, i + 1), x) by {
                    crate::assoc::lemma_in_list_push(orig.subrange(0, i as int), orig[i as int], x);
                    assert(in_list(set@, x) <==> in_list(old_set, x) || x == ev);
                }
            }
            i = i + 1;
        }
        assert(orig.subrange(0, i as int) =~= orig);
        TargetFilter {
            allowed_targets: set,
            metadata: filter_metadata("target", owned("Target filter for specific loggers"), "target"),
        }
    }

    /// The same filter allowing one more target.
    pub fn allow_target(self, target: String) -> (r: Self)
        requires
            self.wf(),
        ensures
            r.wf(),
            forall|x: Seq<char>| in_list(r.spec_allowed(), x) <==> in_list(self.spec_allowed(), x) || x == target@,
            r.spec_metadata() == self.spec_metadata(),
    {
        let mut s = self;
        set_insert(&mut s.allowed_targets, target);
        s
    }

    /// Whether a record passes: its target is allowed, or none is.
    pub fn should_log(&self, record: &SimpleLogRecord) -> (r: bool)
        ensures
            r == (in_list(self.spec_allowed(), record.target@) || self.spec_allowed().len() == 0),
    {
        list_contains(&self.allowed_targets, record.target.as_str()) || self.allowed_targets.len() == 0
    }

    /// The filter's description.
    pub fn metadata(&self) -> (r: &FilterMetadata)
        ensures
            *r == self.spec_metadata(),
    {
        &self.metadata
    }
}

} // verus!

