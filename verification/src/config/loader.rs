//! The loader of configuration files: which sources and formats it takes,
//! and the configuration data it makes of a parsed file. Reading, parsing
//! and writing the file are the application's part.

use vstd::prelude::*;
use crate::config::data::{ConfigData, SourceInfo};
use crate::config::file_provider::{config_error_is, parsed_format, written_format};
use crate::config::layout::{copies_of, insert_pairs, json_flat, json_to_flat_map};
use crate::config::traits::{ConfigFormat, LoaderMetadata};
use crate::config::types::ConfigSource;
use crate::config::value::ConfigValue;
use crate::error::types::{AppError, opt_str, copy_opt};
use crate::assoc::as_map;
use crate::text::{owned, push_str, string_views};

verus! {

/// The formats the loader accepts, in order.
pub open spec fn loader_formats() -> Seq<ConfigFormat> {
    seq![ConfigFormat::Json, ConfigFormat::Yaml, ConfigFormat::Toml, ConfigFormat::Ini]
}

/// Loads configuration files.
pub struct FileConfigLoader {
    supported_formats: Vec<ConfigFormat>,
}

/// The error for a source that is not a file.
fn not_a_file() -> (r: AppError)
    ensures
        config_error_is(r, "File loader only supports file sources"@, "source_type"@),
{
    AppError::Config { message: owned("File loader only supports file sources"), field: owned("source_type") }
}

/// The error naming a format.
fn format_message(prefix: &str, format: ConfigFormat) -> (r: AppError)
    ensures
        config_error_is(r, prefix@ + format.spec_debug_name(), "format"@),
{
    let mut message = owned(prefix);
    push_str(&mut message, format.debug_name());
    AppError::Config { message, field: owned("format") }
}

impl FileConfigLoader {
    /// The formats it accepts.
    pub closed spec fn spec_formats(&self) -> Seq<ConfigFormat> {
        self.supported_formats@
    }

    /// A loader for JSON, YAML, TOML and INI files.
    pub fn new() -> (r: Self)
        ensures
            r.spec_formats() == loader_formats(),
    {
        let mut formats: Vec<ConfigFormat> = Vec::new();
        formats.push(ConfigFormat::Json);
        formats.push(ConfigFormat::Yaml);
        formats.push(ConfigFormat::Toml);
        formats.push(ConfigFormat::Ini);
        assert(formats@ =~= loader_formats());
        FileConfigLoader { supported_formats: formats }
    }

    /// Whether `format` is among the accepted ones.
    fn accepts(&self, format: ConfigFormat) -> (r: bool)
        ensures
            r == self.spec_formats().contains(format),
    {
        let mut i: usize = 0;
        while i < self.supported_formats.len()
            invariant
                i <= self.supported_formats@.len(),
                forall|j: int| 0 <= j < i ==> self.supported_formats@[j] != format,
            decreases self.supported_formats@.len() - i,
        {
            if self.supported_formats[i] == format {
                assert(self.supported_formats@[i as int] == format);
                return true;
            }
            i = i + 1;
        }
        false
    }

    /// Accepts a file source in an accepted format; anything else is an
    /// error naming what is wrong.
    pub fn validate_source(&self, source: &ConfigSource) -> (r: Result<(), AppError>)
        ensures
            match source {
                ConfigSource::File { format, .. } => if self.spec_formats().contains(*format) {
                    r is Ok
                } else {
                    r matches Err(e) && config_error_is(e, "Unsupported format: "@ + format.spec_debug_name(), "format"@)
                },
                _ => r matches Err(e) && config_error_is(e, "File loader only supports file sources"@, "source_type"@),
            },
    {
        match source {
            ConfigSource::File { format, .. } => {
                if self.accepts(*format) {
                    Ok(())
                } else {
                    Err(format_message("Unsupported format: ", *format))
                }
            },
            _ => Err(not_a_file()),
        }
    }

    /// The configuration data of a file source whose content of
    /// `size_bytes` bytes was parsed into `parsed` at `now`: the flat map
    /// of the document (nested keys joined by dots, list items by
    /// position), no metadata, and where it came from. A source that is
    /// not a file, a format the loader does not parse, and a parse error
    /// are errors, in that order.
    pub fn load_parsed(&self, source: &ConfigSource, size_bytes: u64, parsed: Result<ConfigValue, AppError>, now: i64) -> (r: Result<ConfigData, AppError>)
        ensures
            !(source is File) ==> (r matches Err(e) && config_error_is(e, "File loader only supports file sources"@, "source_type"@)),
            source is File && !parsed_format(source->File_format)
                ==> (r matches Err(e) && config_error_is(e, "Unsupported format: "@ + source->File_format.spec_debug_name(), "format"@)),
            source is File && parsed_format(source->File_format) && parsed is Err
                ==> (r matches Err(e) && parsed == Err::<ConfigValue, AppError>(e)),
            source is File && parsed_format(source->File_format) && parsed is Ok ==> r is Ok,
            r is Ok ==> parsed is Ok && source is File,
            r matches Ok(d) ==> copies_of(d.values@, insert_pairs(Map::empty(), json_flat(parsed->Ok_0, Seq::empty())))
                && d.metadata@.len() == 0
                && d.checksum is None
                && d.loaded_at == now
                && d.source_info.source_type@ == "file"@
                && d.source_info.size_bytes == Some(size_bytes)
                && d.source_info.last_modified is None && d.source_info.etag is None && d.source_info.checksum is None
                && d.source_info.source_location@ == source->File_path@
                && d.source_info.format == Some(source->File_format)
                && opt_str(d.source_info.encoding) == opt_str(source->File_encoding),
    {
        match source {
            ConfigSource::File { path, format, encoding } => {
                match *format {
                    ConfigFormat::Json | ConfigFormat::Yaml | ConfigFormat::Toml => {},
                    _ => return Err(format_message("Unsupported format: ", *format)),
                }
                let value = match parsed {
                    Ok(v) => v,
                    Err(e) => return Err(e),
                };
                proof {
                    reveal_strlit("");
                    assert(""@ =~= Seq::<char>::empty());
                }
                let values = json_to_flat_map(&value, "");
                let source_info = SourceInfo {
                    source_type: owned("file"),
                    source_location: path.clone(),
                    format: Some(*format),
                    encoding: copy_opt(encoding),
                    last_modified: None,
                    etag: None,
                    size_bytes: Some(size_bytes),
                    checksum: None,
                };
                Ok(ConfigData { values, metadata: Vec::new(), source_info, checksum: None, loaded_at: now })
            },
            _ => Err(not_a_file()),
        }
    }

    /// The format to write a file source in: JSON and YAML can be
    /// written; anything else is an error naming what is wrong.
    pub fn save_format(&self, source: &ConfigSource) -> (r: Result<ConfigFormat, AppError>)
        ensures
            match source {
                ConfigSource::File { format, .. } => if written_format(*format) {
                    r == Ok::<ConfigFormat, AppError>(*format)
                } else {
                    r matches Err(e) && config_error_is(e, "Saving not supported for format: "@ + format.spec_debug_name(), "format"@)
                },
                _ => r matches Err(e) && config_error_is(e, "File loader only supports file sources"@, "source_type"@),
            },
    {
        match source {
            ConfigSource::File { format, .. } => match *format {
                ConfigFormat::Json | ConfigFormat::Yaml => Ok(*format),
                _ => Err(format_message("Saving not supported for format: ", *format)),
            },
            _ => Err(not_a_file()),
        }
    }

    /// Watching files is not available: always an error.
    pub fn watch(&self, source: &ConfigSource) -> (r: Result<(), AppError>)
        ensures
            r matches Err(e) && config_error_is(e, "File watching not implemented yet"@, "watching"@),
    {
        Err(AppError::Config { message: owned("File watching not implemented yet"), field: owned("watching") })
    }

    /// The loader's description.
    pub fn loader_metadata(&self) -> (r: LoaderMetadata)
        ensures
            r.name@ == "file"@,
            r.version@ == "1.0.0"@,
            r.description@ == "File configuration loader"@,
            string_views(r.supported_sources@) == seq!["file"@],
            r.supported_formats@ == loader_formats(),
    {
        let mut sources: Vec<String> = Vec::new();
        sources.push(owned("file"));
        let mut formats: Vec<ConfigFormat> = Vec::new();
        formats.push(ConfigFormat::Json);
        formats.push(ConfigFormat::Yaml);
        formats.push(ConfigFormat::Toml);
        formats.push(ConfigFormat::Ini);
        assert(formats@ =~= loader_formats());
        assert(string_views(sources@) =~= seq!["file"@]);
        LoaderMetadata {
            name: owned("file"),
            version: owned("1.0.0"),
            description: owned("File configuration loader"),
            supported_sources: sources,
            supported_formats: formats,
        }
    }
}

impl Default for FileConfigLoader {
    fn default() -> (r: Self)
        ensures
            r.spec_formats() == loader_formats(),
    {
        FileConfigLoader::new()
    }
}

} // verus!
