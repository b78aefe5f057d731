//! Validation of configuration values against per-key rules: presence,
//! type, string length and pattern, numeric bounds, allowed values.

use vstd::prelude::*;
use vstd::string::*;
use crate::assoc::{as_map, get_value, has_key, insert_value, keys_unique, remove_value};
use crate::config::double::{double_ge, double_ge_int, double_le_int, double_bits_ge, double_ge_i64, double_le_i64};
use crate::config::provider::opt_str_view;
use crate::config::traits::ValidatorMetadata;
use crate::config::value::{
    ConfigValue, clone_value, debug_items, debug_value, items_debug, objects_wf, same_value,
    value_debug, value_eq, values_equal,
};
use crate::error::types::AppError;
use crate::config::data::ConfigData;
use crate::patterns::{regex_match, regex_match_result};
use crate::text::{decimal_spec, owned, push_str, u64_to_decimal, utf8_len};

verus! {

/// Rules that a configuration value must satisfy.
#[derive(Debug)]
pub struct ValidationRules {
    pub required: bool,
    pub value_type: Option<String>,
    pub min_length: Option<usize>,
    pub max_length: Option<usize>,
    pub min_value: Option<ConfigValue>,
    pub max_value: Option<ConfigValue>,
    pub pattern: Option<String>,
    pub allowed_values: Option<Vec<ConfigValue>>,
    pub custom_validators: Vec<String>,
}

impl ValidationRules {
    /// No rule at all.
    pub open spec fn is_empty_rules(&self) -> bool {
        &&& !self.required
        &&& self.value_type is None
        &&& self.min_length is None
        &&& self.max_length is None
        &&& self.min_value is None
        &&& self.max_value is None
        &&& self.pattern is None
        &&& self.allowed_values is None
        &&& self.custom_validators@.len() == 0
    }

    /// Rules that accept everything.
    pub fn new() -> (r: ValidationRules)
        ensures
            r.is_empty_rules(),
    {
        ValidationRules {
            required: false,
            value_type: None,
            min_length: None,
            max_length: None,
            min_value: None,
            max_value: None,
            pattern: None,
            allowed_values: None,
            custom_validators: Vec::new(),
        }
    }

    /// The same rules, with a value required.
    pub fn required(self) -> (r: ValidationRules)
        ensures
            r == (ValidationRules { required: true, ..self }),
    {
        ValidationRules { required: true, ..self }
    }

    /// The same rules, with the value's type fixed.
    pub fn with_type(self, value_type: &str) -> (r: ValidationRules)
        ensures
            r.value_type matches Some(t) && t@ == value_type@,
            r.required == self.required,
            r.min_length == self.min_length,
            r.max_length == self.max_length,
            r.min_value == self.min_value,
            r.max_value == self.max_value,
            r.pattern == self.pattern,
            r.allowed_values == self.allowed_values,
            r.custom_validators == self.custom_validators,
    {
        ValidationRules { value_type: Some(owned(value_type)), ..self }
    }

    /// The same rules, with a least string length in bytes.
    pub fn with_min_length(self, min_length: usize) -> (r: ValidationRules)
        ensures
            r == (ValidationRules { min_length: Some(min_length), ..self }),
    {
        ValidationRules { min_length: Some(min_length), ..self }
    }

    /// The same rules, with a greatest string length in bytes.
    pub fn with_max_length(self, max_length: usize) -> (r: ValidationRules)
        ensures
            r == (ValidationRules { max_length: Some(max_length), ..self }),
    {
        ValidationRules { max_length: Some(max_length), ..self }
    }

    /// The same rules, with a lower bound.
    pub fn with_min_value(self, min_value: ConfigValue) -> (r: ValidationRules)
        ensures
            r == (ValidationRules { min_value: Some(min_value), ..self }),
    {
        ValidationRules { min_value: Some(min_value), ..self }
    }

    /// The same rules, with an upper bound.
    pub fn with_max_value(self, max_value: ConfigValue) -> (r: ValidationRules)
        ensures
            r == (ValidationRules { max_value: Some(max_value), ..self }),
    {
        ValidationRules { max_value: Some(max_value), ..self }
    }

    /// The same rules, with a regular expression that strings must match.
    pub fn with_pattern(self, pattern: &str) -> (r: ValidationRules)
        ensures
            r.pattern matches Some(p) && p@ == pattern@,
            r.required == self.required,
            r.value_type == self.value_type,
            r.min_length == self.min_length,
            r.max_length == self.max_length,
            r.min_value == self.min_value,
            r.max_value == self.max_value,
            r.allowed_values == self.allowed_values,
            r.custom_validators == self.custom_validators,
    {
        ValidationRules { pattern: Some(owned(pattern)), ..self }
    }

    /// The same rules, with the values allowed.
    pub fn with_allowed_values(self, allowed_values: Vec<ConfigValue>) -> (r: ValidationRules)
        ensures
            r == (ValidationRules { allowed_values: Some(allowed_values), ..self }),
    {
        ValidationRules { allowed_values: Some(allowed_values), ..self }
    }
}

impl Default for ValidationRules {
    /// Rules that accept everything.
    fn default() -> (r: ValidationRules)
        ensures
            r.is_empty_rules(),
    {
        ValidationRules::new()
    }
}

/// A rule that a value breaks.
#[derive(Debug)]
pub struct ValidationError {
    pub code: String,
    pub message: String,
    pub field: Option<String>,
    pub value: Option<ConfigValue>,
}

/// A remark on a value that does not make it invalid.
#[derive(Debug)]
pub struct ValidationWarning {
    pub code: String,
    pub message: String,
    pub field: Option<String>,
    pub value: Option<ConfigValue>,
}

/// The outcome of validating one value.
#[derive(Debug)]
pub struct ValidationResult {
    pub is_valid: bool,
    pub errors: Vec<ValidationError>,
    pub warnings: Vec<ValidationWarning>,
}

/// The outcome of validating a whole configuration.
#[derive(Debug)]
pub struct ValidationSummary {
    pub total_keys: usize,
    pub valid_keys: usize,
    pub invalid_keys: usize,
    pub warnings: Vec<ValidationWarning>,
    pub errors: Vec<ValidationError>,
    pub is_valid: bool,
}

/// Code and message.
pub type Remark = (Seq<char>, Seq<char>);

/// The codes and messages of a list of errors.
pub open spec fn error_remarks(s: Seq<ValidationError>) -> Seq<Remark> {
    s.map_values(|e: ValidationError| (e.code@, e.message@))
}

/// The codes and messages of a list of warnings.
pub open spec fn warning_remarks(s: Seq<ValidationWarning>) -> Seq<Remark> {
    s.map_values(|w: ValidationWarning| (w.code@, w.message@))
}

/// Every error names the key and carries a copy of the value.
pub open spec fn errors_about(s: Seq<ValidationError>, key: Seq<char>, value: ConfigValue) -> bool {
    forall|k: int| 0 <= k < s.len() ==> ((#[trigger] s[k]).field matches Some(f) && f@ == key)
        && (s[k].value matches Some(v) && same_value(value, v))
}

/// Every warning names the key and carries a copy of the value.
pub open spec fn warnings_about(s: Seq<ValidationWarning>, key: Seq<char>, value: ConfigValue) -> bool {
    forall|k: int| 0 <= k < s.len() ==> ((#[trigger] s[k]).field matches Some(f) && f@ == key)
        && (s[k].value matches Some(v) && same_value(value, v))
}

/// Whether `value` passes `bound` as a minimum (`is_min`) or a maximum:
/// numbers compare as `f64` does when one side is a float, strings and
/// lists by their length in bytes or items; other pairs pass.
pub open spec fn within_bound(value: ConfigValue, bound: ConfigValue, is_min: bool) -> bool {
    match (value, bound) {
        (ConfigValue::Integer(a), ConfigValue::Integer(b)) => if is_min { a >= b } else { a <= b },
        (ConfigValue::Float { bits: a, .. }, ConfigValue::Float { bits: b, .. }) =>
            if is_min { double_ge(a, b) } else { double_ge(b, a) },
        (ConfigValue::Float { bits: a, .. }, ConfigValue::Integer(b)) =>
            if is_min { double_ge_int(a, b as int) } else { double_le_int(a, b as int) },
        (ConfigValue::Integer(a), ConfigValue::Float { bits: b, .. }) =>
            if is_min { double_le_int(b, a as int) } else { double_ge_int(b, a as int) },
        (ConfigValue::String(a), ConfigValue::String(b)) =>
            if is_min { utf8_len(a@) >= utf8_len(b@) } else { utf8_len(a@) <= utf8_len(b@) },
        (ConfigValue::List(a), ConfigValue::List(b)) =>
            if is_min { a@.len() >= b@.len() } else { a@.len() <= b@.len() },
        _ => true,
    }
}

/// Whether `value` passes `bound` as a minimum or a maximum, as
/// `within_bound` says.
pub fn compare_values(value: &ConfigValue, bound: &ConfigValue, is_min: bool) -> (r: bool)
    ensures
        r == within_bound(*value, *bound, is_min),
{
    match (value, bound) {
        (ConfigValue::Integer(a), ConfigValue::Integer(b)) => if is_min { *a >= *b } else { *a <= *b },
        (ConfigValue::Float { bits: a, .. }, ConfigValue::Float { bits: b, .. }) =>
            if is_min { double_bits_ge(*a, *b) } else { double_bits_ge(*b, *a) },
        (ConfigValue::Float { bits: a, .. }, ConfigValue::Integer(b)) =>
            if is_min { double_ge_i64(*a, *b) } else { double_le_i64(*a, *b) },
        (ConfigValue::Integer(a), ConfigValue::Float { bits: b, .. }) =>
            if is_min { double_le_i64(*b, *a) } else { double_ge_i64(*b, *a) },
        (ConfigValue::String(a), ConfigValue::String(b)) => {
            let sa = a.as_str();
            let sb = b.as_str();
            let la = sa.as_bytes().len();
            let lb = sb.as_bytes().len();
            assert(la == utf8_len(a@) && lb == utf8_len(b@));
            if is_min { la >= lb } else { la <= lb }
        },
        (ConfigValue::List(a), ConfigValue::List(b)) =>
            if is_min { a.len() >= b.len() } else { a.len() <= b.len() },
        _ => true,
    }
}

/// The error for a null value that is required.
pub open spec fn null_remarks(rules: ValidationRules, key: Seq<char>) -> Seq<Remark> {
    if rules.required {
        seq![("REQUIRED_VALUE"@, "Key '"@ + key + "' is required but has null value"@)]
    } else {
        Seq::empty()
    }
}

/// The error for a value of another type than the rules fix.
pub open spec fn type_remarks(rules: ValidationRules, value: ConfigValue) -> Seq<Remark> {
    match rules.value_type {
        Some(t) => if value.spec_value_type_name() != t@ {
            seq![("INVALID_TYPE"@, "Expected type '"@ + t@ + "' but got '"@ + value.spec_value_type_name() + "'"@)]
        } else {
            Seq::empty()
        },
        None => Seq::empty(),
    }
}

/// The errors for a string shorter or longer, in bytes, than the rules allow.
pub open spec fn length_remarks(rules: ValidationRules, value: ConfigValue) -> Seq<Remark> {
    match value {
        ConfigValue::String(s) => {
            let n = utf8_len(s@);
            (match rules.min_length {
                Some(m) => if n < m {
                    seq![("MIN_LENGTH"@, "String length "@ + decimal_spec(n) + " is less than minimum "@ + decimal_spec(m as nat))]
                } else {
                    Seq::empty()
                },
                None => Seq::empty(),
            }) + (match rules.max_length {
                Some(m) => if n > m {
                    seq![("MAX_LENGTH"@, "String length "@ + decimal_spec(n) + " exceeds maximum "@ + decimal_spec(m as nat))]
                } else {
                    Seq::empty()
                },
                None => Seq::empty(),
            })
        },
        _ => Seq::empty(),
    }
}

/// The error for a string that does not match the rules' pattern;
/// `matched` is the outcome of matching it (`None`: the pattern is not a
/// valid regular expression).
pub open spec fn pattern_error_remarks(rules: ValidationRules, value: ConfigValue, matched: Option<bool>) -> Seq<Remark> {
    match (value, rules.pattern) {
        (ConfigValue::String(s), Some(p)) => if matched == Some(false) {
            seq![("PATTERN_MISMATCH"@, "String '"@ + s@ + "' does not match pattern '"@ + p@ + "'"@)]
        } else {
            Seq::empty()
        },
        _ => Seq::empty(),
    }
}

/// The warning for a pattern that is not a valid regular expression.
pub open spec fn pattern_warning_remarks(rules: ValidationRules, value: ConfigValue, matched: Option<bool>) -> Seq<Remark> {
    match (value, rules.pattern) {
        (ConfigValue::String(_), Some(p)) => if matched is None {
            seq![("INVALID_PATTERN"@, "Invalid regex pattern: "@ + p@)]
        } else {
            Seq::empty()
        },
        _ => Seq::empty(),
    }
}

/// The errors for a value outside the rules' bounds.
pub open spec fn bound_remarks(rules: ValidationRules, value: ConfigValue) -> Seq<Remark> {
    (match rules.min_value {
        Some(b) => if !within_bound(value, b, true) {
            seq![("MIN_VALUE"@, "Value "@ + value_debug(value) + " is less than minimum "@ + value_debug(b))]
        } else {
            Seq::empty()
        },
        None => Seq::empty(),
    }) + (match rules.max_value {
        Some(b) => if !within_bound(value, b, false) {
            seq![("MAX_VALUE"@, "Value "@ + value_debug(value) + " exceeds maximum "@ + value_debug(b))]
        } else {
            Seq::empty()
        },
        None => Seq::empty(),
    })
}

/// Some allowed value equals the value.
pub open spec fn is_allowed(allowed: Seq<ConfigValue>, value: ConfigValue) -> bool {
    exists|i: int| 0 <= i < allowed.len() && value_eq(#[trigger] allowed[i], value)
}

/// The error for a value that is not among the allowed ones.
pub open spec fn allowed_remarks(rules: ValidationRules, value: ConfigValue) -> Seq<Remark> {
    match rules.allowed_values {
        Some(list) => if !is_allowed(list@, value) {
            seq![("INVALID_VALUE"@, "Value "@ + value_debug(value) + " is not in allowed values "@ + items_debug(list@))]
        } else {
            Seq::empty()
        },
        None => Seq::empty(),
    }
}

/// The warning of a custom validator, which is not run.
pub open spec fn custom_remark(name: String) -> Remark {
    ("CUSTOM_VALIDATOR"@, "Custom validator '"@ + name@ + "' not implemented"@)
}

/// The warnings for the rules' custom validators, one each.
pub open spec fn custom_remarks(rules: ValidationRules) -> Seq<Remark> {
    rules.custom_validators@.map_values(|n: String| custom_remark(n))
}

/// The errors of a validation, in the order the rules are checked. A null
/// value is only checked for presence.
pub open spec fn expected_errors(rules: ValidationRules, key: Seq<char>, value: ConfigValue, matched: Option<bool>) -> Seq<Remark> {
    if value is Null {
        null_remarks(rules, key)
    } else {
        type_remarks(rules, value) + length_remarks(rules, value) + pattern_error_remarks(rules, value, matched)
            + bound_remarks(rules, value) + allowed_remarks(rules, value)
    }
}

/// The warnings of a validation.
pub open spec fn expected_warnings(rules: ValidationRules, value: ConfigValue, matched: Option<bool>) -> Seq<Remark> {
    if value is Null {
        Seq::empty()
    } else {
        pattern_warning_remarks(rules, value, matched) + custom_remarks(rules)
    }
}

/// Appends an error about `key` and `value`.
fn push_error(errors: &mut Vec<ValidationError>, code: &str, message: String, key: &str, value: &ConfigValue)
    requires
        errors_about(old(errors)@, key@, *value),
    ensures
        error_remarks(final(errors)@) == error_remarks(old(errors)@).push((code@, message@)),
        errors_about(final(errors)@, key@, *value),
{
    let ghost before = errors@;
    let e = ValidationError {
        code: owned(code),
        message,
        field: Some(owned(key)),
        value: Some(clone_value(value)),
    };
    errors.push(e);
    assert(error_remarks(errors@) =~= error_remarks(before).push((code@, e.message@)));
}

/// Appends a warning about `key` and `value`.
fn push_warning(warnings: &mut Vec<ValidationWarning>, code: &str, message: String, key: &str, value: &ConfigValue)
    requires
        warnings_about(old(warnings)@, key@, *value),
    ensures
        warning_remarks(final(warnings)@) == warning_remarks(old(warnings)@).push((code@, message@)),
        warnings_about(final(warnings)@, key@, *value),
{
    let ghost before = warnings@;
    let w = ValidationWarning {
        code: owned(code),
        message,
        field: Some(owned(key)),
        value: Some(clone_value(value)),
    };
    warnings.push(w);
    assert(warning_remarks(warnings@) =~= warning_remarks(before).push((code@, w.message@)));
}

/// Whether some allowed value equals the value.
fn allowed_contains(allowed: &Vec<ConfigValue>, value: &ConfigValue) -> (r: bool)
    requires
        objects_wf(*value),
    ensures
        r == is_allowed(allowed@, *value),
{
    let mut i: usize = 0;
    while i < allowed.len()
        invariant
            i <= allowed@.len(),
            objects_wf(*value),
            forall|j: int| 0 <= j < i ==> !value_eq(#[trigger] allowed@[j], *value),
        decreases allowed@.len() - i,
    {
        if values_equal(&allowed[i], value) {
            return true;
        }
        i = i + 1;
    }
    false
}

/// Appends the type error, if any.
fn check_type(errors: &mut Vec<ValidationError>, rules: &ValidationRules, key: &str, value: &ConfigValue)
    requires
        errors_about(old(errors)@, key@, *value),
    ensures
        error_remarks(final(errors)@) == error_remarks(old(errors)@) + type_remarks(*rules, *value),
        errors_about(final(errors)@, key@, *value),
{
    let ghost e0 = error_remarks(errors@);
    if let Some(expected_type) = &rules.value_type {
        let actual = value.value_type_name();
        if !crate::text::str_eq(actual, expected_type.as_str()) {
            let mut msg = owned("Expected type '");
            push_str(&mut msg, expected_type.as_str());
            push_str(&mut msg, "' but got '");
            push_str(&mut msg, actual);
            push_str(&mut msg, "'");
            push_error(errors, "INVALID_TYPE", msg, key, value);
        }
    }
    assert(error_remarks(errors@) =~= e0 + type_remarks(*rules, *value));
}

/// Appends the length errors, if any.
fn check_length(errors: &mut Vec<ValidationError>, rules: &ValidationRules, key: &str, value: &ConfigValue)
    requires
        errors_about(old(errors)@, key@, *value),
    ensures
        error_remarks(final(errors)@) == error_remarks(old(errors)@) + length_remarks(*rules, *value),
        errors_about(final(errors)@, key@, *value),
{
    let ghost e0 = error_remarks(errors@);
    if let ConfigValue::String(s) = value {
        let n = s.as_str().as_bytes().len();
        assert(n == utf8_len(s@));
        if let Some(min_length) = rules.min_length {
            if n < min_length {
                let mut msg = owned("String length ");
                let a = u64_to_decimal(n as u64);
                push_str(&mut msg, a.as_str());
                push_str(&mut msg, " is less than minimum ");
                let b = u64_to_decimal(min_length as u64);
                push_str(&mut msg, b.as_str());
                push_error(errors, "MIN_LENGTH", msg, key, value);
            }
        }
        if let Some(max_length) = rules.max_length {
            if n > max_length {
                let mut msg = owned("String length ");
                let a = u64_to_decimal(n as u64);
                push_str(&mut msg, a.as_str());
                push_str(&mut msg, " exceeds maximum ");
                let b = u64_to_decimal(max_length as u64);
                push_str(&mut msg, b.as_str());
                push_error(errors, "MAX_LENGTH", msg, key, value);
            }
        }
    }
    assert(error_remarks(errors@) =~= e0 + length_remarks(*rules, *value));
}

/// Appends the pattern error or warning, if any.
fn check_pattern(
    errors: &mut Vec<ValidationError>,
    warnings: &mut Vec<ValidationWarning>,
    rules: &ValidationRules,
    key: &str,
    value: &ConfigValue,
    matched: Option<bool>,
)
    requires
        errors_about(old(errors)@, key@, *value),
        warnings_about(old(warnings)@, key@, *value),
    ensures
        error_remarks(final(errors)@) == error_remarks(old(errors)@) + pattern_error_remarks(*rules, *value, matched),
        warning_remarks(final(warnings)@) == warning_remarks(old(warnings)@) + pattern_warning_remarks(*rules, *value, matched),
        errors_about(final(errors)@, key@, *value),
        warnings_about(final(warnings)@, key@, *value),
{
    let ghost e0 = error_remarks(errors@);
    let ghost w0 = warning_remarks(warnings@);
    if let ConfigValue::String(s) = value {
        if let Some(pattern) = &rules.pattern {
            match matched {
                Some(true) => {},
                Some(false) => {
                    let mut msg = owned("String '");
                    push_str(&mut msg, s.as_str());
                    push_str(&mut msg, "' does not match pattern '");
                    push_str(&mut msg, pattern.as_str());
                    push_str(&mut msg, "'");
                    push_error(errors, "PATTERN_MISMATCH", msg, key, value);
                },
                None => {
                    let mut msg = owned("Invalid regex pattern: ");
                    push_str(&mut msg, pattern.as_str());
                    push_warning(warnings, "INVALID_PATTERN", msg, key, value);
                },
            }
        }
    }
    assert(error_remarks(errors@) =~= e0 + pattern_error_remarks(*rules, *value, matched));
    assert(warning_remarks(warnings@) =~= w0 + pattern_warning_remarks(*rules, *value, matched));
}

/// Appends the bound errors, if any.
fn check_bounds(errors: &mut Vec<ValidationError>, rules: &ValidationRules, key: &str, value: &ConfigValue)
    requires
        errors_about(old(errors)@, key@, *value),
    ensures
        error_remarks(final(errors)@) == error_remarks(old(errors)@) + bound_remarks(*rules, *value),
        errors_about(final(errors)@, key@, *value),
{
    let ghost e0 = error_remarks(errors@);
    if let Some(min_value) = &rules.min_value {
        if !compare_values(value, min_value, true) {
            let mut msg = owned("Value ");
            let a = debug_value(value);
            push_str(&mut msg, a.as_str());
            push_str(&mut msg, " is less than minimum ");
            let b = debug_value(min_value);
            push_str(&mut msg, b.as_str());
            push_error(errors, "MIN_VALUE", msg, key, value);
        }
    }
    if let Some(max_value) = &rules.max_value {
        if !compare_values(value, max_value, false) {
            let mut msg = owned("Value ");
            let a = debug_value(value);
            push_str(&mut msg, a.as_str());
            push_str(&mut msg, " exceeds maximum ");
            let b = debug_value(max_value);
            push_str(&mut msg, b.as_str());
            push_error(errors, "MAX_VALUE", msg, key, value);
        }
    }
    assert(error_remarks(errors@) =~= e0 + bound_remarks(*rules, *value));
}

/// Appends the allowed-values error, if any.
fn check_allowed(errors: &mut Vec<ValidationError>, rules: &ValidationRules, key: &str, value: &ConfigValue)
    requires
        errors_about(old(errors)@, key@, *value),
        objects_wf(*value),
    ensures
        error_remarks(final(errors)@) == error_remarks(old(errors)@) + allowed_remarks(*rules, *value),
        errors_about(final(errors)@, key@, *value),
{
    let ghost e0 = error_remarks(errors@);
    if let Some(allowed) = &rules.allowed_values {
        if !allowed_contains(allowed, value) {
            let mut msg = owned("Value ");
            let a = debug_value(value);
            push_str(&mut msg, a.as_str());
            push_str(&mut msg, " is not in allowed values ");
            let b = debug_items(allowed);
            push_str(&mut msg, b.as_str());
            push_error(errors, "INVALID_VALUE", msg, key, value);
        }
    }
    assert(error_remarks(errors@) =~= e0 + allowed_remarks(*rules, *value));
}

/// Appends one warning per custom validator.
fn check_custom(warnings: &mut Vec<ValidationWarning>, rules: &ValidationRules, key: &str, value: &ConfigValue)
    requires
        warnings_about(old(warnings)@, key@, *value),
    ensures
        warning_remarks(final(warnings)@) == warning_remarks(old(warnings)@) + custom_remarks(*rules),
        warnings_about(final(warnings)@, key@, *value),
{
    let ghost w0 = warning_remarks(warnings@);
    let mut i: usize = 0;
    while i < rules.custom_validators.len()
        invariant
            i <= rules.custom_validators@.len(),
            warning_remarks(warnings@) == w0 + rules.custom_validators@.subrange(0, i as int).map_values(
                |n: String| custom_remark(n),
            ),
            warnings_about(warnings@, key@, *value),
        decreases rules.custom_validators@.len() - i,
    {
        let mut msg = owned("Custom validator '");
        push_str(&mut msg, rules.custom_validators[i].as_str());
        push_str(&mut msg, "' not implemented");
        push_warning(warnings, "CUSTOM_VALIDATOR", msg, key, value);
        assert(rules.custom_validators@.subrange(0, i + 1).map_values(|n: String| custom_remark(n))
            =~= rules.custom_validators@.subrange(0, i as int).map_values(|n: String| custom_remark(n)).push(
            custom_remark(rules.custom_validators@[i as int])));
        i = i + 1;
    }
    assert(rules.custom_validators@.subrange(0, i as int) =~= rules.custom_validators@);
}

/// Checks `value`, the value of `key`, against `rules`. `matched` is the
/// outcome of matching a string value against the rules' pattern: whether
/// it matched, or `None` when the pattern is not a valid regular
/// expression; it is not read when the rules have no pattern or the value
/// is no string. The value is valid when no error is found.
pub fn validate_with_rules(rules: &ValidationRules, key: &str, value: &ConfigValue, matched: Option<bool>) -> (r: ValidationResult)
    requires
        objects_wf(*value),
    ensures
        error_remarks(r.errors@) == expected_errors(*rules, key@, *value, matched),
        warning_remarks(r.warnings@) == expected_warnings(*rules, *value, matched),
        errors_about(r.errors@, key@, *value),
        warnings_about(r.warnings@, key@, *value),
        r.is_valid == (r.errors@.len() == 0),
{
    let mut errors: Vec<ValidationError> = Vec::new();
    let mut warnings: Vec<ValidationWarning> = Vec::new();
    assert(error_remarks(errors@) =~= Seq::<Remark>::empty());
    assert(warning_remarks(warnings@) =~= Seq::<Remark>::empty());
    let is_null = match value {
        ConfigValue::Null => true,
        _ => false,
    };
    if is_null {
        if rules.required {
            let mut msg = owned("Key '");
            push_str(&mut msg, key);
            push_str(&mut msg, "' is required but has null value");
            push_error(&mut errors, "REQUIRED_VALUE", msg, key, value);
        }
        assert(error_remarks(errors@) =~= expected_errors(*rules, key@, *value, matched));
        let is_valid = errors.len() == 0;
        return ValidationResult { is_valid, errors, warnings };
    }
    check_type(&mut errors, rules, key, value);
    check_length(&mut errors, rules, key, value);
    check_pattern(&mut errors, &mut warnings, rules, key, value, matched);
    check_bounds(&mut errors, rules, key, value);
    check_allowed(&mut errors, rules, key, value);
    check_custom(&mut warnings, rules, key, value);
    assert(error_remarks(errors@) =~= expected_errors(*rules, key@, *value, matched));
    assert(warning_remarks(warnings@) =~= expected_warnings(*rules, *value, matched));
    let is_valid = errors.len() == 0;
    ValidationResult { is_valid, errors, warnings }
}

/// The outcome of matching a value against the rules' pattern: what the
/// regular expression says for a string value, and a match otherwise.
pub open spec fn pattern_outcome(rules: ValidationRules, value: ConfigValue) -> Option<bool> {
    match (value, rules.pattern) {
        (ConfigValue::String(s), Some(p)) => regex_match_result(p@, s@),
        _ => Some(true),
    }
}

/// Matches a string value against the rules' pattern.
fn match_pattern(rules: &ValidationRules, value: &ConfigValue) -> (r: Option<bool>)
    ensures
        r == pattern_outcome(*rules, *value),
{
    match (value, &rules.pattern) {
        (ConfigValue::String(s), Some(p)) => regex_match(p.as_str(), s.as_str()),
        _ => Some(true),
    }
}

/// `text` is a string holding `expected`.
pub open spec fn opt_text_is(text: Option<String>, expected: Seq<char>) -> bool {
    text matches Some(t) && t@ == expected
}

/// The rules the default validator starts with for `key`, if any.
pub open spec fn default_rule(key: Seq<char>, r: ValidationRules) -> bool {
    if key == "server.port"@ {
        &&& opt_text_is(r.value_type, "integer"@)
        &&& r.required
        &&& r.min_value == Some(ConfigValue::Integer(1))
        &&& r.max_value == Some(ConfigValue::Integer(65535))
        &&& r.min_length is None && r.max_length is None && r.pattern is None
        &&& r.allowed_values is None && r.custom_validators@.len() == 0
    } else if key == "database.host"@ {
        &&& opt_text_is(r.value_type, "string"@)
        &&& r.required
        &&& r.min_value is None && r.max_value is None
        &&& r.min_length is None && r.max_length is None && r.pattern is None
        &&& r.allowed_values is None && r.custom_validators@.len() == 0
    } else if key == "database.port"@ {
        &&& opt_text_is(r.value_type, "integer"@)
        &&& !r.required
        &&& r.min_value == Some(ConfigValue::Integer(1))
        &&& r.max_value == Some(ConfigValue::Integer(65535))
        &&& r.min_length is None && r.max_length is None && r.pattern is None
        &&& r.allowed_values is None && r.custom_validators@.len() == 0
    } else {
        &&& key == "cache.ttl_ms"@
        &&& opt_text_is(r.value_type, "integer"@)
        &&& !r.required
        &&& r.min_value == Some(ConfigValue::Integer(0))
        &&& r.max_value is None
        &&& r.min_length is None && r.max_length is None && r.pattern is None
        &&& r.allowed_values is None && r.custom_validators@.len() == 0
    }
}

/// The keys the default validator has rules for, in order.
pub open spec fn default_rule_keys() -> Seq<Seq<char>> {
    seq!["server.port"@, "database.host"@, "database.port"@, "cache.ttl_ms"@]
}

/// Validates configuration values against rules kept by key; a key
/// without rules is held to no rule.
pub struct DefaultConfigValidator {
    rules: Vec<(String, ValidationRules)>,
    metadata: ValidatorMetadata,
}

impl DefaultConfigValidator {
    /// The rules by key.
    pub closed spec fn rule_map(&self) -> Map<Seq<char>, ValidationRules> {
        as_map(self.rules@)
    }

    /// Each key has one set of rules.
    pub closed spec fn wf(&self) -> bool {
        keys_unique(self.rules@)
    }

    /// The validator's description.
    pub closed spec fn spec_metadata(&self) -> ValidatorMetadata {
        self.metadata
    }

    /// The validator with the rules for the server port, the database host
    /// and port, and the cache lifetime.
    pub fn new() -> (r: DefaultConfigValidator)
        ensures
            r.wf(),
            r.rule_map().dom() == default_rule_keys().to_set(),
            forall|k: Seq<char>| #[trigger] r.rule_map().contains_key(k) ==> default_rule(k, r.rule_map()[k]),
            r.spec_metadata().name@ == "default"@,
            r.spec_metadata().version@ == "1.0.0"@,
            r.spec_metadata().description@ == "Default configuration validator"@,
            r.spec_metadata().supported_types@.map_values(|t: String| t@) == seq![
                "string"@, "integer"@, "float"@, "boolean"@, "datetime"@, "duration"@, "list"@, "object"@,
            ],
    {
        let mut supported_types: Vec<String> = Vec::new();
        supported_types.push(owned("string"));
        supported_types.push(owned("integer"));
        supported_types.push(owned("float"));
        supported_types.push(owned("boolean"));
        supported_types.push(owned("datetime"));
        supported_types.push(owned("duration"));
        supported_types.push(owned("list"));
        supported_types.push(owned("object"));
        let metadata = ValidatorMetadata {
            name: owned("default"),
            version: owned("1.0.0"),
            description: owned("Default configuration validator"),
            supported_types,
        };
        assert(metadata.supported_types@.map_values(|t: String| t@) =~= seq![
            "string"@, "integer"@, "float"@, "boolean"@, "datetime"@, "duration"@, "list"@, "object"@,
        ]);

        proof {
            reveal_strlit("server.port");
            reveal_strlit("database.host");
            reveal_strlit("database.port");
            reveal_strlit("cache.ttl_ms");
        }
        let mut rules: Vec<(String, ValidationRules)> = Vec::new();
        let server_port = ValidationRules::new().with_type("integer").required()
            .with_min_value(ConfigValue::Integer(1)).with_max_value(ConfigValue::Integer(65535));
        insert_value(&mut rules, owned("server.port"), server_port);
        let database_host = ValidationRules::new().with_type("string").required();
        insert_value(&mut rules, owned("database.host"), database_host);
        let database_port = ValidationRules::new().with_type("integer")
            .with_min_value(ConfigValue::Integer(1)).with_max_value(ConfigValue::Integer(65535));
        insert_value(&mut rules, owned("database.port"), database_port);
        let cache_ttl = ValidationRules::new().with_type("integer").with_min_value(ConfigValue::Integer(0));
        insert_value(&mut rules, owned("cache.ttl_ms"), cache_ttl);
        proof {
            let m = as_map(rules@);
            assert("server.port"@.len() != "database.host"@.len());
            assert("server.port"@.len() != "database.port"@.len());
            assert("server.port"@.len() != "cache.ttl_ms"@.len());
            assert("database.host"@.len() != "cache.ttl_ms"@.len());
            assert("database.host"@[9] != "database.port"@[9]);
            assert(m.dom() =~= default_rule_keys().to_set());
            assert(default_rule("server.port"@, m["server.port"@]));
            assert(default_rule("database.host"@, m["database.host"@]));
            assert(default_rule("database.port"@, m["database.port"@]));
            assert(default_rule("cache.ttl_ms"@, m["cache.ttl_ms"@]));
            assert forall|k: Seq<char>| #[trigger] m.contains_key(k) implies default_rule(k, m[k]) by {
                assert(default_rule_keys().to_set().contains(k));
                assert(default_rule_keys().contains(k));
            }
        }
        DefaultConfigValidator { rules, metadata }
    }

    /// Sets the rules of a key.
    pub fn add_rule(&mut self, key: String, rules: ValidationRules)
        requires
            old(self).wf(),
        ensures
            final(self).wf(),
            final(self).rule_map() == old(self).rule_map().insert(key@, rules),
            final(self).spec_metadata() == old(self).spec_metadata(),
    {
        insert_value(&mut self.rules, key, rules);
    }

    /// Removes and gives back the rules of a key.
    pub fn remove_rule(&mut self, key: &str) -> (r: Option<ValidationRules>)
        requires
            old(self).wf(),
        ensures
            final(self).wf(),
            final(self).rule_map() == old(self).rule_map().remove(key@),
            final(self).spec_metadata() == old(self).spec_metadata(),
            match r {
                Some(x) => old(self).rule_map().contains_key(key@) && x == old(self).rule_map()[key@],
                None => !old(self).rule_map().contains_key(key@),
            },
    {
        remove_value(&mut self.rules, key)
    }

    /// The rules of a key.
    pub fn get_rules(&self, key: &str) -> (r: Option<&ValidationRules>)
        requires
            self.wf(),
        ensures
            match r {
                Some(x) => self.rule_map().contains_key(key@) && *x == self.rule_map()[key@],
                None => !self.rule_map().contains_key(key@),
            },
    {
        get_value(&self.rules, key)
    }

    /// The validator's description.
    pub fn validator_metadata(&self) -> (r: &ValidatorMetadata)
        ensures
            *r == self.spec_metadata(),
    {
        &self.metadata
    }

    /// Checks the value of `key` against its rules (none for a key without
    /// rules), matching strings against a rule's pattern with the `regex`
    /// crate. It always succeeds.
    pub fn validate(&self, key: &str, value: &ConfigValue) -> (r: Result<ValidationResult, AppError>)
        requires
            self.wf(),
            objects_wf(*value),
        ensures
            r matches Ok(res) && ({
                &&& errors_about(res.errors@, key@, *value)
                &&& warnings_about(res.warnings@, key@, *value)
                &&& res.is_valid == (res.errors@.len() == 0)
                &&& if self.rule_map().contains_key(key@) {
                    let rules = self.rule_map()[key@];
                    &&& error_remarks(res.errors@) == expected_errors(rules, key@, *value, pattern_outcome(rules, *value))
                    &&& warning_remarks(res.warnings@) == expected_warnings(rules, *value, pattern_outcome(rules, *value))
                } else {
                    &&& res.errors@.len() == 0
                    &&& res.warnings@.len() == 0
                }
            }),
    {
        let default_rules = ValidationRules::new();
        let rules = match self.get_rules(key) {
            Some(r) => r,
            None => &default_rules,
        };
        let matched = match_pattern(rules, value);
        let res = validate_with_rules(rules, key, value, matched);
        proof {
            if !self.rule_map().contains_key(key@) {
                assert(custom_remarks(*rules) =~= Seq::<Remark>::empty());
            }
        }
        Ok(res)
    }
}

impl DefaultConfigValidator {
    /// The errors and warnings of validating `value` as the value of `key`.
    pub open spec fn remarks_for(&self, key: Seq<char>, value: ConfigValue) -> (Seq<Remark>, Seq<Remark>) {
        if self.rule_map().contains_key(key) {
            let rules = self.rule_map()[key];
            (
                expected_errors(rules, key, value, pattern_outcome(rules, value)),
                expected_warnings(rules, value, pattern_outcome(rules, value)),
            )
        } else {
            (Seq::empty(), Seq::empty())
        }
    }

    /// The errors of validating each entry, in order.
    pub open spec fn all_errors(&self, entries: Seq<(String, ConfigValue)>) -> Seq<Remark>
        decreases entries.len(),
    {
        if entries.len() == 0 {
            Seq::empty()
        } else {
            self.all_errors(entries.drop_last()) + self.remarks_for(entries.last().0@, entries.last().1).0
        }
    }

    /// The warnings of validating each entry, in order.
    pub open spec fn all_warnings(&self, entries: Seq<(String, ConfigValue)>) -> Seq<Remark>
        decreases entries.len(),
    {
        if entries.len() == 0 {
            Seq::empty()
        } else {
            self.all_warnings(entries.drop_last()) + self.remarks_for(entries.last().0@, entries.last().1).1
        }
    }

    /// The number of entries with errors.
    pub open spec fn invalid_count(&self, entries: Seq<(String, ConfigValue)>) -> nat
        decreases entries.len(),
    {
        if entries.len() == 0 {
            0
        } else {
            self.invalid_count(entries.drop_last()) + if self.remarks_for(
                entries.last().0@,
                entries.last().1,
            ).0.len() > 0 {
                1nat
            } else {
                0nat
            }
        }
    }

    /// Validates every value of a configuration and sums up: how many keys
    /// are valid and invalid, and all errors and warnings in key order. It
    /// always succeeds.
    pub fn validate_all(&self, config: &ConfigData) -> (r: Result<ValidationSummary, AppError>)
        requires
            self.wf(),
            forall|i: int| 0 <= i < config.values@.len() ==> objects_wf(#[trigger] config.values@[i].1),
        ensures
            r matches Ok(s) && ({
                &&& s.total_keys == config.values@.len()
                &&& s.invalid_keys == self.invalid_count(config.values@)
                &&& s.valid_keys + s.invalid_keys == s.total_keys
                &&& s.is_valid == (s.invalid_keys == 0)
                &&& error_remarks(s.errors@) == self.all_errors(config.values@)
                &&& warning_remarks(s.warnings@) == self.all_warnings(config.values@)
            }),
    {
        self.validate_entries(&config.values)
    }

    /// Validates a list of key/value entries and sums up, as `validate_all`
    /// does for the values of a configuration.
    pub fn validate_entries(&self, values: &Vec<(String, ConfigValue)>) -> (r: Result<ValidationSummary, AppError>)
        requires
            self.wf(),
            forall|i: int| 0 <= i < values@.len() ==> objects_wf(#[trigger] values@[i].1),
        ensures
            r matches Ok(s) && ({
                &&& s.total_keys == values@.len()
                &&& s.invalid_keys == self.invalid_count(values@)
                &&& s.valid_keys + s.invalid_keys == s.total_keys
                &&& s.is_valid == (s.invalid_keys == 0)
                &&& error_remarks(s.errors@) == self.all_errors(values@)
                &&& warning_remarks(s.warnings@) == self.all_warnings(values@)
            }),
    {
        let config = values;
        let mut valid_keys: usize = 0;
        let mut invalid_keys: usize = 0;
        let mut errors: Vec<ValidationError> = Vec::new();
        let mut warnings: Vec<ValidationWarning> = Vec::new();
        let mut i: usize = 0;
        assert(error_remarks(errors@) =~= Seq::<Remark>::empty());
        assert(warning_remarks(warnings@) =~= Seq::<Remark>::empty());
        while i < config.len()
            invariant
                self.wf(),
                forall|j: int| 0 <= j < config@.len() ==> objects_wf(#[trigger] config@[j].1),
                i <= config@.len(),
                valid_keys + invalid_keys == i,
                invalid_keys == self.invalid_count(config@.subrange(0, i as int)),
                error_remarks(errors@) == self.all_errors(config@.subrange(0, i as int)),
                warning_remarks(warnings@) == self.all_warnings(config@.subrange(0, i as int)),
            decreases config@.len() - i,
        {
            let ghost e0 = errors@;
            let ghost w0 = warnings@;
            let res = match self.validate(config[i].0.as_str(), &config[i].1) {
                Ok(res) => res,
                Err(e) => return Err(e),
            };
            proof {
                let s = config@.subrange(0, i + 1);
                assert(s.drop_last() =~= config@.subrange(0, i as int));
                assert(s.last() == config@[i as int]);
            }
            if res.is_valid {
                valid_keys = valid_keys + 1;
            } else {
                invalid_keys = invalid_keys + 1;
            }
            let mut res_errors = res.errors;
            let mut res_warnings = res.warnings;
            let ghost re = res_errors@;
            let ghost rw = res_warnings@;
            warnings.append(&mut res_warnings);
            errors.append(&mut res_errors);
            assert(error_remarks(errors@) =~= error_remarks(e0) + error_remarks(re));
            assert(warning_remarks(warnings@) =~= warning_remarks(w0) + warning_remarks(rw));
            i = i + 1;
        }
        assert(config@.subrange(0, i as int) =~= config@);
        let is_valid = invalid_keys == 0;
        Ok(ValidationSummary { total_keys: config.len(), valid_keys, invalid_keys, warnings, errors, is_valid })
    }
}

impl Default for DefaultConfigValidator {
    /// The validator with the default rules.
    fn default() -> (r: DefaultConfigValidator)
        ensures
            r.wf(),
            r.rule_map().dom() == default_rule_keys().to_set(),
            forall|k: Seq<char>| #[trigger] r.rule_map().contains_key(k) ==> default_rule(k, r.rule_map()[k]),
    {
        DefaultConfigValidator::new()
    }
}

/// Integer bounds: an integer passes an integer minimum exactly when it is
/// at least the minimum, and an integer maximum exactly when it is at most
/// the maximum.
pub proof fn lemma_integer_bounds(a: i64, b: i64)
    ensures
        within_bound(ConfigValue::Integer(a), ConfigValue::Integer(b), true) <==> a >= b,
        within_bound(ConfigValue::Integer(a), ConfigValue::Integer(b), false) <==> a <= b,
{
}

/// Rules that ask for an integer between `lo` and `hi` and nothing else
/// find no error in an integer exactly when it lies in that range, ends
/// included.
pub proof fn lemma_integer_range_rules(r: ValidationRules, key: Seq<char>, p: i64, lo: i64, hi: i64)
    requires
        opt_text_is(r.value_type, "integer"@),
        r.min_value == Some(ConfigValue::Integer(lo)),
        r.max_value == Some(ConfigValue::Integer(hi)),
        r.min_length is None && r.max_length is None && r.pattern is None,
        r.allowed_values is None,
    ensures
        expected_errors(r, key, ConfigValue::Integer(p), pattern_outcome(r, ConfigValue::Integer(p))).len() == 0
            <==> lo <= p && p <= hi,
{
    let v = ConfigValue::Integer(p);
    let m = pattern_outcome(r, v);
    assert(type_remarks(r, v).len() == 0);
    assert(length_remarks(r, v).len() == 0);
    assert(pattern_error_remarks(r, v, m).len() == 0);
    assert(allowed_remarks(r, v).len() == 0);
    lemma_integer_bounds(p, lo);
    lemma_integer_bounds(p, hi);
    assert(expected_errors(r, key, v, m) == type_remarks(r, v) + length_remarks(r, v) + pattern_error_remarks(r, v, m)
        + bound_remarks(r, v) + allowed_remarks(r, v));
    assert(expected_errors(r, key, v, m).len() == bound_remarks(r, v).len());
}

/// The default validator finds no error in an integer server port exactly
/// when it lies between 1 and 65535.
pub proof fn lemma_default_server_port(v: DefaultConfigValidator, p: i64)
    requires
        v.rule_map().contains_key("server.port"@),
        default_rule("server.port"@, v.rule_map()["server.port"@]),
    ensures
        v.remarks_for("server.port"@, ConfigValue::Integer(p)).0.len() == 0 <==> 1 <= p && p <= 65535,
{
    lemma_integer_range_rules(v.rule_map()["server.port"@], "server.port"@, p, 1, 65535);
}

/// String and list bounds go by length: a string passes a string minimum
/// exactly when it is at least as long in bytes, and a maximum when it is
/// at most as long; lists likewise by their number of items.
pub proof fn lemma_length_bounds(x: String, y: String, u: Vec<ConfigValue>, w: Vec<ConfigValue>)
    ensures
        within_bound(ConfigValue::String(x), ConfigValue::String(y), true) <==> utf8_len(x@) >= utf8_len(y@),
        within_bound(ConfigValue::String(x), ConfigValue::String(y), false) <==> utf8_len(x@) <= utf8_len(y@),
        within_bound(ConfigValue::List(u), ConfigValue::List(w), true) <==> u@.len() >= w@.len(),
        within_bound(ConfigValue::List(u), ConfigValue::List(w), false) <==> u@.len() <= w@.len(),
{
}

/// A value between an integer minimum and maximum (ends included) passes
/// both, and a value that passes both lies between them.
pub proof fn lemma_integer_between(p: i64, lo: i64, hi: i64)
    ensures
        within_bound(ConfigValue::Integer(p), ConfigValue::Integer(lo), true)
            && within_bound(ConfigValue::Integer(p), ConfigValue::Integer(hi), false) <==> lo <= p && p <= hi,
{
    lemma_integer_bounds(p, lo);
    lemma_integer_bounds(p, hi);
}

} // verus!
