//! Wall-clock access and timestamp rendering through chrono.

use vstd::prelude::*;

verus! {

/// Calls `chrono::Utc::now()` and gives the instant as milliseconds since
/// the Unix epoch. Nothing is promised of the value: it is the time.
#[verifier::external_body]
pub fn now_millis() -> i64 {
    chrono::Utc::now().timestamp_millis()
}

/// What chrono's `format` renders for the UTC instant `millis` (milliseconds
/// since the Unix epoch) under the strftime-style `pattern`; `None` where
/// the instant is outside chrono's range or the pattern holds an item that
/// chrono cannot render (such as `%Q` or a trailing `%`).
pub uninterp spec fn formatted_instant(millis: i64, pattern: Seq<char>) -> Option<Seq<char>>;

/// Calls `chrono::DateTime::<Utc>::from_timestamp_millis`, then `format`
/// with `pattern`, and writes the result with `DelayedFormat::write_to`,
/// which fails on an item it cannot render; the outcome depends on the two
/// arguments alone and is named `formatted_instant`.
#[verifier::external_body]
pub fn format_instant(millis: i64, pattern: &str) -> (r: Option<String>)
    ensures
        match r {
            Some(s) => formatted_instant(millis, pattern@) == Some(s@),
            None => formatted_instant(millis, pattern@) is None,
        },
{
    match chrono::DateTime::<chrono::Utc>::from_timestamp_millis(millis) {
        Some(dt) => {
            let mut text = String::new();
            match dt.format(pattern).write_to(&mut text) {
                Ok(()) => Some(text),
                Err(_) => None,
            }
        },
        None => None,
    }
}

/// What chrono's `Debug` prints for the UTC instant `millis` (milliseconds
/// since the Unix epoch), such as `2024-01-01T00:00:00Z`; `None` where the
/// instant is outside chrono's range.
pub uninterp spec fn instant_debug_text(millis: i64) -> Option<Seq<char>>;

/// Calls `chrono::DateTime::<Utc>::from_timestamp_millis` and formats the
/// instant with `Debug`; the text depends on `millis` alone and is named
/// `instant_debug_text`.
#[verifier::external_body]
pub fn debug_instant(millis: i64) -> (r: Option<String>)
    ensures
        match r {
            Some(s) => instant_debug_text(millis) == Some(s@),
            None => instant_debug_text(millis) is None,
        },
{
    match chrono::DateTime::<chrono::Utc>::from_timestamp_millis(millis) {
        Some(dt) => Some(format!("{:?}", dt)),
        None => None,
    }
}

/// What `Debug` prints for a `std::time::Duration` of `millis`
/// milliseconds, such as `1.5s` or `100ms`.
pub uninterp spec fn duration_debug_text(millis: u64) -> Seq<char>;

/// Formats `std::time::Duration::from_millis(millis)` with `Debug`; the
/// text depends on `millis` alone and is named `duration_debug_text`.
#[verifier::external_body]
pub fn debug_duration(millis: u64) -> (r: String)
    ensures
        r@ == duration_debug_text(millis),
{
    format!("{:?}", std::time::Duration::from_millis(millis))
}

/// What chrono's `to_rfc3339` gives for the UTC instant `millis`
/// (milliseconds since the Unix epoch), such as
/// `2024-01-01T00:00:00+00:00`; `None` where the instant is outside
/// chrono's range.
pub uninterp spec fn rfc3339_text(millis: i64) -> Option<Seq<char>>;

/// Calls `chrono::DateTime::<Utc>::from_timestamp_millis` and then
/// `to_rfc3339`; the text depends on `millis` alone and is named
/// `rfc3339_text`.
#[verifier::external_body]
pub fn rfc3339_instant(millis: i64) -> (r: Option<String>)
    ensures
        match r {
            Some(s) => rfc3339_text(millis) == Some(s@),
            None => rfc3339_text(millis) is None,
        },
{
    match chrono::DateTime::<chrono::Utc>::from_timestamp_millis(millis) {
        Some(dt) => Some(dt.to_rfc3339()),
        None => None,
    }
}

} // verus!
