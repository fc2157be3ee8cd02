//! The calls this library makes into regex, uuid, chrono and serde_json,
//! each with the contract the library relies on.
use chrono::Datelike;
use vstd::prelude::*;

verus! {

/// A moment in time: whole seconds since the Unix epoch and the nanoseconds
/// past that second.
#[derive(Clone, Copy, Debug)]
pub struct Instant {
    pub secs: i64,
    pub nanos: u32,
}

/// The present, as a moment and as the day number of today's UTC date
/// (days from the first day of the common era, that day being day one).
#[derive(Clone, Copy, Debug)]
pub struct Clock {
    pub now: Instant,
    pub today: i32,
}

/// Whether `pattern` compiles, and if so whether it matches somewhere in `text`.
pub uninterp spec fn regex_outcome(pattern: Seq<char>, text: Seq<char>) -> Option<bool>;

/// Whether the text is a UUID in one of the forms the uuid crate reads.
pub uninterp spec fn uuid_accepts(s: Seq<char>) -> bool;

/// Whether the text is one JSON document.
pub uninterp spec fn json_accepts(s: Seq<char>) -> bool;

/// The moment an RFC 3339 timestamp names, as (seconds, nanoseconds).
pub uninterp spec fn rfc3339_moment(s: Seq<char>) -> Option<(i64, u32)>;

/// The day number of a `YYYY-MM-DD` date.
pub uninterp spec fn ymd_day(s: Seq<char>) -> Option<i32>;

/// Unicode's Uppercase property.
pub uninterp spec fn upper_char(c: char) -> bool;

/// Unicode's Lowercase property.
pub uninterp spec fn lower_char(c: char) -> bool;

/// Unicode's numeric general categories.
pub uninterp spec fn numeric_char(c: char) -> bool;

/// Unicode alphabetic or numeric.
pub uninterp spec fn alnum_char(c: char) -> bool;

/// The text without leading and trailing Unicode white space.
pub uninterp spec fn trim_of(s: Seq<char>) -> Seq<char>;

/// Relies on `regex::Regex::new`, which fails on a pattern that does not
/// compile, and `Regex::is_match`, which tells whether the pattern matches
/// somewhere in the text.
#[verifier::external_body]
pub(crate) fn regex_match(pattern: &str, text: &str) -> (r: Option<bool>)
    ensures
        r == regex_outcome(pattern@, text@),
{
    match regex::Regex::new(pattern) {
        Ok(re) => Some(re.is_match(text)),
        Err(_) => None,
    }
}

/// Relies on `uuid::Uuid::parse_str`: whether the text reads as a UUID.
#[verifier::external_body]
pub(crate) fn parses_as_uuid(s: &str) -> (r: bool)
    ensures
        r == uuid_accepts(s@),
{
    uuid::Uuid::parse_str(s).is_ok()
}

/// Relies on `serde_json::from_str`: whether the text reads as a JSON value.
#[verifier::external_body]
pub(crate) fn parses_as_json(s: &str) -> (r: bool)
    ensures
        r == json_accepts(s@),
{
    serde_json::from_str::<serde_json::Value>(s).is_ok()
}

/// Relies on `chrono::DateTime::parse_from_rfc3339`, read back through
/// `timestamp` and `timestamp_subsec_nanos`.
#[verifier::external_body]
pub(crate) fn parse_rfc3339(s: &str) -> (r: Option<Instant>)
    ensures
        r matches Some(i) ==> rfc3339_moment(s@) == Some((i.secs, i.nanos)),
        r is None ==> rfc3339_moment(s@) is None,
{
    match chrono::DateTime::parse_from_rfc3339(s) {
        Ok(d) => Some(Instant { secs: d.timestamp(), nanos: d.timestamp_subsec_nanos() }),
        Err(_) => None,
    }
}

/// Relies on `chrono::NaiveDate::parse_from_str` with the format `%Y-%m-%d`,
/// read back through `num_days_from_ce`.
#[verifier::external_body]
pub(crate) fn parse_ymd(s: &str) -> (r: Option<i32>)
    ensures
        r == ymd_day(s@),
{
    match chrono::NaiveDate::parse_from_str(s, "%Y-%m-%d") {
        Ok(d) => Some(d.num_days_from_ce()),
        Err(_) => None,
    }
}

/// Relies on `chrono::Utc::now`: the time at the call, which nothing here
/// can predict.
#[verifier::external_body]
pub(crate) fn current_clock() -> (r: Clock) {
    let n = chrono::Utc::now();
    Clock {
        now: Instant { secs: n.timestamp(), nanos: n.timestamp_subsec_nanos() },
        today: n.date_naive().num_days_from_ce(),
    }
}

/// Relies on `uuid::Uuid::new_v4`, written out by `to_string`: a fresh random
/// identifier.
#[verifier::external_body]
pub(crate) fn fresh_uuid() -> (r: String) {
    uuid::Uuid::new_v4().to_string()
}

/// Relies on `char::is_uppercase`.
#[verifier::external_body]
pub(crate) fn is_upper(c: char) -> (r: bool)
    ensures
        r == upper_char(c),
{
    c.is_uppercase()
}

/// Relies on `char::is_lowercase`.
#[verifier::external_body]
pub(crate) fn is_lower(c: char) -> (r: bool)
    ensures
        r == lower_char(c),
{
    c.is_lowercase()
}

/// Relies on `char::is_numeric`.
#[verifier::external_body]
pub(crate) fn is_numeric(c: char) -> (r: bool)
    ensures
        r == numeric_char(c),
{
    c.is_numeric()
}

/// Relies on `char::is_alphanumeric`.
#[verifier::external_body]
pub(crate) fn is_alnum(c: char) -> (r: bool)
    ensures
        r == alnum_char(c),
{
    c.is_alphanumeric()
}

/// Relies on `str::trim`.
#[verifier::external_body]
pub(crate) fn trimmed(s: &str) -> (r: &str)
    ensures
        r@ == trim_of(s@),
{
    s.trim()
}

} // verus!
