//! Points in time: calls into the `chrono` crate, from plain numbers to text and back.
use crate::json::opt_view;
use vstd::prelude::*;

verus! {

/// The pattern for a full date and time, marked as UTC.
pub const STAMP_UTC: &'static str = "%Y-%m-%d %H:%M:%S UTC";

/// The pattern for a full date and time.
pub const STAMP: &'static str = "%Y-%m-%d %H:%M:%S";

/// The pattern for a short date and time.
pub const STAMP_SHORT: &'static str = "%m-%d %H:%M";

/// A point in time: seconds since the epoch and nanoseconds within the second.
#[derive(Debug, Clone, Copy, PartialEq, Eq, Structural)]
pub struct Moment {
    pub secs: i64,
    pub nanos: u32,
}

/// One of the patterns that times are written by.
pub open spec fn is_stamp(pattern: Seq<char>) -> bool {
    pattern == STAMP_UTC@ || pattern == STAMP@ || pattern == STAMP_SHORT@
}

/// A point in time as text, by a pattern. There is none outside the calendar that `chrono` covers.
pub uninterp spec fn stamp_of(secs: i64, nanos: u32, pattern: Seq<char>) -> Option<Seq<char>>;

/// The point in time that an RFC 3339 text names.
pub uninterp spec fn rfc3339_of(text: Seq<char>) -> Option<(i64, u32)>;

/// Calls `chrono::DateTime::from_timestamp` and formats the result with `DateTime::format` in UTC.
/// The text depends on the numbers and the pattern alone; the calendar is not stated.
#[verifier::external_body]
fn stamp_text(secs: i64, nanos: u32, pattern: &str) -> (r: Option<String>)
    requires
        is_stamp(pattern@),
    ensures
        opt_view(r) == stamp_of(secs, nanos, pattern@),
{
    chrono::DateTime::from_timestamp(secs, nanos).map(|at| at.format(pattern).to_string())
}

/// Calls `chrono::DateTime::parse_from_rfc3339` and takes the result as a UTC timestamp. It depends
/// on the text alone; the grammar of RFC 3339 is not stated.
#[verifier::external_body]
fn rfc3339(text: &str) -> (r: Option<(i64, u32)>)
    ensures
        r == rfc3339_of(text@),
{
    chrono::DateTime::parse_from_rfc3339(text).ok().map(|at| (at.timestamp(), at.timestamp_subsec_nanos()))
}

/// A point in time as it is shown: nothing for one that no calendar covers.
pub open spec fn shown_stamp(at: Moment, pattern: Seq<char>) -> Seq<char> {
    match stamp_of(at.secs, at.nanos, pattern) {
        Some(text) => text,
        None => Seq::empty(),
    }
}

/// A point in time as text.
pub fn stamp(at: Moment, pattern: &str) -> (r: String)
    requires
        is_stamp(pattern@),
    ensures
        r@ == shown_stamp(at, pattern@),
{
    match stamp_text(at.secs, at.nanos, pattern) {
        Some(text) => text,
        None => String::new(),
    }
}

/// The point in time that an RFC 3339 text names.
pub open spec fn moment_of(text: Seq<char>) -> Option<Moment> {
    match rfc3339_of(text) {
        Some(at) => Some(Moment { secs: at.0, nanos: at.1 }),
        None => None,
    }
}

/// Reads an RFC 3339 text.
pub fn parse_moment(text: &str) -> (r: Option<Moment>)
    ensures
        r == moment_of(text@),
{
    match rfc3339(text) {
        Some(at) => Some(Moment { secs: at.0, nanos: at.1 }),
        None => None,
    }
}

/// A time that the calendar covers is shown as it is written there, and any other by nothing; a text
/// names exactly the time that is read from it. The patterns are these.
pub proof fn law_times_as_they_are_shown(at: Moment, pattern: Seq<char>, text: Seq<char>)
    ensures
        stamp_of(at.secs, at.nanos, pattern) is Some ==> Some(shown_stamp(at, pattern)) == stamp_of(
            at.secs,
            at.nanos,
            pattern,
        ),
        stamp_of(at.secs, at.nanos, pattern) is None ==> shown_stamp(at, pattern).len() == 0,
        moment_of(text) is Some <==> rfc3339_of(text) is Some,
        moment_of(text) is Some ==> rfc3339_of(text) == Some(
            (moment_of(text)->0.secs, moment_of(text)->0.nanos),
        ),
        STAMP@ == "%Y-%m-%d %H:%M:%S"@,
        STAMP_UTC@ == "%Y-%m-%d %H:%M:%S UTC"@,
        STAMP_SHORT@ == "%m-%d %H:%M"@,
{
}

} // verus!
