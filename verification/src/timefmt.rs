//! The two timestamp services the renderer consumes: reading an RFC 3339
//! date-time string as seconds since the epoch, and printing such a value
//! under the fixed short pattern `%m/%d/%y %H:%M`.
use vstd::prelude::*;

verus! {

/// What parsing a string as an RFC 3339 date-time yields: the encoded
/// seconds since the epoch, or the text of the parse error. Both are
/// functions of the characters of the string alone.
pub uninterp spec fn rfc3339_parse_of(s: Seq<char>) -> Result<i64, Seq<char>>;

/// The seconds-since-epoch value encoded by an RFC 3339 date-time string,
/// or nothing when the string is not one.
pub open spec fn rfc3339_secs_of(s: Seq<char>) -> Option<i64> {
    match rfc3339_parse_of(s) {
        Ok(t) => Some(t),
        Err(_) => None,
    }
}

/// The text of `secs` seconds since the epoch rendered in UTC under the
/// fixed pattern `%m/%d/%y %H:%M`; empty for values outside the range of
/// representable date-times.
pub uninterp spec fn short_time_of(secs: i64) -> Seq<char>;

/// Relies on chrono's `DateTime::parse_from_rfc3339` and
/// `DateTime::timestamp`: parsing is a pure function of the characters of
/// the string, the timestamp a pure function of the parsed instant, and
/// the parse-error display a fixed text per error kind, so the whole
/// result depends on the string alone.
#[verifier::external_body]
pub(crate) fn parse_rfc3339_secs(s: &str) -> (r: Result<i64, String>)
    ensures
        r is Ok <==> rfc3339_parse_of(s@) is Ok,
        r is Ok ==> rfc3339_parse_of(s@) == Ok::<i64, Seq<char>>(r->Ok_0),
        r is Err ==> rfc3339_parse_of(s@) == Err::<i64, Seq<char>>(r->Err_0@),
{
    match chrono::DateTime::parse_from_rfc3339(s) {
        Ok(t) => Ok(t.timestamp()),
        Err(e) => Err(format!("{}", e)),
    }
}

/// Relies on chrono's `DateTime::from_timestamp` and the `format` display
/// with the fixed pattern above: for a given `secs` both depend on nothing
/// but `secs`, so the result is the same on every call.
#[verifier::external_body]
pub(crate) fn format_short_time(secs: i64) -> (r: String)
    ensures
        r@ == short_time_of(secs),
{
    match chrono::DateTime::from_timestamp(secs, 0) {
        Some(t) => t.format("%m/%d/%y %H:%M").to_string(),
        None => String::new(),
    }
}

} // verus!
