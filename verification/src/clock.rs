use vstd::prelude::*;

use crate::text::opt_view;

verus! {

/// The latest time, in seconds after 1970-01-01T00:00:00Z, that chrono can
/// hold: the last second of the year 262142.
pub const MAX_TIMESTAMP: i64 = 8210266876799;

/// The first second of the year 10000; before it, years have four digits.
pub const FIVE_DIGIT_YEARS: i64 = 253402300800;

/// What chrono writes for the time `secs` seconds and `nanos` nanoseconds
/// after 1970-01-01T00:00:00Z in UTC, in RFC 3339 form; `None` where chrono
/// cannot hold that time.
pub uninterp spec fn rfc3339_text(secs: i64, nanos: u32) -> Option<Seq<char>>;

/// A character of a written number.
pub open spec fn is_digit_char(c: char) -> bool {
    '0' <= c && c <= '9'
}

/// The shape that chrono gives a UTC time of a four-digit year in RFC 3339:
/// `YYYY-MM-DDTHH:MM:SS`, then nothing when the nanoseconds are 0 and else a
/// dot and 3, 6 or 9 digits, then `+00:00`.
pub open spec fn rfc3339_shape(s: Seq<char>, nanos: u32) -> bool {
    &&& s.len() == 25 || s.len() == 29 || s.len() == 32 || s.len() == 35
    &&& (nanos == 0 <==> s.len() == 25)
    &&& s[4] == '-' && s[7] == '-' && s[10] == 'T' && s[13] == ':' && s[16] == ':'
    &&& forall|i: int| 0 <= i < 19 && i != 4 && i != 7 && i != 10 && i != 13 && i != 16 ==> is_digit_char(#[trigger] s[i])
    &&& s.len() > 25 ==> s[19] == '.'
    &&& forall|i: int| 20 <= i < s.len() - 6 ==> is_digit_char(#[trigger] s[i])
    &&& s.subrange(s.len() - 6, s.len() as int) == "+00:00"@
}

/// `chrono::DateTime::<Utc>::from_timestamp(secs, nanos)` and then
/// `to_rfc3339()`: the time in UTC as RFC 3339 text. `from_timestamp` returns
/// `None` outside chrono's range, and otherwise the writing cannot fail. The
/// text is named `rfc3339_text`; what is stated of it: it exists for every
/// time from 1970 to the end of chrono's range with fewer than 10^9
/// nanoseconds, and for years before 10000 it has the shape
/// `rfc3339_shape`. The calendar date in it is not stated.
#[verifier::external_body]
pub(crate) fn format_rfc3339(secs: i64, nanos: u32) -> (r: Option<String>)
    ensures
        opt_view(r) == rfc3339_text(secs, nanos),
        0 <= secs <= MAX_TIMESTAMP && nanos < 1_000_000_000 ==> r is Some,
        r is Some && 0 <= secs < FIVE_DIGIT_YEARS && nanos < 1_000_000_000 ==> rfc3339_shape(r->0@, nanos),
{
    chrono::DateTime::<chrono::Utc>::from_timestamp(secs, nanos).map(|d| d.to_rfc3339())
}

} // verus!
