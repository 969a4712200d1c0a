//! Reading instants from text.

use vstd::prelude::*;

verus! {

/// What chrono reads from `raw` under the format `format`: the instant in
/// whole seconds since the Unix epoch, taken as UTC, or the text of chrono's
/// refusal.
pub uninterp spec fn naive_datetime_from_str(raw: Seq<char>, format: Seq<char>) -> Result<
    i64,
    Seq<char>,
>;

/// An instant, or the text of a refusal taken by its view.
pub open spec fn instant_or_refusal(r: Result<i64, String>) -> Result<i64, Seq<char>> {
    match r {
        Ok(t) => Ok(t),
        Err(m) => Err(m@),
    }
}

/// `chrono::NaiveDateTime::parse_from_str`, with the instant it reads taken
/// as UTC and turned into seconds since the Unix epoch by
/// `DateTime::timestamp`, and its refusal turned into the text that chrono
/// renders it as. Nothing is claimed of the outcome but that it is the one
/// chrono gives for this text and this format.
#[verifier::external_body]
pub(crate) fn read_datetime(raw: &str, format: &str) -> (r: Result<i64, String>)
    ensures
        instant_or_refusal(r) == naive_datetime_from_str(raw@, format@),
{
    match chrono::NaiveDateTime::parse_from_str(raw, format) {
        Ok(at) => Ok(at.and_utc().timestamp()),
        Err(e) => Err(e.to_string()),
    }
}

/// The distance between two neighbouring instants of a timeseries: a number
/// of calendar months and a number of seconds on top of them.
#[derive(Debug, Clone, Copy, PartialEq, Eq, Hash, Structural)]
pub struct TimeResolution {
    pub months: i32,
    pub seconds: i64,
}

impl TimeResolution {
    pub open spec fn spec_of_seconds(seconds: i64) -> TimeResolution {
        TimeResolution { months: 0, seconds }
    }

    /// A resolution of so many seconds.
    #[verifier::when_used_as_spec(spec_of_seconds)]
    pub fn of_seconds(seconds: i64) -> (r: TimeResolution)
        ensures
            r == Self::spec_of_seconds(seconds),
    {
        TimeResolution { months: 0, seconds }
    }

    pub open spec fn spec_of_months(months: i32) -> TimeResolution {
        TimeResolution { months, seconds: 0 }
    }

    /// A resolution of so many calendar months.
    #[verifier::when_used_as_spec(spec_of_months)]
    pub fn of_months(months: i32) -> (r: TimeResolution)
        ensures
            r == Self::spec_of_months(months),
    {
        TimeResolution { months, seconds: 0 }
    }
}

} // verus!
