//! The window of stored history that quality control is handed: its bounds,
//! and the regular grid that sparse observations are laid on.

use vstd::prelude::*;
use crate::text::{i32_text, read_i32};
use crate::time::TimeResolution;

verus! {

/// The instant that chronoutil gives for `t` moved by `months` calendar
/// months, both instants in seconds since the Unix epoch; `None` where
/// chrono cannot hold one of the two.
pub uninterp spec fn months_later(t: i64, months: i32) -> Option<i64>;

/// `chronoutil::delta::shift_months_opt` on the UTC instant that
/// `chrono::DateTime::from_timestamp` makes of `t`, turned back into seconds
/// by `DateTime::timestamp`. Nothing is claimed of the outcome but that it
/// is the one the two crates give for this instant and this number of
/// months. chronoutil adds the month of the instant to `months` in `i32`:
/// the bound on `months` keeps that sum from overflowing.
#[verifier::external_body]
pub(crate) fn shift_months(t: i64, months: i32) -> (r: Option<i64>)
    requires
        months <= i32::MAX - 12,
    ensures
        r == months_later(t, months),
{
    match chrono::DateTime::from_timestamp(t, 0) {
        Some(at) => match chronoutil::delta::shift_months_opt(at, months) {
            Some(to) => Some(to.timestamp()),
            None => None,
        },
        None => None,
    }
}

/// The instant `t` moved by `months` calendar months and then by `seconds`
/// seconds, where every step stays within what can be held.
pub open spec fn shifted(t: i64, months: int, seconds: int) -> Option<i64> {
    let base: Option<i64> = if months == 0 {
        Some(t)
    } else if i32::MIN <= months <= i32::MAX - 12 {
        months_later(t, months as i32)
    } else {
        None
    };
    match base {
        Some(b) => if i64::MIN <= b + seconds <= i64::MAX {
            Some((b + seconds) as i64)
        } else {
            None
        },
        None => None,
    }
}

/// Moves `t` by `months` calendar months and then by `seconds` seconds.
pub fn shift(t: i64, months: i64, seconds: i128) -> (r: Option<i64>)
    ensures
        r == shifted(t, months as int, seconds as int),
{
    let base: i64 = if months == 0 {
        t
    } else if -2147483648 <= months && months <= 2147483635 {
        match shift_months(t, months as i32) {
            Some(b) => b,
            None => {
                return None;
            },
        }
    } else {
        return None;
    };
    match (base as i128).checked_add(seconds) {
        Some(sum) => if -9223372036854775808 <= sum && sum <= 9223372036854775807 {
            Some(sum as i64)
        } else {
            None
        },
        None => None,
    }
}

/// The instant of the grid that follows `t`: `t` moved by the resolution,
/// provided that this is later than `t`.
pub open spec fn next_tick(t: i64, res: TimeResolution) -> Option<i64> {
    match shifted(t, res.months as int, res.seconds as int) {
        Some(n) => if n > t {
            Some(n)
        } else {
            None
        },
        None => None,
    }
}

/// Steps from one instant of the grid to the next.
pub fn advance(t: i64, res: TimeResolution) -> (r: Option<i64>)
    ensures
        r == next_tick(t, res),
{
    match shift(t, res.months as i64, res.seconds as i128) {
        Some(n) => if n > t {
            Some(n)
        } else {
            None
        },
        None => None,
    }
}

/// What is left to do of the grid, as a number that falls with every step.
pub open spec fn distance(from: i64, to: int) -> int {
    if to > from {
        to - from
    } else {
        0
    }
}

/// The slots of the grid from `curr` on, after those in `acc`. The
/// observations from index `i` on are laid on the grid in their order: an
/// instant of the grid before the next observation is a missing slot, one
/// that meets it holds its value, and an observation that the grid has
/// passed is left out. After the last observation the grid runs on, in
/// missing slots, through `end`. `None` where the grid cannot be stepped
/// past a slot.
pub open spec fn regular<T>(
    obses: Seq<(i64, T)>,
    i: int,
    curr: i64,
    end: i64,
    res: TimeResolution,
    acc: Seq<Option<T>>,
) -> Option<Seq<Option<T>>>
    decreases obses.len() - i, if 0 <= i < obses.len() {
        distance(curr, obses[i].0 as int)
    } else {
        distance(curr, end + 1)
    },
{
    if 0 <= i < obses.len() {
        if curr < obses[i].0 {
            match next_tick(curr, res) {
                None => None,
                Some(n) => regular(obses, i, n, end, res, acc.push(None)),
            }
        } else if curr == obses[i].0 {
            match next_tick(curr, res) {
                None => None,
                Some(n) => regular(obses, i + 1, n, end, res, acc.push(Some(obses[i].1))),
            }
        } else {
            regular(obses, i + 1, curr, end, res, acc)
        }
    } else if i >= obses.len() && curr <= end {
        match next_tick(curr, res) {
            None => None,
            Some(n) => regular(obses, i, n, end, res, acc.push(None)),
        }
    } else {
        Some(acc)
    }
}

/// The grid only adds slots to those it starts from.
pub proof fn lemma_regular_keeps<T>(
    obses: Seq<(i64, T)>,
    i: int,
    curr: i64,
    end: i64,
    res: TimeResolution,
    acc: Seq<Option<T>>,
)
    ensures
        regular(obses, i, curr, end, res, acc) is Some ==> regular(
            obses,
            i,
            curr,
            end,
            res,
            acc,
        )->Some_0.len() >= acc.len(),
    decreases obses.len() - i, if 0 <= i < obses.len() {
        distance(curr, obses[i].0 as int)
    } else {
        distance(curr, end + 1)
    },
{
    if 0 <= i < obses.len() {
        if curr < obses[i].0 {
            if let Some(n) = next_tick(curr, res) {
                lemma_regular_keeps(obses, i, n, end, res, acc.push(None));
            }
        } else if curr == obses[i].0 {
            if let Some(n) = next_tick(curr, res) {
                lemma_regular_keeps(obses, i + 1, n, end, res, acc.push(Some(obses[i].1)));
            }
        } else {
            lemma_regular_keeps(obses, i + 1, curr, end, res, acc);
        }
    } else if i >= obses.len() && curr <= end {
        if let Some(n) = next_tick(curr, res) {
            lemma_regular_keeps(obses, i, n, end, res, acc.push(None));
        }
    }
}

/// On a grid of fixed period, two values two periods apart come out with
/// one missing slot between them.
pub proof fn lemma_gap_is_marked<T>(start: i64, period: i64, first: T, third: T)
    requires
        period > 0,
        start + 3 * period <= i64::MAX,
    ensures
        regular(
            seq![(start, first), ((start + 2 * period) as i64, third)],
            0,
            start,
            (start + 2 * period) as i64,
            TimeResolution::spec_of_seconds(period),
            Seq::empty(),
        ) == Some(seq![Some(first), None, Some(third)]),
{
    reveal_with_fuel(regular, 6);
    let acc = Seq::<Option<T>>::empty().push(Some(first)).push(None).push(Some(third));
    assert(acc =~= seq![Some(first), None, Some(third)]);
}

/// A value between two instants of the grid takes no slot: with it or
/// without it the grid is the same.
pub proof fn lemma_misaligned_is_dropped<T>(
    start: i64,
    period: i64,
    offset: i64,
    first: T,
    stray: T,
    third: T,
)
    requires
        period > 0,
        0 < offset < period,
        start + 3 * period <= i64::MAX,
    ensures
        regular(
            seq![
                (start, first),
                ((start + offset) as i64, stray),
                ((start + 2 * period) as i64, third),
            ],
            0,
            start,
            (start + 2 * period) as i64,
            TimeResolution::spec_of_seconds(period),
            Seq::empty(),
        ) == Some(seq![Some(first), None, Some(third)]),
{
    reveal_with_fuel(regular, 7);
    let acc = Seq::<Option<T>>::empty().push(Some(first)).push(None).push(Some(third));
    assert(acc =~= seq![Some(first), None, Some(third)]);
}

/// Lays the observations `obses`, each an instant with a value, on the grid
/// that starts at `start_time`, steps by `time_resolution` and runs through
/// `end_time`. `expected_len` is the number of slots to make room for.
pub fn regularize<T: Copy>(
    obses: &Vec<(i64, T)>,
    start_time: i64,
    end_time: i64,
    time_resolution: TimeResolution,
    expected_len: usize,
) -> (r: Option<Vec<Option<T>>>)
    ensures
        match regular(obses@, 0, start_time, end_time, time_resolution, Seq::empty()) {
            Some(slots) => r is Some && r->Some_0@ == slots,
            None => r is None,
        },
{
    let mut out: Vec<Option<T>> = Vec::with_capacity(expected_len);
    let mut curr: i64 = start_time;
    let mut i: usize = 0;
    let ghost goal = regular(obses@, 0, start_time, end_time, time_resolution, Seq::empty());
    assert(out@ == Seq::<Option<T>>::empty());
    while i < obses.len()
        invariant
            i <= obses@.len(),
            goal == regular(obses@, 0, start_time, end_time, time_resolution, Seq::empty()),
            regular(obses@, i as int, curr, end_time, time_resolution, out@) == goal,
        decreases obses@.len() - i,
    {
        let at: i64 = obses[i].0;
        while curr < at
            invariant
                i < obses@.len(),
                at == obses@[i as int].0,
                goal == regular(obses@, 0, start_time, end_time, time_resolution, Seq::empty()),
                regular(obses@, i as int, curr, end_time, time_resolution, out@) == goal,
            decreases distance(curr, at as int),
        {
            match advance(curr, time_resolution) {
                None => {
                    return None;
                },
                Some(n) => {
                    out.push(None);
                    curr = n;
                },
            }
        }
        if curr == at {
            match advance(curr, time_resolution) {
                None => {
                    return None;
                },
                Some(n) => {
                    out.push(Some(obses[i].1));
                    curr = n;
                },
            }
        }
        i += 1;
    }
    while curr <= end_time
        invariant
            i == obses@.len(),
            goal == regular(obses@, 0, start_time, end_time, time_resolution, Seq::empty()),
            regular(obses@, i as int, curr, end_time, time_resolution, out@) == goal,
        decreases distance(curr, end_time + 1),
    {
        match advance(curr, time_resolution) {
            None => {
                return None;
            },
            Some(n) => {
                out.push(None);
                curr = n;
            },
        }
    }
    Some(out)
}

/// The number of slots of the grid that starts at `start_time`, steps by
/// `time_resolution` and runs through `end_time`, where it can be counted.
pub fn grid_len(start_time: i64, end_time: i64, time_resolution: TimeResolution) -> (r: Option<
    usize,
>)
    ensures
        match regular(Seq::<(i64, bool)>::empty(), 0, start_time, end_time, time_resolution, Seq::empty()) {
            Some(slots) => if slots.len() <= usize::MAX {
                r == Some(slots.len() as usize)
            } else {
                r is None
            },
            None => r is None,
        },
{
    let mut count: usize = 0;
    let mut curr: i64 = start_time;
    let ghost obses = Seq::<(i64, bool)>::empty();
    let ghost goal = regular(obses, 0, start_time, end_time, time_resolution, Seq::empty());
    let ghost mut acc: Seq<Option<bool>> = Seq::empty();
    while curr <= end_time
        invariant
            obses == Seq::<(i64, bool)>::empty(),
            goal == regular(obses, 0, start_time, end_time, time_resolution, Seq::empty()),
            regular(obses, 0, curr, end_time, time_resolution, acc) == goal,
            acc.len() == count,
        decreases distance(curr, end_time + 1),
    {
        match advance(curr, time_resolution) {
            None => {
                return None;
            },
            Some(n) => {
                if count == usize::MAX {
                    proof {
                        lemma_regular_keeps(obses, 0, n, end_time, time_resolution, acc.push(None));
                    }
                    return None;
                }
                count += 1;
                curr = n;
                proof {
                    acc = acc.push(None);
                }
            },
        }
    }
    Some(count)
}

/// The bounds of the window around the range from `start` to `end`: `start`
/// moved back by `leading` steps of the resolution, and `end` moved on by
/// `trailing` steps.
pub open spec fn window_of(
    start: i64,
    end: i64,
    res: TimeResolution,
    leading: u8,
    trailing: u8,
) -> Option<(i64, i64)> {
    match (
        shifted(start, -(res.months * leading), -(res.seconds * leading)),
        shifted(end, res.months * trailing, res.seconds * trailing),
    ) {
        (Some(from), Some(to)) => Some((from, to)),
        _ => None,
    }
}

/// Computes the bounds of the window that a check asks for.
pub fn extract_time_spec(
    start: i64,
    end: i64,
    time_resolution: TimeResolution,
    num_leading_points: u8,
    num_trailing_points: u8,
) -> (r: Option<(i64, i64)>)
    ensures
        r == window_of(start, end, time_resolution, num_leading_points, num_trailing_points),
{
    let months: i64 = time_resolution.months as i64;
    let seconds: i128 = time_resolution.seconds as i128;
    let lead: i64 = num_leading_points as i64;
    let trail: i64 = num_trailing_points as i64;
    assert(-(months * lead) == -(time_resolution.months * num_leading_points)) by (nonlinear_arith)
        requires
            months == time_resolution.months,
            lead == num_leading_points,
    ;
    assert(-0x8000_0000 * 255 <= months * lead <= 0x8000_0000 * 255) by (nonlinear_arith)
        requires
            -0x8000_0000 <= months <= 0x8000_0000,
            0 <= lead <= 255,
    ;
    assert(-0x8000_0000 * 255 <= months * trail <= 0x8000_0000 * 255) by (nonlinear_arith)
        requires
            -0x8000_0000 <= months <= 0x8000_0000,
            0 <= trail <= 255,
    ;
    assert(-0x8000_0000_0000_0000 * 255 <= seconds * (lead as i128) <= 0x8000_0000_0000_0000 * 255)
        by (nonlinear_arith)
        requires
            -0x8000_0000_0000_0000 <= seconds <= 0x8000_0000_0000_0000,
            0 <= lead <= 255,
    ;
    assert(-0x8000_0000_0000_0000 * 255 <= seconds * (trail as i128) <= 0x8000_0000_0000_0000
        * 255) by (nonlinear_arith)
        requires
            -0x8000_0000_0000_0000 <= seconds <= 0x8000_0000_0000_0000,
            0 <= trail <= 255,
    ;
    let from = shift(start, -(months * lead), -(seconds * (lead as i128)));
    let to = shift(end, months * trail, seconds * (trail as i128));
    match (from, to) {
        (Some(from), Some(to)) => Some((from, to)),
        _ => None,
    }
}

/// The bounds of the history that precedes a fresh value at `timestamp`:
/// from `leading` steps before it through one step before it.
pub open spec fn context_of(timestamp: i64, res: TimeResolution, leading: u8) -> Option<
    (i64, i64),
> {
    match (
        shifted(timestamp, -(res.months * leading), -(res.seconds * leading)),
        shifted(timestamp, -res.months, -res.seconds),
    ) {
        (Some(from), Some(to)) => Some((from, to)),
        _ => None,
    }
}

/// Computes the bounds of the history that precedes a fresh value.
pub fn context_window(timestamp: i64, time_resolution: TimeResolution, num_leading_points: u8) -> (r:
    Option<(i64, i64)>)
    ensures
        r == context_of(timestamp, time_resolution, num_leading_points),
{
    let months: i64 = time_resolution.months as i64;
    let seconds: i128 = time_resolution.seconds as i128;
    let lead: i64 = num_leading_points as i64;
    assert(-0x8000_0000 * 255 <= months * lead <= 0x8000_0000 * 255) by (nonlinear_arith)
        requires
            -0x8000_0000 <= months <= 0x8000_0000,
            0 <= lead <= 255,
    ;
    assert(-0x8000_0000_0000_0000 * 255 <= seconds * (lead as i128) <= 0x8000_0000_0000_0000 * 255)
        by (nonlinear_arith)
        requires
            -0x8000_0000_0000_0000 <= seconds <= 0x8000_0000_0000_0000,
            0 <= lead <= 255,
    ;
    let from = shift(timestamp, -(months * lead), -(seconds * (lead as i128)));
    let to = shift(timestamp, -months, -seconds);
    match (from, to) {
        (Some(from), Some(to)) => Some((from, to)),
        _ => None,
    }
}

/// The name under which storage knows a resolution: only for one minute,
/// one hour and one day.
pub open spec fn interval_of(res: TimeResolution) -> Option<Seq<char>> {
    if res == TimeResolution::spec_of_seconds(60) {
        Some("1 minute"@)
    } else if res == TimeResolution::spec_of_seconds(3600) {
        Some("1 hour"@)
    } else if res == TimeResolution::spec_of_seconds(86400) {
        Some("1 day"@)
    } else {
        None
    }
}

/// Why the connector could not serve a request.
#[derive(Debug, Clone, Copy, PartialEq, Eq, Structural)]
pub enum Error {
    /// Storage has no name for this resolution.
    UnhandledTimeResolution(TimeResolution),
    /// The parameter id of the request is not a number.
    InvalidParamId,
    /// The window runs out of the instants that can be held.
    WindowOutOfRange,
}

/// Names the resolution for storage.
pub fn interval_name(time_resolution: TimeResolution) -> (r: Result<&'static str, Error>)
    ensures
        match interval_of(time_resolution) {
            Some(name) => r is Ok && r->Ok_0@ == name,
            None => r == Err::<&'static str, Error>(
                Error::UnhandledTimeResolution(time_resolution),
            ),
        },
{
    if time_resolution.months == 0 && time_resolution.seconds == 60 {
        Ok("1 minute")
    } else if time_resolution.months == 0 && time_resolution.seconds == 3600 {
        Ok("1 hour")
    } else if time_resolution.months == 0 && time_resolution.seconds == 86400 {
        Ok("1 day")
    } else {
        Err(Error::UnhandledTimeResolution(time_resolution))
    }
}

/// What to ask of storage for the history before a fresh value.
#[derive(Debug, Clone, Copy, PartialEq, Eq)]
pub struct ContextQuery {
    pub start_time: i64,
    pub end_time: i64,
    pub interval: &'static str,
}

/// The history to fetch before a fresh value at `timestamp`: none where no
/// leading point is asked for; else the window that ends one step before
/// the value, under the name that storage has for the resolution.
pub fn context_query(timestamp: i64, time_resolution: TimeResolution, num_leading_points: u8) -> (r:
    Result<Option<ContextQuery>, Error>)
    ensures
        num_leading_points == 0 ==> r == Ok::<Option<ContextQuery>, Error>(None),
        num_leading_points != 0 ==> match interval_of(time_resolution) {
            None => r == Err::<Option<ContextQuery>, Error>(
                Error::UnhandledTimeResolution(time_resolution),
            ),
            Some(name) => match context_of(timestamp, time_resolution, num_leading_points) {
                None => r == Err::<Option<ContextQuery>, Error>(
                    Error::WindowOutOfRange,
                ),
                Some(window) => r is Ok && r->Ok_0 is Some && r->Ok_0->Some_0.start_time
                    == window.0 && r->Ok_0->Some_0.end_time == window.1
                    && r->Ok_0->Some_0.interval@ == name,
            },
        },
{
    if num_leading_points == 0 {
        return Ok(None);
    }
    let interval = match interval_name(time_resolution) {
        Ok(interval) => interval,
        Err(e) => {
            return Err(e);
        },
    };
    match context_window(timestamp, time_resolution, num_leading_points) {
        Some((start_time, end_time)) => Ok(Some(ContextQuery { start_time, end_time, interval })),
        None => Err(Error::WindowOutOfRange),
    }
}

/// Where a timeseries is measured.
#[derive(Debug, Clone, Copy, PartialEq)]
pub struct Location<T> {
    pub lat: Option<T>,
    pub lon: Option<T>,
    pub hamsl: Option<T>,
}

/// Latitude, longitude and height of a location of which all three are
/// known.
pub open spec fn placed<T>(loc: Option<Location<T>>) -> Option<(T, T, T)> {
    match loc {
        Some(Location { lat: Some(lat), lon: Some(lon), hamsl: Some(hamsl) }) => Some(
            (lat, lon, hamsl),
        ),
        _ => None,
    }
}

/// The position of a timeseries, if it is known in full: checks that look
/// at neighbours cannot use a timeseries without one.
pub fn position<T: Copy>(loc: &Option<Location<T>>) -> (r: Option<(T, T, T)>)
    ensures
        r == placed(*loc),
{
    match loc {
        Some(loc) => match (loc.lat, loc.lon, loc.hamsl) {
            (Some(lat), Some(lon), Some(hamsl)) => Some((lat, lon, hamsl)),
            _ => None,
        },
        None => None,
    }
}

/// What a check asks data of.
#[derive(Debug, Clone, PartialEq)]
pub enum SpaceSpec {
    /// One timeseries, by its id as text.
    One(String),
    /// Every timeseries of the parameter that the extra specification names.
    All,
}

/// What to fetch.
#[derive(Debug, Clone, Copy, PartialEq, Eq, Structural)]
pub enum FetchTarget {
    Timeseries(i32),
    Parameter(i32),
}

/// Why a request names nothing to fetch.
#[derive(Debug, Clone, PartialEq)]
pub enum FetchRefusal {
    /// The id of the timeseries is not a number.
    InvalidSeriesId(String),
    /// The extra specification is missing or no parameter id.
    InvalidExtraSpec(Option<String>),
}

/// The target that a request names: the timeseries whose id it spells, or
/// the parameter whose id the extra specification spells.
pub fn fetch_target(space_spec: &SpaceSpec, extra_spec: Option<&str>) -> (r: Result<
    FetchTarget,
    FetchRefusal,
>)
    ensures
        match space_spec {
            SpaceSpec::One(id) => match i32_text(id@) {
                Some(ts_id) => r == Ok::<FetchTarget, FetchRefusal>(FetchTarget::Timeseries(ts_id)),
                None => r is Err && r->Err_0 is InvalidSeriesId
                    && r->Err_0->InvalidSeriesId_0@ == id@,
            },
            SpaceSpec::All => match extra_spec {
                Some(text) => match i32_text(text@) {
                    Some(param_id) => r == Ok::<FetchTarget, FetchRefusal>(
                        FetchTarget::Parameter(param_id),
                    ),
                    None => r is Err && r->Err_0 is InvalidExtraSpec
                        && r->Err_0->InvalidExtraSpec_0 is Some
                        && r->Err_0->InvalidExtraSpec_0->Some_0@ == text@,
                },
                None => r is Err && r->Err_0 is InvalidExtraSpec && r->Err_0->InvalidExtraSpec_0
                    is None,
            },
        },
{
    match space_spec {
        SpaceSpec::One(id) => match read_i32(id.as_str()) {
            Some(ts_id) => Ok(FetchTarget::Timeseries(ts_id)),
            None => Err(FetchRefusal::InvalidSeriesId(id.clone())),
        },
        SpaceSpec::All => match extra_spec {
            Some(text) => match read_i32(text) {
                Some(param_id) => Ok(FetchTarget::Parameter(param_id)),
                None => Err(FetchRefusal::InvalidExtraSpec(Some(text.to_owned()))),
            },
            None => Err(FetchRefusal::InvalidExtraSpec(None)),
        },
    }
}

} // verus!
