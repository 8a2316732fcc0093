//! Minutes and days on clocks in Shanghai.
use crate::calendar::{
    date_at, in_calendar, julian_day_at, lemma_every_day_has_a_date, lemma_text_parses,
    out_of_range, parse_iso_date, parsed_date, DAY_MS, EPOCH_JULIAN_DAY, MAX_JULIAN_DAY, MIN_JULIAN_DAY,
    SHANGHAI_OFFSET_MS,
};
use crate::domain::time::{has_local_time, shanghai_date, shanghai_date_of};
use crate::num::{larger, max_i64, min_i64, smaller, truncating_div};
use vstd::prelude::*;

verus! {

/// Why the rollups could not be made.
#[derive(Debug)]
pub enum MaterializeError {
    /// An instant is outside the calendar.
    Timestamp(String),
    /// An instant has no minute, or is in the calendar but has no date on clocks in Shanghai.
    Undatable,
}

/// A `MaterializeError` with its text as a sequence of characters.
#[verifier::ext_equal]
pub enum MaterializeErrorView {
    Timestamp(Seq<char>),
    Undatable,
}

impl DeepView for MaterializeError {
    type V = MaterializeErrorView;

    open spec fn deep_view(&self) -> MaterializeErrorView {
        match self {
            MaterializeError::Timestamp(reason) => MaterializeErrorView::Timestamp(reason@),
            MaterializeError::Undatable => MaterializeErrorView::Undatable,
        }
    }
}

/// The first minute of which 64 bits can hold the start.
pub const FIRST_MINUTE_MS: i64 = -9_223_372_036_854_720_000;

/// The start of the minute of an instant.
pub open spec fn minute_of(ms: i64) -> i64 {
    (ms - ms % 60_000) as i64
}

/// Whether 64 bits can hold the start of the minute of an instant.
pub open spec fn has_minute(ms: i64) -> bool {
    i64::MIN <= ms - ms % 60_000
}

/// Whether an instant has a minute, and a date on clocks in Shanghai where it has one in UTC.
pub open spec fn is_datable(ms: i64) -> bool {
    has_minute(ms) && has_local_time(ms)
}

/// The instants that have a minute are those from the start of the first on.
pub proof fn lemma_first_minute(ms: i64)
    ensures
        has_minute(ms) <==> FIRST_MINUTE_MS <= ms,
{
}

/// The date of an instant in Shanghai, as `YYYY-MM-DD`.
pub open spec fn local_date_of(ms: i64) -> Option<Seq<char>> {
    match shanghai_date_of(ms) {
        Some(date) => Some(date.text()),
        None => None,
    }
}

/// The millisecond at which a day starts in Shanghai. It is reckoned in nanoseconds of 64 bits, so
/// it holds for the years from 1678 to 2261.
pub open spec fn midnight(julian_day: int) -> i64 {
    let nanos = ((julian_day - EPOCH_JULIAN_DAY) * DAY_MS - SHANGHAI_OFFSET_MS) * 1_000_000;
    truncating_div((nanos as i64) as int, 1_000_000) as i64
}

/// When a day, given as `YYYY-MM-DD`, starts in Shanghai; 0 where the text is no date.
pub open spec fn start_of_day(date: Seq<char>) -> i64 {
    match parsed_date(date) {
        Some(date) => midnight(date.julian_day()),
        None => 0,
    }
}

/// When a day, given as `YYYY-MM-DD`, ends in Shanghai; never, where the text is no date or the
/// calendar ends with it.
pub open spec fn end_of_day(date: Seq<char>) -> i64 {
    match parsed_date(date) {
        Some(date) => if date.julian_day() < MAX_JULIAN_DAY {
            midnight(date.julian_day() + 1)
        } else {
            i64::MAX
        },
        None => i64::MAX,
    }
}

/// The smaller of two instants, of which either may be missing.
pub open spec fn earlier_of(left: Option<i64>, right: Option<i64>) -> Option<i64> {
    match (left, right) {
        (Some(left), Some(right)) => Some(smaller(left as int, right as int) as i64),
        (Some(value), None) => Some(value),
        (None, right) => right,
    }
}

/// The larger of two instants, of which either may be missing.
pub open spec fn later_of(left: Option<i64>, right: Option<i64>) -> Option<i64> {
    match (left, right) {
        (Some(left), Some(right)) => Some(larger(left as int, right as int) as i64),
        (Some(value), None) => Some(value),
        (None, right) => right,
    }
}

/// A minute has the date of each of its instants.
pub proof fn lemma_minute_keeps_date(ms: i64)
    requires
        is_datable(ms),
    ensures
        minute_of(ms) <= ms < minute_of(ms) + 60_000,
        minute_of(minute_of(ms)) == minute_of(ms),
        has_local_time(minute_of(ms)),
        local_date_of(minute_of(ms)) == local_date_of(ms),
{
    let m = minute_of(ms);
    assert(m == ms - ms % 60_000);
    lemma_minute_of_day(ms as int, 0);
    lemma_minute_of_day(ms as int, SHANGHAI_OFFSET_MS as int);
}

proof fn lemma_minute_of_day(ms: int, offset: int)
    requires
        offset % 60_000 == 0,
    ensures
        (ms - ms % 60_000) % 60_000 == 0,
        (ms - ms % 60_000 + offset) / (DAY_MS as int) == (ms + offset) / (DAY_MS as int),
{
}

proof fn lemma_midnight(julian_day: int)
    requires
        i64::MIN <= ((julian_day - EPOCH_JULIAN_DAY) * DAY_MS - SHANGHAI_OFFSET_MS) * 1_000_000
            <= i64::MAX,
    ensures
        midnight(julian_day) == (julian_day - EPOCH_JULIAN_DAY) * DAY_MS - SHANGHAI_OFFSET_MS,
{
    let ms = (julian_day - EPOCH_JULIAN_DAY) * DAY_MS - SHANGHAI_OFFSET_MS;
    assert(truncating_div(ms * 1_000_000, 1_000_000) == ms);
}

/// An instant of the years from 1678 to 2261 lies in the day that its date names.
pub proof fn lemma_instant_is_in_its_day(ms: i64)
    requires
        i64::MIN <= (ms - 2 * DAY_MS) * 1_000_000,
        (ms + 2 * DAY_MS) * 1_000_000 <= i64::MAX,
    ensures
        local_date_of(ms) is Some,
        start_of_day(local_date_of(ms)->0) <= ms < end_of_day(local_date_of(ms)->0),
{
    let day = julian_day_at(ms as int, SHANGHAI_OFFSET_MS as int);
    assert(in_calendar(ms as int, 0));
    assert(MIN_JULIAN_DAY <= day < MAX_JULIAN_DAY);
    let date = date_at(ms as int, SHANGHAI_OFFSET_MS as int);
    lemma_every_day_has_a_date(day);
    lemma_text_parses(date);
    lemma_midnight(day);
    lemma_midnight(day + 1);
}

/// The start of the minute of an instant.
pub fn minute_start(value: i64) -> (r: i64)
    requires
        has_minute(value),
    ensures
        r == minute_of(value),
{
    let rest: i64 = match value.checked_rem_euclid(60_000) {
        Some(rest) => rest,
        None => 0,
    };
    value - rest
}

fn midnight_of(julian_day: i64) -> (r: i64)
    requires
        MIN_JULIAN_DAY <= julian_day <= MAX_JULIAN_DAY,
    ensures
        r == midnight(julian_day as int),
{
    let ms: i64 = (julian_day - EPOCH_JULIAN_DAY) * DAY_MS - SHANGHAI_OFFSET_MS;
    let nanos: i128 = ms as i128 * 1_000_000;
    let held: i64 = #[verifier::truncate] (nanos as i64);
    held / 1_000_000
}

/// When a day starts in Shanghai.
pub fn day_start_ms(date: &str) -> (r: i64)
    ensures
        r == start_of_day(date@),
{
    match parse_iso_date(date) {
        Some(date) => midnight_of(date.to_julian_day()),
        None => 0,
    }
}

/// When a day ends in Shanghai.
pub fn day_end_ms(date: &str) -> (r: i64)
    ensures
        r == end_of_day(date@),
{
    match parse_iso_date(date) {
        Some(date) => {
            let day: i64 = date.to_julian_day();
            if day < MAX_JULIAN_DAY {
                midnight_of(day + 1)
            } else {
                i64::MAX
            }
        },
        None => i64::MAX,
    }
}

/// The date of an instant in Shanghai.
pub fn local_date(epoch_ms: i64) -> (r: Result<String, MaterializeError>)
    requires
        has_local_time(epoch_ms),
    ensures
        match r {
            Ok(date) => local_date_of(epoch_ms) == Some(date@),
            Err(error) => local_date_of(epoch_ms) is None && error.deep_view()
                == MaterializeErrorView::Timestamp(out_of_range()),
        },
{
    match shanghai_date(epoch_ms) {
        Ok(date) => Ok(date),
        Err(error) => Err(MaterializeError::Timestamp(error.message)),
    }
}

/// The smaller of two instants, of which either may be missing.
pub fn min_option(left: Option<i64>, right: Option<i64>) -> (r: Option<i64>)
    ensures
        r == earlier_of(left, right),
{
    match (left, right) {
        (Some(left), Some(right)) => Some(min_i64(left, right)),
        (Some(value), None) => Some(value),
        (None, right) => right,
    }
}

/// The larger of two instants, of which either may be missing.
pub fn max_option(left: Option<i64>, right: Option<i64>) -> (r: Option<i64>)
    ensures
        r == later_of(left, right),
{
    match (left, right) {
        (Some(left), Some(right)) => Some(max_i64(left, right)),
        (Some(value), None) => Some(value),
        (None, right) => right,
    }
}

} // verus!
