//! Instants as clocks in Shanghai show them.
use crate::calendar::{
    date_at, date_of_instant, floor_div, in_calendar, out_of_range, Date, DAY_MS,
    SHANGHAI_OFFSET_MS,
};
use vstd::prelude::*;

verus! {

/// The instant is outside the calendar.
#[derive(Debug)]
pub struct ComponentRange {
    pub message: String,
}

/// A date and a time of day on clocks in Shanghai.
#[derive(Clone, Copy, Debug, PartialEq, Eq, Structural)]
pub struct LocalDateTime {
    pub date: Date,
    pub millisecond_of_day: i64,
}

/// Whether an instant in the calendar is in it in Shanghai too. The last eight hours of the
/// calendar are not.
pub open spec fn has_local_time(epoch_ms: i64) -> bool {
    in_calendar(epoch_ms as int, 0) ==> in_calendar(epoch_ms as int, SHANGHAI_OFFSET_MS as int)
}

/// The date of an instant in Shanghai; none where the instant is outside the calendar.
pub open spec fn shanghai_date_of(epoch_ms: i64) -> Option<Date> {
    if in_calendar(epoch_ms as int, 0) {
        Some(date_at(epoch_ms as int, SHANGHAI_OFFSET_MS as int))
    } else {
        None
    }
}

/// What clocks in Shanghai show at an instant; none where the instant is outside the calendar.
pub open spec fn shanghai_time_of(epoch_ms: i64) -> Option<LocalDateTime> {
    match shanghai_date_of(epoch_ms) {
        Some(date) => Some(
            LocalDateTime {
                date,
                millisecond_of_day: ((epoch_ms + SHANGHAI_OFFSET_MS) % (DAY_MS as int)) as i64,
            },
        ),
        None => None,
    }
}

/// What is said of an instant that is in the calendar, but not in Shanghai.
pub open spec fn no_local_time() -> Seq<char> {
    "local datetime out of valid range"@
}

/// Whether `has_local_time`.
pub fn can_be_local(epoch_ms: i64) -> (r: bool)
    ensures
        r == has_local_time(epoch_ms),
{
    // The first instant whose date in Shanghai is past the end of the calendar.
    let end: i64 = 253_402_300_800_000 - SHANGHAI_OFFSET_MS;
    !(end <= epoch_ms && epoch_ms < end + SHANGHAI_OFFSET_MS)
}

impl LocalDateTime {
    /// The hour, from 0 to 23.
    pub fn hour(&self) -> (r: i64)
        requires
            self.millisecond_of_day >= 0,
        ensures
            r == self.millisecond_of_day as int / 3_600_000,
    {
        self.millisecond_of_day / 3_600_000
    }
}

/// What clocks in Shanghai show at an instant.
pub fn utc_epoch_ms_to_shanghai(epoch_ms: i64) -> (r: Result<LocalDateTime, ComponentRange>)
    requires
        has_local_time(epoch_ms),
    ensures
        match shanghai_time_of(epoch_ms) {
            Some(time) => r == Ok::<LocalDateTime, ComponentRange>(time),
            None => r is Err && r->Err_0.message@ == out_of_range(),
        },
        r is Ok ==> r->Ok_0.date.valid() && 0 <= r->Ok_0.millisecond_of_day < DAY_MS,
{
    match date_of_instant(epoch_ms, SHANGHAI_OFFSET_MS) {
        Ok(date) => {
            let local: i64 = epoch_ms + SHANGHAI_OFFSET_MS;
            let days: i64 = floor_div(local, DAY_MS);
            Ok(LocalDateTime { date, millisecond_of_day: local - days * DAY_MS })
        },
        Err(message) => Err(ComponentRange { message }),
    }
}

/// The date of an instant in Shanghai, as `YYYY-MM-DD`.
pub fn shanghai_date(epoch_ms: i64) -> (r: Result<String, ComponentRange>)
    requires
        has_local_time(epoch_ms),
    ensures
        match shanghai_date_of(epoch_ms) {
            Some(date) => r is Ok && r->Ok_0@ == date.text(),
            None => r is Err && r->Err_0.message@ == out_of_range(),
        },
{
    match utc_epoch_ms_to_shanghai(epoch_ms) {
        Ok(time) => Ok(time.date.to_text()),
        Err(error) => Err(error),
    }
}

} // verus!
