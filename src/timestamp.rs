//! Calendar timestamps with a fixed offset from UTC, and the system clock.
use vstd::prelude::*;
use chrono::{Datelike, Timelike};
use crate::beat::{is_time_of_day, second_of_day};

verus! {

/// Seconds east of UTC of Biel Mean Time (UTC+1), to which beats are anchored.
pub const BMT_OFFSET_SECONDS: i32 = 3600;

/// A date and time of day as a clock at `offset_seconds` east of UTC shows them.
#[derive(Debug, Clone, Copy, PartialEq, Eq, Structural)]
pub struct Timestamp {
    pub year: i32,
    pub month: u32,
    pub day: u32,
    pub hour: u32,
    pub minute: u32,
    pub second: u32,
    pub offset_seconds: i32,
}

/// Whether a UTC offset is less than a day in either direction.
pub open spec fn is_offset(offset_seconds: int) -> bool {
    -86400 < offset_seconds < 86400
}

impl Timestamp {
    /// The time of day and the offset are in range, as are month and day.
    pub open spec fn wf(&self) -> bool {
        &&& 1 <= self.month <= 12
        &&& 1 <= self.day <= 31
        &&& self.has_time_of_day()
    }

    /// The time of day and the offset are in range.
    pub open spec fn has_time_of_day(&self) -> bool {
        &&& is_time_of_day(self.hour as int, self.minute as int, self.second as int)
        &&& is_offset(self.offset_seconds as int)
    }

    /// The second of the day at this instant on a clock in UTC+1.
    pub open spec fn bmt_second_of_day(&self) -> int {
        (second_of_day(self.hour as int, self.minute as int, self.second as int)
            - self.offset_seconds + BMT_OFFSET_SECONDS) % 86400
    }
}

/// Relies on chrono's `Utc::now` for the current instant, and on the `Datelike` and
/// `Timelike` accessors for its fields, whose documented ranges are: month 1 to 12,
/// day 1 to 31, hour 0 to 23, minute and second 0 to 59.
#[verifier::external_body]
pub(crate) fn utc_now() -> (r: Timestamp)
    ensures
        r.wf(),
        r.offset_seconds == 0,
{
    let now = chrono::Utc::now();
    Timestamp {
        year: now.year(),
        month: now.month(),
        day: now.day(),
        hour: now.hour(),
        minute: now.minute(),
        second: now.second(),
        offset_seconds: 0,
    }
}

} // verus!
