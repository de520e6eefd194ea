use vstd::prelude::*;
use crate::date::{chrono_has_day, has_day, today, timestamp_of_day, timestamp_spec, weekday_of};

verus! {

/// Seconds from the start of a day to its middle: the window opens at noon.
pub const NOON_SECONDS: i64 = 43200;

/// More weeks than this always move the start out of 32-bit day numbers.
const MAX_WEEKS: u64 = 1073741824;

/// The Sunday that ends the ISO week (Monday to Sunday) holding `day`.
pub open spec fn week_sunday(day: int) -> int {
    day + (7 - day % 7) % 7
}

/// The first day of a window of `nb_weeks` weeks that ends with the week holding `today`.
pub open spec fn window_start_spec(today: int, nb_weeks: int) -> int {
    week_sunday(today) - 7 * nb_weeks
}

/// The trailing span of days that the calendar covers: `nb_weeks` weeks of seven days,
/// starting on a Sunday.
pub struct Window {
    pub start_day: i32,
    pub nb_weeks: u64,
}

/// Why no window could be computed.
#[derive(Debug, PartialEq, Eq, Structural)]
pub enum WindowError {
    /// The first day of the window lies before the first day that dates can represent.
    OutOfRange,
}

impl Window {
    /// A window is well formed when it starts on a Sunday and the day after its last day
    /// has a day number of 32 bits.
    pub open spec fn wf(&self) -> bool {
        &&& weekday_of(self.start_day as int) == 0
        &&& self.start_day as int + 7 * self.nb_weeks <= i32::MAX as int + 7
    }

    /// The instant at which the window opens: noon, UTC, on its first day.
    pub open spec fn start_time(&self) -> int {
        timestamp_spec(self.start_day as int) + NOON_SECONDS as int
    }

    /// The day at a row (day of the week) and column (week) of the window.
    pub open spec fn cell_day(&self, row: int, week: int) -> int {
        self.start_day as int + row + 7 * week
    }

    /// The instant at which the window opens.
    pub fn start_timestamp(&self) -> (r: i64)
        ensures
            r == self.start_time(),
    {
        timestamp_of_day(self.start_day) + NOON_SECONDS
    }
}

/// The window of `nb_weeks` weeks that ends with the ISO week holding `today`: it starts
/// on the Sunday that ends that week, moved back by `nb_weeks` weeks. It fails when that
/// Sunday cannot be represented.
pub fn window_start(today: i32, nb_weeks: u64) -> (r: Result<Window, WindowError>)
    ensures
        match r {
            Ok(w) => {
                &&& w.start_day == window_start_spec(today as int, nb_weeks as int)
                &&& w.nb_weeks == nb_weeks
                &&& w.wf()
                &&& chrono_has_day(w.start_day as int)
            },
            Err(e) => e == WindowError::OutOfRange,
        },
        r is Ok <==> {
            let s = window_start_spec(today as int, nb_weeks as int);
            i32::MIN <= s <= i32::MAX && chrono_has_day(s)
        },
{
    let shift: i64 = (7 - today as i64 % 7) % 7;
    let sunday: i64 = today as i64 + shift;
    if nb_weeks > MAX_WEEKS {
        return Err(WindowError::OutOfRange);
    }
    let start: i64 = sunday - 7 * (nb_weeks as i64);
    if start < i32::MIN as i64 || start > i32::MAX as i64 {
        return Err(WindowError::OutOfRange);
    }
    if !has_day(start as i32) {
        return Err(WindowError::OutOfRange);
    }
    Ok(Window { start_day: start as i32, nb_weeks })
}

/// The window of `nb_weeks` weeks that ends with the current ISO week, in UTC.
pub fn current_window(nb_weeks: u64) -> (r: Result<Window, WindowError>)
    ensures
        match r {
            Ok(w) => w.nb_weeks == nb_weeks && w.wf() && chrono_has_day(w.start_day as int),
            Err(e) => e == WindowError::OutOfRange,
        },
{
    window_start(today(), nb_weeks)
}

/// Every window starts on a Sunday, whatever the current day and the number of weeks.
pub proof fn lemma_window_starts_on_sunday(today: int, nb_weeks: nat)
    ensures
        weekday_of(window_start_spec(today, nb_weeks as int)) == 0,
{
    assert((today + (7 - today % 7) % 7 - 7 * nb_weeks) % 7 == 0) by (nonlinear_arith);
}

} // verus!
