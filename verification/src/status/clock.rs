//! The clock of the status bar.

use vstd::prelude::*;

verus! {

/// The clock. It keeps nothing: each frame reads the time anew.
#[derive(Clone, Copy, Debug, PartialEq, Eq, Structural)]
pub struct ClockIndicator;

/// The name the clock shows for a day of the week, counted from Sunday as
/// day `0`. A number that is no day of the week has a name too.
pub open spec fn day_label(weekday: i32) -> Seq<char> {
    if weekday == 0 {
        "Sun"@
    } else if weekday == 1 {
        "Mon"@
    } else if weekday == 2 {
        "Tue"@
    } else if weekday == 3 {
        "Wed"@
    } else if weekday == 4 {
        "Thu"@
    } else if weekday == 5 {
        "Fri"@
    } else if weekday == 6 {
        "Sat"@
    } else {
        "Judgment Day"@
    }
}

impl ClockIndicator {
    pub fn new() -> (clock: ClockIndicator)
        ensures
            clock == ClockIndicator,
    {
        ClockIndicator
    }

    /// The name of a day of the week.
    pub fn day_name(&self, weekday: i32) -> (name: &'static str)
        ensures
            name@ == day_label(weekday),
    {
        if weekday == 0 {
            "Sun"
        } else if weekday == 1 {
            "Mon"
        } else if weekday == 2 {
            "Tue"
        } else if weekday == 3 {
            "Wed"
        } else if weekday == 4 {
            "Thu"
        } else if weekday == 5 {
            "Fri"
        } else if weekday == 6 {
            "Sat"
        } else {
            "Judgment Day"
        }
    }

    /// The two digits the clock shows for a minute: the minute padded with
    /// a zero on the left.
    pub fn minute_digits(&self, minute: u8) -> (digits: (u8, u8))
        ensures
            digits.0 == minute / 10,
            digits.1 == minute % 10,
            digits.0 * 10 + digits.1 == minute,
    {
        (minute / 10, minute % 10)
    }
}

} // verus!
