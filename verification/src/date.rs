//! The calendar date a run is requested for.

use vstd::prelude::*;
use crate::text::{padded_digits, push_padded_decimal};

verus! {

/// A calendar date, held as plain year, month and day numbers. The
/// schedule endpoint takes it formatted as `YYYY-MM-DD`.
#[derive(Debug, PartialEq, Clone, Copy)]
pub struct CalendarDate {
    pub year: u32,
    pub month: u32,
    pub day: u32,
}

impl CalendarDate {
    /// The `YYYY-MM-DD` rendering: four digits of year and two each of
    /// month and day, zero-padded.
    pub open spec fn ymd(self) -> Seq<char> {
        padded_digits(self.year as nat, 4) + "-"@ + padded_digits(self.month as nat, 2) + "-"@
            + padded_digits(self.day as nat, 2)
    }

    /// Formats the date as the schedule endpoint's date parameter.
    pub fn format_ymd(&self) -> (s: String)
        ensures
            s@ == self.ymd(),
    {
        let mut s = String::new();
        push_padded_decimal(&mut s, self.year, 4);
        s.append("-");
        push_padded_decimal(&mut s, self.month, 2);
        s.append("-");
        push_padded_decimal(&mut s, self.day, 2);
        proof {
            assert(s@ =~= self.ymd());
        }
        s
    }
}

} // verus!
