//! Calendar values of the fast clock.

use vstd::prelude::*;

verus! {

/// Day of the week; its protocol code runs from one (Sunday) to seven.
#[derive(Debug, Clone, Copy, PartialEq, Eq)]
pub enum FastClockWeekday {
    Sunday,
    Monday,
    Tuesday,
    Wednesday,
    Thursday,
    Friday,
    Saturday,
}

/// Month; its protocol code runs from one (January) to twelve.
#[derive(Debug, Clone, Copy, PartialEq, Eq)]
pub enum FastClockMonth {
    January,
    February,
    March,
    April,
    May,
    June,
    July,
    August,
    September,
    October,
    November,
    December,
}

} // verus!
