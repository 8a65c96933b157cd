//! The errors that calendar operations return.

use crate::date::Date;
use vstd::prelude::*;

verus! {

/// What can go wrong in a calendar query.
#[derive(Debug, Clone, PartialEq, Eq)]
pub enum CalendarError {
    /// The date lies outside the supported years.
    DateOutOfRange(Date),
    /// A time of day that the operation cannot work with.
    InvalidTime(String),
    /// A search for a trading day gave up.
    NoTradingDayFound,
    /// A holiday rule produced a date that does not exist.
    InvalidDateCalculation(String),
    /// A market was set up with values that do not fit together.
    InvalidConfiguration(String),
    /// A session that starts and ends at the same time of day.
    InvalidSession,
}

} // verus!
