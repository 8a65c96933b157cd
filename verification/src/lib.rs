//! Trading calendars for a handful of stock exchanges: which days a market
//! trades, the sessions of a trading day, and the rules that place each
//! market's holidays in a year.
//!
//! A [`TradingCalendar`] answers for one [`Market`]. Dates and times of day
//! are plain values, [`Date`] and [`Time`], in the market's local time. The
//! holidays of a year are worked out by the market's rules when a date of
//! that year is first asked for, and kept in a cache of the least recently
//! used years.
//!
//! Every function states what it returns over mathematical models: a date
//! is placed on the time line by its day number, a set of holidays is a
//! `Set<Date>`, and each market's rules are a function from a year to such
//! a set.

pub mod calendar;
pub mod constants;
pub mod date;
pub mod error;
pub mod holidays;
pub mod markets;
pub mod schedule;
pub mod utils;
pub mod zoned;

pub use calendar::{TradingCalendar, MAX_YEAR, MIN_YEAR};
pub use date::{Date, Weekday};
pub use error::CalendarError;
pub use holidays::{Holiday, HolidaySet};
pub use markets::{Market, TimeZone};
pub use schedule::{Session, Time, TradingHours};
pub use zoned::ZonedDateTime;
