//! Times of day, trading sessions and the layout of a trading day.

use crate::date::Date;
use crate::error::CalendarError;
use vstd::prelude::*;

verus! {

/// A time of day, as whole seconds since midnight.
#[derive(Clone, Copy, Debug, PartialEq, Eq, Structural, Hash, PartialOrd, Ord)]
pub struct Time {
    /// Seconds since midnight.
    pub secs: u32,
}

/// Whether hour, minute and second name a time of day.
pub open spec fn valid_hms(hour: int, min: int, sec: int) -> bool {
    0 <= hour < 24 && 0 <= min < 60 && 0 <= sec < 60
}

impl Time {
    /// The time of day with the given hour, minute and second, if they
    /// are within a day.
    pub fn from_hms_opt(hour: u32, min: u32, sec: u32) -> (r: Option<Time>)
        ensures
            valid_hms(hour as int, min as int, sec as int) ==> r == Some(
                Time { secs: (hour * 3600 + min * 60 + sec) as u32 },
            ),
            !valid_hms(hour as int, min as int, sec as int) ==> r is None,
    {
        if hour < 24 && min < 60 && sec < 60 {
            Some(Time { secs: hour * 3600 + min * 60 + sec })
        } else {
            None
        }
    }

    /// The hour of the day, for a time within a day.
    pub fn hour(&self) -> (r: u32)
        ensures
            r == self.secs / 3600,
    {
        self.secs / 3600
    }

    /// The minute of the hour.
    pub fn minute(&self) -> (r: u32)
        ensures
            r == (self.secs / 60) % 60,
    {
        (self.secs / 60) % 60
    }

    /// The second of the minute.
    pub fn second(&self) -> (r: u32)
        ensures
            r == self.secs % 60,
    {
        self.secs % 60
    }
}

/// A window of the day in which a market trades. One that ends before it
/// starts runs past midnight.
#[derive(Clone, Copy, Debug, PartialEq, Eq, Structural)]
pub struct Session {
    /// Start time of the session.
    pub start: Time,
    /// End time of the session; the session does not include it.
    pub end: Time,
}

impl Session {
    /// A session is never empty: it does not end when it starts.
    pub open spec fn wf(self) -> bool {
        self.start != self.end
    }

    /// Whether `time` lies in the session.
    pub open spec fn contains_spec(self, time: Time) -> bool {
        if self.start.secs < self.end.secs {
            self.start.secs <= time.secs < self.end.secs
        } else {
            time.secs >= self.start.secs || time.secs < self.end.secs
        }
    }

    /// A session from `start` to `end`. Fails with
    /// [`CalendarError::InvalidSession`] exactly when the two are equal.
    pub fn new(start: Time, end: Time) -> (r: Result<Session, CalendarError>)
        ensures
            start == end ==> r == Err::<Session, CalendarError>(CalendarError::InvalidSession),
            start != end ==> r == Ok::<Session, CalendarError>(Session { start, end }),
            r is Ok ==> r->Ok_0.wf(),
    {
        if end.secs == start.secs {
            return Err(CalendarError::InvalidSession);
        }
        Ok(Session { start, end })
    }

    /// A session from `start` to `end`, for times already known to differ:
    /// it is not checked that they do.
    pub fn new_unchecked(start: Time, end: Time) -> (r: Session)
        ensures
            r == (Session { start, end }),
            start != end ==> r.wf(),
    {
        Session { start, end }
    }

    /// Whether `time` lies in the session: from the start up to, and
    /// without, the end, across midnight if the session is an overnight one.
    pub fn contains(&self, time: Time) -> (r: bool)
        ensures
            r == self.contains_spec(time),
    {
        if self.start.secs < self.end.secs {
            time.secs >= self.start.secs && time.secs < self.end.secs
        } else {
            time.secs >= self.start.secs || time.secs < self.end.secs
        }
    }
}

/// The sessions of one market on one date.
#[derive(Clone, Copy, Debug, PartialEq, Eq, Structural)]
pub struct TradingHours {
    /// The date these hours apply to.
    pub date: Date,
    /// Pre-market session, if the market has one.
    pub pre_market: Option<Session>,
    /// Regular trading session.
    pub regular: Session,
    /// After-hours session, if the market has one.
    pub after_hours: Option<Session>,
    /// Time at which the regular session ends early on this date.
    pub early_close: Option<Time>,
}

impl TradingHours {
    /// The regular session runs within the day, and an early close comes
    /// before its end; the other sessions are not empty.
    pub open spec fn wf(self) -> bool {
        &&& self.regular.start.secs < self.regular.end.secs
        &&& self.regular.end.secs < 86400
        &&& self.pre_market is Some ==> self.pre_market->Some_0.wf()
        &&& self.after_hours is Some ==> self.after_hours->Some_0.wf()
        &&& self.early_close is Some ==> self.early_close->Some_0.secs < self.regular.end.secs
    }

    /// The time at which regular trading ends on this date.
    pub open spec fn market_close_spec(self) -> Time {
        match self.early_close {
            Some(t) => t,
            None => self.regular.end,
        }
    }

    /// Whether the market trades at `time`: in the pre-market session, in
    /// the regular session up to the close of the day, or in the
    /// after-hours session, which on a day with an early close counts only
    /// from that close on.
    pub open spec fn is_open_at_spec(self, time: Time) -> bool {
        ||| (self.pre_market is Some && self.pre_market->Some_0.contains_spec(time))
        ||| self.regular.start.secs <= time.secs < self.market_close_spec().secs
        ||| (self.after_hours is Some && self.after_hours->Some_0.contains_spec(time) && (
        self.early_close is Some ==> time.secs >= self.early_close->Some_0.secs))
    }

    /// The hours of `date` without an early close.
    pub fn new(
        date: Date,
        regular: Session,
        pre_market: Option<Session>,
        after_hours: Option<Session>,
    ) -> (r: TradingHours)
        ensures
            r == (TradingHours { date, pre_market, regular, after_hours, early_close: None }),
    {
        TradingHours { date, pre_market, regular, after_hours, early_close: None }
    }

    /// The same hours with an early close. Fails with
    /// [`CalendarError::InvalidTime`] exactly when `early_close` is not
    /// before the end of the regular session.
    pub fn with_early_close(self, early_close: Time) -> (r: Result<TradingHours, CalendarError>)
        ensures
            early_close.secs >= self.regular.end.secs ==> r is Err
                && r->Err_0 is InvalidTime,
            early_close.secs < self.regular.end.secs ==> r == Ok::<TradingHours, CalendarError>(
                TradingHours { early_close: Some(early_close), ..self },
            ),
    {
        if early_close.secs >= self.regular.end.secs {
            return Err(
                CalendarError::InvalidTime("Early close must be before regular close".to_owned()),
            );
        }
        let mut hours = self;
        hours.early_close = Some(early_close);
        Ok(hours)
    }

    /// Whether the regular session ends early on this date.
    pub fn is_early_close(&self) -> (r: bool)
        ensures
            r == self.early_close is Some,
    {
        self.early_close.is_some()
    }

    /// The time at which regular trading ends on this date.
    pub fn market_close(&self) -> (r: Time)
        ensures
            r == self.market_close_spec(),
    {
        match self.early_close {
            Some(t) => t,
            None => self.regular.end,
        }
    }

    /// Whether the market trades at `time` on this date.
    pub fn is_open_at(&self, time: Time) -> (r: bool)
        ensures
            r == self.is_open_at_spec(time),
    {
        if let Some(pre) = self.pre_market {
            if pre.contains(time) {
                return true;
            }
        }
        let regular_end = self.market_close();
        if time.secs >= self.regular.start.secs && time.secs < regular_end.secs {
            return true;
        }
        if let Some(after) = self.after_hours {
            if after.contains(time) {
                match self.early_close {
                    Some(early_close) => {
                        if time.secs >= early_close.secs {
                            return true;
                        }
                    },
                    None => {
                        return true;
                    },
                }
            }
        }
        false
    }
}

} // verus!
