//! The calendar of one market: trading days, holidays, sessions, and the
//! next open and close as seen from a moment of the market's local time.

use crate::date::{days_in_month, lemma_before_by_fields, lemma_ordinal_bounds, lemma_plus_days_is,
    valid_ymd, Date, MAX_DATE_YEAR, MIN_DATE_YEAR};
use crate::error::CalendarError;
use crate::markets::us::USMarket;
use crate::markets::{Market, MarketImpl, TimeZone};
use crate::schedule::{Time, TradingHours};
use crate::utils::cache::{entries_follow, looked_up};
use crate::zoned::{earliest_zoned, earliest_zoned_spec, ZonedDateTime};
use vstd::prelude::*;

verus! {

/// The first year for which the calendar answers.
pub const MIN_YEAR: i32 = 2020;

/// The last year for which the calendar answers.
pub const MAX_YEAR: i32 = 2030;

/// Whether the calendar answers for dates of `year`.
pub open spec fn year_supported(year: i32) -> bool {
    MIN_YEAR <= year <= MAX_YEAR
}

/// The trading days of `market` among the `count` days from `start` on,
/// in order.
pub open spec fn trading_days_from(market: Market, start: Date, count: int) -> Seq<Date>
    decreases count,
{
    if count <= 0 {
        Seq::empty()
    } else {
        let before = trading_days_from(market, start, count - 1);
        let day = start.plus_days(count - 1);
        if market.is_trading_day_spec(day) {
            before.push(day)
        } else {
            before
        }
    }
}

/// The first day of the month after a month comes as many days after the
/// first day of the month as the month is long.
pub proof fn lemma_month_span(year: i32, month: u32)
    requires
        valid_ymd(year as int, month as int, 1),
        year < MAX_DATE_YEAR,
    ensures
        ({
            let start = Date { year, month, day: 1 };
            let end = if month == 12 {
                Date { year: (year + 1) as i32, month: 1, day: 1 }
            } else {
                Date { year, month: (month + 1) as u32, day: 1 }
            };
            &&& start.valid()
            &&& end.valid()
            &&& end.day_number() == start.day_number() + days_in_month(year as int, month as int)
            &&& end.day_number() <= crate::date::max_day_number()
            &&& crate::date::min_day_number() <= start.day_number()
            &&& start.plus_days(0) == start
        }),
{
    let start = Date { year, month, day: 1 };
    let end = if month == 12 {
        Date { year: (year + 1) as i32, month: 1, day: 1 }
    } else {
        Date { year, month: (month + 1) as u32, day: 1 }
    };
    crate::date::lemma_months_monotone(year as int, month as int, month as int);
    crate::date::lemma_year_length(year as int);
    lemma_ordinal_bounds(end);
    lemma_ordinal_bounds(start);
    lemma_plus_days_is(start, 0, start);
}

/// The trading calendar of one market.
pub struct TradingCalendar {
    market: Market,
    implementation: MarketImpl,
}

impl TradingCalendar {
    /// The calendar works by the rules of its market, and its cache holds
    /// what those rules give.
    pub closed spec fn wf(&self) -> bool {
        self.implementation.wf() && self.implementation.rules() == self.market.rules()
    }

    /// The market of the calendar.
    pub closed spec fn market_spec(&self) -> Market {
        self.market
    }

    /// The market whose rules the calendar follows: NYSE for NASDAQ, and
    /// the market of the calendar otherwise.
    pub open spec fn rules(&self) -> Market {
        self.market_spec().rules()
    }

    /// The years whose holidays the calendar has cached, with those
    /// holidays, the most recently used first.
    pub closed spec fn cached(&self) -> Seq<(i32, Set<Date>)> {
        self.implementation.cached()
    }

    /// What the calendar has cached for a year are the holidays of that
    /// year by the rules of its market, and it has cached no more than 20
    /// years.
    pub proof fn lemma_cached_holidays(&self)
        requires
            self.wf(),
        ensures
            entries_follow(self.cached(), |y: i32| self.rules().holidays(y)),
            self.cached().len() <= 20,
    {
        self.implementation.lemma_cached_holidays();
        assert(self.rules().rules() == self.rules());
        assert(entries_follow(self.cached(), |y: i32| self.rules().holidays(y)));
    }

    /// The calendar of `market`.
    pub fn new(market: Market) -> (r: Result<TradingCalendar, CalendarError>)
        ensures
            r is Ok,
            r->Ok_0.wf(),
            r->Ok_0.market_spec() == market,
            r->Ok_0.cached() == Seq::<(i32, Set<Date>)>::empty(),
    {
        match market.create_implementation() {
            Ok(implementation) => Ok(TradingCalendar { market, implementation }),
            Err(e) => Err(e),
        }
    }

    /// Whether the market trades on `date`. Fails with
    /// [`CalendarError::DateOutOfRange`] exactly for a date outside the
    /// supported years.
    pub fn is_trading_day(&mut self, date: Date) -> (r: Result<bool, CalendarError>)
        requires
            old(self).wf(),
            date.valid(),
        ensures
            final(self).wf(),
            final(self).market_spec() == old(self).market_spec(),
            year_supported(date.year) ==> r == Ok::<bool, CalendarError>(
                old(self).rules().is_trading_day_spec(date),
            ),
            !year_supported(date.year) ==> r == Err::<bool, CalendarError>(
                CalendarError::DateOutOfRange(date),
            ),
            year_supported(date.year) ==> final(self).cached() == looked_up(
                old(self).cached(),
                date.year,
                old(self).rules().holidays(date.year),
                20,
            ),
            !year_supported(date.year) ==> final(self).cached() == old(self).cached(),
    {
        if date.year() < MIN_YEAR || date.year() > MAX_YEAR {
            return Err(CalendarError::DateOutOfRange(date));
        }
        Ok(self.implementation.is_trading_day(date))
    }

    /// Whether `date` is a holiday of the market; a weekend as such is
    /// none. Fails with [`CalendarError::DateOutOfRange`] exactly for a
    /// date outside the supported years.
    pub fn is_holiday(&mut self, date: Date) -> (r: Result<bool, CalendarError>)
        requires
            old(self).wf(),
            date.valid(),
        ensures
            final(self).wf(),
            final(self).market_spec() == old(self).market_spec(),
            year_supported(date.year) ==> r == Ok::<bool, CalendarError>(
                old(self).rules().is_holiday_spec(date),
            ),
            !year_supported(date.year) ==> r == Err::<bool, CalendarError>(
                CalendarError::DateOutOfRange(date),
            ),
            year_supported(date.year) ==> final(self).cached() == looked_up(
                old(self).cached(),
                date.year,
                old(self).rules().holidays(date.year),
                20,
            ),
            !year_supported(date.year) ==> final(self).cached() == old(self).cached(),
    {
        if date.year() < MIN_YEAR || date.year() > MAX_YEAR {
            return Err(CalendarError::DateOutOfRange(date));
        }
        Ok(self.implementation.is_holiday(date))
    }

    /// The sessions of the market on `date`.
    pub fn trading_hours(&self, date: Date) -> (r: TradingHours)
        requires
            self.wf(),
            date.valid(),
        ensures
            r == self.rules().trading_hours_spec(date),
            r.wf(),
    {
        self.implementation.trading_hours(date)
    }

    /// The first trading day after `date`; `None` where the calendar ends
    /// before a trading day comes.
    pub fn checked_next_trading_day(&mut self, date: Date) -> (r: Option<Date>)
        requires
            old(self).wf(),
            date.valid(),
        ensures
            final(self).wf(),
            final(self).market_spec() == old(self).market_spec(),
            r is Some == old(self).rules().has_trading_day_after(date),
            r is Some ==> r->Some_0 == old(self).rules().next_trading_day_spec(date) && old(
                self,
            ).rules().is_next_trading_day(date, r->Some_0),
    {
        self.implementation.checked_next_trading_day(date)
    }

    /// The last trading day before `date`; `None` where the calendar
    /// begins after every trading day before `date`.
    pub fn checked_previous_trading_day(&mut self, date: Date) -> (r: Option<Date>)
        requires
            old(self).wf(),
            date.valid(),
        ensures
            final(self).wf(),
            final(self).market_spec() == old(self).market_spec(),
            r is Some == old(self).rules().has_trading_day_before(date),
            r is Some ==> r->Some_0 == old(self).rules().previous_trading_day_spec(date) && old(
                self,
            ).rules().is_previous_trading_day(date, r->Some_0),
    {
        self.implementation.checked_previous_trading_day(date)
    }

    /// The first trading day after `date`, for a date that has a trading
    /// day after it in the calendar; every date before the last year of
    /// the calendar has one.
    pub fn next_trading_day(&mut self, date: Date) -> (r: Date)
        requires
            old(self).wf(),
            date.valid(),
            date.year < MAX_DATE_YEAR || old(self).rules().has_trading_day_after(date),
        ensures
            final(self).wf(),
            final(self).market_spec() == old(self).market_spec(),
            old(self).rules().is_next_trading_day(date, r),
            r == old(self).rules().next_trading_day_spec(date),
            date.before(r),
    {
        self.implementation.next_trading_day(date)
    }

    /// The last trading day before `date`, for a date that has a trading
    /// day before it in the calendar; every date after the first year of
    /// the calendar has one.
    pub fn previous_trading_day(&mut self, date: Date) -> (r: Date)
        requires
            old(self).wf(),
            date.valid(),
            date.year > MIN_DATE_YEAR || old(self).rules().has_trading_day_before(date),
        ensures
            final(self).wf(),
            final(self).market_spec() == old(self).market_spec(),
            old(self).rules().is_previous_trading_day(date, r),
            r == old(self).rules().previous_trading_day_spec(date),
            r.before(date),
    {
        self.implementation.previous_trading_day(date)
    }

    /// The market of the calendar.
    pub fn market(&self) -> (r: Market)
        ensures
            r == self.market_spec(),
    {
        self.market
    }

    /// The time zone in which the market keeps its hours.
    pub fn timezone(&self) -> (r: TimeZone)
        requires
            self.wf(),
        ensures
            r == self.rules().timezone_spec(),
    {
        self.implementation.timezone()
    }

    /// Whether the market is open at the moment that is `date` and `time`
    /// in the market's time zone: on a trading day, within a session.
    pub fn is_open_now(&mut self, date: Date, time: Time) -> (r: Result<bool, CalendarError>)
        requires
            old(self).wf(),
            date.valid(),
        ensures
            final(self).wf(),
            final(self).market_spec() == old(self).market_spec(),
            year_supported(date.year) ==> r == Ok::<bool, CalendarError>(
                old(self).rules().is_trading_day_spec(date) && old(
                    self,
                ).rules().trading_hours_spec(date).is_open_at_spec(time),
            ),
            !year_supported(date.year) ==> r == Err::<bool, CalendarError>(
                CalendarError::DateOutOfRange(date),
            ),
            year_supported(date.year) ==> final(self).cached() == looked_up(
                old(self).cached(),
                date.year,
                old(self).rules().holidays(date.year),
                20,
            ),
            !year_supported(date.year) ==> final(self).cached() == old(self).cached(),
    {
        match self.is_trading_day(date) {
            Err(e) => Err(e),
            Ok(false) => Ok(false),
            Ok(true) => {
                let hours = self.trading_hours(date);
                Ok(hours.is_open_at(time))
            },
        }
    }

    /// The date and local time at which the regular session next opens,
    /// seen from the moment that is `date` and `time` in the market's time
    /// zone: today's open, if today is a trading day and the open is
    /// still ahead; else the open of the next trading day.
    pub fn next_open_local(&mut self, date: Date, time: Time) -> (r: Result<
        (Date, Time),
        CalendarError,
    >)
        requires
            old(self).wf(),
            date.valid(),
        ensures
            final(self).wf(),
            final(self).market_spec() == old(self).market_spec(),
            !year_supported(date.year) ==> r == Err::<(Date, Time), CalendarError>(
                CalendarError::DateOutOfRange(date),
            ),
            year_supported(date.year) ==> r == Ok::<(Date, Time), CalendarError>(
                old(self).rules().next_open_spec(date, time),
            ),
            r is Ok ==> r->Ok_0.0.valid() && r->Ok_0.1.secs < 86400,
    {
        match self.is_trading_day(date) {
            Err(e) => {
                return Err(e);
            },
            Ok(true) => {
                let hours = self.trading_hours(date);
                if time.secs < hours.regular.start.secs {
                    return Ok((date, hours.regular.start));
                }
            },
            Ok(false) => {},
        }
        let next = self.next_trading_day(date);
        let hours = self.trading_hours(next);
        proof {
            lemma_before_by_fields(date, next);
        }
        Ok((next, hours.regular.start))
    }

    /// The date and local time at which regular trading next ends, seen
    /// from the moment that is `date` and `time` in the market's time
    /// zone: today's close, early or regular, if today is a trading day
    /// and the close is still ahead; else the close of the next trading
    /// day.
    pub fn next_close_local(&mut self, date: Date, time: Time) -> (r: Result<
        (Date, Time),
        CalendarError,
    >)
        requires
            old(self).wf(),
            date.valid(),
        ensures
            final(self).wf(),
            final(self).market_spec() == old(self).market_spec(),
            !year_supported(date.year) ==> r == Err::<(Date, Time), CalendarError>(
                CalendarError::DateOutOfRange(date),
            ),
            year_supported(date.year) ==> r == Ok::<(Date, Time), CalendarError>(
                old(self).rules().next_close_spec(date, time),
            ),
            r is Ok ==> r->Ok_0.0.valid() && r->Ok_0.1.secs < 86400,
    {
        match self.is_trading_day(date) {
            Err(e) => {
                return Err(e);
            },
            Ok(true) => {
                let hours = self.trading_hours(date);
                let close_time = hours.market_close();
                if time.secs < close_time.secs {
                    return Ok((date, close_time));
                }
            },
            Ok(false) => {},
        }
        let next = self.next_trading_day(date);
        let hours = self.trading_hours(next);
        proof {
            lemma_before_by_fields(date, next);
        }
        Ok((next, hours.market_close()))
    }

    /// The moment at which the regular session next opens, seen from the
    /// moment that is `date` and `time` in the market's time zone. It is
    /// the earliest moment at which the clocks of that zone show the date
    /// and time that [`TradingCalendar::next_open_local`] gives. Fails with
    /// [`CalendarError::DateOutOfRange`] exactly for a date outside the
    /// supported years, and otherwise with [`CalendarError::InvalidTime`]
    /// exactly where the zone's clocks never show that time.
    pub fn next_open(&mut self, date: Date, time: Time) -> (r: Result<
        ZonedDateTime,
        CalendarError,
    >)
        requires
            old(self).wf(),
            date.valid(),
        ensures
            final(self).wf(),
            final(self).market_spec() == old(self).market_spec(),
            !year_supported(date.year) ==> r == Err::<ZonedDateTime, CalendarError>(
                CalendarError::DateOutOfRange(date),
            ),
            year_supported(date.year) ==> match earliest_zoned_spec(
                old(self).rules().timezone_spec(),
                old(self).rules().next_open_spec(date, time).0,
                old(self).rules().next_open_spec(date, time).1,
            ) {
                Some(moment) => r == Ok::<ZonedDateTime, CalendarError>(moment),
                None => r is Err && r->Err_0 is InvalidTime,
            },
    {
        let zone = self.timezone();
        match self.next_open_local(date, time) {
            Err(e) => Err(e),
            Ok((day, open)) => earliest_zoned(
                zone,
                day,
                open,
                "Invalid timezone conversion for market open",
            ),
        }
    }

    /// The moment at which regular trading next ends, seen from the
    /// moment that is `date` and `time` in the market's time zone. It is
    /// the earliest moment at which the clocks of that zone show the date
    /// and time that [`TradingCalendar::next_close_local`] gives. Fails
    /// with [`CalendarError::DateOutOfRange`] exactly for a date outside
    /// the supported years, and otherwise with
    /// [`CalendarError::InvalidTime`] exactly where the zone's clocks never
    /// show that time.
    pub fn next_close(&mut self, date: Date, time: Time) -> (r: Result<
        ZonedDateTime,
        CalendarError,
    >)
        requires
            old(self).wf(),
            date.valid(),
        ensures
            final(self).wf(),
            final(self).market_spec() == old(self).market_spec(),
            !year_supported(date.year) ==> r == Err::<ZonedDateTime, CalendarError>(
                CalendarError::DateOutOfRange(date),
            ),
            year_supported(date.year) ==> match earliest_zoned_spec(
                old(self).rules().timezone_spec(),
                old(self).rules().next_close_spec(date, time).0,
                old(self).rules().next_close_spec(date, time).1,
            ) {
                Some(moment) => r == Ok::<ZonedDateTime, CalendarError>(moment),
                None => r is Err && r->Err_0 is InvalidTime,
            },
    {
        let zone = self.timezone();
        match self.next_close_local(date, time) {
            Err(e) => Err(e),
            Ok((day, close)) => earliest_zoned(
                zone,
                day,
                close,
                "Invalid timezone conversion for market close",
            ),
        }
    }

    /// The trading days of a month, in order. Fails with
    /// [`CalendarError::DateOutOfRange`] for a year that is not supported;
    /// the error then names the first day of the month, or January 1, 1970
    /// where there is no such day. Fails with
    /// [`CalendarError::InvalidDateCalculation`] for a month that does not
    /// exist in a supported year.
    pub fn trading_days_in_month(&mut self, year: i32, month: u32) -> (r: Result<
        Vec<Date>,
        CalendarError,
    >)
        requires
            old(self).wf(),
        ensures
            final(self).wf(),
            final(self).market_spec() == old(self).market_spec(),
            !year_supported(year) ==> r == Err::<Vec<Date>, CalendarError>(
                CalendarError::DateOutOfRange(
                    if valid_ymd(year as int, month as int, 1) {
                        Date { year, month, day: 1 }
                    } else {
                        Date { year: 1970, month: 1, day: 1 }
                    },
                ),
            ),
            year_supported(year) && !(1 <= month <= 12) ==> r is Err
                && r->Err_0 is InvalidDateCalculation,
            year_supported(year) && 1 <= month <= 12 ==> r is Ok && r->Ok_0@ == trading_days_from(
                old(self).rules(),
                Date { year, month, day: 1 },
                days_in_month(year as int, month as int),
            ),
    {
        let first = Date::from_ymd_opt(year, month, 1);
        if year < MIN_YEAR || year > MAX_YEAR {
            let shown = match first {
                Some(d) => d,
                None => Date { year: 1970, month: 1, day: 1 },
            };
            return Err(CalendarError::DateOutOfRange(shown));
        }
        let start = match first {
            Some(d) => d,
            None => {
                return Err(
                    CalendarError::InvalidDateCalculation("Invalid year/month".to_owned()),
                );
            },
        };
        let end = if month == 12 {
            Date { year: year + 1, month: 1, day: 1 }
        } else {
            Date { year, month: month + 1, day: 1 }
        };
        let ghost market = self.market.rules();
        let ghost length = days_in_month(year as int, month as int);
        proof {
            lemma_month_span(year, month);
        }
        let mut days: Vec<Date> = Vec::new();
        let mut current = start;
        let ghost mut i: int = 0;
        while current.is_before(&end)
            invariant
                self.wf(),
                self.market.rules() == market,
                self.market == old(self).market,
                start.valid(),
                end.valid(),
                current.valid(),
                0 <= i <= length,
                end.day_number() == start.day_number() + length,
                end.day_number() <= crate::date::max_day_number(),
                crate::date::min_day_number() <= start.day_number(),
                current.day_number() == start.day_number() + i,
                current == start.plus_days(i),
                days@ == trading_days_from(market, start, i),
            decreases length - i,
        {
            if self.implementation.is_trading_day(current) {
                days.push(current);
            }
            current = current.add_days(1);
            proof {
                i = i + 1;
                lemma_plus_days_is(start, i, current);
            }
        }
        Ok(days)
    }

    /// The number of trading days from `start` to `end`, both included.
    /// Fails with [`CalendarError::DateOutOfRange`] exactly where `start`
    /// lies before, or `end` after, the supported years.
    pub fn count_trading_days(&mut self, start: Date, end: Date) -> (r: Result<
        usize,
        CalendarError,
    >)
        requires
            old(self).wf(),
            start.valid(),
            end.valid(),
        ensures
            final(self).wf(),
            final(self).market_spec() == old(self).market_spec(),
            start.year < MIN_YEAR || end.year > MAX_YEAR ==> r == Err::<usize, CalendarError>(
                CalendarError::DateOutOfRange(start),
            ),
            !(start.year < MIN_YEAR || end.year > MAX_YEAR) ==> r is Ok && r->Ok_0
                == trading_days_from(
                old(self).rules(),
                start,
                end.day_number() - start.day_number() + 1,
            ).len(),
    {
        if start.year() < MIN_YEAR || end.year() > MAX_YEAR {
            return Err(CalendarError::DateOutOfRange(start));
        }
        let ghost market = self.market.rules();
        let ghost length = end.day_number() - start.day_number() + 1;
        proof {
            lemma_ordinal_bounds(end);
            lemma_ordinal_bounds(start);
            lemma_ordinal_bounds(Date { year: 2031, month: 1, day: 1 });
            lemma_before_by_fields(end, Date { year: 2031, month: 1, day: 1 });
            lemma_before_by_fields(Date { year: 2020, month: 1, day: 1 }, start);
            lemma_plus_days_is(start, 0, start);
            assert(length <= 4100);
        }
        let mut count: usize = 0;
        let mut current = start;
        let ghost mut i: int = 0;
        while !end.is_before(&current)
            invariant
                self.wf(),
                self.market.rules() == market,
                self.market == old(self).market,
                start.valid(),
                end.valid(),
                current.valid(),
                0 <= i,
                i <= length || length < 0,
                length <= 4100,
                length == end.day_number() - start.day_number() + 1,
                end.day_number() + 1 <= crate::date::max_day_number(),
                crate::date::min_day_number() <= start.day_number(),
                current.day_number() == start.day_number() + i,
                current == start.plus_days(i),
                count == trading_days_from(market, start, i).len(),
                count <= i,
                length < 0 ==> i == 0,
            decreases length - i,
        {
            if self.implementation.is_trading_day(current) {
                count += 1;
            }
            current = current.add_days(1);
            proof {
                i = i + 1;
                lemma_plus_days_is(start, i, current);
            }
        }
        proof {
            if length < 0 {
                assert(trading_days_from(market, start, length) =~= Seq::<Date>::empty());
            }
        }
        Ok(count)
    }
}

impl Default for TradingCalendar {
    /// The calendar of NYSE.
    fn default() -> (r: TradingCalendar)
        ensures
            r.wf(),
            r.market_spec() == Market::NYSE,
            r.cached() == Seq::<(i32, Set<Date>)>::empty(),
    {
        TradingCalendar { market: Market::NYSE, implementation: MarketImpl::US(USMarket::new()) }
    }
}

} // verus!
