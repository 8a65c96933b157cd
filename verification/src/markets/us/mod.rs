//! The US exchanges: NYSE and NASDAQ.

pub mod holidays;

use crate::constants::{US_AFTERHOURS_CLOSE, US_EARLY_CLOSE, US_PREMARKET_OPEN, US_REGULAR_CLOSE,
    US_REGULAR_OPEN};
use crate::date::{Date, Weekday};
use crate::holidays::lemma_room_in_year;
use crate::holidays::year_in_calendar;
use crate::markets::TimeZone;
use crate::schedule::{Session, Time, TradingHours};
use crate::utils::cache::{entries_follow, has_year, lemma_stored_follows, lemma_touched_follows,
    looked_up, HolidayCache};
use crate::utils::{lemma_nth_weekday, nth_weekday_spec};
use vstd::prelude::*;

verus! {

/// The US exchanges, NYSE and NASDAQ. Its holidays are worked out when a
/// date of a year is first asked for, and kept in a cache.
pub struct USMarket {
    cache: HolidayCache,
}

/// Whether the regular session of `date` ends early: on the day after
/// Thanksgiving, on July 3 where July 4 is not on a weekend, and on
/// December 24 where it is not on a weekend.
pub open spec fn us_is_early_close_day(date: Date) -> bool {
    let thanksgiving = nth_weekday_spec(date.year as int, 11, Weekday::Thu, 4);
    ||| (thanksgiving is Some && date == thanksgiving->Some_0.plus_days(1))
    ||| (date.month == 7 && date.day == 3 && !(Date {
        year: date.year,
        month: 7,
        day: 4,
    }).is_weekend_spec())
    ||| (date.month == 12 && date.day == 24 && !date.is_weekend_spec())
}

/// The hours of the US exchanges on `date`: pre-market from 04:00, the
/// regular session from 09:30 to 16:00, after-hours until 20:00. On a day
/// with an early close the regular session ends at 13:00 and after-hours
/// start then.
pub open spec fn us_trading_hours(date: Date) -> TradingHours {
    let early = us_is_early_close_day(date);
    TradingHours {
        date,
        pre_market: Some(
            Session {
                start: Time { secs: US_PREMARKET_OPEN },
                end: Time { secs: US_REGULAR_OPEN },
            },
        ),
        regular: Session {
            start: Time { secs: US_REGULAR_OPEN },
            end: Time { secs: US_REGULAR_CLOSE },
        },
        after_hours: Some(
            Session {
                start: Time {
                    secs: if early {
                        US_EARLY_CLOSE
                    } else {
                        US_REGULAR_CLOSE
                    },
                },
                end: Time { secs: US_AFTERHOURS_CLOSE },
            },
        ),
        early_close: if early {
            Some(Time { secs: US_EARLY_CLOSE })
        } else {
            None
        },
    }
}

impl USMarket {
    /// The cached years with their holidays, the most recently used
    /// first.
    pub closed spec fn cached(&self) -> Seq<(i32, Set<Date>)> {
        self.cache.entries()
    }

    /// Every cached year holds the holidays of that year, and the cache
    /// has room for 20 years.
    pub closed spec fn wf(&self) -> bool {
        &&& self.cache.wf()
        &&& self.cache.capacity() == 20
        &&& entries_follow(self.cache.entries(), |y: i32| holidays::us_holidays(y))
    }

    /// What the cache holds for a year are the holidays of that year.
    pub proof fn lemma_cached_holidays(&self)
        requires
            self.wf(),
        ensures
            entries_follow(self.cached(), |y: i32| holidays::us_holidays(y)),
            self.cached().len() <= 20,
    {
    }

    /// A market with an empty cache.
    pub fn new() -> (r: USMarket)
        ensures
            r.wf(),
            r.cached() == Seq::<(i32, Set<Date>)>::empty(),
    {
        USMarket { cache: HolidayCache::default() }
    }

    /// Whether `date` is a holiday of the US exchanges.
    pub fn is_holiday(&mut self, date: Date) -> (r: bool)
        requires
            old(self).wf(),
            date.valid(),
        ensures
            final(self).wf(),
            r == holidays::us_holidays(date.year).contains(date),
            final(self).cached() == looked_up(
                old(self).cached(),
                date.year,
                holidays::us_holidays(date.year),
                20,
            ),
    {
        let year = date.year();
        let compute = || -> (h: crate::holidays::HolidaySet)
            requires
                year_in_calendar(year),
            ensures
                h@ == holidays::us_holidays(year),
            { holidays::get_us_holidays(year) };
        let ghost before = self.cache.entries();
        let ghost rule = |y: i32| holidays::us_holidays(y);
        let found = self.cache.get_or_compute(year, compute);
        proof {
            if has_year(before, year) {
                lemma_touched_follows(before, year, rule);
            } else {
                lemma_stored_follows(before, year, self.cache.capacity(), rule);
            }
        }
        found.contains(&date)
    }

    /// Whether the regular session of `date` ends early.
    pub fn is_early_close_day(&self, date: Date) -> (r: bool)
        requires
            date.valid(),
        ensures
            r == us_is_early_close_day(date),
    {
        if let Some(thanksgiving) = holidays::thanksgiving_day(date.year()) {
            proof {
                lemma_nth_weekday(date.year as int, 11, Weekday::Thu, 4);
                lemma_room_in_year(thanksgiving);
                crate::date::lemma_ordinal_bounds(thanksgiving);
            }
            let black_friday = thanksgiving.add_days(1);
            if date == black_friday {
                return true;
            }
        }
        if date.month() == 7 && date.day() == 3 {
            let july_4th = Date { year: date.year(), month: 7, day: 4 };
            if !crate::markets::is_weekend(july_4th) {
                return true;
            }
        }
        if date.month() == 12 && date.day() == 24 && !crate::markets::is_weekend(date) {
            return true;
        }
        false
    }

    /// The hours of the US exchanges on `date`.
    pub fn trading_hours(&self, date: Date) -> (r: TradingHours)
        requires
            date.valid(),
        ensures
            r == us_trading_hours(date),
            r.wf(),
    {
        let mut hours = TradingHours::new(
            date,
            Session::new_unchecked(
                Time { secs: US_REGULAR_OPEN },
                Time { secs: US_REGULAR_CLOSE },
            ),
            Some(
                Session::new_unchecked(
                    Time { secs: US_PREMARKET_OPEN },
                    Time { secs: US_REGULAR_OPEN },
                ),
            ),
            Some(
                Session::new_unchecked(
                    Time { secs: US_REGULAR_CLOSE },
                    Time { secs: US_AFTERHOURS_CLOSE },
                ),
            ),
        );
        if self.is_early_close_day(date) {
            hours.early_close = Some(Time { secs: US_EARLY_CLOSE });
            hours.after_hours = Some(
                Session::new_unchecked(
                    Time { secs: US_EARLY_CLOSE },
                    Time { secs: US_AFTERHOURS_CLOSE },
                ),
            );
        }
        hours
    }

    /// The time zone in which the US exchanges keeps its hours.
    pub fn timezone(&self) -> (r: TimeZone)
        ensures
            r == TimeZone::NewYork,
    {
        TimeZone::NewYork
    }
}

impl Default for USMarket {
    fn default() -> (r: USMarket)
        ensures
            r.wf(),
            r.cached() == Seq::<(i32, Set<Date>)>::empty(),
    {
        USMarket::new()
    }
}

} // verus!
