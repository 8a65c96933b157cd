//! The London Stock Exchange.

pub mod holidays;

use crate::constants::{UK_REGULAR_CLOSE, UK_REGULAR_OPEN};
use crate::date::Date;
use crate::holidays::year_in_calendar;
use crate::markets::TimeZone;
use crate::schedule::{Session, Time, TradingHours};
use crate::utils::cache::{entries_follow, has_year, lemma_stored_follows, lemma_touched_follows,
    looked_up, HolidayCache};
use vstd::prelude::*;

verus! {

/// The London Stock Exchange. Its holidays are worked out when a date
/// of a year is first asked for, and kept in a cache.
pub struct LSEMarket {
    cache: HolidayCache,
}

/// The hours of the London Stock Exchange on `date`: one regular session, on every date.
pub open spec fn uk_trading_hours(date: Date) -> TradingHours {
    TradingHours {
        date,
        pre_market: None,
        regular: Session {
            start: Time { secs: UK_REGULAR_OPEN },
            end: Time { secs: UK_REGULAR_CLOSE },
        },
        after_hours: None,
        early_close: None,
    }
}

impl LSEMarket {
    /// The cached years with their holidays, the most recently used
    /// first.
    pub closed spec fn cached(&self) -> Seq<(i32, Set<Date>)> {
        self.cache.entries()
    }

    /// Every cached year holds the holidays of that year, and the cache
    /// has room for 20 years.
    pub closed spec fn wf(&self) -> bool {
        &&& self.cache.wf()
        &&& self.cache.capacity() == 20
        &&& entries_follow(self.cache.entries(), |y: i32| holidays::uk_holidays(y))
    }

    /// What the cache holds for a year are the holidays of that year.
    pub proof fn lemma_cached_holidays(&self)
        requires
            self.wf(),
        ensures
            entries_follow(self.cached(), |y: i32| holidays::uk_holidays(y)),
            self.cached().len() <= 20,
    {
    }

    /// A market with an empty cache.
    pub fn new() -> (r: LSEMarket)
        ensures
            r.wf(),
            r.cached() == Seq::<(i32, Set<Date>)>::empty(),
    {
        LSEMarket { cache: HolidayCache::default() }
    }

    /// Whether `date` is a holiday of the London Stock Exchange.
    pub fn is_holiday(&mut self, date: Date) -> (r: bool)
        requires
            old(self).wf(),
            date.valid(),
        ensures
            final(self).wf(),
            r == holidays::uk_holidays(date.year).contains(date),
            final(self).cached() == looked_up(
                old(self).cached(),
                date.year,
                holidays::uk_holidays(date.year),
                20,
            ),
    {
        let year = date.year();
        let compute = || -> (h: crate::holidays::HolidaySet)
            requires
                year_in_calendar(year),
            ensures
                h@ == holidays::uk_holidays(year),
            { holidays::get_uk_holidays(year) };
        let ghost before = self.cache.entries();
        let ghost rule = |y: i32| holidays::uk_holidays(y);
        let found = self.cache.get_or_compute(year, compute);
        proof {
            if has_year(before, year) {
                lemma_touched_follows(before, year, rule);
            } else {
                lemma_stored_follows(before, year, self.cache.capacity(), rule);
            }
        }
        found.contains(&date)
    }

    /// The hours of the London Stock Exchange on `date`.
    pub fn trading_hours(&self, date: Date) -> (r: TradingHours)
        ensures
            r == uk_trading_hours(date),
            r.wf(),
    {
        TradingHours::new(
            date,
            Session::new_unchecked(
                Time { secs: UK_REGULAR_OPEN },
                Time { secs: UK_REGULAR_CLOSE },
            ),
            None,
            None,
        )
    }

    /// The time zone in which the London Stock Exchange keeps its hours.
    pub fn timezone(&self) -> (r: TimeZone)
        ensures
            r == TimeZone::London,
    {
        TimeZone::London
    }
}

impl Default for LSEMarket {
    fn default() -> (r: LSEMarket)
        ensures
            r.wf(),
            r.cached() == Seq::<(i32, Set<Date>)>::empty(),
    {
        LSEMarket::new()
    }
}

} // verus!
