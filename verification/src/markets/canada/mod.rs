//! The Toronto Stock Exchange.

pub mod holidays;

use crate::constants::{CA_REGULAR_CLOSE, CA_REGULAR_OPEN};
use crate::date::Date;
use crate::holidays::year_in_calendar;
use crate::markets::TimeZone;
use crate::schedule::{Session, Time, TradingHours};
use crate::utils::cache::{entries_follow, has_year, lemma_stored_follows, lemma_touched_follows,
    looked_up, HolidayCache};
use vstd::prelude::*;

verus! {

/// The Toronto Stock Exchange. Its holidays are worked out when a date
/// of a year is first asked for, and kept in a cache.
pub struct TSXMarket {
    cache: HolidayCache,
}

/// The hours of the Toronto Stock Exchange on `date`: one regular session, on every date.
pub open spec fn canada_trading_hours(date: Date) -> TradingHours {
    TradingHours {
        date,
        pre_market: None,
        regular: Session {
            start: Time { secs: CA_REGULAR_OPEN },
            end: Time { secs: CA_REGULAR_CLOSE },
        },
        after_hours: None,
        early_close: None,
    }
}

impl TSXMarket {
    /// The cached years with their holidays, the most recently used
    /// first.
    pub closed spec fn cached(&self) -> Seq<(i32, Set<Date>)> {
        self.cache.entries()
    }

    /// Every cached year holds the holidays of that year, and the cache
    /// has room for 20 years.
    pub closed spec fn wf(&self) -> bool {
        &&& self.cache.wf()
        &&& self.cache.capacity() == 20
        &&& entries_follow(self.cache.entries(), |y: i32| holidays::canada_holidays(y))
    }

    /// What the cache holds for a year are the holidays of that year.
    pub proof fn lemma_cached_holidays(&self)
        requires
            self.wf(),
        ensures
            entries_follow(self.cached(), |y: i32| holidays::canada_holidays(y)),
            self.cached().len() <= 20,
    {
    }

    /// A market with an empty cache.
    pub fn new() -> (r: TSXMarket)
        ensures
            r.wf(),
            r.cached() == Seq::<(i32, Set<Date>)>::empty(),
    {
        TSXMarket { cache: HolidayCache::default() }
    }

    /// Whether `date` is a holiday of the Toronto Stock Exchange.
    pub fn is_holiday(&mut self, date: Date) -> (r: bool)
        requires
            old(self).wf(),
            date.valid(),
        ensures
            final(self).wf(),
            r == holidays::canada_holidays(date.year).contains(date),
            final(self).cached() == looked_up(
                old(self).cached(),
                date.year,
                holidays::canada_holidays(date.year),
                20,
            ),
    {
        let year = date.year();
        let compute = || -> (h: crate::holidays::HolidaySet)
            requires
                year_in_calendar(year),
            ensures
                h@ == holidays::canada_holidays(year),
            { holidays::get_canada_holidays(year) };
        let ghost before = self.cache.entries();
        let ghost rule = |y: i32| holidays::canada_holidays(y);
        let found = self.cache.get_or_compute(year, compute);
        proof {
            if has_year(before, year) {
                lemma_touched_follows(before, year, rule);
            } else {
                lemma_stored_follows(before, year, self.cache.capacity(), rule);
            }
        }
        found.contains(&date)
    }

    /// The hours of the Toronto Stock Exchange on `date`.
    pub fn trading_hours(&self, date: Date) -> (r: TradingHours)
        ensures
            r == canada_trading_hours(date),
            r.wf(),
    {
        TradingHours::new(
            date,
            Session::new_unchecked(
                Time { secs: CA_REGULAR_OPEN },
                Time { secs: CA_REGULAR_CLOSE },
            ),
            None,
            None,
        )
    }

    /// The time zone in which the Toronto Stock Exchange keeps its hours.
    pub fn timezone(&self) -> (r: TimeZone)
        ensures
            r == TimeZone::Toronto,
    {
        TimeZone::Toronto
    }
}

impl Default for TSXMarket {
    fn default() -> (r: TSXMarket)
        ensures
            r.wf(),
            r.cached() == Seq::<(i32, Set<Date>)>::empty(),
    {
        TSXMarket::new()
    }
}

} // verus!
