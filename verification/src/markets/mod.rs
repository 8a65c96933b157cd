//! The markets and what they have in common.

pub mod canada;
pub mod japan;
pub mod uk;
pub mod us;

use crate::date::{first_weekday_of_month, lemma_before_by_fields, lemma_first_weekday_of_month,
    lemma_ordinal_bounds, Date, MAX_DATE_YEAR, MIN_DATE_YEAR};
use crate::markets::canada::TSXMarket;
use crate::markets::japan::TSEMarket;
use crate::markets::uk::LSEMarket;
use crate::markets::us::USMarket;
use crate::error::CalendarError;
use crate::schedule::{Time, TradingHours};
use crate::utils::cache::{entries_follow, looked_up};
use vstd::prelude::*;

verus! {

/// The supported markets.
#[derive(Debug, Clone, Copy, PartialEq, Eq, Structural, Hash)]
pub enum Market {
    /// New York Stock Exchange
    NYSE,
    /// NASDAQ Stock Market
    NASDAQ,
    /// London Stock Exchange
    LSE,
    /// Tokyo Stock Exchange
    TSE,
    /// Toronto Stock Exchange
    TSX,
}

/// The time zones in which the markets keep their hours.
#[derive(Debug, Clone, Copy, PartialEq, Eq, Structural, Hash)]
pub enum TimeZone {
    /// America/New_York
    NewYork,
    /// Europe/London
    London,
    /// Asia/Tokyo
    Tokyo,
    /// America/Toronto
    Toronto,
}

impl TimeZone {
    /// A number for the zone, by which specifications tell the zones
    /// apart.
    pub open spec fn number(self) -> int {
        match self {
            TimeZone::NewYork => 0,
            TimeZone::London => 1,
            TimeZone::Tokyo => 2,
            TimeZone::Toronto => 3,
        }
    }

    /// The name of the zone in the IANA time zone database.
    pub fn name(&self) -> (r: &'static str)
        ensures
            *self == TimeZone::NewYork ==> r@ == "America/New_York"@,
            *self == TimeZone::London ==> r@ == "Europe/London"@,
            *self == TimeZone::Tokyo ==> r@ == "Asia/Tokyo"@,
            *self == TimeZone::Toronto ==> r@ == "America/Toronto"@,
    {
        match self {
            TimeZone::NewYork => "America/New_York",
            TimeZone::London => "Europe/London",
            TimeZone::Tokyo => "Asia/Tokyo",
            TimeZone::Toronto => "America/Toronto",
        }
    }
}

impl Market {
    /// The market whose rules this market follows: NASDAQ follows those
    /// of NYSE, every other market its own.
    pub open spec fn rules(self) -> Market {
        match self {
            Market::NASDAQ => Market::NYSE,
            m => m,
        }
    }

    /// The holidays of the market in a year.
    pub open spec fn holidays(self, year: i32) -> Set<Date> {
        self.rules().holidays_by_rule(year)
    }

    /// The holidays that the rules of the market give for a year.
    #[verifier::opaque]
    pub open spec fn holidays_by_rule(self, year: i32) -> Set<Date> {
        match self {
            Market::NYSE => us::holidays::us_holidays(year),
            Market::NASDAQ => us::holidays::us_holidays(year),
            Market::LSE => uk::holidays::uk_holidays(year),
            Market::TSE => japan::holidays::japan_holidays(year),
            Market::TSX => canada::holidays::canada_holidays(year),
        }
    }

    /// Whether `date` is among the holidays of its year.
    pub open spec fn is_holiday_spec(self, date: Date) -> bool {
        self.holidays(date.year).contains(date)
    }

    /// Whether the market trades on `date`: on every day that is neither
    /// a holiday nor on a weekend.
    pub open spec fn is_trading_day_spec(self, date: Date) -> bool {
        !self.is_holiday_spec(date) && !date.is_weekend_spec()
    }

    /// The sessions of the market on `date`.
    pub open spec fn trading_hours_spec(self, date: Date) -> TradingHours {
        match self {
            Market::NYSE => us::us_trading_hours(date),
            Market::NASDAQ => us::us_trading_hours(date),
            Market::LSE => uk::uk_trading_hours(date),
            Market::TSE => japan::japan_trading_hours(date),
            Market::TSX => canada::canada_trading_hours(date),
        }
    }

    /// A month in which the market has no holiday in any year.
    pub open spec fn quiet_month(self) -> u32 {
        match self {
            Market::NYSE => 8,
            Market::NASDAQ => 8,
            Market::LSE => 7,
            Market::TSE => 6,
            Market::TSX => 8,
        }
    }

    /// Whether `next` is the first trading day after `date`.
    pub open spec fn is_next_trading_day(self, date: Date, next: Date) -> bool {
        &&& next.valid()
        &&& date.before(next)
        &&& self.is_trading_day_spec(next)
        &&& forall|x: Date|
            x.valid() && date.before(x) && x.before(next) ==> !#[trigger] self.is_trading_day_spec(
                x,
            )
    }

    /// Whether `prev` is the last trading day before `date`.
    pub open spec fn is_previous_trading_day(self, date: Date, prev: Date) -> bool {
        &&& prev.valid()
        &&& prev.before(date)
        &&& self.is_trading_day_spec(prev)
        &&& forall|x: Date|
            x.valid() && prev.before(x) && x.before(date) ==> !#[trigger] self.is_trading_day_spec(
                x,
            )
    }

    /// Whether the calendar has a trading day of the market after `date`.
    pub open spec fn has_trading_day_after(self, date: Date) -> bool {
        exists|day: Date| day.valid() && date.before(day) && #[trigger] self.is_trading_day_spec(day)
    }

    /// Whether the calendar has a trading day of the market before `date`.
    pub open spec fn has_trading_day_before(self, date: Date) -> bool {
        exists|day: Date| day.valid() && day.before(date) && #[trigger] self.is_trading_day_spec(day)
    }

    /// The first trading day after `date`.
    pub open spec fn next_trading_day_spec(self, date: Date) -> Date {
        choose|next: Date| self.is_next_trading_day(date, next)
    }

    /// The last trading day before `date`.
    pub open spec fn previous_trading_day_spec(self, date: Date) -> Date {
        choose|prev: Date| self.is_previous_trading_day(date, prev)
    }

    /// The date and time of day at which the regular session next opens,
    /// seen from `time` on `date`: the open of `date`, if that is a
    /// trading day and the open is still ahead; else the open of the next
    /// trading day.
    pub open spec fn next_open_spec(self, date: Date, time: Time) -> (Date, Time) {
        if self.is_trading_day_spec(date) && time.secs < self.trading_hours_spec(
            date,
        ).regular.start.secs {
            (date, self.trading_hours_spec(date).regular.start)
        } else {
            let next = self.next_trading_day_spec(date);
            (next, self.trading_hours_spec(next).regular.start)
        }
    }

    /// The date and time of day at which regular trading next ends, seen
    /// from `time` on `date`: the close of `date`, early or regular, if
    /// that is a trading day and the close is still ahead; else the close
    /// of the next trading day.
    pub open spec fn next_close_spec(self, date: Date, time: Time) -> (Date, Time) {
        if self.is_trading_day_spec(date) && time.secs < self.trading_hours_spec(
            date,
        ).market_close_spec().secs {
            (date, self.trading_hours_spec(date).market_close_spec())
        } else {
            let next = self.next_trading_day_spec(date);
            (next, self.trading_hours_spec(next).market_close_spec())
        }
    }

    /// The time zone of the market.
    pub open spec fn timezone_spec(self) -> TimeZone {
        match self {
            Market::NYSE => TimeZone::NewYork,
            Market::NASDAQ => TimeZone::NewYork,
            Market::LSE => TimeZone::London,
            Market::TSE => TimeZone::Tokyo,
            Market::TSX => TimeZone::Toronto,
        }
    }

    /// The rules of the market with an empty cache.
    pub fn create_implementation(&self) -> (r: Result<MarketImpl, CalendarError>)
        ensures
            r is Ok,
            r->Ok_0.wf(),
            r->Ok_0.rules() == self.rules(),
            r->Ok_0.cached() == Seq::<(i32, Set<Date>)>::empty(),
    {
        Ok(
            match self {
                Market::NYSE => MarketImpl::US(USMarket::new()),
                Market::NASDAQ => MarketImpl::US(USMarket::new()),
                Market::LSE => MarketImpl::UK(LSEMarket::new()),
                Market::TSE => MarketImpl::Japan(TSEMarket::new()),
                Market::TSX => MarketImpl::Canada(TSXMarket::new()),
            },
        )
    }

    /// The time zone in which the market keeps its hours.
    pub fn timezone(&self) -> (r: TimeZone)
        ensures
            r == self.timezone_spec(),
    {
        match self {
            Market::NYSE => TimeZone::NewYork,
            Market::NASDAQ => TimeZone::NewYork,
            Market::LSE => TimeZone::London,
            Market::TSE => TimeZone::Tokyo,
            Market::TSX => TimeZone::Toronto,
        }
    }

    /// The full name of the market.
    pub fn name(&self) -> (r: &'static str)
        ensures
            *self == Market::NYSE ==> r@ == "New York Stock Exchange"@,
            *self == Market::NASDAQ ==> r@ == "NASDAQ Stock Market"@,
            *self == Market::LSE ==> r@ == "London Stock Exchange"@,
            *self == Market::TSE ==> r@ == "Tokyo Stock Exchange"@,
            *self == Market::TSX ==> r@ == "Toronto Stock Exchange"@,
    {
        match self {
            Market::NYSE => "New York Stock Exchange",
            Market::NASDAQ => "NASDAQ Stock Market",
            Market::LSE => "London Stock Exchange",
            Market::TSE => "Tokyo Stock Exchange",
            Market::TSX => "Toronto Stock Exchange",
        }
    }

    /// The short code of the market.
    pub fn code(&self) -> (r: &'static str)
        ensures
            *self == Market::NYSE ==> r@ == "NYSE"@,
            *self == Market::NASDAQ ==> r@ == "NASDAQ"@,
            *self == Market::LSE ==> r@ == "LSE"@,
            *self == Market::TSE ==> r@ == "TSE"@,
            *self == Market::TSX ==> r@ == "TSX"@,
    {
        match self {
            Market::NYSE => "NYSE",
            Market::NASDAQ => "NASDAQ",
            Market::LSE => "LSE",
            Market::TSE => "TSE",
            Market::TSX => "TSX",
        }
    }
}

/// A market has the holidays, the trading days, the hours and the time
/// zone of the market whose rules it follows; so NASDAQ has those of NYSE.
pub proof fn lemma_follows_rules(market: Market, date: Date)
    ensures
        market.rules().holidays(date.year) == market.holidays(date.year),
        market.rules().is_holiday_spec(date) == market.is_holiday_spec(date),
        market.rules().is_trading_day_spec(date) == market.is_trading_day_spec(date),
        market.rules().trading_hours_spec(date) == market.trading_hours_spec(date),
        market.rules().timezone_spec() == market.timezone_spec(),
{
    assert(market.rules().rules() == market.rules());
}

/// No date is at once a trading day and a holiday of a market.
pub proof fn lemma_trading_day_is_no_holiday(market: Market, date: Date)
    ensures
        !(market.is_trading_day_spec(date) && market.is_holiday_spec(date)),
{
}

/// No market trades on a Saturday or a Sunday.
pub proof fn lemma_no_trading_on_weekends(market: Market, date: Date)
    requires
        date.weekday_spec() == crate::date::Weekday::Sat || date.weekday_spec()
            == crate::date::Weekday::Sun,
    ensures
        !market.is_trading_day_spec(date),
{
}

/// A date has at most one first trading day after it: what meets
/// [`Market::is_next_trading_day`] is what [`Market::next_trading_day_spec`]
/// names.
pub proof fn lemma_next_trading_day_unique(market: Market, date: Date, next: Date)
    requires
        market.is_next_trading_day(date, next),
    ensures
        market.next_trading_day_spec(date) == next,
{
    let other = market.next_trading_day_spec(date);
    assert(market.is_next_trading_day(date, other));
    lemma_before_by_fields(other, next);
}

/// A date has at most one last trading day before it: what meets
/// [`Market::is_previous_trading_day`] is what
/// [`Market::previous_trading_day_spec`] names.
pub proof fn lemma_previous_trading_day_unique(market: Market, date: Date, prev: Date)
    requires
        market.is_previous_trading_day(date, prev),
    ensures
        market.previous_trading_day_spec(date) == prev,
{
    let other = market.previous_trading_day_spec(date);
    assert(market.is_previous_trading_day(date, other));
    lemma_before_by_fields(other, prev);
}

/// Every market trades on the first day of its quiet month that is not on
/// a weekend, in every year.
pub proof fn lemma_quiet_month_trades(market: Market, year: i32)
    requires
        MIN_DATE_YEAR <= year <= MAX_DATE_YEAR,
    ensures
        first_weekday_of_month(year, market.quiet_month()).valid(),
        market.is_trading_day_spec(first_weekday_of_month(year, market.quiet_month())),
{
    let t = first_weekday_of_month(year, market.quiet_month());
    lemma_first_weekday_of_month(year, market.quiet_month());
    reveal(Market::holidays_by_rule);
    match market {
        Market::NYSE => us::holidays::lemma_us_quiet_month(t),
        Market::NASDAQ => us::holidays::lemma_us_quiet_month(t),
        Market::LSE => uk::holidays::lemma_uk_quiet_month(t),
        Market::TSE => japan::holidays::lemma_japan_quiet_month(t),
        Market::TSX => canada::holidays::lemma_canada_quiet_month(t),
    }
}

/// Where no day after `date` and before `current` is a trading day, and a
/// trading day lies at or after `current`, `date` has a first trading day
/// after it.
proof fn lemma_scan_forward(market: Market, date: Date, current: Date, target: Date)
    requires
        date.valid(),
        current.valid(),
        target.valid(),
        date.before(current),
        current.day_number() <= target.day_number(),
        market.is_trading_day_spec(target),
        forall|x: Date|
            x.valid() && date.before(x) && x.before(current)
                ==> !#[trigger] market.is_trading_day_spec(x),
    ensures
        exists|next: Date| market.is_next_trading_day(date, next),
    decreases target.day_number() - current.day_number(),
{
    if market.is_trading_day_spec(current) {
        assert(market.is_next_trading_day(date, current));
    } else {
        lemma_before_by_fields(current, target);
        lemma_ordinal_bounds(target);
        crate::date::lemma_next_day(current);
        let following = current.plus_days(1);
        assert forall|x: Date|
            x.valid() && date.before(x) && x.before(
                following,
            ) implies !#[trigger] market.is_trading_day_spec(x) by {
            lemma_before_by_fields(x, current);
        }
        lemma_scan_forward(market, date, following, target);
    }
}

/// Where no day before `date` and after `current` is a trading day, and a
/// trading day lies at or before `current`, `date` has a last trading day
/// before it.
proof fn lemma_scan_backward(market: Market, date: Date, current: Date, target: Date)
    requires
        date.valid(),
        current.valid(),
        target.valid(),
        current.before(date),
        target.day_number() <= current.day_number(),
        market.is_trading_day_spec(target),
        forall|x: Date|
            x.valid() && current.before(x) && x.before(date)
                ==> !#[trigger] market.is_trading_day_spec(x),
    ensures
        exists|prev: Date| market.is_previous_trading_day(date, prev),
    decreases current.day_number() - target.day_number(),
{
    if market.is_trading_day_spec(current) {
        assert(market.is_previous_trading_day(date, current));
    } else {
        lemma_before_by_fields(current, target);
        lemma_ordinal_bounds(target);
        crate::date::lemma_previous_day(current);
        let preceding = current.plus_days(-1);
        assert forall|x: Date|
            x.valid() && preceding.before(x) && x.before(
                date,
            ) implies !#[trigger] market.is_trading_day_spec(x) by {
            lemma_before_by_fields(x, current);
        }
        lemma_scan_backward(market, date, preceding, target);
    }
}

/// Every date before the last year of the calendar has a trading day
/// after it.
pub proof fn lemma_trading_day_ahead(market: Market, date: Date)
    requires
        date.valid(),
        date.year < MAX_DATE_YEAR,
    ensures
        market.has_trading_day_after(date),
{
    let year = if date.month < market.quiet_month() {
        date.year
    } else {
        (date.year + 1) as i32
    };
    let target = first_weekday_of_month(year, market.quiet_month());
    lemma_quiet_month_trades(market, year);
    lemma_before_by_fields(date, target);
}

/// Every date after the first year of the calendar has a trading day
/// before it.
pub proof fn lemma_trading_day_behind(market: Market, date: Date)
    requires
        date.valid(),
        date.year > MIN_DATE_YEAR,
    ensures
        market.has_trading_day_before(date),
{
    let year = if date.month > market.quiet_month() {
        date.year
    } else {
        (date.year - 1) as i32
    };
    let target = first_weekday_of_month(year, market.quiet_month());
    lemma_quiet_month_trades(market, year);
    lemma_before_by_fields(target, date);
}

/// Where a date has a trading day after it, it has a first one, and that
/// day lies after the date.
pub proof fn lemma_next_trading_day_after(market: Market, date: Date)
    requires
        date.valid(),
        market.has_trading_day_after(date),
    ensures
        market.is_next_trading_day(date, market.next_trading_day_spec(date)),
        date.before(market.next_trading_day_spec(date)),
{
    let target = choose|day: Date|
        day.valid() && date.before(day) && #[trigger] market.is_trading_day_spec(day);
    lemma_ordinal_bounds(target);
    crate::date::lemma_next_day(date);
    let first = date.plus_days(1);
    assert forall|x: Date| x.valid() && date.before(x) && x.before(first) implies !(
    #[trigger] market.is_trading_day_spec(x)) by {}
    lemma_scan_forward(market, date, first, target);
}

/// Where a date has a trading day before it, it has a last one, and that
/// day lies before the date.
pub proof fn lemma_previous_trading_day_before(market: Market, date: Date)
    requires
        date.valid(),
        market.has_trading_day_before(date),
    ensures
        market.is_previous_trading_day(date, market.previous_trading_day_spec(date)),
        market.previous_trading_day_spec(date).before(date),
{
    let target = choose|day: Date|
        day.valid() && day.before(date) && #[trigger] market.is_trading_day_spec(day);
    lemma_ordinal_bounds(target);
    crate::date::lemma_previous_day(date);
    let first = date.plus_days(-1);
    assert forall|x: Date| x.valid() && first.before(x) && x.before(date) implies !(
    #[trigger] market.is_trading_day_spec(x)) by {}
    lemma_scan_backward(market, date, first, target);
}

/// The rules and the holiday cache of one market.
pub enum MarketImpl {
    /// NYSE and NASDAQ
    US(USMarket),
    /// London Stock Exchange
    UK(LSEMarket),
    /// Tokyo Stock Exchange
    Japan(TSEMarket),
    /// Toronto Stock Exchange
    Canada(TSXMarket),
}

impl MarketImpl {
    /// The cache of the market holds what its rules give.
    pub open spec fn wf(&self) -> bool {
        match self {
            MarketImpl::US(m) => m.wf(),
            MarketImpl::UK(m) => m.wf(),
            MarketImpl::Japan(m) => m.wf(),
            MarketImpl::Canada(m) => m.wf(),
        }
    }

    /// The cached years of the market with their holidays, the most
    /// recently used first.
    pub open spec fn cached(&self) -> Seq<(i32, Set<Date>)> {
        match self {
            MarketImpl::US(m) => m.cached(),
            MarketImpl::UK(m) => m.cached(),
            MarketImpl::Japan(m) => m.cached(),
            MarketImpl::Canada(m) => m.cached(),
        }
    }

    /// What the cache holds for a year are the holidays that the rules
    /// of the market give for that year.
    pub proof fn lemma_cached_holidays(&self)
        requires
            self.wf(),
        ensures
            entries_follow(self.cached(), |y: i32| self.rules().holidays(y)),
            self.cached().len() <= 20,
    {
        reveal(Market::holidays_by_rule);
        match self {
            MarketImpl::US(m) => {
                m.lemma_cached_holidays();
                assert(entries_follow(self.cached(), |y: i32| self.rules().holidays(y)));
            },
            MarketImpl::UK(m) => {
                m.lemma_cached_holidays();
                assert(entries_follow(self.cached(), |y: i32| self.rules().holidays(y)));
            },
            MarketImpl::Japan(m) => {
                m.lemma_cached_holidays();
                assert(entries_follow(self.cached(), |y: i32| self.rules().holidays(y)));
            },
            MarketImpl::Canada(m) => {
                m.lemma_cached_holidays();
                assert(entries_follow(self.cached(), |y: i32| self.rules().holidays(y)));
            },
        }
    }

    /// The market whose rules these are.
    pub open spec fn rules(&self) -> Market {
        match self {
            MarketImpl::US(_) => Market::NYSE,
            MarketImpl::UK(_) => Market::LSE,
            MarketImpl::Japan(_) => Market::TSE,
            MarketImpl::Canada(_) => Market::TSX,
        }
    }

    /// Whether `date` is a holiday of the market.
    pub fn is_holiday(&mut self, date: Date) -> (r: bool)
        requires
            old(self).wf(),
            date.valid(),
        ensures
            final(self).wf(),
            final(self).rules() == old(self).rules(),
            r == old(self).rules().is_holiday_spec(date),
            final(self).cached() == looked_up(
                old(self).cached(),
                date.year,
                old(self).rules().holidays(date.year),
                20,
            ),
    {
        proof {
            reveal(Market::holidays_by_rule);
        }
        match self {
            MarketImpl::US(m) => m.is_holiday(date),
            MarketImpl::UK(m) => m.is_holiday(date),
            MarketImpl::Japan(m) => m.is_holiday(date),
            MarketImpl::Canada(m) => m.is_holiday(date),
        }
    }

    /// The sessions of the market on `date`.
    pub fn trading_hours(&self, date: Date) -> (r: TradingHours)
        requires
            date.valid(),
        ensures
            r == self.rules().trading_hours_spec(date),
            r.wf(),
    {
        match self {
            MarketImpl::US(m) => m.trading_hours(date),
            MarketImpl::UK(m) => m.trading_hours(date),
            MarketImpl::Japan(m) => m.trading_hours(date),
            MarketImpl::Canada(m) => m.trading_hours(date),
        }
    }

    /// The time zone in which the market keeps its hours.
    pub fn timezone(&self) -> (r: TimeZone)
        ensures
            r == self.rules().timezone_spec(),
    {
        match self {
            MarketImpl::US(m) => m.timezone(),
            MarketImpl::UK(m) => m.timezone(),
            MarketImpl::Japan(m) => m.timezone(),
            MarketImpl::Canada(m) => m.timezone(),
        }
    }

    /// Whether the market trades on `date`.
    pub fn is_trading_day(&mut self, date: Date) -> (r: bool)
        requires
            old(self).wf(),
            date.valid(),
        ensures
            final(self).wf(),
            final(self).rules() == old(self).rules(),
            r == old(self).rules().is_trading_day_spec(date),
            final(self).cached() == looked_up(
                old(self).cached(),
                date.year,
                old(self).rules().holidays(date.year),
                20,
            ),
    {
        let holiday = self.is_holiday(date);
        !holiday && !is_weekend(date)
    }

    /// The first trading day after `date`, found by going forward a day
    /// at a time; `None` where the calendar ends before a trading day
    /// comes.
    pub fn checked_next_trading_day(&mut self, date: Date) -> (r: Option<Date>)
        requires
            old(self).wf(),
            date.valid(),
        ensures
            final(self).wf(),
            final(self).rules() == old(self).rules(),
            r is Some == old(self).rules().has_trading_day_after(date),
            r is Some ==> old(self).rules().is_next_trading_day(date, r->Some_0) && r->Some_0 == old(
                self,
            ).rules().next_trading_day_spec(date),
    {
        let ghost market = self.rules();
        let mut current = date;
        loop
            invariant
                self.wf(),
                self.rules() == market,
                market == old(self).rules(),
                date.valid(),
                current.valid(),
                date.day_number() <= current.day_number(),
                forall|x: Date|
                    x.valid() && date.before(x) && !current.before(x)
                        ==> !#[trigger] market.is_trading_day_spec(x),
            decreases crate::date::max_day_number() - current.day_number(),
        {
            proof {
                lemma_ordinal_bounds(current);
            }
            let next = match current.checked_add_days(1) {
                Some(day) => day,
                None => {
                    proof {
                        assert forall|x: Date| x.valid() && date.before(x) implies !(
                        #[trigger] market.is_trading_day_spec(x)) by {
                            lemma_ordinal_bounds(x);
                        }
                    }
                    return None;
                },
            };
            if self.is_trading_day(next) {
                proof {
                    assert(market.is_next_trading_day(date, next));
                    lemma_next_trading_day_unique(market, date, next);
                }
                return Some(next);
            }
            proof {
                assert forall|x: Date|
                    x.valid() && date.before(x) && !next.before(
                        x,
                    ) implies !#[trigger] market.is_trading_day_spec(x) by {
                    lemma_before_by_fields(x, next);
                }
            }
            current = next;
        }
    }

    /// The last trading day before `date`, found by going back a day at a
    /// time; `None` where the calendar begins after every trading day
    /// before `date`.
    pub fn checked_previous_trading_day(&mut self, date: Date) -> (r: Option<Date>)
        requires
            old(self).wf(),
            date.valid(),
        ensures
            final(self).wf(),
            final(self).rules() == old(self).rules(),
            r is Some == old(self).rules().has_trading_day_before(date),
            r is Some ==> old(self).rules().is_previous_trading_day(date, r->Some_0) && r->Some_0
                == old(self).rules().previous_trading_day_spec(date),
    {
        let ghost market = self.rules();
        let mut current = date;
        loop
            invariant
                self.wf(),
                self.rules() == market,
                market == old(self).rules(),
                date.valid(),
                current.valid(),
                current.day_number() <= date.day_number(),
                forall|x: Date|
                    x.valid() && x.before(date) && !x.before(current)
                        ==> !#[trigger] market.is_trading_day_spec(x),
            decreases current.day_number() - crate::date::min_day_number(),
        {
            proof {
                lemma_ordinal_bounds(current);
            }
            let prev = match current.checked_add_days(-1) {
                Some(day) => day,
                None => {
                    proof {
                        assert forall|x: Date| x.valid() && x.before(date) implies !(
                        #[trigger] market.is_trading_day_spec(x)) by {
                            lemma_ordinal_bounds(x);
                        }
                    }
                    return None;
                },
            };
            if self.is_trading_day(prev) {
                proof {
                    assert(market.is_previous_trading_day(date, prev));
                    lemma_previous_trading_day_unique(market, date, prev);
                }
                return Some(prev);
            }
            proof {
                assert forall|x: Date|
                    x.valid() && x.before(date) && !x.before(
                        prev,
                    ) implies !#[trigger] market.is_trading_day_spec(x) by {
                    lemma_before_by_fields(x, prev);
                }
            }
            current = prev;
        }
    }

    /// The first trading day after `date`, for a date that has a trading
    /// day after it in the calendar, as every date before the last year
    /// of the calendar has.
    pub fn next_trading_day(&mut self, date: Date) -> (r: Date)
        requires
            old(self).wf(),
            date.valid(),
            date.year < MAX_DATE_YEAR || old(self).rules().has_trading_day_after(date),
        ensures
            final(self).wf(),
            final(self).rules() == old(self).rules(),
            old(self).rules().is_next_trading_day(date, r),
            r == old(self).rules().next_trading_day_spec(date),
    {
        proof {
            if date.year < MAX_DATE_YEAR {
                lemma_trading_day_ahead(self.rules(), date);
            }
        }
        self.checked_next_trading_day(date).unwrap()
    }

    /// The last trading day before `date`, for a date that has a trading
    /// day before it in the calendar, as every date after the first year
    /// of the calendar has.
    pub fn previous_trading_day(&mut self, date: Date) -> (r: Date)
        requires
            old(self).wf(),
            date.valid(),
            date.year > MIN_DATE_YEAR || old(self).rules().has_trading_day_before(date),
        ensures
            final(self).wf(),
            final(self).rules() == old(self).rules(),
            old(self).rules().is_previous_trading_day(date, r),
            r == old(self).rules().previous_trading_day_spec(date),
    {
        proof {
            if date.year > MIN_DATE_YEAR {
                lemma_trading_day_behind(self.rules(), date);
            }
        }
        self.checked_previous_trading_day(date).unwrap()
    }
}

/// Whether `date` is a Saturday or a Sunday.
pub fn is_weekend(date: Date) -> (r: bool)
    requires
        date.valid(),
    ensures
        r == date.is_weekend_spec(),
{
    date.weekday().is_weekend()
}

} // verus!
