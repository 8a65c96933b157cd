use trading_calendar::markets::japan::holidays::{
    add_with_substitute, calculate_autumnal_equinox, calculate_vernal_equinox, get_japan_holidays,
};
use trading_calendar::markets::uk::holidays::get_uk_holidays;
use trading_calendar::markets::us::holidays::{
    get_us_holidays, independence_day, juneteenth, labor_day, memorial_day, presidents_day,
};
use trading_calendar::markets::us::USMarket;
use trading_calendar::utils::cache::HolidayCache;
use trading_calendar::utils::easter::{calculate_easter, calculate_easter_monday};
use trading_calendar::utils::{last_weekday_of_month, nth_weekday_of_month};
use trading_calendar::zoned::{earliest_zoned, zoned_at_offset};
use trading_calendar::{
    CalendarError, Date, HolidaySet, Market, Session, Time, TimeZone, TradingCalendar,
    TradingHours, Weekday, ZonedDateTime,
};

fn ymd(year: i32, month: u32, day: u32) -> Date {
    Date::from_ymd_opt(year, month, day).unwrap()
}

fn hms(hour: u32, min: u32, sec: u32) -> Time {
    Time::from_hms_opt(hour, min, sec).unwrap()
}

#[test]
fn date_from_ymd_accepts_only_calendar_days() {
    assert_eq!(Date::from_ymd_opt(2024, 2, 29), Some(Date { year: 2024, month: 2, day: 29 }));
    assert!(Date::from_ymd_opt(2025, 2, 29).is_none());
    assert!(Date::from_ymd_opt(2100, 2, 29).is_none());
    assert!(Date::from_ymd_opt(2000, 2, 29).is_some());
    assert!(Date::from_ymd_opt(2025, 0, 1).is_none());
    assert!(Date::from_ymd_opt(2025, 13, 1).is_none());
    assert!(Date::from_ymd_opt(2025, 4, 31).is_none());
    assert!(Date::from_ymd_opt(2025, 4, 0).is_none());
    assert!(Date::from_ymd_opt(262142, 12, 31).is_some());
    assert!(Date::from_ymd_opt(262143, 1, 1).is_none());
    assert!(Date::from_ymd_opt(-262143, 1, 1).is_some());
    assert!(Date::from_ymd_opt(-262144, 12, 31).is_none());
}

#[test]
fn weekday_of_known_dates() {
    assert_eq!(ymd(2025, 1, 1).weekday(), Weekday::Wed);
    assert_eq!(ymd(1970, 1, 1).weekday(), Weekday::Thu);
    assert_eq!(ymd(2024, 2, 29).weekday(), Weekday::Thu);
    assert_eq!(ymd(1, 1, 1).weekday(), Weekday::Mon);
    assert_eq!(ymd(2030, 12, 31).weekday(), Weekday::Tue);
    assert_eq!(Weekday::Sun.num_days_from_monday(), 6);
    assert_eq!(Weekday::Mon.number_from_monday(), 1);
    assert!(Weekday::Sat.is_weekend());
    assert!(!Weekday::Fri.is_weekend());
}

#[test]
fn add_days_crosses_months_and_years() {
    assert_eq!(ymd(2025, 1, 31).add_days(1), ymd(2025, 2, 1));
    assert_eq!(ymd(2024, 2, 28).add_days(1), ymd(2024, 2, 29));
    assert_eq!(ymd(2025, 12, 31).add_days(1), ymd(2026, 1, 1));
    assert_eq!(ymd(2025, 1, 1).add_days(-1), ymd(2024, 12, 31));
    assert_eq!(ymd(2025, 1, 1).add_days(365), ymd(2026, 1, 1));
    assert_eq!(ymd(2025, 3, 10).add_days(0), ymd(2025, 3, 10));
    assert_eq!(ymd(2025, 2, 28).checked_add_days(1), Some(ymd(2025, 3, 1)));
    assert_eq!(ymd(262142, 12, 31).checked_add_days(1), None);
    assert_eq!(ymd(262142, 12, 30).checked_add_days(1), Some(ymd(262142, 12, 31)));
    assert_eq!(ymd(-262143, 1, 1).checked_add_days(-1), None);
    assert_eq!(ymd(2025, 1, 1).checked_add_days(i64::MAX), None);
    assert_eq!(ymd(2025, 1, 1).checked_add_days(i64::MIN), None);
    assert!(ymd(2025, 1, 31).is_before(&ymd(2025, 2, 1)));
    assert!(!ymd(2025, 2, 1).is_before(&ymd(2025, 2, 1)));
    assert!(!ymd(2026, 1, 1).is_before(&ymd(2025, 12, 31)));
}

#[test]
fn time_from_hms_and_parts() {
    let t = hms(16, 30, 15);
    assert_eq!(t.secs, 59415);
    assert_eq!(t.hour(), 16);
    assert_eq!(t.minute(), 30);
    assert_eq!(t.second(), 15);
    assert!(Time::from_hms_opt(24, 0, 0).is_none());
    assert!(Time::from_hms_opt(0, 60, 0).is_none());
    assert!(Time::from_hms_opt(0, 0, 60).is_none());
    assert_eq!(Time::from_hms_opt(0, 0, 0), Some(Time { secs: 0 }));
    assert!(hms(9, 30, 0) < hms(16, 0, 0));
}

#[test]
fn nth_weekday_exact_days() {
    assert_eq!(nth_weekday_of_month(2025, 1, Weekday::Mon, 1), Some(ymd(2025, 1, 6)));
    assert_eq!(nth_weekday_of_month(2025, 1, Weekday::Wed, 1), Some(ymd(2025, 1, 1)));
    assert_eq!(nth_weekday_of_month(2025, 11, Weekday::Thu, 4), Some(ymd(2025, 11, 27)));
    assert_eq!(nth_weekday_of_month(2025, 1, Weekday::Fri, 5), Some(ymd(2025, 1, 31)));
    assert_eq!(nth_weekday_of_month(2025, 1, Weekday::Mon, 5), None);
    assert_eq!(nth_weekday_of_month(2025, 2, Weekday::Sat, 5), None);
    assert_eq!(nth_weekday_of_month(2025, 13, Weekday::Mon, 1), None);
    assert_eq!(nth_weekday_of_month(2025, 1, Weekday::Mon, 53), None);
    assert_eq!(nth_weekday_of_month(2025, 1, Weekday::Mon, 255), None);
}

#[test]
fn last_weekday_exact_days() {
    assert_eq!(last_weekday_of_month(2025, 5, Weekday::Mon), Some(ymd(2025, 5, 26)));
    assert_eq!(last_weekday_of_month(2025, 8, Weekday::Mon), Some(ymd(2025, 8, 25)));
    assert_eq!(last_weekday_of_month(2025, 12, Weekday::Wed), Some(ymd(2025, 12, 31)));
    assert_eq!(last_weekday_of_month(2024, 2, Weekday::Thu), Some(ymd(2024, 2, 29)));
    assert_eq!(last_weekday_of_month(2024, 2, Weekday::Fri), Some(ymd(2024, 2, 23)));
    assert_eq!(last_weekday_of_month(2025, 13, Weekday::Mon), None);
    assert_eq!(last_weekday_of_month(2025, 0, Weekday::Mon), None);
    assert_eq!(last_weekday_of_month(262142, 12, Weekday::Mon), None);
}

#[test]
fn easter_in_other_years() {
    assert_eq!(calculate_easter(2020).unwrap(), ymd(2020, 4, 12));
    assert_eq!(calculate_easter(2030).unwrap(), ymd(2030, 4, 21));
    assert_eq!(calculate_easter(2038).unwrap(), ymd(2038, 4, 25));
    assert_eq!(calculate_easter(2285).unwrap(), ymd(2285, 3, 22));
    assert_eq!(calculate_easter_monday(2025).unwrap(), ymd(2025, 4, 21));
    assert_eq!(calculate_easter_monday(2024).unwrap(), ymd(2024, 4, 1));
    assert_eq!(calculate_easter(2025).unwrap().weekday(), Weekday::Sun);
}

#[test]
fn easter_fails_where_the_year_has_no_dates() {
    assert!(matches!(calculate_easter(300000), Err(CalendarError::InvalidDateCalculation(_))));
    assert!(matches!(
        calculate_easter_monday(i32::MAX),
        Err(CalendarError::InvalidDateCalculation(_))
    ));
}

#[test]
fn session_with_equal_times_is_refused() {
    let times: Vec<Time> = vec![hms(0, 0, 0), hms(9, 30, 0), hms(12, 0, 1), hms(23, 59, 59)];
    for t in times {
        assert_eq!(Session::new(t, t), Err(CalendarError::InvalidSession));
    }
    assert_eq!(
        Session::new(hms(9, 30, 0), hms(16, 0, 0)),
        Ok(Session { start: hms(9, 30, 0), end: hms(16, 0, 0) })
    );
}

#[test]
fn overnight_session_edges() {
    let session = Session::new(hms(20, 0, 0), hms(4, 0, 0)).unwrap();
    assert!(session.contains(hms(20, 0, 0)));
    assert!(session.contains(hms(23, 59, 59)));
    assert!(session.contains(hms(0, 0, 0)));
    assert!(session.contains(hms(3, 59, 59)));
    assert!(!session.contains(hms(4, 0, 0)));
    assert!(!session.contains(hms(19, 59, 59)));
}

#[test]
fn early_close_must_come_before_the_close() {
    let regular = Session::new(hms(9, 30, 0), hms(16, 0, 0)).unwrap();
    let hours = TradingHours::new(ymd(2025, 12, 24), regular, None, None);
    assert!(!hours.is_early_close());
    assert_eq!(hours.market_close(), hms(16, 0, 0));
    assert!(matches!(hours.with_early_close(hms(16, 0, 0)), Err(CalendarError::InvalidTime(_))));
    assert!(matches!(hours.with_early_close(hms(17, 0, 0)), Err(CalendarError::InvalidTime(_))));
    let early = hours.with_early_close(hms(13, 0, 0)).unwrap();
    assert_eq!(early.early_close, Some(hms(13, 0, 0)));
    assert_eq!(early.market_close(), hms(13, 0, 0));
    assert_eq!(early.regular, regular);
    assert!(early.is_open_at(hms(12, 59, 59)));
    assert!(!early.is_open_at(hms(13, 0, 0)));
}

#[test]
fn open_at_follows_the_sessions() {
    let mut nyse = TradingCalendar::new(Market::NYSE).unwrap();
    let regular_day = nyse.trading_hours(ymd(2025, 3, 10));
    assert!(!regular_day.is_open_at(hms(3, 59, 59)));
    assert!(regular_day.is_open_at(hms(4, 0, 0)));
    assert!(regular_day.is_open_at(hms(9, 30, 0)));
    assert!(regular_day.is_open_at(hms(15, 59, 59)));
    assert!(regular_day.is_open_at(hms(16, 0, 0)));
    assert!(regular_day.is_open_at(hms(19, 59, 59)));
    assert!(!regular_day.is_open_at(hms(20, 0, 0)));
    let short_day = nyse.trading_hours(ymd(2025, 12, 24));
    assert_eq!(short_day.early_close, Some(hms(13, 0, 0)));
    assert_eq!(
        short_day.after_hours,
        Some(Session { start: hms(13, 0, 0), end: hms(20, 0, 0) })
    );
    assert!(short_day.is_open_at(hms(12, 59, 59)));
    assert!(short_day.is_open_at(hms(13, 0, 0)));
    assert!(short_day.is_open_at(hms(19, 0, 0)));
    assert!(!short_day.is_open_at(hms(20, 0, 0)));
    let lse = TradingCalendar::new(Market::LSE).unwrap();
    let london = lse.trading_hours(ymd(2025, 3, 10));
    assert_eq!(london.regular, Session { start: hms(8, 0, 0), end: hms(16, 30, 0) });
    assert!(london.pre_market.is_none());
    assert!(london.after_hours.is_none());
    assert!(!london.is_open_at(hms(7, 59, 59)));
    assert!(london.is_open_at(hms(16, 29, 59)));
    assert!(!london.is_open_at(hms(16, 30, 0)));
    assert!(nyse.is_trading_day(ymd(2025, 3, 10)).unwrap());
}

#[test]
fn us_early_close_days() {
    let market = USMarket::new();
    assert!(market.is_early_close_day(ymd(2025, 11, 28)));
    assert!(!market.is_early_close_day(ymd(2025, 11, 27)));
    assert!(market.is_early_close_day(ymd(2025, 7, 3)));
    assert!(!market.is_early_close_day(ymd(2026, 7, 3)));
    assert!(market.is_early_close_day(ymd(2025, 12, 24)));
    assert!(!market.is_early_close_day(ymd(2022, 12, 24)));
    assert!(!market.is_early_close_day(ymd(2025, 12, 23)));
}

#[test]
fn us_fixed_holidays_move_off_weekends() {
    assert_eq!(independence_day(2026), ymd(2026, 7, 3));
    assert_eq!(independence_day(2021), ymd(2021, 7, 5));
    assert_eq!(independence_day(2025), ymd(2025, 7, 4));
    assert_eq!(juneteenth(2022), ymd(2022, 6, 20));
    assert_eq!(juneteenth(2021), ymd(2021, 6, 21));
    assert_eq!(memorial_day(2025), Some(ymd(2025, 5, 26)));
    assert_eq!(labor_day(2025), Some(ymd(2025, 9, 1)));
    assert_eq!(presidents_day(2025), Some(ymd(2025, 2, 17)));
    let holidays = get_us_holidays(2025);
    assert_eq!(holidays.len(), 10);
    assert!(holidays.contains(&ymd(2025, 4, 18)));
    assert_eq!(get_us_holidays(2020).len(), 9);
    assert!(get_us_holidays(2022).contains(&ymd(2022, 1, 3)));
    assert!(get_us_holidays(2022).contains(&ymd(2022, 12, 26)));
}

#[test]
fn uk_christmas_on_friday() {
    let holidays = get_uk_holidays(2020);
    assert!(holidays.contains(&ymd(2020, 12, 25)));
    assert!(holidays.contains(&ymd(2020, 12, 28)));
    assert!(!holidays.contains(&ymd(2020, 12, 26)));
    assert_eq!(holidays.len(), 8);
}

#[test]
fn japan_substitutes_and_tables() {
    assert_eq!(calculate_vernal_equinox(2022), Some(ymd(2022, 3, 21)));
    assert_eq!(calculate_vernal_equinox(2030), Some(ymd(2030, 3, 20)));
    assert_eq!(calculate_vernal_equinox(2019), None);
    assert_eq!(calculate_vernal_equinox(2031), None);
    assert_eq!(calculate_autumnal_equinox(2024), Some(ymd(2024, 9, 22)));
    assert_eq!(calculate_autumnal_equinox(2031), None);
    let holidays = get_japan_holidays(2023);
    assert!(holidays.contains(&ymd(2023, 1, 1)));
    assert!(holidays.contains(&ymd(2023, 1, 2)));
    assert!(holidays.contains(&ymd(2023, 1, 3)));
    assert!(!holidays.contains(&ymd(2023, 1, 4)));
    let mut set = HolidaySet::from_vec(vec![ymd(2023, 1, 2), ymd(2023, 1, 3)]);
    add_with_substitute(&mut set, ymd(2023, 1, 1));
    assert_eq!(set.len(), 4);
    assert!(set.contains(&ymd(2023, 1, 4)));
    let mut plain = HolidaySet::new();
    add_with_substitute(&mut plain, ymd(2023, 1, 2));
    assert_eq!(plain.len(), 1);
    let outside = get_japan_holidays(2019);
    assert!(!outside.contains(&ymd(2019, 3, 21)));
    assert!(outside.contains(&ymd(2019, 12, 31)));
}

#[test]
fn holiday_set_behaves_as_a_set() {
    let mut set = HolidaySet::new();
    assert!(set.is_empty());
    assert!(set.insert(ymd(2025, 1, 1)));
    assert!(!set.insert(ymd(2025, 1, 1)));
    assert!(set.insert(ymd(2025, 12, 25)));
    assert_eq!(set.len(), 2);
    assert!(!set.is_empty());
    assert_eq!(set.to_vec(), vec![ymd(2025, 1, 1), ymd(2025, 12, 25)]);
    let copy = set.clone();
    assert_eq!(copy, set);
    let from = HolidaySet::from_vec(vec![ymd(2025, 1, 1), ymd(2025, 1, 1), ymd(2025, 1, 2)]);
    assert_eq!(from.len(), 2);
}

#[test]
fn cache_forgets_the_least_recently_used_year() {
    let mut cache = HolidayCache::with_capacity(3);
    for year in 2020i32..2023 {
        let _first = cache.get_or_compute(year, || HolidaySet::from_vec(vec![ymd(year, 1, 1)]));
    }
    assert_eq!(cache.len(), 3);
    let _fourth = cache.get_or_compute(2023, || HolidaySet::from_vec(vec![ymd(2023, 1, 1)]));
    assert_eq!(cache.len(), 3);
    let mut probe = cache.get_or_compute(2021, || panic!("2021 should still be cached"));
    assert!(probe.contains(&ymd(2021, 1, 1)));
    let _fifth = cache.get_or_compute(2024, || HolidaySet::from_vec(vec![ymd(2024, 1, 1)]));
    assert_eq!(cache.len(), 3);
    probe = cache.get_or_compute(2021, || panic!("2021 was used before 2024 came in"));
    assert!(probe.contains(&ymd(2021, 1, 1)));
    assert!(cache.get(2023).is_some());
    assert!(cache.get(2024).is_some());
    assert!(cache.get(2022).is_none());
    assert!(cache.get(2020).is_none());
}

#[test]
fn cache_evicts_the_first_year_when_full() {
    let mut cache = HolidayCache::with_capacity(3);
    for year in 2020i32..2024 {
        cache.insert(year, HolidaySet::new());
    }
    assert!(cache.get(2020).is_none());
    assert!(cache.get(2021).is_some());
    assert!(cache.get(2022).is_some());
    assert!(cache.get(2023).is_some());
    cache.insert(2021, HolidaySet::from_vec(vec![ymd(2021, 1, 1)]));
    assert_eq!(cache.len(), 3);
    assert_eq!(cache.get(2021).unwrap().len(), 1);
    let stats = cache.stats();
    assert_eq!(stats.len, 3);
    assert_eq!(stats.capacity, 3);
    assert_eq!(HolidayCache::new().stats().capacity, 20);
    assert!(HolidayCache::default().is_empty());
}

#[test]
fn next_and_previous_trading_day_are_strictly_ordered() {
    let markets: Vec<Market> = vec![Market::NYSE, Market::NASDAQ, Market::LSE, Market::TSE, Market::TSX];
    for market in markets {
        let mut calendar = TradingCalendar::new(market).unwrap();
        let mut date = ymd(2024, 12, 20);
        let last = ymd(2025, 1, 20);
        while date <= last {
            let next = calendar.next_trading_day(date);
            let prev = calendar.previous_trading_day(date);
            assert!(next > date);
            assert!(prev < date);
            assert!(calendar.is_trading_day(next).unwrap());
            assert!(calendar.is_trading_day(prev).unwrap());
            let mut between = date.add_days(1);
            while between < next {
                assert!(!calendar.is_trading_day(between).unwrap());
                between = between.add_days(1);
            }
            date = date.add_days(1);
        }
    }
}

#[test]
fn next_trading_day_exact_values() {
    let mut nyse = TradingCalendar::new(Market::NYSE).unwrap();
    assert_eq!(nyse.next_trading_day(ymd(2025, 12, 24)), ymd(2025, 12, 26));
    assert_eq!(nyse.next_trading_day(ymd(2025, 4, 17)), ymd(2025, 4, 21));
    assert_eq!(nyse.previous_trading_day(ymd(2025, 1, 2)), ymd(2024, 12, 31));
    assert_eq!(nyse.previous_trading_day(ymd(2025, 4, 21)), ymd(2025, 4, 17));
    assert_eq!(nyse.next_trading_day(ymd(2030, 12, 31)), ymd(2031, 1, 2));
    let mut tse = TradingCalendar::new(Market::TSE).unwrap();
    assert_eq!(tse.next_trading_day(ymd(2024, 12, 30)), ymd(2025, 1, 6));
    assert_eq!(tse.previous_trading_day(ymd(2025, 1, 6)), ymd(2024, 12, 30));
    assert_eq!(tse.next_trading_day(ymd(2025, 5, 2)), ymd(2025, 5, 7));
}

#[test]
fn trading_days_are_never_holidays_or_weekends() {
    let markets: Vec<Market> = vec![Market::NASDAQ, Market::TSE];
    for market in markets {
        let mut calendar = TradingCalendar::new(market).unwrap();
        let mut date = ymd(2026, 1, 1);
        while date < ymd(2027, 1, 1) {
            let trading = calendar.is_trading_day(date).unwrap();
            let holiday = calendar.is_holiday(date).unwrap();
            assert!(!(trading && holiday));
            if date.weekday().is_weekend() {
                assert!(!trading);
            }
            assert_eq!(trading, !holiday && !date.weekday().is_weekend());
            date = date.add_days(1);
        }
    }
}

#[test]
fn month_and_range_counts() {
    let mut nyse = TradingCalendar::new(Market::NYSE).unwrap();
    let days = nyse.trading_days_in_month(2025, 1).unwrap();
    assert_eq!(days.len(), 21);
    assert_eq!(days[0], ymd(2025, 1, 2));
    assert_eq!(days[20], ymd(2025, 1, 31));
    assert!(!days.contains(&ymd(2025, 1, 20)));
    assert_eq!(nyse.trading_days_in_month(2025, 12).unwrap().len(), 22);
    assert_eq!(nyse.trading_days_in_month(2030, 12).unwrap().len(), 21);
    assert_eq!(nyse.count_trading_days(ymd(2025, 1, 1), ymd(2025, 1, 31)).unwrap(), 21);
    assert_eq!(nyse.count_trading_days(ymd(2025, 1, 2), ymd(2025, 1, 2)).unwrap(), 1);
    assert_eq!(nyse.count_trading_days(ymd(2025, 1, 1), ymd(2025, 1, 1)).unwrap(), 0);
    assert_eq!(nyse.count_trading_days(ymd(2025, 1, 31), ymd(2025, 1, 1)).unwrap(), 0);
    assert_eq!(nyse.count_trading_days(ymd(2025, 1, 1), ymd(2025, 12, 31)).unwrap(), 251);
}

#[test]
fn month_and_range_errors() {
    let mut nyse = TradingCalendar::new(Market::NYSE).unwrap();
    assert_eq!(
        nyse.trading_days_in_month(2019, 5),
        Err(CalendarError::DateOutOfRange(ymd(2019, 5, 1)))
    );
    assert_eq!(
        nyse.trading_days_in_month(2031, 13),
        Err(CalendarError::DateOutOfRange(ymd(1970, 1, 1)))
    );
    assert!(matches!(
        nyse.trading_days_in_month(2025, 13),
        Err(CalendarError::InvalidDateCalculation(_))
    ));
    assert!(matches!(
        nyse.trading_days_in_month(2025, 0),
        Err(CalendarError::InvalidDateCalculation(_))
    ));
    assert_eq!(
        nyse.count_trading_days(ymd(2019, 12, 31), ymd(2020, 1, 31)),
        Err(CalendarError::DateOutOfRange(ymd(2019, 12, 31)))
    );
    assert_eq!(
        nyse.count_trading_days(ymd(2030, 12, 1), ymd(2031, 1, 1)),
        Err(CalendarError::DateOutOfRange(ymd(2030, 12, 1)))
    );
    assert_eq!(
        nyse.is_holiday(ymd(2031, 1, 1)),
        Err(CalendarError::DateOutOfRange(ymd(2031, 1, 1)))
    );
}

#[test]
fn open_and_close_seen_from_a_moment() {
    let mut nyse = TradingCalendar::new(Market::NYSE).unwrap();
    let thursday = ymd(2025, 1, 2);
    assert_eq!(nyse.is_open_now(thursday, hms(10, 0, 0)), Ok(true));
    assert_eq!(nyse.is_open_now(thursday, hms(3, 0, 0)), Ok(false));
    assert_eq!(nyse.is_open_now(ymd(2025, 1, 1), hms(10, 0, 0)), Ok(false));
    assert_eq!(nyse.is_open_now(ymd(2025, 1, 4), hms(10, 0, 0)), Ok(false));
    assert_eq!(nyse.next_open_local(thursday, hms(8, 0, 0)), Ok((thursday, hms(9, 30, 0))));
    assert_eq!(nyse.next_open_local(thursday, hms(9, 30, 0)), Ok((ymd(2025, 1, 3), hms(9, 30, 0))));
    assert_eq!(nyse.next_open_local(ymd(2025, 1, 4), hms(8, 0, 0)), Ok((ymd(2025, 1, 6), hms(9, 30, 0))));
    assert_eq!(nyse.next_close_local(thursday, hms(10, 0, 0)), Ok((thursday, hms(16, 0, 0))));
    assert_eq!(nyse.next_close_local(thursday, hms(16, 0, 0)), Ok((ymd(2025, 1, 3), hms(16, 0, 0))));
    assert_eq!(
        nyse.next_close_local(ymd(2025, 12, 24), hms(12, 0, 0)),
        Ok((ymd(2025, 12, 24), hms(13, 0, 0)))
    );
    assert_eq!(
        nyse.next_close_local(ymd(2025, 12, 24), hms(13, 0, 0)),
        Ok((ymd(2025, 12, 26), hms(16, 0, 0)))
    );
    assert_eq!(
        nyse.next_close_local(ymd(2025, 11, 27), hms(9, 0, 0)),
        Ok((ymd(2025, 11, 28), hms(13, 0, 0)))
    );
    assert_eq!(
        nyse.next_open_local(ymd(2031, 1, 1), hms(9, 0, 0)),
        Err(CalendarError::DateOutOfRange(ymd(2031, 1, 1)))
    );
    assert_eq!(
        nyse.is_open_now(ymd(2019, 6, 3), hms(10, 0, 0)),
        Err(CalendarError::DateOutOfRange(ymd(2019, 6, 3)))
    );
}

#[test]
fn market_names_codes_and_zones() {
    assert_eq!(Market::NYSE.name(), "New York Stock Exchange");
    assert_eq!(Market::NASDAQ.name(), "NASDAQ Stock Market");
    assert_eq!(Market::LSE.name(), "London Stock Exchange");
    assert_eq!(Market::TSE.name(), "Tokyo Stock Exchange");
    assert_eq!(Market::TSX.name(), "Toronto Stock Exchange");
    assert_eq!(Market::NYSE.code(), "NYSE");
    assert_eq!(Market::NASDAQ.code(), "NASDAQ");
    assert_eq!(Market::LSE.code(), "LSE");
    assert_eq!(Market::TSE.code(), "TSE");
    assert_eq!(Market::TSX.code(), "TSX");
    assert_eq!(Market::NASDAQ.timezone(), TimeZone::NewYork);
    assert_eq!(Market::TSX.timezone().name(), "America/Toronto");
    assert_eq!(TradingCalendar::default().market(), Market::NYSE);
}

#[test]
fn next_open_and_close_as_moments() {
    let mut nyse = TradingCalendar::new(Market::NYSE).unwrap();
    assert_eq!(
        nyse.next_open(ymd(2025, 1, 2), hms(8, 0, 0)),
        Ok(ZonedDateTime {
            date: ymd(2025, 1, 2),
            time: hms(9, 30, 0),
            zone: TimeZone::NewYork,
            utc_offset: -18000,
        })
    );
    assert_eq!(
        nyse.next_close(ymd(2025, 7, 3), hms(9, 0, 0)),
        Ok(ZonedDateTime {
            date: ymd(2025, 7, 3),
            time: hms(13, 0, 0),
            zone: TimeZone::NewYork,
            utc_offset: -14400,
        })
    );
    let mut lse = TradingCalendar::new(Market::LSE).unwrap();
    assert_eq!(
        lse.next_open(ymd(2025, 6, 28), hms(12, 0, 0)),
        Ok(ZonedDateTime {
            date: ymd(2025, 6, 30),
            time: hms(8, 0, 0),
            zone: TimeZone::London,
            utc_offset: 3600,
        })
    );
    let mut tse = TradingCalendar::new(Market::TSE).unwrap();
    assert_eq!(
        tse.next_close(ymd(2025, 1, 6), hms(15, 0, 0)),
        Ok(ZonedDateTime {
            date: ymd(2025, 1, 7),
            time: hms(15, 0, 0),
            zone: TimeZone::Tokyo,
            utc_offset: 32400,
        })
    );
    assert_eq!(
        nyse.next_open(ymd(2019, 1, 2), hms(8, 0, 0)),
        Err(CalendarError::DateOutOfRange(ymd(2019, 1, 2)))
    );
    assert_eq!(
        nyse.next_close(ymd(2031, 1, 2), hms(8, 0, 0)),
        Err(CalendarError::DateOutOfRange(ymd(2031, 1, 2)))
    );
}

#[test]
fn local_times_that_clocks_skip_or_repeat() {
    assert!(matches!(
        earliest_zoned(TimeZone::NewYork, ymd(2025, 3, 9), hms(2, 30, 0), "skipped"),
        Err(CalendarError::InvalidTime(_))
    ));
    assert_eq!(
        earliest_zoned(TimeZone::NewYork, ymd(2025, 11, 2), hms(1, 30, 0), "repeated"),
        Ok(ZonedDateTime {
            date: ymd(2025, 11, 2),
            time: hms(1, 30, 0),
            zone: TimeZone::NewYork,
            utc_offset: -14400,
        })
    );
    assert_eq!(
        earliest_zoned(TimeZone::Toronto, ymd(2025, 1, 15), hms(9, 30, 0), "plain").unwrap().utc_offset,
        -18000
    );
    assert_eq!(
        zoned_at_offset(TimeZone::Tokyo, ymd(2025, 1, 6), hms(9, 0, 0), None, "no such time"),
        Err(CalendarError::InvalidTime("no such time".to_string()))
    );
    assert_eq!(
        zoned_at_offset(TimeZone::Tokyo, ymd(2025, 1, 6), hms(9, 0, 0), Some(32400), "unused"),
        Ok(ZonedDateTime {
            date: ymd(2025, 1, 6),
            time: hms(9, 0, 0),
            zone: TimeZone::Tokyo,
            utc_offset: 32400,
        })
    );
}

#[test]
fn cache_serves_ten_years_in_turn() {
    let mut cache = HolidayCache::new();
    for i in 0i32..10 {
        let year: i32 = 2020 + i;
        let cached = cache.get_or_compute(year, || HolidaySet::from_vec(vec![ymd(year, 1, 1)]));
        assert!(cached.contains(&ymd(year, 1, 1)));
    }
    assert_eq!(cache.len(), 10);
    let again = cache.get_or_compute(2029, || panic!("2029 is cached"));
    assert_eq!(again, HolidaySet::from_vec(vec![ymd(2029, 1, 1)]));
    cache.clear();
    assert!(cache.is_empty());
    assert_eq!(cache.stats().capacity, 20);
}

#[test]
fn calendar_answers_for_several_years_in_turn() {
    let mut calendar = TradingCalendar::new(Market::NYSE).unwrap();
    for i in 0i32..10 {
        let year: i32 = 2025 + (i % 5);
        let date = ymd(year, 1, 1);
        assert_eq!(calendar.is_holiday(date), Ok(year != 2028));
        assert_eq!(calendar.is_trading_day(date), Ok(false));
    }
    for i in 0u32..5 {
        let date = ymd(2025, 1, 2 + i);
        let trading = calendar.is_trading_day(date).unwrap();
        assert_eq!(trading, i != 2 && i != 3);
        assert_eq!(calendar.trading_hours(date).date, date);
    }
}

#[test]
fn market_rules_behind_each_market() {
    let markets: Vec<(Market, Date)> = vec![
        (Market::NYSE, ymd(2025, 7, 4)),
        (Market::NASDAQ, ymd(2025, 7, 4)),
        (Market::LSE, ymd(2025, 8, 25)),
        (Market::TSE, ymd(2025, 12, 31)),
        (Market::TSX, ymd(2025, 7, 1)),
    ];
    for (market, holiday) in markets {
        let mut rules = market.create_implementation().unwrap();
        assert!(rules.is_holiday(holiday));
        assert!(!rules.is_trading_day(holiday));
        assert_eq!(rules.timezone(), market.timezone());
        let next = rules.next_trading_day(holiday);
        assert!(rules.is_trading_day(next));
        assert!(!rules.is_holiday(next));
        assert_eq!(rules.previous_trading_day(next).add_days(0) < next, true);
        assert_eq!(rules.trading_hours(next).date, next);
    }
}

#[test]
fn scans_stop_where_the_calendar_ends() {
    let markets: Vec<Market> = vec![Market::NYSE, Market::LSE, Market::TSE, Market::TSX];
    for market in markets {
        let mut calendar = TradingCalendar::new(market).unwrap();
        assert_eq!(calendar.checked_next_trading_day(ymd(262142, 12, 31)), None);
        assert_eq!(calendar.checked_previous_trading_day(ymd(-262143, 1, 1)), None);
        let next = calendar.checked_next_trading_day(ymd(2025, 1, 3));
        assert_eq!(next, Some(ymd(2025, 1, 6)));
        let previous = calendar.checked_previous_trading_day(ymd(2025, 1, 13));
        assert_eq!(previous, Some(ymd(2025, 1, 10)));
        let late = calendar.checked_next_trading_day(ymd(262142, 12, 1)).unwrap();
        assert!(late > ymd(262142, 12, 1));
        let mut rules = market.create_implementation().unwrap();
        assert_eq!(rules.checked_next_trading_day(ymd(2025, 1, 3)), Some(ymd(2025, 1, 6)));
        assert_eq!(rules.checked_previous_trading_day(ymd(-262143, 1, 1)), None);
    }
}
