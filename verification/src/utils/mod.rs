//! Rules that place a day in a month by its weekday.

pub mod cache;
pub mod easter;

use crate::date::{days_in_month, lemma_months_monotone, lemma_plus_days_is, lemma_year_length,
    valid_ymd, Date, Weekday};
use vstd::prelude::*;

verus! {

/// The day of the month of the first `weekday` in a month whose first day
/// is `first`.
pub open spec fn first_occurrence_day(first: Date, weekday: Weekday) -> int {
    1 + (weekday.index() - first.weekday_spec().index() + 7) % 7
}

/// The `nth` occurrence of `weekday` in the given month: the day that falls
/// on `weekday` among the days `7 * nth - 6` to `7 * nth` of the month, if
/// the month exists and has that day.
pub open spec fn nth_weekday_spec(year: int, month: int, weekday: Weekday, nth: int) -> Option<
    Date,
> {
    let first = Date { year: year as i32, month: month as u32, day: 1 };
    let day = first_occurrence_day(first, weekday) + 7 * (nth - 1);
    if valid_ymd(year, month, 1) && day <= days_in_month(year, month) {
        Some(Date { year: year as i32, month: month as u32, day: day as u32 })
    } else {
        None
    }
}

/// The last occurrence of `weekday` in the given month: the day that falls
/// on `weekday` among the last seven days of the month. There is none where
/// the month does not exist, or where the first day of the month after it
/// lies beyond the supported years.
pub open spec fn last_weekday_spec(year: int, month: int, weekday: Weekday) -> Option<Date> {
    let last = Date {
        year: year as i32,
        month: month as u32,
        day: days_in_month(year, month) as u32,
    };
    let back = (last.weekday_spec().index() - weekday.index() + 7) % 7;
    if valid_ymd(year, month, 1) && (month < 12 || valid_ymd(year + 1, 1, 1)) {
        Some(Date { year: year as i32, month: month as u32, day: (last.day - back) as u32 })
    } else {
        None
    }
}

/// What `nth_weekday_spec` names is a day of that month on that weekday.
pub proof fn lemma_nth_weekday(year: int, month: int, weekday: Weekday, nth: int)
    requires
        nth >= 1,
        nth_weekday_spec(year, month, weekday, nth) is Some,
    ensures
        ({
            let d = nth_weekday_spec(year, month, weekday, nth)->Some_0;
            &&& d.valid()
            &&& d.year == year
            &&& d.month == month
            &&& 7 * nth - 6 <= d.day <= 7 * nth
            &&& d.weekday_spec() == weekday
        }),
{
    let first = Date { year: year as i32, month: month as u32, day: 1 };
    let d = nth_weekday_spec(year, month, weekday, nth)->Some_0;
    let off = (weekday.index() - first.weekday_spec().index() + 7) % 7;
    assert(d.day_number() == first.day_number() + off + 7 * (nth - 1));
    assert(d.weekday_spec().index() == weekday.index());
}

/// What `last_weekday_spec` names is one of the last seven days of that
/// month, on that weekday.
pub proof fn lemma_last_weekday(year: int, month: int, weekday: Weekday)
    requires
        last_weekday_spec(year, month, weekday) is Some,
    ensures
        ({
            let d = last_weekday_spec(year, month, weekday)->Some_0;
            &&& d.valid()
            &&& d.year == year
            &&& d.month == month
            &&& days_in_month(year, month) - 6 <= d.day <= days_in_month(year, month)
            &&& d.weekday_spec() == weekday
        }),
{
    let last = Date {
        year: year as i32,
        month: month as u32,
        day: days_in_month(year, month) as u32,
    };
    let d = last_weekday_spec(year, month, weekday)->Some_0;
    let back = (last.weekday_spec().index() - weekday.index() + 7) % 7;
    assert(d.day_number() == last.day_number() - back);
    assert(d.weekday_spec().index() == weekday.index());
}

/// The `nth` occurrence of `weekday` in a month, counted from 1, or `None`
/// if the month has no such day or does not exist.
pub fn nth_weekday_of_month(year: i32, month: u32, weekday: Weekday, nth: u8) -> (r: Option<Date>)
    requires
        nth >= 1,
    ensures
        r == nth_weekday_spec(year as int, month as int, weekday, nth as int),
        r is Some ==> r->Some_0.valid() && r->Some_0.weekday_spec() == weekday,
{
    let first_day = match Date::from_ymd_opt(year, month, 1) {
        Some(d) => d,
        None => {
            return None;
        },
    };
    let first_weekday = first_day.weekday();
    let days_to_add: u32 = (weekday.num_days_from_monday() + 7
        - first_weekday.num_days_from_monday()) % 7;
    let nth_wide: u32 = nth.into();
    let day: u32 = 1 + days_to_add + 7 * (nth_wide - 1);
    let r = Date::from_ymd_opt(year, month, day);
    proof {
        if nth_weekday_spec(year as int, month as int, weekday, nth as int) is Some {
            lemma_nth_weekday(year as int, month as int, weekday, nth as int);
        }
    }
    r
}

/// The day before the first of a month is the last day of the month
/// before it.
pub proof fn lemma_end_of_month(year: int, month: int)
    requires
        valid_ymd(year, month, 1),
        month < 12 || valid_ymd(year + 1, 1, 1),
    ensures
        ({
            let last = Date {
                year: year as i32,
                month: month as u32,
                day: days_in_month(year, month) as u32,
            };
            let next = if month == 12 {
                Date { year: (year + 1) as i32, month: 1, day: 1 }
            } else {
                Date { year: year as i32, month: (month + 1) as u32, day: 1 }
            };
            &&& last.valid()
            &&& next.valid()
            &&& next.plus_days(-1) == last
            &&& crate::date::min_day_number() <= next.day_number() - 1
                <= crate::date::max_day_number()
        }),
{
    let last = Date {
        year: year as i32,
        month: month as u32,
        day: days_in_month(year, month) as u32,
    };
    let next = if month == 12 {
        Date { year: (year + 1) as i32, month: 1, day: 1 }
    } else {
        Date { year: year as i32, month: (month + 1) as u32, day: 1 }
    };
    lemma_months_monotone(year, month, month);
    lemma_year_length(year);
    assert(last.day_number() + 1 == next.day_number());
    lemma_plus_days_is(next, -1, last);
    crate::date::lemma_ordinal_bounds(last);
}

/// The last occurrence of `weekday` in a month, found by going back from
/// the first day of the month after it.
pub fn last_weekday_of_month(year: i32, month: u32, weekday: Weekday) -> (r: Option<Date>)
    ensures
        r == last_weekday_spec(year as int, month as int, weekday),
        r is Some ==> r->Some_0.valid() && r->Some_0.weekday_spec() == weekday,
{
    if Date::from_ymd_opt(year, month, 1).is_none() {
        return None;
    }
    let next_month: u32 = if month == 12 {
        1
    } else {
        month + 1
    };
    let next_year: i32 = if month == 12 {
        year + 1
    } else {
        year
    };
    let first_of_next = match Date::from_ymd_opt(next_year, next_month, 1) {
        Some(d) => d,
        None => {
            return None;
        },
    };
    proof {
        lemma_end_of_month(year as int, month as int);
        lemma_last_weekday(year as int, month as int, weekday);
    }
    let last_day = first_of_next.add_days(-1);
    let back: u32 = (last_day.weekday().num_days_from_monday() + 7
        - weekday.num_days_from_monday()) % 7;
    Date::from_ymd_opt(year, month, last_day.day() - back)
}

} // verus!
