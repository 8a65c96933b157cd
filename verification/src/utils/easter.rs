//! The date of Easter by the Anonymous Gregorian algorithm.

use crate::date::{lemma_ordinal_bounds, valid_ymd, Date};
use crate::error::CalendarError;
use vstd::prelude::*;

verus! {

/// The quotient of `a` by a positive `b`, rounded toward zero.
pub open spec fn quot(a: int, b: int) -> int {
    if a >= 0 {
        a / b
    } else {
        -((-a) / b)
    }
}

/// What is left of `a` after `quot(a, b)` times `b`; it has the sign of `a`.
pub open spec fn rem(a: int, b: int) -> int {
    if a >= 0 {
        a % b
    } else {
        -((-a) % b)
    }
}

/// The month and the day that the Anonymous Gregorian algorithm derives
/// for a year.
pub open spec fn easter_month_day(year: int) -> (int, int) {
    let a = rem(year, 19);
    let b = quot(year, 100);
    let c = rem(year, 100);
    let d = quot(b, 4);
    let e = rem(b, 4);
    let f = quot(b + 8, 25);
    let g = quot(b - f + 1, 3);
    let h = rem(19 * a + b - d - g + 15, 30);
    let i = quot(c, 4);
    let k = rem(c, 4);
    let l = rem(32 + 2 * e + 2 * i - h - k, 7);
    let m = quot(a + 11 * h + 22 * l, 451);
    (quot(h + l - 7 * m + 114, 31), rem(h + l - 7 * m + 114, 31) + 1)
}

/// Easter Sunday of a year, where the derived month and day name a date.
pub open spec fn easter_spec(year: int) -> Option<Date> {
    let (month, day) = easter_month_day(year);
    if valid_ymd(year, month, day) {
        Some(Date { year: year as i32, month: month as u32, day: day as u32 })
    } else {
        None
    }
}

/// Good Friday: two days before Easter Sunday.
pub open spec fn good_friday_spec(year: int) -> Option<Date> {
    match easter_spec(year) {
        Some(e) => Some(e.plus_days(-2)),
        None => None,
    }
}

/// Easter Monday: the day after Easter Sunday.
pub open spec fn easter_monday_spec(year: int) -> Option<Date> {
    match easter_spec(year) {
        Some(e) => Some(e.plus_days(1)),
        None => None,
    }
}

/// The algorithm never leaves the months February to May, and from year 0
/// on it names a date between March 22 and April 25 of every supported
/// year.
pub proof fn lemma_easter_range(year: int)
    ensures
        2 <= easter_month_day(year).0 <= 5,
        0 <= year <= crate::date::MAX_DATE_YEAR ==> {
            &&& easter_spec(year) is Some
            &&& 3 <= easter_month_day(year).0 <= 4
            &&& easter_month_day(year).0 == 3 ==> 22 <= easter_month_day(year).1 <= 31
            &&& easter_month_day(year).0 == 4 ==> 1 <= easter_month_day(year).1 <= 25
        },
{
}

/// Good Friday lies in the months January to May of its year and Easter
/// Monday in the months February to June.
pub proof fn lemma_easter_neighbours(year: int)
    ensures
        good_friday_spec(year) is Some ==> {
            let d = good_friday_spec(year)->Some_0;
            d.valid() && d.year == year && 1 <= d.month <= 5
        },
        easter_monday_spec(year) is Some ==> {
            let d = easter_monday_spec(year)->Some_0;
            d.valid() && d.year == year && 2 <= d.month <= 6
        },
{
    lemma_easter_range(year);
    if easter_spec(year) is Some {
        let e = easter_spec(year)->Some_0;
        crate::date::lemma_plus_days_backward(e, 2);
        crate::date::lemma_plus_days_forward(e, 1);
    }
}

/// The quotient of `a` by `b`, rounded toward zero.
fn quot_exec(a: i64, b: i64) -> (r: i64)
    requires
        b > 0,
        a > i64::MIN,
    ensures
        r == quot(a as int, b as int),
{
    if a >= 0 {
        a / b
    } else {
        -((-a) / b)
    }
}

/// The remainder of `a` by `b`, with the sign of `a`.
fn rem_exec(a: i64, b: i64) -> (r: i64)
    requires
        b > 0,
        a > i64::MIN,
    ensures
        r == rem(a as int, b as int),
{
    if a >= 0 {
        a % b
    } else {
        -((-a) % b)
    }
}

/// Easter Sunday of `year`. Fails with
/// [`CalendarError::InvalidDateCalculation`] exactly when the month and day
/// that the algorithm derives do not name a date of that year.
pub fn calculate_easter(year: i32) -> (r: Result<Date, CalendarError>)
    ensures
        easter_spec(year as int) is Some ==> r == Ok::<Date, CalendarError>(
            easter_spec(year as int)->Some_0,
        ),
        easter_spec(year as int) is None ==> r is Err && r->Err_0 is InvalidDateCalculation,
        r is Ok ==> r->Ok_0.valid() && r->Ok_0.year == year,
{
    let y: i64 = year.into();
    let a = rem_exec(y, 19);
    let b = quot_exec(y, 100);
    let c = rem_exec(y, 100);
    let d = quot_exec(b, 4);
    let e = rem_exec(b, 4);
    let f = quot_exec(b + 8, 25);
    let g = quot_exec(b - f + 1, 3);
    let h = rem_exec(19 * a + b - d - g + 15, 30);
    let i = quot_exec(c, 4);
    let k = rem_exec(c, 4);
    let l = rem_exec(32 + 2 * e + 2 * i - h - k, 7);
    let m = quot_exec(a + 11 * h + 22 * l, 451);
    let month = quot_exec(h + l - 7 * m + 114, 31);
    let day = rem_exec(h + l - 7 * m + 114, 31) + 1;
    if month < 1 || month > 12 || day < 1 || day > 31 {
        return Err(
            CalendarError::InvalidDateCalculation("Easter calculation failed".to_owned()),
        );
    }
    match Date::from_ymd_opt(year, month as u32, day as u32) {
        Some(date) => Ok(date),
        None => Err(
            CalendarError::InvalidDateCalculation("Easter calculation failed".to_owned()),
        ),
    }
}

/// Good Friday of `year`: two days before Easter Sunday.
pub fn calculate_good_friday(year: i32) -> (r: Result<Date, CalendarError>)
    ensures
        good_friday_spec(year as int) is Some ==> r == Ok::<Date, CalendarError>(
            good_friday_spec(year as int)->Some_0,
        ),
        good_friday_spec(year as int) is None ==> r is Err && r->Err_0 is InvalidDateCalculation,
        r is Ok ==> r->Ok_0.valid(),
{
    match calculate_easter(year) {
        Ok(easter) => {
            proof {
                lemma_easter_range(year as int);
                lemma_ordinal_bounds(easter);
                lemma_ordinal_bounds(Date { year, month: 1, day: 1 });
            }
            Ok(easter.add_days(-2))
        },
        Err(e) => Err(e),
    }
}

/// Easter Monday of `year`: the day after Easter Sunday.
pub fn calculate_easter_monday(year: i32) -> (r: Result<Date, CalendarError>)
    ensures
        easter_monday_spec(year as int) is Some ==> r == Ok::<Date, CalendarError>(
            easter_monday_spec(year as int)->Some_0,
        ),
        easter_monday_spec(year as int) is None ==> r is Err && r->Err_0 is InvalidDateCalculation,
        r is Ok ==> r->Ok_0.valid(),
{
    match calculate_easter(year) {
        Ok(easter) => {
            proof {
                lemma_easter_range(year as int);
                lemma_ordinal_bounds(easter);
                lemma_ordinal_bounds(Date { year, month: 12, day: 31 });
            }
            Ok(easter.add_days(1))
        },
        Err(e) => Err(e),
    }
}

} // verus!
