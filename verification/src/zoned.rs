//! Local date and time of a market as a moment in time: the offset from
//! UTC that the market's time zone has at that local time.

use crate::date::Date;
use crate::error::CalendarError;
use crate::markets::TimeZone;
use crate::schedule::Time;
use vstd::prelude::*;

verus! {

/// A date and time of day in a time zone, with the offset from UTC that
/// holds there at that time, in seconds east of UTC.
#[derive(Clone, Copy, Debug, PartialEq, Eq, Structural)]
pub struct ZonedDateTime {
    /// The date that the zone's clocks show.
    pub date: Date,
    /// The time of day that the zone's clocks show.
    pub time: Time,
    /// The zone.
    pub zone: TimeZone,
    /// Seconds by which the zone's clocks are ahead of UTC at that time.
    pub utc_offset: i32,
}

/// The offset from UTC, in seconds, of the earliest moment at which the
/// clocks of a zone show the date of year `y`, month `m` and day `d` and
/// the time `secs` seconds after midnight; `None` where they never show
/// it. The zones are numbered by [`TimeZone::number`].
pub uninterp spec fn earliest_offset(zone: int, y: int, m: int, d: int, secs: int) -> Option<int>;

/// The moment that `date` and `time` are in `zone`, where the offset is
/// known; the invalid-time error otherwise.
pub open spec fn zoned_spec(zone: TimeZone, date: Date, time: Time, offset: Option<int>) -> Option<
    ZonedDateTime,
> {
    match offset {
        Some(o) => Some(ZonedDateTime { date, time, zone, utc_offset: o as i32 }),
        None => None,
    }
}

/// The earliest moment at which the clocks of `zone` show `date` and
/// `time`, if there is one.
pub open spec fn earliest_zoned_spec(zone: TimeZone, date: Date, time: Time) -> Option<
    ZonedDateTime,
> {
    zoned_spec(
        zone,
        date,
        time,
        earliest_offset(
            zone.number(),
            date.year as int,
            date.month as int,
            date.day as int,
            time.secs as int,
        ),
    )
}

/// `TimeZone::from_local_datetime` of chrono on a `Tz` of chrono-tz,
/// followed by `earliest`: the offset of the one moment, or of the earlier
/// of two, at which the zone's clocks show the local time.
#[verifier::external_body]
fn earliest_local_offset(zone: TimeZone, date: Date, time: Time) -> (r: Option<i32>)
    requires
        date.valid(),
        time.secs < 86400,
    ensures
        r is Some == earliest_offset(
            zone.number(),
            date.year as int,
            date.month as int,
            date.day as int,
            time.secs as int,
        ) is Some,
        r is Some ==> r->Some_0 == earliest_offset(
            zone.number(),
            date.year as int,
            date.month as int,
            date.day as int,
            time.secs as int,
        )->Some_0,
{
    let tz = match zone {
        TimeZone::NewYork => chrono_tz::America::New_York,
        TimeZone::London => chrono_tz::Europe::London,
        TimeZone::Tokyo => chrono_tz::Asia::Tokyo,
        TimeZone::Toronto => chrono_tz::America::Toronto,
    };
    let local = chrono::NaiveDate::from_ymd_opt(date.year, date.month, date.day).unwrap().and_time(
        chrono::NaiveTime::from_num_seconds_from_midnight_opt(time.secs, 0).unwrap(),
    );
    chrono::TimeZone::from_local_datetime(&tz, &local).earliest().map(
        |dt| chrono::Offset::fix(dt.offset()).local_minus_utc(),
    )
}

/// The moment that `date` and `time` are in `zone` at the given offset.
/// Without an offset the local time does not exist in the zone: that is
/// the error [`CalendarError::InvalidTime`], with `message`.
pub fn zoned_at_offset(
    zone: TimeZone,
    date: Date,
    time: Time,
    offset: Option<i32>,
    message: &str,
) -> (r: Result<ZonedDateTime, CalendarError>)
    ensures
        offset is Some ==> r == Ok::<ZonedDateTime, CalendarError>(
            ZonedDateTime { date, time, zone, utc_offset: offset->Some_0 },
        ),
        offset is None ==> r is Err && r->Err_0 is InvalidTime && r->Err_0->InvalidTime_0@
            == message@,
{
    match offset {
        Some(utc_offset) => Ok(ZonedDateTime { date, time, zone, utc_offset }),
        None => Err(CalendarError::InvalidTime(message.to_owned())),
    }
}

/// The earliest moment at which the clocks of `zone` show `date` and
/// `time`. Fails with [`CalendarError::InvalidTime`] exactly where they
/// never show it, as in the hour that is skipped when clocks go forward.
pub fn earliest_zoned(zone: TimeZone, date: Date, time: Time, message: &str) -> (r: Result<
    ZonedDateTime,
    CalendarError,
>)
    requires
        date.valid(),
        time.secs < 86400,
    ensures
        earliest_zoned_spec(zone, date, time) is Some ==> r == Ok::<ZonedDateTime, CalendarError>(
            earliest_zoned_spec(zone, date, time)->Some_0,
        ),
        earliest_zoned_spec(zone, date, time) is None ==> r is Err && r->Err_0 is InvalidTime,
{
    let offset = earliest_local_offset(zone, date, time);
    zoned_at_offset(zone, date, time, offset, message)
}

} // verus!
