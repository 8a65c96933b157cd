use trading_calendar::markets::uk::holidays::{adjust_for_weekend_uk, get_uk_holidays};
use trading_calendar::Date;


#[test]
fn test_uk_holidays_2025() {
    let holidays = get_uk_holidays(2025);

    // New Year's Day 2025 (Wednesday) - no adjustment needed
    assert!(holidays.contains(&Date::from_ymd_opt(2025, 1, 1).unwrap()));

    // Good Friday 2025 (April 18)
    assert!(holidays.contains(&Date::from_ymd_opt(2025, 4, 18).unwrap()));

    // Easter Monday 2025 (April 21)
    assert!(holidays.contains(&Date::from_ymd_opt(2025, 4, 21).unwrap()));

    // Early May Bank Holiday 2025 (May 5)
    assert!(holidays.contains(&Date::from_ymd_opt(2025, 5, 5).unwrap()));

    // Spring Bank Holiday 2025 (May 26)
    assert!(holidays.contains(&Date::from_ymd_opt(2025, 5, 26).unwrap()));

    // Summer Bank Holiday 2025 (August 25)
    assert!(holidays.contains(&Date::from_ymd_opt(2025, 8, 25).unwrap()));

    // Christmas Day 2025 (Thursday) - no adjustment needed
    assert!(holidays.contains(&Date::from_ymd_opt(2025, 12, 25).unwrap()));

    // Boxing Day 2025 (Friday) - no adjustment needed
    assert!(holidays.contains(&Date::from_ymd_opt(2025, 12, 26).unwrap()));
}

#[test]
fn test_weekend_adjustments() {
    // Test New Year's Day falling on Saturday (should move to Monday)
    let saturday_ny = Date::from_ymd_opt(2022, 1, 1).unwrap(); // Saturday
    let adjusted = adjust_for_weekend_uk(saturday_ny);
    assert_eq!(adjusted, Date::from_ymd_opt(2022, 1, 3).unwrap()); // Monday

    // Test Boxing Day falling on Sunday (should move to Monday for general rule)
    let sunday_boxing = Date::from_ymd_opt(2021, 12, 26).unwrap(); // Sunday
    let adjusted = adjust_for_weekend_uk(sunday_boxing);
    assert_eq!(adjusted, Date::from_ymd_opt(2021, 12, 27).unwrap()); // Monday
}

#[test]
fn test_boxing_day_logic() {
    // Test 2021: Christmas on Saturday, Boxing Day on Sunday
    let holidays_2021 = get_uk_holidays(2021);
    assert!(holidays_2021.contains(&Date::from_ymd_opt(2021, 12, 27).unwrap())); // Christmas observed Monday
    assert!(holidays_2021.contains(&Date::from_ymd_opt(2021, 12, 28).unwrap())); // Boxing Day observed Tuesday

    // Test 2022: Christmas on Sunday, Boxing Day on Monday
    let holidays_2022 = get_uk_holidays(2022);
    assert!(holidays_2022.contains(&Date::from_ymd_opt(2022, 12, 26).unwrap())); // Christmas observed Monday
    assert!(holidays_2022.contains(&Date::from_ymd_opt(2022, 12, 27).unwrap())); // Boxing Day observed Tuesday

    // Test 2025: Christmas on Thursday, Boxing Day on Friday (no adjustment needed)
    let holidays_2025 = get_uk_holidays(2025);
    assert!(holidays_2025.contains(&Date::from_ymd_opt(2025, 12, 25).unwrap())); // Christmas
    assert!(holidays_2025.contains(&Date::from_ymd_opt(2025, 12, 26).unwrap()));
    // Boxing Day
}
