//! The opening and closing times of the markets, in seconds since
//! midnight of the market's local time.

use vstd::prelude::*;

verus! {

/// 09:30, the open of the regular US session.
pub const US_REGULAR_OPEN: u32 = 34200;

/// 16:00, the close of the regular US session.
pub const US_REGULAR_CLOSE: u32 = 57600;

/// 04:00, the open of the US pre-market session.
pub const US_PREMARKET_OPEN: u32 = 14400;

/// 20:00, the close of the US after-hours session.
pub const US_AFTERHOURS_CLOSE: u32 = 72000;

/// 13:00, the close of a shortened US session.
pub const US_EARLY_CLOSE: u32 = 46800;

/// 08:00, the open of the London session.
pub const UK_REGULAR_OPEN: u32 = 28800;

/// 16:30, the close of the London session.
pub const UK_REGULAR_CLOSE: u32 = 59400;

/// 12:30, the close of a shortened London session.
pub const UK_EARLY_CLOSE: u32 = 45000;

/// 09:00, the open of the Tokyo session.
pub const JP_REGULAR_OPEN: u32 = 32400;

/// 15:00, the close of the Tokyo session.
pub const JP_REGULAR_CLOSE: u32 = 54000;

/// 09:30, the open of the Toronto session.
pub const CA_REGULAR_OPEN: u32 = 34200;

/// 16:00, the close of the Toronto session.
pub const CA_REGULAR_CLOSE: u32 = 57600;

/// 13:00, the close of a shortened Toronto session.
pub const CA_EARLY_CLOSE: u32 = 46800;

} // verus!
