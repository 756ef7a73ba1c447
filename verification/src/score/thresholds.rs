//! Thresholds and weights of the score, in one place so they are easy to
//! retune. A threshold on a measured quantity is the reading of the number
//! that its comment gives.
use vstd::prelude::*;

use crate::reading::Reading;

verus! {

/// 12.0 °C: below it a temperature penalty speaks of cold, from it up of heat.
pub const TEMP_OPTIMAL_LOW: Reading = 0x4028_0000_0000_0000;

/// 22.0 °C
pub const TEMP_OPTIMAL_HIGH: Reading = 0x4036_0000_0000_0000;

/// -5.0 °C
pub const TEMP_ZERO_LOW: Reading = -0x4014_0000_0000_0000;

/// 35.0 °C
pub const TEMP_ZERO_HIGH: Reading = 0x4041_8000_0000_0000;

/// 2.0 °C: from here on it is worth saying how a temperature feels.
pub const FELT_GAP_C: Reading = 0x4000_0000_0000_0000;

/// 3.0 m/s
pub const WIND_PERFECT_MAX: Reading = 0x4008_0000_0000_0000;

/// 7.0 m/s
pub const WIND_OK_MAX: Reading = 0x401C_0000_0000_0000;

/// 12.0 m/s
pub const WIND_POOR_MAX: Reading = 0x4028_0000_0000_0000;

/// Wind sub-score at `WIND_OK_MAX`.
pub const WIND_OK_AT_OK_MAX: u8 = 60;

/// Wind sub-score at `WIND_POOR_MAX`.
pub const WIND_POOR_AT_POOR_MAX: u8 = 20;

/// Points docked from the wind sub-score when gusts exceed 1.5 × mean wind.
pub const GUST_PENALTY: u8 = 20;

/// 0.5 mm/h
pub const PRECIP_DRIZZLE: Reading = 0x3FE0_0000_0000_0000;

/// Precipitation sub-score at `PRECIP_DRIZZLE`.
pub const PRECIP_DRIZZLE_AT: u8 = 60;

/// Precipitation sub-score at `PRECIP_HEAVY`.
pub const PRECIP_HEAVY_AT: u8 = 20;

/// 5.0 mm/h: from here on the precipitation sub-score is zero.
pub const PRECIP_ZERO: Reading = 0x4014_0000_0000_0000;

/// 2.0 mm/h
pub const PRECIP_HEAVY: Reading = 0x4000_0000_0000_0000;

/// 5.0 mm
pub const GROUND_SATURATED: Reading = 0x4014_0000_0000_0000;

/// 0.4 mm: surface water level where the ground sub-score peaks.
pub const GROUND_OPTIMAL_MM: Reading = 0x3FD9_9999_9999_999A;

/// Sub-score of a surface without any water.
pub const GROUND_DRY_FLOOR_SCORE: u8 = 95;

/// Hours since meaningful rain at which the drought penalty starts.
pub const DROUGHT_TRIGGER_HOURS: u64 = 72;

/// Hours at which the drought penalty saturates.
pub const DROUGHT_FULL_HOURS: u64 = 168;

/// The most points that the drought penalty takes from the ground sub-score.
pub const DROUGHT_MAX_PENALTY: u8 = 10;

/// 5.0 mm/h
pub const HARD_CAP_PRECIP_MM_PER_HOUR: Reading = 0x4014_0000_0000_0000;

/// 15.0 m/s
pub const HARD_CAP_WIND_MS: Reading = 0x402E_0000_0000_0000;

/// What a hard-capped total is at most.
pub const HARD_CAP_TOTAL: u8 = 25;

/// Sub-score of an unknown probability of precipitation.
pub const UNKNOWN_SCORE: u8 = 50;

pub const W_TEMP: u8 = 18;

pub const W_WIND: u8 = 17;

pub const W_PRECIP: u8 = 25;

pub const W_PROB: u8 = 10;

pub const W_GROUND: u8 = 30;

/// The weights add up to 100.
pub fn weights_sum() -> (sum: u8)
    ensures
        sum == W_TEMP + W_WIND + W_PRECIP + W_PROB + W_GROUND,
        sum == 100,
{
    W_TEMP + W_WIND + W_PRECIP + W_PROB + W_GROUND
}

} // verus!
