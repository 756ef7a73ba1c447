//! Sunrise and sunset of a day.
//!
//! Where the sun stands is a floating-point formula and stays outside; this
//! module keeps what its results make of a day.
use vstd::prelude::*;

use crate::reading::{Reading, ZERO};
use crate::time::{is_instant, SECOND};

verus! {

/// 1.0
pub const ONE: Reading = 0x3FF0_0000_0000_0000;

/// -1.0
pub const MINUS_ONE: Reading = -0x3FF0_0000_0000_0000;

/// When the sun never crosses the horizon on a date, which half of the polar
/// year it is.
#[derive(Debug, Clone, Copy, PartialEq, Eq, Structural)]
pub enum PolarDay {
    /// Midnight sun — the sun stays above the horizon all day.
    MidnightSun,
    /// Polar night — the sun stays below the horizon all day.
    PolarNight,
}

/// Sunrise and sunset for one date and location.
#[derive(Debug, Clone, Copy, PartialEq, Eq, Structural)]
pub struct SunTimes {
    pub sunrise: Option<i128>,
    pub sunset: Option<i128>,
    /// Set only when neither `sunrise` nor `sunset` occurs.
    pub polar: Option<PolarDay>,
}

/// The sun crosses the horizon where the cosine of its hour angle there is one.
pub open spec fn crosses_horizon(cos_hour_angle: Reading) -> bool {
    MINUS_ONE <= cos_hour_angle <= ONE
}

/// When the sun rises or sets: `seconds` into the day that starts at
/// `midnight`, or never where it does not cross the horizon.
pub fn event(midnight: i128, cos_hour_angle: Option<Reading>, seconds: i64) -> (at: Option<i128>)
    requires
        is_instant(midnight as int),
    ensures
        at == (match cos_hour_angle {
            Some(c) => if crosses_horizon(c) {
                Some((midnight + seconds * SECOND) as i128)
            } else {
                None
            },
            None => None,
        }),
        at matches Some(t) ==> t == midnight + seconds * SECOND,
{
    match cos_hour_angle {
        Some(c) => if MINUS_ONE <= c && c <= ONE {
            Some(midnight + seconds as i128 * SECOND)
        } else {
            None
        },
        None => None,
    }
}

/// Put a day together. `noon_elevation` is how high the sun stands at solar
/// noon, its daily maximum.
pub fn sun_times(sunrise: Option<i128>, sunset: Option<i128>, noon_elevation: Reading) -> (times:
    SunTimes)
    ensures
        times.sunrise == sunrise,
        times.sunset == sunset,
        times.polar == (if sunrise is None && sunset is None {
            Some(
                if noon_elevation > ZERO {
                    PolarDay::MidnightSun
                } else {
                    PolarDay::PolarNight
                },
            )
        } else {
            None
        }),
{
    let polar = if sunrise.is_none() && sunset.is_none() {
        if noon_elevation > ZERO {
            Some(PolarDay::MidnightSun)
        } else {
            Some(PolarDay::PolarNight)
        }
    } else {
        None
    };
    SunTimes { sunrise, sunset, polar }
}

/// The sun crosses the horizon exactly where the cosine of its hour angle is one
/// that an angle can have.
pub proof fn the_sun_crosses_at_real_angles(cos_hour_angle: Reading)
    ensures
        crosses_horizon(cos_hour_angle) <==> -0x3FF0_0000_0000_0000 <= cos_hour_angle
            <= 0x3FF0_0000_0000_0000,
{
}

} // verus!
