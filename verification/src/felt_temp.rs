//! Apparent temperature for cyclists: which formula applies when.
//!
//! The formulas themselves (wind chill on the cold side, heat index on the warm
//! side) are floating point; what they give for the conditions at hand comes in
//! as an argument. A quantity that is not a finite number has no reading.
use vstd::prelude::*;

use crate::reading::{larger, Reading};

verus! {

/// 10.0 °C: above it wind chill no longer applies.
pub const WIND_CHILL_MAX_T_C: Reading = 0x4024_0000_0000_0000;

/// 27.0 °C: from here on the heat index applies.
pub const HEAT_INDEX_MIN_T_C: Reading = 0x403B_0000_0000_0000;

/// 4.8 km/h: below it the wind chill formula is unreliable.
pub const WIND_CHILL_MIN_KMH: Reading = 0x4013_3333_3333_3333;

/// 0.5 °C: less than this from the sun is noise.
pub const SOLAR_NEGLIGIBLE_C: Reading = 0x3FE0_0000_0000_0000;

/// `formula` in the band for which wind chill is calibrated, else the air
/// temperature.
pub open spec fn chilled(
    t_c: Option<Reading>,
    wind_kmh: Option<Reading>,
    formula: Reading,
) -> Option<Reading> {
    match (t_c, wind_kmh) {
        (Some(t), Some(v)) => if t > WIND_CHILL_MAX_T_C || v < WIND_CHILL_MIN_KMH {
            t_c
        } else {
            Some(formula)
        },
        _ => t_c,
    }
}

/// Wind chill. `formula` is what the regression gives for `t_c` and `wind_kmh`.
pub fn wind_chill_c(t_c: Option<Reading>, wind_kmh: Option<Reading>, formula: Reading) -> (felt:
    Option<Reading>)
    ensures
        felt == chilled(t_c, wind_kmh, formula),
{
    match (t_c, wind_kmh) {
        (Some(t), Some(v)) => if t > WIND_CHILL_MAX_T_C || v < WIND_CHILL_MIN_KMH {
            t_c
        } else {
            Some(formula)
        },
        _ => t_c,
    }
}

/// The larger of `formula` and the air temperature in the band for which the
/// heat index is calibrated, else the air temperature.
pub open spec fn heated(
    t_c: Option<Reading>,
    humidity_pct: Option<Reading>,
    formula: Reading,
) -> Option<Reading> {
    match (t_c, humidity_pct) {
        (Some(t), Some(_)) => if t < HEAT_INDEX_MIN_T_C {
            t_c
        } else {
            Some(larger(formula, t))
        },
        _ => t_c,
    }
}

/// Heat index. `formula` is what the regression gives for `t_c` and
/// `humidity_pct`; it never makes warm air feel cooler.
pub fn heat_index_c(t_c: Option<Reading>, humidity_pct: Option<Reading>, formula: Reading) -> (felt:
    Option<Reading>)
    ensures
        felt == heated(t_c, humidity_pct, formula),
{
    match (t_c, humidity_pct) {
        (Some(t), Some(_)) => if t < HEAT_INDEX_MIN_T_C {
            t_c
        } else if formula < t {
            Some(t)
        } else {
            Some(formula)
        },
        _ => t_c,
    }
}

/// Wind chill on the cold side, heat index on the warm side, the air
/// temperature in between.
pub open spec fn felt(
    t_c: Option<Reading>,
    effective_wind_kmh: Option<Reading>,
    humidity_pct: Option<Reading>,
    chill_formula: Reading,
    heat_formula: Reading,
) -> Option<Reading> {
    match t_c {
        Some(t) => if t <= WIND_CHILL_MAX_T_C {
            chilled(t_c, effective_wind_kmh, chill_formula)
        } else if t >= HEAT_INDEX_MIN_T_C {
            heated(t_c, humidity_pct, heat_formula)
        } else {
            t_c
        },
        None => None,
    }
}

/// Felt temperature: wind chill on the cold side, heat index on the warm side
/// where the humidity is known, the air temperature in between. The wind is the
/// airflow that a moving rider feels.
pub fn apparent_temp(
    t_c: Option<Reading>,
    effective_wind_kmh: Option<Reading>,
    humidity_pct: Option<Reading>,
    chill_formula: Reading,
    heat_formula: Reading,
) -> (temp: Option<Reading>)
    ensures
        temp == felt(t_c, effective_wind_kmh, humidity_pct, chill_formula, heat_formula),
{
    match t_c {
        Some(t) => if t <= WIND_CHILL_MAX_T_C {
            wind_chill_c(t_c, effective_wind_kmh, chill_formula)
        } else if t >= HEAT_INDEX_MIN_T_C {
            heat_index_c(t_c, humidity_pct, heat_formula)
        } else {
            t_c
        },
        None => None,
    }
}

/// What is known of the sunshine.
#[derive(Debug, Clone, Copy, PartialEq, Eq, Structural)]
pub enum Sunshine {
    /// Cloud cover and UV index.
    Measured { cloud_pct: Reading, uv_clear_sky: Reading },
    /// Cloud cover only: half the effect, since the rest is a guess.
    CloudOnly { cloud_pct: Reading },
    /// Without cloud cover, sunny cannot be told from grey.
    Unknown,
}

/// What is known of the sunshine.
pub open spec fn sunshine_from(
    cloud_pct: Option<Reading>,
    uv_clear_sky: Option<Reading>,
) -> Sunshine {
    match (cloud_pct, uv_clear_sky) {
        (Some(cloud_pct), Some(uv_clear_sky)) => Sunshine::Measured { cloud_pct, uv_clear_sky },
        (Some(cloud_pct), None) => Sunshine::CloudOnly { cloud_pct },
        (None, _) => Sunshine::Unknown,
    }
}

/// What is known of the sunshine, from cloud cover and UV index.
pub fn sunshine(cloud_pct: Option<Reading>, uv_clear_sky: Option<Reading>) -> (known: Sunshine)
    ensures
        known == sunshine_from(cloud_pct, uv_clear_sky),
{
    match (cloud_pct, uv_clear_sky) {
        (Some(cloud_pct), Some(uv_clear_sky)) => Sunshine::Measured { cloud_pct, uv_clear_sky },
        (Some(cloud_pct), None) => Sunshine::CloudOnly { cloud_pct },
        (None, _) => Sunshine::Unknown,
    }
}

/// Warm air never feels cooler than it is, and mild air feels as it is.
pub proof fn warm_air_never_feels_cooler(
    t: Reading,
    wind_kmh: Option<Reading>,
    humidity_pct: Option<Reading>,
    chill_formula: Reading,
    heat_formula: Reading,
)
    requires
        t > WIND_CHILL_MAX_T_C,
    ensures
        felt(Some(t), wind_kmh, humidity_pct, chill_formula, heat_formula) is Some,
        felt(Some(t), wind_kmh, humidity_pct, chill_formula, heat_formula)->0 >= t,
        t < HEAT_INDEX_MIN_T_C ==> felt(
            Some(t),
            wind_kmh,
            humidity_pct,
            chill_formula,
            heat_formula,
        ) == Some(t),
{
}

/// Cold air in the wind feels as the wind chill formula says, and hot air of
/// known humidity as the heat formula says, where that is more; in calm, in dry
/// or in mild air the thermometer is right.
pub proof fn cold_wind_and_damp_heat_are_felt(
    t: Reading,
    wind_kmh: Option<Reading>,
    humidity_pct: Option<Reading>,
    chill_formula: Reading,
    heat_formula: Reading,
)
    ensures
        ({
            let feels = felt(Some(t), wind_kmh, humidity_pct, chill_formula, heat_formula);
            &&& t <= WIND_CHILL_MAX_T_C && wind_kmh is Some && wind_kmh->0 >= WIND_CHILL_MIN_KMH
                ==> feels == Some(chill_formula)
            &&& t <= WIND_CHILL_MAX_T_C && (wind_kmh is None || wind_kmh->0 < WIND_CHILL_MIN_KMH)
                ==> feels == Some(t)
            &&& WIND_CHILL_MAX_T_C < t < HEAT_INDEX_MIN_T_C ==> feels == Some(t)
            &&& t > WIND_CHILL_MAX_T_C && t >= HEAT_INDEX_MIN_T_C && humidity_pct is None ==> feels
                == Some(t)
            &&& t > WIND_CHILL_MAX_T_C && t >= HEAT_INDEX_MIN_T_C && humidity_pct is Some ==> {
                &&& feels is Some
                &&& feels->0 >= t && feels->0 >= heat_formula
                &&& feels->0 == t || feels->0 == heat_formula
            }
        }),
        felt(None, wind_kmh, humidity_pct, chill_formula, heat_formula) is None,
{
}

} // verus!
