//! The curves that turn a measured quantity into a sub-score.
//!
//! A curve is made of flat stretches and slopes. How far along a slope a
//! quantity lies is a floating-point division and comes in as `between`, the
//! rounded score at that place; everything else is decided here.
use vstd::prelude::*;

use crate::reading::{Reading, ZERO};
use crate::score::thresholds::{
    GROUND_DRY_FLOOR_SCORE, GROUND_OPTIMAL_MM, GROUND_SATURATED, PRECIP_DRIZZLE, PRECIP_DRIZZLE_AT,
    PRECIP_HEAVY, PRECIP_HEAVY_AT, PRECIP_ZERO, TEMP_OPTIMAL_HIGH, TEMP_OPTIMAL_LOW, TEMP_ZERO_HIGH,
    TEMP_ZERO_LOW, UNKNOWN_SCORE, WIND_OK_AT_OK_MAX, WIND_OK_MAX, WIND_PERFECT_MAX,
    WIND_POOR_AT_POOR_MAX, WIND_POOR_MAX,
};

verus! {

/// A straight stretch of a curve, from one corner to the next.
#[derive(Debug, Clone, Copy, PartialEq, Eq, Structural)]
pub struct Slope {
    pub x_lo: Reading,
    pub x_hi: Reading,
    pub y_lo: u8,
    pub y_hi: u8,
}

/// A stretch of a curve.
#[derive(Debug, Clone, Copy, PartialEq, Eq, Structural)]
pub enum Stretch {
    Flat(u8),
    Sloped(Slope),
}

/// A score is at most 100.
pub open spec fn at_most_100(score: int) -> int {
    if score > 100 {
        100
    } else {
        score
    }
}

impl Slope {
    /// `between` inside the slope, its ends outside.
    pub open spec fn spec_at(self, x: Reading, between: u8) -> u8 {
        if x <= self.x_lo {
            self.y_lo
        } else if x >= self.x_hi {
            self.y_hi
        } else {
            at_most_100(between as int) as u8
        }
    }
}

/// Linear interpolation that saturates outside the slope. `between` is the
/// score at `x` on the line through both ends.
pub fn lerp_clamped(x: Reading, slope: Slope, between: u8) -> (score: u8)
    ensures
        score == slope.spec_at(x, between),
{
    if x <= slope.x_lo {
        return slope.y_lo;
    }
    if x >= slope.x_hi {
        return slope.y_hi;
    }
    if between > 100 {
        100
    } else {
        between
    }
}

/// The score on a stretch.
pub open spec fn on_stretch(stretch: Stretch, x: Reading, between: u8) -> u8 {
    match stretch {
        Stretch::Flat(score) => score,
        Stretch::Sloped(slope) => slope.spec_at(x, between),
    }
}

fn score_on(stretch: Stretch, x: Reading, between: u8) -> (score: u8)
    ensures
        score == on_stretch(stretch, x, between),
{
    match stretch {
        Stretch::Flat(score) => score,
        Stretch::Sloped(slope) => lerp_clamped(x, slope, between),
    }
}

// ---- Temperature ----

/// 100 inside the optimal band, falling off to 0 at the cold and hot extremes.
pub open spec fn temp_stretch_of(t: Reading) -> Stretch {
    if TEMP_OPTIMAL_LOW <= t <= TEMP_OPTIMAL_HIGH {
        Stretch::Flat(100)
    } else if t < TEMP_OPTIMAL_LOW {
        Stretch::Sloped(Slope { x_lo: TEMP_ZERO_LOW, x_hi: TEMP_OPTIMAL_LOW, y_lo: 0, y_hi: 100 })
    } else {
        Stretch::Sloped(Slope { x_lo: TEMP_OPTIMAL_HIGH, x_hi: TEMP_ZERO_HIGH, y_lo: 100, y_hi: 0 })
    }
}

/// The stretch of the temperature curve on which `t` lies.
pub fn temp_stretch(t: Reading) -> (stretch: Stretch)
    ensures
        stretch == temp_stretch_of(t),
{
    if TEMP_OPTIMAL_LOW <= t && t <= TEMP_OPTIMAL_HIGH {
        Stretch::Flat(100)
    } else if t < TEMP_OPTIMAL_LOW {
        Stretch::Sloped(Slope { x_lo: TEMP_ZERO_LOW, x_hi: TEMP_OPTIMAL_LOW, y_lo: 0, y_hi: 100 })
    } else {
        Stretch::Sloped(Slope { x_lo: TEMP_OPTIMAL_HIGH, x_hi: TEMP_ZERO_HIGH, y_lo: 100, y_hi: 0 })
    }
}

/// Sub-score of a felt temperature. One that is not a finite number has no
/// reading and scores nothing.
pub fn temp_subscore(t: Option<Reading>, between: u8) -> (score: u8)
    ensures
        score == (match t {
            Some(t) => on_stretch(temp_stretch_of(t), t, between),
            None => 0,
        }),
{
    match t {
        Some(t) => score_on(temp_stretch(t), t, between),
        None => 0,
    }
}

// ---- Wind ----

/// 100 up to a light breeze, then falling off in two slopes.
pub open spec fn wind_stretch_of(mean: Reading) -> Stretch {
    if mean <= WIND_PERFECT_MAX {
        Stretch::Flat(100)
    } else if mean <= WIND_OK_MAX {
        Stretch::Sloped(
            Slope {
                x_lo: WIND_PERFECT_MAX,
                x_hi: WIND_OK_MAX,
                y_lo: 100,
                y_hi: WIND_OK_AT_OK_MAX,
            },
        )
    } else {
        Stretch::Sloped(
            Slope {
                x_lo: WIND_OK_MAX,
                x_hi: WIND_POOR_MAX,
                y_lo: WIND_OK_AT_OK_MAX,
                y_hi: WIND_POOR_AT_POOR_MAX,
            },
        )
    }
}

/// The stretch of the wind curve on which `mean` lies, up to strong wind.
pub fn wind_stretch(mean: Reading) -> (stretch: Stretch)
    ensures
        stretch == wind_stretch_of(mean),
{
    if mean <= WIND_PERFECT_MAX {
        Stretch::Flat(100)
    } else if mean <= WIND_OK_MAX {
        Stretch::Sloped(
            Slope {
                x_lo: WIND_PERFECT_MAX,
                x_hi: WIND_OK_MAX,
                y_lo: 100,
                y_hi: WIND_OK_AT_OK_MAX,
            },
        )
    } else {
        Stretch::Sloped(
            Slope {
                x_lo: WIND_OK_MAX,
                x_hi: WIND_POOR_MAX,
                y_lo: WIND_OK_AT_OK_MAX,
                y_hi: WIND_POOR_AT_POOR_MAX,
            },
        )
    }
}

/// The sub-score of a mean wind: on the curve up to `WIND_POOR_MAX`, and past it
/// `extra` points less than there, never below zero.
pub open spec fn mean_wind_score_of(mean: Reading, between: u8, extra: u8) -> u8 {
    if mean <= WIND_POOR_MAX {
        on_stretch(wind_stretch_of(mean), mean, between)
    } else if extra >= WIND_POOR_AT_POOR_MAX {
        0
    } else {
        (WIND_POOR_AT_POOR_MAX - extra) as u8
    }
}

/// Sub-score of a mean wind, gusts left aside. `extra` is the loss past
/// `WIND_POOR_MAX`: 2.5 points for each m/s, rounded.
pub fn mean_wind_score(mean: Reading, between: u8, extra: u8) -> (score: u8)
    ensures
        score == mean_wind_score_of(mean, between, extra),
{
    if mean <= WIND_POOR_MAX {
        score_on(wind_stretch(mean), mean, between)
    } else {
        WIND_POOR_AT_POOR_MAX.saturating_sub(extra)
    }
}

// ---- Precipitation ----

/// 100 when dry, then falling off in three slopes to 0 in heavy rain.
pub open spec fn precip_stretch_of(mm: Reading) -> Stretch {
    if mm <= ZERO {
        Stretch::Flat(100)
    } else if mm <= PRECIP_DRIZZLE {
        Stretch::Sloped(
            Slope { x_lo: ZERO, x_hi: PRECIP_DRIZZLE, y_lo: 100, y_hi: PRECIP_DRIZZLE_AT },
        )
    } else if mm <= PRECIP_HEAVY {
        Stretch::Sloped(
            Slope {
                x_lo: PRECIP_DRIZZLE,
                x_hi: PRECIP_HEAVY,
                y_lo: PRECIP_DRIZZLE_AT,
                y_hi: PRECIP_HEAVY_AT,
            },
        )
    } else {
        Stretch::Sloped(
            Slope { x_lo: PRECIP_HEAVY, x_hi: PRECIP_ZERO, y_lo: PRECIP_HEAVY_AT, y_hi: 0 },
        )
    }
}

/// The stretch of the precipitation curve on which `mm` lies.
pub fn precip_stretch(mm: Reading) -> (stretch: Stretch)
    ensures
        stretch == precip_stretch_of(mm),
{
    if mm <= ZERO {
        Stretch::Flat(100)
    } else if mm <= PRECIP_DRIZZLE {
        Stretch::Sloped(
            Slope { x_lo: ZERO, x_hi: PRECIP_DRIZZLE, y_lo: 100, y_hi: PRECIP_DRIZZLE_AT },
        )
    } else if mm <= PRECIP_HEAVY {
        Stretch::Sloped(
            Slope {
                x_lo: PRECIP_DRIZZLE,
                x_hi: PRECIP_HEAVY,
                y_lo: PRECIP_DRIZZLE_AT,
                y_hi: PRECIP_HEAVY_AT,
            },
        )
    } else {
        Stretch::Sloped(
            Slope { x_lo: PRECIP_HEAVY, x_hi: PRECIP_ZERO, y_lo: PRECIP_HEAVY_AT, y_hi: 0 },
        )
    }
}

/// Sub-score of a precipitation intensity in mm/h.
pub fn precip_subscore(mm_per_hour: Reading, between: u8) -> (score: u8)
    ensures
        score == on_stretch(precip_stretch_of(mm_per_hour), mm_per_hour, between),
{
    score_on(precip_stretch(mm_per_hour), mm_per_hour, between)
}

/// Sub-score of a probability of precipitation: 100 less the probability,
/// rounded, which is what `remaining` holds. Missing data is neutral.
pub fn precip_prob_subscore(remaining: Option<u8>) -> (score: u8)
    ensures
        score == (match remaining {
            Some(r) => at_most_100(r as int),
            None => UNKNOWN_SCORE as int,
        }),
{
    match remaining {
        Some(r) => if r > 100 {
            100
        } else {
            r
        },
        None => UNKNOWN_SCORE,
    }
}

// ---- Ground ----

/// Peaks on slightly damp gravel; a little less when bone-dry, and falling off
/// to 0 when saturated.
pub open spec fn ground_stretch_of(mm: Reading) -> Stretch {
    if mm <= ZERO {
        Stretch::Flat(GROUND_DRY_FLOOR_SCORE)
    } else if mm < GROUND_OPTIMAL_MM {
        Stretch::Sloped(
            Slope { x_lo: ZERO, x_hi: GROUND_OPTIMAL_MM, y_lo: GROUND_DRY_FLOOR_SCORE, y_hi: 100 },
        )
    } else if mm >= GROUND_SATURATED {
        Stretch::Flat(0)
    } else {
        Stretch::Sloped(
            Slope { x_lo: GROUND_OPTIMAL_MM, x_hi: GROUND_SATURATED, y_lo: 100, y_hi: 0 },
        )
    }
}

/// The stretch of the ground curve on which `mm` lies.
pub fn ground_stretch(mm: Reading) -> (stretch: Stretch)
    ensures
        stretch == ground_stretch_of(mm),
{
    if mm <= ZERO {
        Stretch::Flat(GROUND_DRY_FLOOR_SCORE)
    } else if mm < GROUND_OPTIMAL_MM {
        Stretch::Sloped(
            Slope { x_lo: ZERO, x_hi: GROUND_OPTIMAL_MM, y_lo: GROUND_DRY_FLOOR_SCORE, y_hi: 100 },
        )
    } else if mm >= GROUND_SATURATED {
        Stretch::Flat(0)
    } else {
        Stretch::Sloped(
            Slope { x_lo: GROUND_OPTIMAL_MM, x_hi: GROUND_SATURATED, y_lo: 100, y_hi: 0 },
        )
    }
}

/// Sub-score of the water on the surface.
pub fn ground_subscore(accumulated_mm: Reading, between: u8) -> (score: u8)
    ensures
        score == on_stretch(ground_stretch_of(accumulated_mm), accumulated_mm, between),
{
    score_on(ground_stretch(accumulated_mm), accumulated_mm, between)
}

// ---- Laws ----

/// Every sub-score lies between 0 and 100.
pub proof fn sub_scores_stay_on_scale(x: Reading, between: u8, extra: u8)
    ensures
        on_stretch(temp_stretch_of(x), x, between) <= 100,
        mean_wind_score_of(x, between, extra) <= 100,
        on_stretch(precip_stretch_of(x), x, between) <= 100,
        on_stretch(ground_stretch_of(x), x, between) <= 100,
{
}

/// A quantity lies on the stretch that its curve gives for it, unless it lies
/// past the end of the curve, and neighbouring stretches meet: at a corner both
/// give the same score.
pub proof fn curves_have_no_steps(between: u8)
    ensures
        on_stretch(temp_stretch_of(TEMP_OPTIMAL_LOW), TEMP_OPTIMAL_LOW, between) == on_stretch(
            temp_stretch_of((TEMP_OPTIMAL_LOW - 1) as i64),
            TEMP_OPTIMAL_LOW,
            between,
        ),
        on_stretch(temp_stretch_of(TEMP_OPTIMAL_HIGH), TEMP_OPTIMAL_HIGH, between) == on_stretch(
            temp_stretch_of((TEMP_OPTIMAL_HIGH + 1) as i64),
            TEMP_OPTIMAL_HIGH,
            between,
        ),
        on_stretch(wind_stretch_of(WIND_PERFECT_MAX), WIND_PERFECT_MAX, between) == on_stretch(
            wind_stretch_of((WIND_PERFECT_MAX + 1) as i64),
            WIND_PERFECT_MAX,
            between,
        ),
        on_stretch(wind_stretch_of(WIND_OK_MAX), WIND_OK_MAX, between) == on_stretch(
            wind_stretch_of((WIND_OK_MAX + 1) as i64),
            WIND_OK_MAX,
            between,
        ),
        on_stretch(precip_stretch_of(ZERO), ZERO, between) == on_stretch(
            precip_stretch_of((ZERO + 1) as i64),
            ZERO,
            between,
        ),
        on_stretch(precip_stretch_of(PRECIP_DRIZZLE), PRECIP_DRIZZLE, between) == on_stretch(
            precip_stretch_of((PRECIP_DRIZZLE + 1) as i64),
            PRECIP_DRIZZLE,
            between,
        ),
        on_stretch(precip_stretch_of(PRECIP_HEAVY), PRECIP_HEAVY, between) == on_stretch(
            precip_stretch_of((PRECIP_HEAVY + 1) as i64),
            PRECIP_HEAVY,
            between,
        ),
        on_stretch(ground_stretch_of(ZERO), ZERO, between) == on_stretch(
            ground_stretch_of((ZERO + 1) as i64),
            ZERO,
            between,
        ),
        on_stretch(ground_stretch_of(GROUND_OPTIMAL_MM), GROUND_OPTIMAL_MM, between) == on_stretch(
            ground_stretch_of((GROUND_OPTIMAL_MM - 1) as i64),
            GROUND_OPTIMAL_MM,
            between,
        ),
        on_stretch(ground_stretch_of(GROUND_SATURATED), GROUND_SATURATED, between) == on_stretch(
            ground_stretch_of((GROUND_SATURATED - 1) as i64),
            GROUND_SATURATED,
            between,
        ),
{
}

// ---- Which way a curve goes ----

/// `between` can be the score at `x` by linear interpolation: inside a slope it
/// lies between the scores at its ends.
pub open spec fn interpolates(stretch: Stretch, x: Reading, between: u8) -> bool {
    match stretch {
        Stretch::Flat(_) => true,
        Stretch::Sloped(s) => s.x_lo < x < s.x_hi ==> (s.y_lo <= between <= s.y_hi || s.y_hi
            <= between <= s.y_lo),
    }
}

/// `p` and `q` can be the scores by linear interpolation at two places of one
/// stretch, `p` at the lower one: they go the way the slope goes.
pub open spec fn in_step(stretch: Stretch, p: u8, q: u8) -> bool {
    match stretch {
        Stretch::Flat(_) => true,
        Stretch::Sloped(s) => (s.y_lo <= s.y_hi ==> p <= q) && (s.y_lo >= s.y_hi ==> p >= q),
    }
}

/// `p` at `x` and `q` at `y` can both come from linear interpolation along a
/// curve whose stretches at these places are `at_x` and `at_y`.
pub open spec fn along_curve(
    at_x: Stretch,
    x: Reading,
    p: u8,
    at_y: Stretch,
    y: Reading,
    q: u8,
) -> bool {
    &&& interpolates(at_x, x, p)
    &&& interpolates(at_y, y, q)
    &&& at_x == at_y && x <= y ==> in_step(at_x, p, q)
}

/// A stronger mean wind never scores higher: neither along the curve nor past
/// its end, where the loss grows with the wind.
pub proof fn stronger_mean_wind_never_scores_higher(
    x: Reading,
    p: u8,
    lost_at_x: u8,
    y: Reading,
    q: u8,
    lost_at_y: u8,
)
    requires
        x <= y,
        along_curve(wind_stretch_of(x), x, p, wind_stretch_of(y), y, q),
        x > WIND_POOR_MAX ==> lost_at_x <= lost_at_y,
    ensures
        mean_wind_score_of(y, q, lost_at_y) <= mean_wind_score_of(x, p, lost_at_x) <= 100,
{
}

/// More precipitation never scores higher.
pub proof fn more_precipitation_never_scores_higher(x: Reading, p: u8, y: Reading, q: u8)
    requires
        x <= y,
        along_curve(precip_stretch_of(x), x, p, precip_stretch_of(y), y, q),
    ensures
        on_stretch(precip_stretch_of(y), y, q) <= on_stretch(precip_stretch_of(x), x, p),
{
}

/// The temperature score rises up to the optimal band and falls from there on.
pub proof fn temperature_is_best_in_its_band(x: Reading, p: u8, y: Reading, q: u8)
    requires
        x <= y,
        along_curve(temp_stretch_of(x), x, p, temp_stretch_of(y), y, q),
    ensures
        y <= TEMP_OPTIMAL_HIGH ==> on_stretch(temp_stretch_of(x), x, p) <= on_stretch(
            temp_stretch_of(y),
            y,
            q,
        ),
        x >= TEMP_OPTIMAL_LOW ==> on_stretch(temp_stretch_of(y), y, q) <= on_stretch(
            temp_stretch_of(x),
            x,
            p,
        ),
{
}

/// The ground score rises up to slightly damp gravel and falls from there on.
pub proof fn damp_ground_is_best(x: Reading, p: u8, y: Reading, q: u8)
    requires
        x <= y,
        along_curve(ground_stretch_of(x), x, p, ground_stretch_of(y), y, q),
    ensures
        y <= GROUND_OPTIMAL_MM ==> on_stretch(ground_stretch_of(x), x, p) <= on_stretch(
            ground_stretch_of(y),
            y,
            q,
        ),
        x >= GROUND_OPTIMAL_MM ==> on_stretch(ground_stretch_of(y), y, q) <= on_stretch(
            ground_stretch_of(x),
            x,
            p,
        ),
{
}

} // verus!
