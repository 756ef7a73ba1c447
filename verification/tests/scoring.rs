//! Sub-scores, scores, best windows, surface and felt temperature.
#![allow(dead_code)]

use chrono::{TimeZone, Utc};

use grusindeks::conditions::{
    hours_in_window, largest, peak_in_window, HourlyConditions, Resolution, Signal,
};
use grusindeks::daily::{
    best_window_candidates, compute_day, find_best_window, find_best_window_excluding,
    weather_icon_for, windows_overlap, BestWindowConfig, BestWindowReason, Confidence, DayScore,
    OptimalWindow, SkySummary, DEFAULT_OPTIMAL_IMPROVEMENT,
};
use grusindeks::drying::{after_rain, drying_step, is_frozen, replay, SurfaceState};
use grusindeks::felt_temp::{self, sunshine, Sunshine};
use grusindeks::lang::Language;
use grusindeks::nowcast::{bucket_steps, Nowcast};
use grusindeks::reading::{Measured, Reading};
use grusindeks::score::curves::{
    ground_stretch, ground_subscore, lerp_clamped, precip_prob_subscore, precip_stretch,
    precip_subscore, temp_stretch, temp_subscore, wind_stretch, Slope, Stretch,
};
use grusindeks::score::thresholds::{
    weights_sum, GROUND_DRY_FLOOR_SCORE, GROUND_SATURATED, HARD_CAP_TOTAL,
};
use grusindeks::score::{
    apply_drought_penalty, label_for, no_data_score, score, severity_for, weighted, wind_penalty,
    wind_subscore, Component, Grusindeks, Penalty, ScoreBreakdown,
    Severity, WindSignal, WindowFigures, WindowSignals, WindowStats,
};
use grusindeks::time::RideWindow;

/// The reading of a finite number.
fn reading(x: f64) -> Reading {
    let magnitude = x.abs().to_bits() as i64;
    if x < 0.0 {
        -magnitude
    } else {
        magnitude
    }
}

/// The reading of a number, if it is finite.
fn finite(x: f64) -> Option<Reading> {
    if x.is_finite() {
        Some(reading(x))
    } else {
        None
    }
}

/// The number behind a reading.
fn number(r: Reading) -> f64 {
    if r < 0 {
        -f64::from_bits(r.unsigned_abs())
    } else {
        f64::from_bits(r as u64)
    }
}

/// A finite number with its printed form.
fn measured(x: f64, decimals: usize) -> Measured {
    Measured {
        reading: reading(x),
        text: format!("{x:.decimals$}"),
    }
}

/// Cyclist self-generated wind at gravel cruising speed (about 18 km/h).
const CYCLING_WIND_MS: f64 = 5.0;

/// UV index at the upper end of a Nordic summer noon.
const UV_NORDIC_PEAK: f64 = 7.0;

/// Maximum °C added to the felt temperature by direct sunshine.
const SOLAR_MAX_C: f64 = 3.5;

/// Wind attenuation slope in `1 / (1 + k · v)`.
const SOLAR_WIND_K: f64 = 0.1;

/// Multiplier of the drying rate below freezing.
const FROST_FACTOR: f64 = 0.1;

/// Gusts count from this multiple of the mean wind.
const GUST_RATIO_THRESHOLD: f64 = 1.5;

// ---- Felt temperature ----

/// Wind chill by the NWS / Environment Canada regression.
fn wind_chill_formula(t_c: f64, v_kmh: f64) -> f64 {
    let v_pow = v_kmh.powf(0.16);
    13.12 + 0.6215 * t_c - 11.37 * v_pow + 0.3965 * t_c * v_pow
}

/// Heat index by the NWS Rothfusz regression.
fn heat_index_formula(t_c: f64, rh_pct: f64) -> f64 {
    let rh = rh_pct.clamp(0.0, 100.0);
    let t_f = t_c * 1.8 + 32.0;
    let t2 = t_f * t_f;
    let rh2 = rh * rh;
    let hi_f = -42.379 + 2.049_015_23 * t_f + 10.143_331_27 * rh
        - 0.224_755_41 * t_f * rh
        - 6.837_83e-3 * t2
        - 5.481_717e-2 * rh2
        + 1.228_74e-3 * t2 * rh
        + 8.528_2e-4 * t_f * rh2
        - 1.99e-6 * t2 * rh2;
    (hi_f - 32.0) / 1.8
}

/// The airflow over a moving rider: ambient wind and riding speed in
/// quadrature.
fn cyclist_effective_wind_ms(ambient_ms: f64) -> f64 {
    let a = ambient_ms.max(0.0);
    (a * a + CYCLING_WIND_MS * CYCLING_WIND_MS).sqrt()
}

/// Felt temperature of finite conditions.
fn apparent_temp(t_c: f64, wind_ms: f64, humidity_pct: Option<f64>) -> f64 {
    let v_kmh = cyclist_effective_wind_ms(wind_ms) * 3.6;
    let chill = wind_chill_formula(t_c, v_kmh);
    let heat = humidity_pct.map_or(t_c, |rh| heat_index_formula(t_c, rh));
    let felt = felt_temp::apparent_temp(
        finite(t_c),
        finite(v_kmh),
        humidity_pct.and_then(finite),
        reading(chill),
        reading(heat),
    );
    felt.map_or(t_c, number)
}

/// What the sun adds to the felt temperature.
fn solar_warming_c(cloud_pct: Option<f64>, uv_clear_sky: Option<f64>, wind_ms: f64) -> f64 {
    let known = sunshine(cloud_pct.and_then(finite), uv_clear_sky.and_then(finite));
    let attenuation = 1.0 / (1.0 + SOLAR_WIND_K * wind_ms.max(0.0));
    SOLAR_MAX_C * brightness(known) * attenuation
}

/// How much of the brightest sunshine there is.
fn brightness(known: Sunshine) -> f64 {
    let clear = |cloud: Reading| (1.0 - number(cloud) / 100.0).clamp(0.0, 1.0);
    match known {
        Sunshine::Measured {
            cloud_pct,
            uv_clear_sky,
        } => clear(cloud_pct) * (number(uv_clear_sky) / UV_NORDIC_PEAK).clamp(0.0, 1.5),
        Sunshine::CloudOnly { cloud_pct } => 0.5 * clear(cloud_pct),
        Sunshine::Unknown => 0.0,
    }
}

// ---- Water balance ----

/// Coefficients of the drying rate (mm/h) and of the drainage.
#[derive(Debug, Clone, Copy)]
struct DryingParams {
    base: f64,
    per_deg_c_above_5: f64,
    per_ms_wind: f64,
    sunshine_max: f64,
    per_pct_humidity_above_50: f64,
    min_rate: f64,
    max_rate: f64,
    /// Water that the gravel holds against gravity.
    field_capacity_mm: f64,
    /// Fraction of the free water that drains each hour.
    drainage_fraction: f64,
}

impl Default for DryingParams {
    fn default() -> Self {
        Self {
            base: 0.05,
            per_deg_c_above_5: 0.010,
            per_ms_wind: 0.020,
            sunshine_max: 0.050,
            per_pct_humidity_above_50: 0.005,
            min_rate: 0.0,
            max_rate: 1.5,
            field_capacity_mm: 0.4,
            drainage_fraction: 0.5,
        }
    }
}

/// Drying rate (mm/h) for one hour.
fn drying_rate(h: &HourlyConditions, p: &DryingParams) -> f64 {
    let temp_c = number(h.temperature_c);
    let wind = number(h.wind_speed_ms).max(0.0);
    let temp_term = p.per_deg_c_above_5 * (temp_c - 5.0).max(0.0);
    let wind_term = p.per_ms_wind * 2.0 * wind.sqrt();
    let known = sunshine(h.cloud_area_fraction, h.uv_index_clear_sky);
    let sunshine_term = p.sunshine_max * brightness(known);
    let humidity_penalty = h.relative_humidity.map_or(0.0, |rh| {
        p.per_pct_humidity_above_50 * (number(rh) - 50.0).max(0.0)
    });
    let raw = p.base + temp_term + wind_term + sunshine_term - humidity_penalty;
    let frost_factor = if is_frozen(h) { FROST_FACTOR } else { 1.0 };
    (raw * frost_factor).clamp(p.min_rate, p.max_rate)
}

/// The water that an hour leaves on a surface with `before` on it.
fn water_after(before: Reading, h: &HourlyConditions, p: &DryingParams) -> Reading {
    let precip = number(h.precipitation_mm).max(0.0);
    let standing = number(after_rain(reading(number(before) + precip)));
    let after_drainage = if is_frozen(h) {
        standing
    } else {
        let free = (standing - p.field_capacity_mm).max(0.0);
        standing - free * p.drainage_fraction.clamp(0.0, 1.0)
    };
    reading((after_drainage - drying_rate(h, p)).max(0.0))
}

/// What each hour leaves on a surface with `before` on it at first.
fn water_along(before: Reading, hours: &[HourlyConditions], p: &DryingParams) -> Vec<Reading> {
    let mut water = Vec::with_capacity(hours.len());
    let mut on_surface = before;
    for h in hours {
        on_surface = water_after(on_surface, h, p);
        water.push(on_surface);
    }
    water
}

// ---- Sub-scores ----

/// The rounded score at `x` on a stretch of a curve.
fn between(x: Reading, stretch: Stretch) -> u8 {
    match stretch {
        Stretch::Flat(score) => score,
        Stretch::Sloped(s) => {
            let t = (number(x) - number(s.x_lo)) / (number(s.x_hi) - number(s.x_lo));
            let y = f64::from(s.y_lo) + t * (f64::from(s.y_hi) - f64::from(s.y_lo));
            y.round().clamp(0.0, 100.0) as u8
        }
    }
}

/// Points lost past the end of the wind curve.
fn wind_extra(mean_ms: f64) -> u8 {
    ((mean_ms - 12.0).clamp(0.0, 8.0) * 2.5).round() as u8
}

fn wind_signal(mean_ms: f64, gust_ms: Option<f64>) -> WindSignal {
    WindSignal {
        mean: measured(mean_ms, 1),
        between: between(reading(mean_ms), wind_stretch(reading(mean_ms))),
        extra: wind_extra(mean_ms),
        gust: gust_ms.map(|g| measured(g, 0)),
        gust_limit: reading(GUST_RATIO_THRESHOLD * mean_ms),
    }
}

fn mean(values: &[f64]) -> Option<f64> {
    if values.is_empty() {
        None
    } else {
        Some(values.iter().sum::<f64>() / values.len() as f64)
    }
}

fn each(hours: &[HourlyConditions], of: impl Fn(&HourlyConditions) -> Option<Reading>) -> Vec<f64> {
    hours.iter().filter_map(of).map(number).collect()
}

/// The figures of a window, printed and scored.
fn figures(hours: &[HourlyConditions]) -> Option<WindowFigures> {
    let temps = each(hours, |h| Some(h.temperature_c));
    let mean_temp = mean(&temps)?;
    let lo = temps.iter().copied().fold(f64::INFINITY, f64::min);
    let hi = temps.iter().copied().fold(f64::NEG_INFINITY, f64::max);
    let precip = each(hours, |h| Some(h.precipitation_mm));
    let total = precip.iter().sum::<f64>().max(0.0);
    let wettest = precip.iter().copied().fold(0.0, f64::max);
    let wind = each(hours, |h| Some(h.wind_speed_ms))
        .into_iter()
        .fold(0.0, f64::max);
    let gust = each(hours, |h| h.wind_gust_ms).into_iter().reduce(f64::max);
    let humidity = mean(&each(hours, |h| h.relative_humidity));
    let felt = reading(apparent_temp(mean_temp, wind, humidity));
    Some(WindowFigures {
        min_temp_c: lo.round() as i32,
        max_temp_c: hi.round() as i32,
        total_precip_mm: measured(total, 1),
        max_hourly_precip_mm: measured(wettest, 1),
        max_wind_ms: wind.round() as i32,
        max_gust_ms: gust.map(|g| g.round() as i32),
        temp_score: temp_subscore(Some(felt), between(felt, temp_stretch(felt))),
        precip_score: precip_subscore(
            reading(wettest),
            between(reading(wettest), precip_stretch(reading(wettest))),
        ),
        wind_score: wind_subscore(&wind_signal(wind, gust)),
    })
}

/// What the hours of `hours` that lie in `window` amount to on each axis.
fn signals_for(
    hours: &Vec<HourlyConditions>,
    window: RideWindow,
    surface: Option<SurfaceState>,
) -> WindowSignals {
    let inside = hours_in_window(hours, window);
    let mean_temp = mean(&each(&inside, |h| Some(h.temperature_c))).unwrap_or(0.0);
    let mean_wind = mean(&each(&inside, |h| Some(h.wind_speed_ms))).unwrap_or(0.0);
    let mean_precip = mean(&each(&inside, |h| Some(h.precipitation_mm))).unwrap_or(0.0);
    let humidity = mean(&each(&inside, |h| h.relative_humidity));
    let cloud = mean(&each(&inside, |h| h.cloud_area_fraction));
    let uv = mean(&each(&inside, |h| h.uv_index_clear_sky));
    let sun = solar_warming_c(cloud, uv, mean_wind);
    let felt = apparent_temp(mean_temp, mean_wind, humidity) + sun;
    let peak = |signal| peak_in_window(hours, window, signal).map(number);
    let probability = peak(Signal::Probability).unwrap_or(0.0).clamp(0.0, 100.0);
    let felt_reading = reading(felt);
    let precip_reading = reading(mean_precip);
    let water = surface.map_or(0, |s| s.accumulated_mm);
    WindowSignals {
        mean_temp: measured(mean_temp, 0),
        felt_temp: measured(felt, 0),
        felt_gap: reading((felt - mean_temp).abs()),
        temp_between: between(felt_reading, temp_stretch(felt_reading)),
        mean_wind: measured(mean_wind, 1),
        wind_between: between(reading(mean_wind), wind_stretch(reading(mean_wind))),
        wind_extra: wind_extra(mean_wind),
        gust_limit: reading(GUST_RATIO_THRESHOLD * mean_wind),
        gust_text: format!("{:.0}", peak(Signal::Gust).unwrap_or(0.0)),
        mean_precip: measured(mean_precip, 1),
        precip_between: between(precip_reading, precip_stretch(precip_reading)),
        dry_chance: (100.0 - probability).round() as u8,
        probability_text: format!("{probability:.0}"),
        ground_text: format!("{:.1}", number(water)),
        ground_between: between(water, ground_stretch(water)),
        peak_precip_text: format!("{:.1}", peak(Signal::Precipitation).unwrap_or(0.0)),
        peak_wind_text: format!("{:.1}", peak(Signal::Wind).unwrap_or(0.0)),
        stats: WindowStats {
            figures: figures(&inside),
        },
        sun_warming: measured(sun, 1),
    }
}

/// What the sky is like over the hours that lie in `window`.
fn sky_for(hours: &Vec<HourlyConditions>, window: RideWindow) -> SkySummary {
    let inside = hours_in_window(hours, window);
    let total: f64 = each(&inside, |h| Some(h.precipitation_mm)).iter().sum();
    SkySummary {
        mean_temp: reading(mean(&each(&inside, |h| Some(h.temperature_c))).unwrap_or(0.0)),
        total_precip: reading(total),
        mean_cloud: mean(&each(&inside, |h| h.cloud_area_fraction)).map(reading),
    }
}

/// The precipitation that the radar sees in each hour: twelve five-minute steps
/// fill an hour.
fn radar_mm(hours: &[HourlyConditions], nowcast: &Nowcast) -> Vec<Reading> {
    hours
        .iter()
        .map(|h| {
            let rates: f64 = bucket_steps(nowcast, h.time)
                .into_iter()
                .map(|i| number(nowcast.steps[i].precipitation_rate_mm_h.reading))
                .sum();
            reading(rates / 12.0)
        })
        .collect()
}

// ---- Shorthands ----

const SECOND: i128 = 1_000_000_000;
const HOUR: i128 = 3_600 * SECOND;

fn at(year: i32, month: u32, day: u32, hour: u32) -> i128 {
    i128::from(
        Utc.with_ymd_and_hms(year, month, day, hour, 0, 0)
            .unwrap()
            .timestamp(),
    ) * SECOND
}

fn t(h: u32) -> i128 {
    at(2026, 4, 26, 0) + i128::from(h) * HOUR
}

fn minimal(time: i128, temp: f64, wind: f64, precip: f64) -> HourlyConditions {
    HourlyConditions::minimal(time, reading(temp), reading(wind), reading(precip))
}

fn nice_hour(time: i128) -> HourlyConditions {
    HourlyConditions {
        probability_of_precip: Some(reading(5.0)),
        ..minimal(time, 17.0, 2.0, 0.0)
    }
}

fn awful_hour(time: i128) -> HourlyConditions {
    HourlyConditions {
        probability_of_precip: Some(reading(95.0)),
        ..minimal(time, 5.0, 11.0, 3.0)
    }
}

fn nice_hours() -> Vec<HourlyConditions> {
    (14..17).map(|h| nice_hour(t(h))).collect()
}

fn afternoon() -> RideWindow {
    RideWindow::from_hours(t(14), 3)
}

fn surface(mm: f64, hours: u64) -> SurfaceState {
    SurfaceState {
        accumulated_mm: reading(mm),
        hours_since_meaningful_rain: hours,
        drought_at_lookback_cap: false,
    }
}

fn wet(mm: f64) -> SurfaceState {
    SurfaceState::new(finite(mm))
}

fn scored(hours: &Vec<HourlyConditions>, window: RideWindow, ground: SurfaceState) -> Grusindeks {
    let signals = signals_for(hours, window, Some(ground));
    score(hours, window, Some(ground), signals, Language::Norwegian)
}

fn temp_score(felt: f64) -> u8 {
    let r = finite(felt);
    temp_subscore(r, r.map_or(0, |x| between(x, temp_stretch(x))))
}

fn wind_score(mean_ms: f64, gust_ms: Option<f64>) -> u8 {
    wind_subscore(&wind_signal(mean_ms, gust_ms))
}

fn precip_score(mm: f64) -> u8 {
    precip_subscore(reading(mm), between(reading(mm), precip_stretch(reading(mm))))
}

fn ground_score(mm: f64) -> u8 {
    ground_subscore(reading(mm), between(reading(mm), ground_stretch(reading(mm))))
}

fn penalty(s: &Grusindeks, component: Component) -> Option<&Penalty> {
    s.penalties.iter().find(|p| p.component == component)
}

// ---- Sub-scores ----

#[test]
fn weights_sum_to_100() {
    assert_eq!(weights_sum(), 100);
}

#[test]
fn temperature_subscore() {
    for (felt, expected) in [
        (12.0, 100),
        (17.0, 100),
        (22.0, 100),
        (-5.0, 0),
        (35.0, 0),
        (-10.0, 0),
        (40.0, 0),
        (3.5, 50),
    ] {
        assert_eq!(temp_score(felt), expected, "at {felt} °C");
    }
    assert_eq!(temp_score(f64::NAN), 0);
    assert_eq!(temp_score(f64::INFINITY), 0);
}

#[test]
fn wind_subscore_no_gust() {
    for (mean_ms, expected) in [
        (0.0, 100),
        (3.0, 100),
        (7.0, 60),
        (12.0, 20),
        (15.0, 12),
        (20.0, 0),
        (5.0, 80),
        (25.0, 0),
    ] {
        assert_eq!(wind_score(mean_ms, None), expected, "at {mean_ms} m/s");
    }
}

#[test]
fn wind_subscore_gust_penalty_applies_when_gust_over_1_5x() {
    let with_gust = wind_score(4.0, Some(7.0));
    let no_gust = wind_score(4.0, None);
    assert_eq!(with_gust as i32, no_gust as i32 - 20);
}

#[test]
fn wind_subscore_no_penalty_when_gust_close_to_mean() {
    let with_gust = wind_score(4.0, Some(5.0));
    let no_gust = wind_score(4.0, None);
    assert_eq!(with_gust, no_gust);
}

#[test]
fn gusts_do_not_count_without_wind_and_saturate_at_zero() {
    assert_eq!(wind_score(0.0, Some(9.0)), 100);
    assert_eq!(wind_score(18.0, Some(40.0)), 0);
}

#[test]
fn more_wind_or_rain_never_scores_higher() {
    let tenths = |n: u32| f64::from(n) / 10.0;
    for n in 0..250 {
        assert!(wind_score(tenths(n + 1), None) <= wind_score(tenths(n), None));
        assert!(precip_score(tenths(n + 1)) <= precip_score(tenths(n)));
        assert!(ground_score(0.4 + tenths(n + 1)) <= ground_score(0.4 + tenths(n)));
        assert!(temp_score(22.0 + tenths(n + 1)) <= temp_score(22.0 + tenths(n)));
        assert!(temp_score(12.0 - tenths(n + 1)) <= temp_score(12.0 - tenths(n)));
    }
}

#[test]
fn gusts_cost_the_same_at_every_wind() {
    for (mean_ms, gust_ms) in [(2.0, 3.1), (5.0, 9.0), (10.0, 16.0), (13.0, 25.0)] {
        let calm = wind_score(mean_ms, None);
        assert_eq!(wind_score(mean_ms, Some(gust_ms)), calm.saturating_sub(20));
        assert_eq!(wind_score(mean_ms, Some(1.5 * mean_ms)), calm);
    }
}

#[test]
fn precipitation_subscore() {
    for (mm, expected) in [
        (0.0, 100),
        (0.5, 60),
        (2.0, 20),
        (5.0, 0),
        (10.0, 0),
        (0.25, 80),
        (1.0, 47),
    ] {
        assert_eq!(precip_score(mm), expected, "at {mm} mm/h");
    }
}

#[test]
fn probability_subscore() {
    assert_eq!(precip_prob_subscore(Some(100)), 100);
    assert_eq!(precip_prob_subscore(Some(50)), 50);
    assert_eq!(precip_prob_subscore(Some(0)), 0);
    assert_eq!(precip_prob_subscore(None), 50);
}

#[test]
fn ground_subscore_examples() {
    for (mm, expected) in [
        (0.0, GROUND_DRY_FLOOR_SCORE),
        (0.2, 98),
        (0.4, 100),
        (2.5, 54),
        (5.0, 0),
        (10.0, 0),
    ] {
        assert_eq!(ground_score(mm), expected, "at {mm} mm");
    }
}

#[test]
fn a_slope_ends_at_its_corners() {
    let slope = Slope { x_lo: reading(1.0), x_hi: reading(3.0), y_lo: 10, y_hi: 90 };
    assert_eq!(lerp_clamped(reading(0.5), slope, 77), 10);
    assert_eq!(lerp_clamped(reading(1.0), slope, 77), 10);
    assert_eq!(lerp_clamped(reading(2.0), slope, 50), 50);
    assert_eq!(lerp_clamped(reading(2.0), slope, 250), 100);
    assert_eq!(lerp_clamped(reading(3.0), slope, 77), 90);
    assert_eq!(lerp_clamped(reading(9.0), slope, 77), 90);
}

#[test]
fn drought_penalty_examples() {
    for (hours, base, expected) in [
        (60, 100, 100),
        (72, 100, 100),
        (120, 100, 95),
        (168, 100, 90),
        (240, 100, 90),
        (120, 3, 0),
    ] {
        assert_eq!(apply_drought_penalty(base, hours), expected, "after {hours} h");
    }
}

// ---- Score ----

#[test]
fn perfect_conditions_yield_high_score() {
    let s = scored(&nice_hours(), afternoon(), SurfaceState::default());
    assert!(!s.hard_capped);
    assert_eq!(s.total, 98);
    assert_eq!(s.label, "Strålende");
}

#[test]
fn weights_follow_the_documented_examples() {
    let perfect = ScoreBreakdown {
        temperature: 100,
        wind: 100,
        precipitation: 100,
        precip_probability: 95,
        ground: 100,
    };
    assert_eq!(weighted(&perfect), 99);
    let fresh = ScoreBreakdown {
        temperature: 100,
        wind: 63,
        precipitation: 100,
        precip_probability: 30,
        ground: 76,
    };
    assert_eq!(weighted(&fresh), 79);
    let parched = ScoreBreakdown {
        temperature: 77,
        wind: 75,
        precipitation: 100,
        precip_probability: 95,
        ground: 77,
    };
    assert_eq!(weighted(&parched), 84);
}

#[test]
fn better_sub_scores_never_make_a_lower_total() {
    let mut low = ScoreBreakdown {
        temperature: 40,
        wind: 50,
        precipitation: 60,
        precip_probability: 70,
        ground: 80,
    };
    let before = weighted(&low);
    low.wind = 51;
    assert!(weighted(&low) >= before);
    low.ground = 100;
    assert!(weighted(&low) > before);
}

#[test]
fn heavy_rain_triggers_hard_cap() {
    let mut hours = nice_hours();
    hours[1].precipitation_mm = reading(6.0);
    let s = scored(&hours, afternoon(), SurfaceState::default());
    assert!(s.hard_capped);
    assert!(s.total <= HARD_CAP_TOTAL);
}

#[test]
fn storm_wind_triggers_hard_cap() {
    let mut hours = nice_hours();
    hours[2].wind_speed_ms = reading(18.0);
    let s = scored(&hours, afternoon(), SurfaceState::default());
    assert!(s.hard_capped);
    assert!(s.total <= HARD_CAP_TOTAL);
}

#[test]
fn the_caps_are_exclusive_bounds() {
    let mut hours = nice_hours();
    hours[1].precipitation_mm = reading(5.0);
    hours[2].wind_speed_ms = reading(15.0);
    let s = scored(&hours, afternoon(), SurfaceState::default());
    assert!(!s.hard_capped);
}

#[test]
fn saturated_ground_drags_score_down_without_hard_cap() {
    let hours = nice_hours();
    let dry = scored(&hours, afternoon(), SurfaceState::default());
    let wet = scored(&hours, afternoon(), wet(5.0));
    assert!(!wet.hard_capped);
    assert!(wet.total < dry.total);
    assert_eq!(dry.total - wet.total, 29);
}

#[test]
fn score_only_considers_hours_in_window() {
    let mut hours = nice_hours();
    let mut bad = nice_hour(t(20));
    bad.precipitation_mm = reading(100.0);
    bad.wind_speed_ms = reading(30.0);
    hours.push(bad);
    let s = scored(&hours, afternoon(), SurfaceState::default());
    assert!(!s.hard_capped);
    assert_eq!(s.total, 98);
}

#[test]
fn a_window_without_hours_has_no_phantom_score() {
    let hours: Vec<HourlyConditions> = Vec::new();
    let s = scored(&hours, afternoon(), SurfaceState::default());
    assert_eq!(s.total, 0);
    assert_eq!(s.label, "Ingen data");
    assert_eq!(s.penalties.len(), 1);
    assert_eq!(s.penalties[0].component, Component::NoData);
    assert_eq!(s.penalties[0].severity, Severity::Critical);
    assert_eq!(s.penalties[0].message, "ingen prognosedata i vinduet");
    assert!(s.stats.is_empty());
    let swedish = no_data_score(Language::Swedish);
    assert_eq!(swedish.label, "Inga data");
}

#[test]
fn unknown_ground_counts_as_dry_and_unknown_probability_as_neutral() {
    let hours: Vec<HourlyConditions> = (14..17).map(|h| minimal(t(h), 17.0, 2.0, 0.0)).collect();
    let window = afternoon();
    let s = score(&hours, window, None, signals_for(&hours, window, None), Language::Norwegian);
    assert_eq!(s.breakdown.precip_probability, 50);
    assert_eq!(s.breakdown.ground, 95);
    assert!(penalty(&s, Component::PrecipProbability).is_none());
    assert!(penalty(&s, Component::Ground).is_none());
}

#[test]
fn label_thresholds() {
    let label_for = |total| label_for(total, Language::Norwegian);
    assert_eq!(label_for(0), "Dårlig");
    assert_eq!(label_for(24), "Dårlig");
    assert_eq!(label_for(25), "Marginalt");
    assert_eq!(label_for(44), "Marginalt");
    assert_eq!(label_for(45), "OK");
    assert_eq!(label_for(64), "OK");
    assert_eq!(label_for(65), "Bra");
    assert_eq!(label_for(84), "Bra");
    assert_eq!(label_for(85), "Strålende");
    assert_eq!(label_for(100), "Strålende");
}

#[test]
fn swedish_labels() {
    let labels: Vec<&str> = [0, 25, 45, 65, 85]
        .into_iter()
        .map(|total| label_for(total, Language::Swedish))
        .collect();
    assert_eq!(labels, ["Dåligt", "Marginellt", "OK", "Bra", "Strålande"]);
}

// ---- Penalties ----

#[test]
fn perfect_conditions_emit_no_penalties() {
    let s = scored(&nice_hours(), afternoon(), SurfaceState::default());
    assert!(s.penalties.is_empty(), "got {:?}", s.penalties);
}

#[test]
fn cold_day_emits_minor_or_major_temperature_penalty() {
    let hours: Vec<HourlyConditions> = (14..17).map(|h| minimal(t(h), 0.0, 2.0, 0.0)).collect();
    let s = scored(&hours, afternoon(), SurfaceState::default());
    let temp_pen = penalty(&s, Component::Temperature).expect("a temperature penalty at 0 °C");
    assert!(matches!(temp_pen.severity, Severity::Minor | Severity::Major));
    assert!(temp_pen.message.contains("0"), "got {:?}", temp_pen.message);
}

#[test]
fn a_temperature_that_feels_different_says_so() {
    let hours: Vec<HourlyConditions> = (14..17).map(|h| minimal(t(h), 0.0, 8.0, 0.0)).collect();
    let s = scored(&hours, afternoon(), SurfaceState::default());
    let temp_pen = penalty(&s, Component::Temperature).unwrap();
    assert_eq!(temp_pen.message, "kjølig, snitt 0 °C, føles som -7 °C");
    let warm: Vec<HourlyConditions> = (14..17).map(|h| minimal(t(h), 26.0, 2.0, 0.0)).collect();
    let s = scored(&warm, afternoon(), SurfaceState::default());
    assert_eq!(penalty(&s, Component::Temperature).unwrap().message, "varmt, snitt 26 °C");
}

#[test]
fn windy_day_emits_wind_penalty_with_speed_in_message() {
    let hours: Vec<HourlyConditions> = (14..17).map(|h| minimal(t(h), 17.0, 9.0, 0.0)).collect();
    let s = scored(&hours, afternoon(), SurfaceState::default());
    let wind_pen = penalty(&s, Component::Wind).expect("wind penalty for 9 m/s");
    assert_eq!(wind_pen.severity, Severity::Major);
    assert!(wind_pen.message.contains("9"));
    assert_eq!(wind_pen.message, "snitt 9.0 m/s — mye vind");
}

#[test]
fn gusty_day_mentions_kastevind_in_wind_message() {
    let hours: Vec<HourlyConditions> = (14..17)
        .map(|h| HourlyConditions {
            wind_gust_ms: Some(reading(8.0)),
            ..minimal(t(h), 17.0, 4.0, 0.0)
        })
        .collect();
    let s = scored(&hours, afternoon(), SurfaceState::default());
    let wind_pen = penalty(&s, Component::Wind).expect("gusts cost points");
    assert!(wind_pen.message.to_lowercase().contains("kast"));
    assert!(wind_pen.message.contains("8"));
    assert_eq!(wind_pen.message, "snitt 4.0 m/s, kastevind opp i 8 m/s");
}

#[test]
fn gusts_over_a_calm_mean_stand_alone() {
    let wind = wind_signal(2.0, Some(9.0));
    let p = wind_penalty(70, &wind, Language::Norwegian).unwrap();
    assert_eq!(p.message, "kastevind opp i 9 m/s");
    let p = wind_penalty(70, &wind, Language::Swedish).unwrap();
    assert_eq!(p.message, "vindbyar upp till 9 m/s");
}

#[test]
fn rainy_day_emits_precipitation_penalty() {
    let hours: Vec<HourlyConditions> = (14..17).map(|h| minimal(t(h), 17.0, 2.0, 1.0)).collect();
    let s = scored(&hours, afternoon(), SurfaceState::default());
    let p = penalty(&s, Component::Precipitation).expect("precipitation penalty");
    assert_eq!(p.message, "1.0 mm/t i snitt");
}

#[test]
fn high_probability_emits_probability_penalty_when_amount_is_low() {
    let hours: Vec<HourlyConditions> = (14..17)
        .map(|h| HourlyConditions {
            probability_of_precip: Some(reading(90.0)),
            ..minimal(t(h), 17.0, 2.0, 0.0)
        })
        .collect();
    let s = scored(&hours, afternoon(), SurfaceState::default());
    let prob_pen = penalty(&s, Component::PrecipProbability).expect("penalty for 90 %");
    assert!(prob_pen.message.contains("90"));
}

#[test]
fn saturated_ground_emits_ground_penalty() {
    let s = scored(&nice_hours(), afternoon(), wet(5.0));
    let g = penalty(&s, Component::Ground).expect("saturated ground is penalised");
    assert_eq!(g.severity, Severity::Major);
    assert_eq!(g.message, "gjennomvåt (5.0 mm akkumulert)");
}

#[test]
fn hard_cap_emits_critical_penalty() {
    let mut hours = nice_hours();
    hours[1].precipitation_mm = reading(6.0);
    let s = scored(&hours, afternoon(), SurfaceState::default());
    assert!(s.hard_capped);
    let crit = s.penalties.iter().find(|p| p.severity == Severity::Critical).unwrap();
    assert_eq!(crit.component, Component::HardCap);
    assert!(crit.message.to_lowercase().contains("kraftig"));
    assert_eq!(crit.message, "Kraftig regn ventet (6.0 mm/t) — score hard-cappet");
}

#[test]
fn storm_wind_hard_cap_emits_critical_penalty_mentioning_wind() {
    let mut hours = nice_hours();
    hours[2].wind_speed_ms = reading(18.0);
    let s = scored(&hours, afternoon(), SurfaceState::default());
    assert!(s.hard_capped);
    let crit = s
        .penalties
        .iter()
        .find(|p| p.severity == Severity::Critical && p.component == Component::HardCap)
        .unwrap();
    assert!(crit.message.to_lowercase().contains("storm"));
    assert_eq!(crit.message, "Stormvind ventet (18.0 m/s) — score hard-cappet");
}

#[test]
fn penalties_sorted_by_severity_descending() {
    let mut hs: Vec<HourlyConditions> = (14..17).map(|h| minimal(t(h), 17.0, 5.0, 0.0)).collect();
    hs[0].precipitation_mm = reading(6.0);
    let s = scored(&hs, afternoon(), wet(5.0));
    assert!(
        s.penalties.windows(2).all(|w| w[0].severity >= w[1].severity),
        "penalties not sorted: {:?}",
        s.penalties
    );
    assert_eq!(s.penalties[0].severity, Severity::Critical);
    assert!(s.penalties.len() >= 3);
}

#[test]
fn severity_orders_critical_above_major_above_minor() {
    assert!(Severity::Critical > Severity::Major);
    assert!(Severity::Major > Severity::Minor);
}

#[test]
fn severities_follow_the_sub_score() {
    assert_eq!(severity_for(100), None);
    assert_eq!(severity_for(80), None);
    assert_eq!(severity_for(79), Some(Severity::Minor));
    assert_eq!(severity_for(60), Some(Severity::Minor));
    assert_eq!(severity_for(59), Some(Severity::Major));
    assert_eq!(severity_for(0), Some(Severity::Major));
}

#[test]
fn score_emits_drought_penalty_after_long_dry_spell() {
    let s = scored(&nice_hours(), afternoon(), surface(0.0, 96));
    let drought = s
        .penalties
        .iter()
        .find(|p| p.component == Component::Ground && p.message.to_lowercase().contains("tørt"))
        .expect("a note after 96 dry hours");
    assert_eq!(drought.severity, Severity::Minor);
    assert!(drought.message.contains("4 døgn"), "got {:?}", drought.message);
}

#[test]
fn a_drought_at_the_cap_is_marked_as_a_lower_bound() {
    let mut ground = surface(0.0, 168);
    ground.drought_at_lookback_cap = true;
    let s = scored(&nice_hours(), afternoon(), ground);
    let p = penalty(&s, Component::Ground).unwrap();
    assert_eq!(p.message, "tørt og løst dekke (7+ døgn uten regn)");
}

#[test]
fn score_drought_does_not_fire_when_ground_is_wet() {
    let s = scored(&nice_hours(), afternoon(), surface(5.0, 200));
    assert!(!s.penalties.iter().any(|p| p.message.to_lowercase().contains("tørt")));
}

#[test]
fn score_dry_and_drought_combine_within_soft_hint_budget() {
    let hours = nice_hours();
    let baseline = scored(&hours, afternoon(), surface(0.4, 0));
    let parched = scored(&hours, afternoon(), surface(0.0, 240));
    assert!(parched.total < baseline.total);
    assert!(baseline.total - parched.total <= 5);
}

#[test]
fn noticeable_sun_is_a_highlight() {
    let hours: Vec<HourlyConditions> = (14..17)
        .map(|h| HourlyConditions {
            cloud_area_fraction: Some(reading(0.0)),
            uv_index_clear_sky: Some(reading(7.0)),
            ..minimal(t(h), 8.0, 0.0, 0.0)
        })
        .collect();
    let s = scored(&hours, afternoon(), SurfaceState::default());
    assert_eq!(s.highlights, ["Sol bidrar med +3.5 °C"]);
    let overcast = scored(&nice_hours(), afternoon(), SurfaceState::default());
    assert!(overcast.highlights.is_empty());
}

#[test]
fn peaks_are_taken_inside_the_window() {
    let mut hours = nice_hours();
    hours[0].wind_gust_ms = Some(reading(4.0));
    hours[2].wind_gust_ms = Some(reading(9.0));
    hours.push(HourlyConditions {
        wind_gust_ms: Some(reading(30.0)),
        ..nice_hour(t(18))
    });
    let window = afternoon();
    assert_eq!(peak_in_window(&hours, window, Signal::Gust), Some(reading(9.0)));
    assert_eq!(peak_in_window(&hours, window, Signal::Probability), Some(reading(5.0)));
    assert_eq!(peak_in_window(&hours, window, Signal::Wind), Some(reading(2.0)));
    let none: Vec<HourlyConditions> = Vec::new();
    assert_eq!(peak_in_window(&none, window, Signal::Precipitation), None);
    assert_eq!(largest(&vec![reading(-3.0), reading(-7.0)]), Some(reading(-3.0)));
}

// ---- Best sub-window ----

fn day_window(start_hour: u32, length_hours: i64) -> RideWindow {
    RideWindow::from_hours(t(start_hour), length_hours)
}

fn best_excluding(
    hours: &Vec<HourlyConditions>,
    day: RideWindow,
    length: i64,
    blocked: &Vec<RideWindow>,
) -> Option<OptimalWindow> {
    let ground = SurfaceState::default();
    let day_score = scored(hours, day, ground);
    let scores = best_window_candidates(hours, day, length, blocked)
        .into_iter()
        .map(|w| scored(hours, w, ground))
        .collect();
    find_best_window_excluding(hours, day, length, blocked, &day_score, scores)
}

fn best(hours: &Vec<HourlyConditions>, day: RideWindow, length: i64) -> Option<OptimalWindow> {
    let ground = SurfaceState::default();
    let day_score = scored(hours, day, ground);
    let scores = best_window_candidates(hours, day, length, &Vec::new())
        .into_iter()
        .map(|w| scored(hours, w, ground))
        .collect();
    find_best_window(hours, day, length, &day_score, scores)
}

fn computed(
    hours: &Vec<HourlyConditions>,
    day: RideWindow,
    now: i128,
    config: &BestWindowConfig,
) -> DayScore {
    let ground = SurfaceState::default();
    let scores = best_window_candidates(hours, day, config.length_hours, &config.excluded_windows)
        .into_iter()
        .map(|w| scored(hours, w, ground))
        .collect();
    let day_score = scored(hours, day, ground);
    compute_day(hours, day, now, config, &sky_for(hours, day), day_score, scores)
}

fn rainy_noon() -> Vec<HourlyConditions> {
    let mut hours: Vec<HourlyConditions> = (6..9).map(|h| nice_hour(t(h))).collect();
    hours.extend((9..15).map(|h| awful_hour(t(h))));
    hours.extend((15..20).map(|h| nice_hour(t(h))));
    hours
}

fn uniform_day() -> Vec<HourlyConditions> {
    (6..18).map(|h| nice_hour(t(h))).collect()
}

#[test]
fn best_window_finds_only_dry_stretch_in_a_rainy_day() {
    let ow = best(&rainy_noon(), day_window(6, 14), 3).expect("a best window");
    let start_h = (ow.window.start - t(0)) / HOUR;
    assert!([6, 7, 15, 16, 17].contains(&start_h), "started at {start_h}");
    assert!(ow.improvement > 0);
}

#[test]
fn best_window_returns_none_when_day_is_uniformly_perfect() {
    let ow = best(&uniform_day(), day_window(6, 12), 3).unwrap();
    assert_eq!(ow.improvement, 0);
}

#[test]
fn best_window_excludes_overlapping_windows() {
    let blocked = vec![RideWindow { start: t(8), end: t(15) }];
    let ow = best_excluding(&rainy_noon(), day_window(6, 14), 3, &blocked).expect("afternoon");
    assert!(ow.window.start >= t(15), "got {:?}", ow.window);
}

#[test]
fn best_window_returns_none_when_day_shorter_than_length() {
    let hours: Vec<HourlyConditions> = (6..8).map(|h| nice_hour(t(h))).collect();
    assert!(best(&hours, day_window(6, 2), 3).is_none());
}

#[test]
fn best_window_returns_none_when_no_hours_in_window() {
    let hours: Vec<HourlyConditions> = (30..33).map(|h| nice_hour(t(h))).collect();
    assert!(best(&hours, day_window(6, 12), 3).is_none());
}

#[test]
fn the_earliest_of_equal_windows_wins() {
    let ow = best(&uniform_day(), day_window(6, 12), 3).unwrap();
    assert_eq!(ow.window, RideWindow { start: t(6), end: t(9) });
}

#[test]
fn candidates_stand_an_hour_apart() {
    let windows = best_window_candidates(&uniform_day(), day_window(6, 5), 3, &Vec::new());
    let starts: Vec<i128> = windows.iter().map(|w| w.start).collect();
    assert_eq!(starts, [t(6), t(7), t(8)]);
    assert!(best_window_candidates(&uniform_day(), day_window(6, 5), 0, &Vec::new()).is_empty());
    assert!(windows_overlap(windows[0], windows[1]));
    assert!(!windows_overlap(windows[0], RideWindow { start: t(9), end: t(10) }));
}

#[test]
fn compute_day_surfaces_optimal_window_when_improvement_clears_threshold() {
    let ds = computed(&rainy_noon(), day_window(6, 14), t(5), &BestWindowConfig::default());
    let ow = ds.optimal_window.expect("expected an opening");
    assert!(ow.score.total > ds.score.total);
    assert!(ow.improvement >= DEFAULT_OPTIMAL_IMPROVEMENT);
}

#[test]
fn compute_day_omits_optimal_window_when_improvement_is_small() {
    let ds = computed(&uniform_day(), day_window(6, 12), t(5), &BestWindowConfig::default());
    assert!(ds.optimal_window.is_none());
}

#[test]
fn best_window_reason_is_nedbor_for_dry_stretch_in_a_rainy_day() {
    let ow = best(&rainy_noon(), day_window(6, 14), 3).unwrap();
    assert_eq!(ow.reason, Some(BestWindowReason::Nedbor));
}

#[test]
fn best_window_reason_is_vind_when_only_wind_axis_differs() {
    let mut hours = uniform_day();
    for hour in hours.iter_mut().take(3) {
        hour.wind_speed_ms = reading(9.0);
    }
    for hour in hours.iter_mut().skip(9) {
        hour.wind_speed_ms = reading(9.0);
    }
    let ow = best(&hours, day_window(6, 12), 3).unwrap();
    assert_eq!(ow.reason, Some(BestWindowReason::Vind));
}

#[test]
fn best_window_reason_is_minst_kald_when_window_below_plateau() {
    let mut hours: Vec<HourlyConditions> = (6..18)
        .map(|h| HourlyConditions {
            probability_of_precip: Some(reading(5.0)),
            ..minimal(t(h), 4.0, 2.0, 0.0)
        })
        .collect();
    for hour in hours.iter_mut().skip(3).take(3) {
        hour.temperature_c = reading(8.0);
    }
    let ow = best(&hours, day_window(6, 12), 3).unwrap();
    assert_eq!(ow.reason, Some(BestWindowReason::MinstKald));
}

#[test]
fn best_window_reason_is_mildest_when_window_lands_in_temp_plateau() {
    let mut hours: Vec<HourlyConditions> = (6..18)
        .map(|h| HourlyConditions {
            probability_of_precip: Some(reading(5.0)),
            relative_humidity: Some(reading(70.0)),
            ..minimal(t(h), 17.0, 2.0, 0.0)
        })
        .collect();
    for hour in hours.iter_mut().skip(3) {
        hour.temperature_c = reading(32.0);
    }
    let ow = best(&hours, day_window(6, 12), 3).unwrap();
    assert_eq!(ow.reason, Some(BestWindowReason::Mildest));
}

#[test]
fn best_window_reason_is_none_for_uniform_day() {
    let ow = best(&uniform_day(), day_window(6, 12), 3).unwrap();
    assert_eq!(ow.reason, None);
    assert_eq!(ow.improvement, 0);
}

#[test]
fn compute_day_with_zero_threshold_always_emits_window() {
    let config = BestWindowConfig {
        length_hours: 2,
        min_improvement: 0,
        excluded_windows: Vec::new(),
    };
    let ds = computed(&uniform_day(), day_window(6, 12), t(5), &config);
    let ow = ds.optimal_window.expect("a best window with zero threshold");
    assert_eq!(ow.improvement, 0);
    assert_eq!(ow.window.duration_hours(), 2);
}

// ---- Confidence ----

fn confidence_of_day(day_of_april: u32, six_hourly: bool) -> Confidence {
    let start = at(2026, 4, 1, 0) + i128::from(day_of_april - 1) * 24 * HOUR;
    let hours: Vec<HourlyConditions> = (6..18)
        .map(|h| {
            let mut hour = nice_hour(start + h * HOUR);
            if six_hourly {
                hour.resolution = Resolution::SixHourly;
            }
            hour
        })
        .collect();
    let day = RideWindow::from_hours(start + 6 * HOUR, 12);
    computed(&hours, day, t(5), &BestWindowConfig::default()).confidence
}

#[test]
fn confidence_high_for_today_with_only_hourly_data() {
    assert_eq!(confidence_of_day(26, false), Confidence::Hoy);
}

#[test]
fn confidence_medium_for_a_day_two_days_out() {
    assert_eq!(confidence_of_day(28, false), Confidence::Middels);
}

#[test]
fn confidence_low_for_day_more_than_five_days_out() {
    assert_eq!(confidence_of_day(33, false), Confidence::Lav);
}

#[test]
fn confidence_low_when_majority_six_hourly_even_within_horizon() {
    assert_eq!(confidence_of_day(27, true), Confidence::Lav);
}

#[test]
fn confidence_has_labels_and_ranks() {
    assert_eq!(Confidence::Hoy.label(Language::Norwegian), "høy");
    assert_eq!(Confidence::Lav.label(Language::Swedish), "låg");
    assert!(Confidence::Hoy.rank() > Confidence::Middels.rank());
    assert!(Confidence::Middels.rank() > Confidence::Lav.rank());
}

#[test]
fn compute_day_counts_in_window_hours() {
    let hours: Vec<HourlyConditions> = (4..20).map(|h| nice_hour(t(h))).collect();
    let ds = computed(&hours, day_window(6, 12), t(5), &BestWindowConfig::default());
    assert_eq!(ds.hours_with_data, 12);
}

// ---- Weather icon ----

fn icon(hours: &Vec<HourlyConditions>) -> &'static str {
    weather_icon_for(hours, &sky_for(hours, day_window(6, 12)))
}

fn with_clouds(cloud_pct: f64) -> Vec<HourlyConditions> {
    (6..18)
        .map(|h| HourlyConditions {
            cloud_area_fraction: Some(reading(cloud_pct)),
            ..nice_hour(t(h))
        })
        .collect()
}

fn cloudy(cloud: f64, temp: f64, wind: f64, precip: f64) -> Vec<HourlyConditions> {
    (6..18)
        .map(|h| HourlyConditions {
            cloud_area_fraction: Some(reading(cloud)),
            ..minimal(t(h), temp, wind, precip)
        })
        .collect()
}

#[test]
fn weather_icon_sun_for_clear_sky() {
    assert_eq!(icon(&with_clouds(10.0)), "☀");
}

#[test]
fn weather_icon_partly_cloudy_for_mid_cloud() {
    assert_eq!(icon(&with_clouds(60.0)), "⛅");
}

#[test]
fn weather_icon_overcast_for_heavy_cloud() {
    assert_eq!(icon(&with_clouds(95.0)), "☁");
}

#[test]
fn weather_icon_rain_when_max_hourly_above_drizzle_threshold() {
    let mut hs = cloudy(90.0, 8.0, 2.0, 0.0);
    hs[3].precipitation_mm = reading(0.8);
    assert_eq!(icon(&hs), "🌧");
}

#[test]
fn weather_icon_rain_when_total_above_3mm_even_if_no_spike() {
    assert_eq!(icon(&cloudy(90.0, 8.0, 2.0, 0.3)), "🌧");
}

#[test]
fn weather_icon_brief_shower_falls_back_to_cloud_not_rain() {
    let mut hs = cloudy(60.0, 12.0, 2.0, 0.0);
    hs[5].precipitation_mm = reading(0.2);
    let icon = icon(&hs);
    assert!(icon == "⛅" || icon == "☀" || icon == "☁", "got {icon:?}");
}

#[test]
fn weather_icon_snow_when_precip_and_freezing() {
    let mut hs = cloudy(90.0, -3.0, 2.0, 0.0);
    hs[3].precipitation_mm = reading(0.8);
    assert_eq!(icon(&hs), "🌨");
}

#[test]
fn weather_icon_wind_dominates_when_max_wind_above_10() {
    assert_eq!(icon(&cloudy(20.0, 12.0, 11.0, 0.0)), "🌬");
}

#[test]
fn weather_icon_falls_back_when_no_cloud_data_and_dry() {
    assert_eq!(icon(&uniform_day()), "⛅");
}

#[test]
fn weather_icon_comes_with_the_day() {
    let ds = computed(
        &with_clouds(10.0),
        day_window(6, 12),
        t(5),
        &BestWindowConfig::default(),
    );
    assert_eq!(ds.weather_icon, "☀");
}

// ---- Surface ----

fn dry_hour(h: u32) -> HourlyConditions {
    HourlyConditions {
        cloud_area_fraction: Some(reading(20.0)),
        uv_index_clear_sky: Some(reading(4.0)),
        relative_humidity: Some(reading(40.0)),
        ..minimal(t(h), 18.0, 4.0, 0.0)
    }
}

fn rainy_hour(h: u32, mm: f64) -> HourlyConditions {
    HourlyConditions {
        cloud_area_fraction: Some(reading(95.0)),
        uv_index_clear_sky: Some(reading(0.0)),
        relative_humidity: Some(reading(95.0)),
        ..minimal(t(h), 12.0, 3.0, mm)
    }
}

fn stepped(state: SurfaceState, h: &HourlyConditions) -> SurfaceState {
    drying_step(state, water_after(state.accumulated_mm, h, &DryingParams::default()))
}

fn replayed(initial: SurfaceState, history: &[HourlyConditions]) -> SurfaceState {
    let p = DryingParams::default();
    let mut on_surface = initial.accumulated_mm;
    let mut water = Vec::new();
    for h in history {
        on_surface = water_after(on_surface, h, &p);
        water.push(on_surface);
    }
    replay(initial, &water)
}

#[test]
fn new_clamps_negative_to_zero() {
    assert_eq!(wet(-1.0).accumulated_mm, reading(0.0));
}

#[test]
fn saturated_threshold() {
    assert!(!wet(4.99).is_saturated());
    assert!(wet(5.0).is_saturated());
    assert!(wet(10.0).is_saturated());
}

#[test]
fn surface_state_new_clamps_above_saturation() {
    assert_eq!(wet(100.0).accumulated_mm, GROUND_SATURATED);
}

#[test]
fn surface_state_new_treats_nan_as_zero() {
    let s = wet(f64::NAN);
    assert_eq!(s.accumulated_mm, reading(0.0));
    assert!(!s.is_saturated());
}

#[test]
fn surface_state_new_treats_inf_as_zero() {
    assert_eq!(wet(f64::INFINITY).accumulated_mm, reading(0.0));
    assert_eq!(wet(f64::NEG_INFINITY).accumulated_mm, reading(0.0));
}

#[test]
fn rain_adds_water_during_step() {
    let s2 = stepped(wet(0.0), &rainy_hour(0, 2.0));
    assert!(s2.accumulated_mm > reading(0.4));
    assert!(s2.accumulated_mm <= reading(2.0));
}

#[test]
fn dry_warm_hour_actually_dries() {
    let s = wet(2.0);
    assert!(stepped(s, &dry_hour(12)).accumulated_mm < s.accumulated_mm);
}

#[test]
fn step_caps_at_saturation() {
    assert!(stepped(wet(4.0), &rainy_hour(0, 50.0)).accumulated_mm <= GROUND_SATURATED);
    assert_eq!(drying_step(wet(4.0), reading(9.0)).accumulated_mm, GROUND_SATURATED);
}

#[test]
fn step_floor_zero() {
    assert_eq!(stepped(wet(0.0), &dry_hour(0)).accumulated_mm, reading(0.0));
    assert_eq!(drying_step(wet(0.0), reading(-1.0)).accumulated_mm, reading(0.0));
}

#[test]
fn drought_counter_resets_when_surface_actually_gets_wet() {
    let s2 = stepped(surface(0.0, 50), &rainy_hour(0, 0.5));
    assert_eq!(s2.hours_since_meaningful_rain, 0);
}

#[test]
fn drought_counter_does_not_reset_on_micro_sprinkle() {
    let s2 = stepped(surface(0.0, 50), &rainy_hour(0, 0.1));
    assert_eq!(s2.hours_since_meaningful_rain, 51);
}

#[test]
fn drought_counter_resets_after_drizzle_accumulates() {
    let mut s = surface(0.0, 50);
    for h in 0..4 {
        s = stepped(s, &rainy_hour(h, 0.2));
    }
    assert_eq!(s.hours_since_meaningful_rain, 0);
}

#[test]
fn drought_counter_increments_on_dry_hours() {
    let mut s = SurfaceState::default();
    for h in 0..3 {
        s = stepped(s, &dry_hour(h));
    }
    assert_eq!(s.hours_since_meaningful_rain, 3);
}

#[test]
fn replay_48h_no_rain_yields_dry() {
    let history: Vec<_> = (0..48).map(|h| dry_hour(h % 24)).collect();
    assert_eq!(replayed(wet(3.0), &history).accumulated_mm, reading(0.0));
}

#[test]
fn replay_continuous_rain_yields_wet_surface() {
    let history: Vec<_> = (0..24).map(|h| rainy_hour(h % 24, 3.0)).collect();
    let end = replayed(wet(0.0), &history);
    assert!(end.accumulated_mm > reading(2.0));
    assert!(ground_score(number(end.accumulated_mm)) <= 50);
}

#[test]
fn replay_then_recover() {
    let mut history: Vec<HourlyConditions> = (0..6).map(|h| rainy_hour(h, 3.0)).collect();
    history.extend((6..30).map(|h| dry_hour(h % 24)));
    assert!(replayed(wet(0.0), &history).accumulated_mm < reading(1.0));
}

#[test]
fn replay_is_deterministic() {
    let history: Vec<_> = (0..12)
        .map(|h| if h % 4 == 0 { rainy_hour(h, 1.5) } else { dry_hour(h) })
        .collect();
    assert_eq!(replayed(wet(0.0), &history), replayed(wet(0.0), &history));
}

#[test]
fn replay_empty_history_returns_initial() {
    let s = wet(2.5);
    assert_eq!(replay(s, &Vec::new()), s);
}

#[test]
fn replay_tracks_drought_across_history() {
    let history: Vec<_> = (0..168).map(|h| dry_hour(h % 24)).collect();
    let end = replayed(SurfaceState::default(), &history);
    assert_eq!(end.hours_since_meaningful_rain, 168);
}

#[test]
fn replay_drought_counter_picks_up_from_last_rain() {
    let mut history: Vec<HourlyConditions> = (0..24).map(|h| rainy_hour(h, 2.0)).collect();
    history.extend((24..124).map(|h| dry_hour(h % 24)));
    let end = replayed(SurfaceState::default(), &history);
    assert!((60..=100).contains(&end.hours_since_meaningful_rain));
}

#[test]
fn a_replay_taken_up_again_ends_the_same() {
    let first = vec![reading(0.5), reading(0.2)];
    let second = vec![reading(0.1), reading(0.4), reading(0.0)];
    let both: Vec<Reading> = first.iter().chain(second.iter()).copied().collect();
    let start = SurfaceState::default();
    assert_eq!(replay(start, &both), replay(replay(start, &first), &second));
    assert_eq!(replay(start, &both).hours_since_meaningful_rain, 1);
}

// ---- Felt temperature ----

fn chill(t_c: f64, wind_ms: f64) -> Option<Reading> {
    let v = wind_ms.max(0.0) * 3.6;
    let v = if wind_ms.is_nan() { f64::NAN } else { v };
    let formula = wind_chill_formula(t_c, v);
    felt_temp::wind_chill_c(finite(t_c), finite(v), finite(formula).unwrap_or(0))
}

fn index(t_c: f64, rh: f64) -> Option<Reading> {
    let formula = heat_index_formula(t_c, rh);
    felt_temp::heat_index_c(finite(t_c), finite(rh), finite(formula).unwrap_or(0))
}

fn between_c(r: Option<Reading>, lo: f64, hi: f64) -> bool {
    r.is_some_and(|r| (lo..hi).contains(&number(r)))
}

#[test]
fn wind_chill_passthrough_when_warm() {
    assert_eq!(chill(15.0, 8.0), finite(15.0));
}

#[test]
fn wind_chill_passthrough_when_calm() {
    assert_eq!(chill(0.0, 1.0), finite(0.0));
}

#[test]
fn wind_chill_passthrough_on_nan() {
    assert_eq!(chill(f64::NAN, 5.0), None);
    assert_eq!(chill(0.0, f64::NAN), finite(0.0));
}

#[test]
fn wind_chill_zero_celsius_moderate_wind() {
    assert!(between_c(chill(0.0, 5.0), -5.5, -3.0));
}

#[test]
fn wind_chill_minus_ten_strong_wind() {
    assert!(between_c(chill(-10.0, 10.0), -22.0, -18.0));
}

#[test]
fn heat_index_passthrough_when_cool_or_dry() {
    assert_eq!(index(22.0, 30.0), finite(22.0));
    assert_eq!(index(18.0, 90.0), finite(18.0));
}

#[test]
fn heat_index_warm_humid_adds_load() {
    assert!(between_c(index(30.0, 70.0), 33.0, 37.0));
}

#[test]
fn heat_index_never_cools() {
    assert_eq!(felt_temp::heat_index_c(finite(28.0), finite(10.0), reading(26.0)), finite(28.0));
}

#[test]
fn apparent_temp_cold_side_uses_chill() {
    assert!(apparent_temp(0.0, 8.0, None) < -5.0);
}

#[test]
fn apparent_temp_calm_cold_still_chills_from_self_wind() {
    assert!((-5.5..-2.0).contains(&apparent_temp(0.0, 0.0, None)));
}

#[test]
fn apparent_temp_neutral_band_passes_through() {
    assert_eq!(apparent_temp(15.0, 5.0, Some(60.0)), 15.0);
    assert_eq!(apparent_temp(18.0, 12.0, None), 18.0);
}

#[test]
fn apparent_temp_warm_humid_uses_heat_index() {
    assert!((30.0..34.0).contains(&apparent_temp(28.0, 2.0, Some(75.0))));
}

#[test]
fn apparent_temp_warm_no_humidity_passes_through() {
    assert_eq!(apparent_temp(28.0, 2.0, None), 28.0);
}

#[test]
fn apparent_temp_handles_nan() {
    assert_eq!(felt_temp::apparent_temp(None, finite(5.0), finite(70.0), 0, 0), None);
}

#[test]
fn solar_warming_needs_cloud_cover() {
    assert_eq!(solar_warming_c(Some(0.0), Some(7.0), 0.0), 3.5);
    assert_eq!(solar_warming_c(Some(100.0), Some(7.0), 0.0), 0.0);
    assert_eq!(solar_warming_c(Some(0.0), Some(0.0), 0.0), 0.0);
    assert_eq!(solar_warming_c(Some(0.0), None, 0.0), 1.75);
    assert_eq!(solar_warming_c(None, Some(7.0), 0.0), 0.0);
    assert_eq!(sunshine(None, Some(reading(7.0))), Sunshine::Unknown);
}

#[test]
fn frozen_surfaces_keep_their_water() {
    let frozen = minimal(t(0), -3.0, 0.0, 0.0);
    assert!(is_frozen(&frozen));
    assert!(!is_frozen(&minimal(t(0), 0.0, 0.0, 0.0)));
    let kept = stepped(wet(4.0), &frozen).accumulated_mm;
    assert!(kept > reading(3.9));
    assert_eq!(after_rain(reading(7.5)), GROUND_SATURATED);
    assert_eq!(after_rain(reading(2.5)), reading(2.5));
}
