//! Runs and reports.
#![allow(dead_code)]

use chrono::{TimeZone, Utc};
use unicode_width::UnicodeWidthStr;

use grusindeks::aggregate::{
    center_label, compass_label, mean_floor, mean_round, AggregateScore, DayAggregate, HourScore,
    HourlyDayAggregate, HourlyForecast, MultiDayForecast, RainHistory,
};
use grusindeks::conditions::{
    hours_in_window, peak_in_window, HourlyConditions, Resolution, Signal,
};
use grusindeks::config::Point;
use grusindeks::daily::{best_window_candidates, BestWindowConfig, Confidence, SkySummary};
use grusindeks::drying::{
    after_rain, is_frozen, project_states_for_days, replay_hours, replay_into_state, surfaces_for,
    SurfaceOutlook, SurfaceState,
};
use grusindeks::felt_temp::{self, sunshine, Sunshine};
use grusindeks::frost::HourlyObservation;
use grusindeks::lang::Language;
use grusindeks::nowcast::{
    apply_nowcast_overrides, bucket_steps, build_nowcast_alert, Nowcast, NowcastAlert,
    NowcastStep,
};
use grusindeks::output::bars::{
    colored_bar, fill_up, hourly_block_glyph, icon_gap_for, icon_pad, pad_right, sparkline_glyph,
    trend_arrow,
};
use grusindeks::output::chips::{
    best_window_rain_trailer, format_tall_line, nowcast_banner, rain_history_chip_content,
    window_stats_chip_content,
};
use grusindeks::output::days::{callout_box, pick_best_day, write_week_trend};
use grusindeks::output::hours::{hourly_cell, Shown};
use grusindeks::output::labels::{
    combined_precip, day_label, format_time_until, month, weekday,
};
use grusindeks::output::{render_hourly, render_human, render_multi_day, ChipFlags, Setting};
use grusindeks::rain_history::{compute_rain_history, rain_by_day, wet_days};
use grusindeks::reading::{Measured, Reading};
use grusindeks::run::{
    center_hours, every_bucket_start, hour_bucket_starts, hour_confidence, run_forecast,
    run_hourly, run_score, sort_by_point, surface_at, usable_nowcast, DaySignals, HourlySignals,
    PointForecast,
};
use grusindeks::score::curves::{
    ground_stretch, precip_stretch, precip_subscore, temp_stretch, temp_subscore, wind_stretch,
    Stretch,
};
use grusindeks::score::{
    score, wind_subscore, ScoreBreakdown, WindSignal, WindowFigures,
    WindowSignals, WindowStats,
};
use grusindeks::time::{Date, LocalClock, OffsetChange, RideWindow};
use grusindeks::windows::DayWindow;

/// The reading of a finite number.
fn reading(x: f64) -> Reading {
    let magnitude = x.abs().to_bits() as i64;
    if x < 0.0 {
        -magnitude
    } else {
        magnitude
    }
}

/// The reading of a number, if it is finite.
fn finite(x: f64) -> Option<Reading> {
    if x.is_finite() {
        Some(reading(x))
    } else {
        None
    }
}

/// The number behind a reading.
fn number(r: Reading) -> f64 {
    if r < 0 {
        -f64::from_bits(r.unsigned_abs())
    } else {
        f64::from_bits(r as u64)
    }
}

/// A finite number with its printed form.
fn measured(x: f64, decimals: usize) -> Measured {
    Measured {
        reading: reading(x),
        text: format!("{x:.decimals$}"),
    }
}

/// Cyclist self-generated wind at gravel cruising speed (about 18 km/h).
const CYCLING_WIND_MS: f64 = 5.0;

/// UV index at the upper end of a Nordic summer noon.
const UV_NORDIC_PEAK: f64 = 7.0;

/// Maximum °C added to the felt temperature by direct sunshine.
const SOLAR_MAX_C: f64 = 3.5;

/// Wind attenuation slope in `1 / (1 + k · v)`.
const SOLAR_WIND_K: f64 = 0.1;

/// Multiplier of the drying rate below freezing.
const FROST_FACTOR: f64 = 0.1;

/// Gusts count from this multiple of the mean wind.
const GUST_RATIO_THRESHOLD: f64 = 1.5;

// ---- Felt temperature ----

/// Wind chill by the NWS / Environment Canada regression.
fn wind_chill_formula(t_c: f64, v_kmh: f64) -> f64 {
    let v_pow = v_kmh.powf(0.16);
    13.12 + 0.6215 * t_c - 11.37 * v_pow + 0.3965 * t_c * v_pow
}

/// Heat index by the NWS Rothfusz regression.
fn heat_index_formula(t_c: f64, rh_pct: f64) -> f64 {
    let rh = rh_pct.clamp(0.0, 100.0);
    let t_f = t_c * 1.8 + 32.0;
    let t2 = t_f * t_f;
    let rh2 = rh * rh;
    let hi_f = -42.379 + 2.049_015_23 * t_f + 10.143_331_27 * rh
        - 0.224_755_41 * t_f * rh
        - 6.837_83e-3 * t2
        - 5.481_717e-2 * rh2
        + 1.228_74e-3 * t2 * rh
        + 8.528_2e-4 * t_f * rh2
        - 1.99e-6 * t2 * rh2;
    (hi_f - 32.0) / 1.8
}

/// The airflow over a moving rider: ambient wind and riding speed in
/// quadrature.
fn cyclist_effective_wind_ms(ambient_ms: f64) -> f64 {
    let a = ambient_ms.max(0.0);
    (a * a + CYCLING_WIND_MS * CYCLING_WIND_MS).sqrt()
}

/// Felt temperature of finite conditions.
fn apparent_temp(t_c: f64, wind_ms: f64, humidity_pct: Option<f64>) -> f64 {
    let v_kmh = cyclist_effective_wind_ms(wind_ms) * 3.6;
    let chill = wind_chill_formula(t_c, v_kmh);
    let heat = humidity_pct.map_or(t_c, |rh| heat_index_formula(t_c, rh));
    let felt = felt_temp::apparent_temp(
        finite(t_c),
        finite(v_kmh),
        humidity_pct.and_then(finite),
        reading(chill),
        reading(heat),
    );
    felt.map_or(t_c, number)
}

/// What the sun adds to the felt temperature.
fn solar_warming_c(cloud_pct: Option<f64>, uv_clear_sky: Option<f64>, wind_ms: f64) -> f64 {
    let known = sunshine(cloud_pct.and_then(finite), uv_clear_sky.and_then(finite));
    let attenuation = 1.0 / (1.0 + SOLAR_WIND_K * wind_ms.max(0.0));
    SOLAR_MAX_C * brightness(known) * attenuation
}

/// How much of the brightest sunshine there is.
fn brightness(known: Sunshine) -> f64 {
    let clear = |cloud: Reading| (1.0 - number(cloud) / 100.0).clamp(0.0, 1.0);
    match known {
        Sunshine::Measured {
            cloud_pct,
            uv_clear_sky,
        } => clear(cloud_pct) * (number(uv_clear_sky) / UV_NORDIC_PEAK).clamp(0.0, 1.5),
        Sunshine::CloudOnly { cloud_pct } => 0.5 * clear(cloud_pct),
        Sunshine::Unknown => 0.0,
    }
}

// ---- Water balance ----

/// Coefficients of the drying rate (mm/h) and of the drainage.
#[derive(Debug, Clone, Copy)]
struct DryingParams {
    base: f64,
    per_deg_c_above_5: f64,
    per_ms_wind: f64,
    sunshine_max: f64,
    per_pct_humidity_above_50: f64,
    min_rate: f64,
    max_rate: f64,
    /// Water that the gravel holds against gravity.
    field_capacity_mm: f64,
    /// Fraction of the free water that drains each hour.
    drainage_fraction: f64,
}

impl Default for DryingParams {
    fn default() -> Self {
        Self {
            base: 0.05,
            per_deg_c_above_5: 0.010,
            per_ms_wind: 0.020,
            sunshine_max: 0.050,
            per_pct_humidity_above_50: 0.005,
            min_rate: 0.0,
            max_rate: 1.5,
            field_capacity_mm: 0.4,
            drainage_fraction: 0.5,
        }
    }
}

/// Drying rate (mm/h) for one hour.
fn drying_rate(h: &HourlyConditions, p: &DryingParams) -> f64 {
    let temp_c = number(h.temperature_c);
    let wind = number(h.wind_speed_ms).max(0.0);
    let temp_term = p.per_deg_c_above_5 * (temp_c - 5.0).max(0.0);
    let wind_term = p.per_ms_wind * 2.0 * wind.sqrt();
    let known = sunshine(h.cloud_area_fraction, h.uv_index_clear_sky);
    let sunshine_term = p.sunshine_max * brightness(known);
    let humidity_penalty = h.relative_humidity.map_or(0.0, |rh| {
        p.per_pct_humidity_above_50 * (number(rh) - 50.0).max(0.0)
    });
    let raw = p.base + temp_term + wind_term + sunshine_term - humidity_penalty;
    let frost_factor = if is_frozen(h) { FROST_FACTOR } else { 1.0 };
    (raw * frost_factor).clamp(p.min_rate, p.max_rate)
}

/// The water that an hour leaves on a surface with `before` on it.
fn water_after(before: Reading, h: &HourlyConditions, p: &DryingParams) -> Reading {
    let precip = number(h.precipitation_mm).max(0.0);
    let standing = number(after_rain(reading(number(before) + precip)));
    let after_drainage = if is_frozen(h) {
        standing
    } else {
        let free = (standing - p.field_capacity_mm).max(0.0);
        standing - free * p.drainage_fraction.clamp(0.0, 1.0)
    };
    reading((after_drainage - drying_rate(h, p)).max(0.0))
}

/// What each hour leaves on a surface with `before` on it at first.
fn water_along(before: Reading, hours: &[HourlyConditions], p: &DryingParams) -> Vec<Reading> {
    let mut water = Vec::with_capacity(hours.len());
    let mut on_surface = before;
    for h in hours {
        on_surface = water_after(on_surface, h, p);
        water.push(on_surface);
    }
    water
}

// ---- Sub-scores ----

/// The rounded score at `x` on a stretch of a curve.
fn between(x: Reading, stretch: Stretch) -> u8 {
    match stretch {
        Stretch::Flat(score) => score,
        Stretch::Sloped(s) => {
            let t = (number(x) - number(s.x_lo)) / (number(s.x_hi) - number(s.x_lo));
            let y = f64::from(s.y_lo) + t * (f64::from(s.y_hi) - f64::from(s.y_lo));
            y.round().clamp(0.0, 100.0) as u8
        }
    }
}

/// Points lost past the end of the wind curve.
fn wind_extra(mean_ms: f64) -> u8 {
    ((mean_ms - 12.0).clamp(0.0, 8.0) * 2.5).round() as u8
}

fn wind_signal(mean_ms: f64, gust_ms: Option<f64>) -> WindSignal {
    WindSignal {
        mean: measured(mean_ms, 1),
        between: between(reading(mean_ms), wind_stretch(reading(mean_ms))),
        extra: wind_extra(mean_ms),
        gust: gust_ms.map(|g| measured(g, 0)),
        gust_limit: reading(GUST_RATIO_THRESHOLD * mean_ms),
    }
}

fn mean(values: &[f64]) -> Option<f64> {
    if values.is_empty() {
        None
    } else {
        Some(values.iter().sum::<f64>() / values.len() as f64)
    }
}

fn each(hours: &[HourlyConditions], of: impl Fn(&HourlyConditions) -> Option<Reading>) -> Vec<f64> {
    hours.iter().filter_map(of).map(number).collect()
}

/// The figures of a window, printed and scored.
fn figures(hours: &[HourlyConditions]) -> Option<WindowFigures> {
    let temps = each(hours, |h| Some(h.temperature_c));
    let mean_temp = mean(&temps)?;
    let lo = temps.iter().copied().fold(f64::INFINITY, f64::min);
    let hi = temps.iter().copied().fold(f64::NEG_INFINITY, f64::max);
    let precip = each(hours, |h| Some(h.precipitation_mm));
    let total = precip.iter().sum::<f64>().max(0.0);
    let wettest = precip.iter().copied().fold(0.0, f64::max);
    let wind = each(hours, |h| Some(h.wind_speed_ms))
        .into_iter()
        .fold(0.0, f64::max);
    let gust = each(hours, |h| h.wind_gust_ms).into_iter().reduce(f64::max);
    let humidity = mean(&each(hours, |h| h.relative_humidity));
    let felt = reading(apparent_temp(mean_temp, wind, humidity));
    Some(WindowFigures {
        min_temp_c: lo.round() as i32,
        max_temp_c: hi.round() as i32,
        total_precip_mm: measured(total, 1),
        max_hourly_precip_mm: measured(wettest, 1),
        max_wind_ms: wind.round() as i32,
        max_gust_ms: gust.map(|g| g.round() as i32),
        temp_score: temp_subscore(Some(felt), between(felt, temp_stretch(felt))),
        precip_score: precip_subscore(
            reading(wettest),
            between(reading(wettest), precip_stretch(reading(wettest))),
        ),
        wind_score: wind_subscore(&wind_signal(wind, gust)),
    })
}

/// What the hours of `hours` that lie in `window` amount to on each axis.
fn signals_for(
    hours: &Vec<HourlyConditions>,
    window: RideWindow,
    surface: Option<SurfaceState>,
) -> WindowSignals {
    let inside = hours_in_window(hours, window);
    let mean_temp = mean(&each(&inside, |h| Some(h.temperature_c))).unwrap_or(0.0);
    let mean_wind = mean(&each(&inside, |h| Some(h.wind_speed_ms))).unwrap_or(0.0);
    let mean_precip = mean(&each(&inside, |h| Some(h.precipitation_mm))).unwrap_or(0.0);
    let humidity = mean(&each(&inside, |h| h.relative_humidity));
    let cloud = mean(&each(&inside, |h| h.cloud_area_fraction));
    let uv = mean(&each(&inside, |h| h.uv_index_clear_sky));
    let sun = solar_warming_c(cloud, uv, mean_wind);
    let felt = apparent_temp(mean_temp, mean_wind, humidity) + sun;
    let peak = |signal| peak_in_window(hours, window, signal).map(number);
    let probability = peak(Signal::Probability).unwrap_or(0.0).clamp(0.0, 100.0);
    let felt_reading = reading(felt);
    let precip_reading = reading(mean_precip);
    let water = surface.map_or(0, |s| s.accumulated_mm);
    WindowSignals {
        mean_temp: measured(mean_temp, 0),
        felt_temp: measured(felt, 0),
        felt_gap: reading((felt - mean_temp).abs()),
        temp_between: between(felt_reading, temp_stretch(felt_reading)),
        mean_wind: measured(mean_wind, 1),
        wind_between: between(reading(mean_wind), wind_stretch(reading(mean_wind))),
        wind_extra: wind_extra(mean_wind),
        gust_limit: reading(GUST_RATIO_THRESHOLD * mean_wind),
        gust_text: format!("{:.0}", peak(Signal::Gust).unwrap_or(0.0)),
        mean_precip: measured(mean_precip, 1),
        precip_between: between(precip_reading, precip_stretch(precip_reading)),
        dry_chance: (100.0 - probability).round() as u8,
        probability_text: format!("{probability:.0}"),
        ground_text: format!("{:.1}", number(water)),
        ground_between: between(water, ground_stretch(water)),
        peak_precip_text: format!("{:.1}", peak(Signal::Precipitation).unwrap_or(0.0)),
        peak_wind_text: format!("{:.1}", peak(Signal::Wind).unwrap_or(0.0)),
        stats: WindowStats {
            figures: figures(&inside),
        },
        sun_warming: measured(sun, 1),
    }
}

/// What the sky is like over the hours that lie in `window`.
fn sky_for(hours: &Vec<HourlyConditions>, window: RideWindow) -> SkySummary {
    let inside = hours_in_window(hours, window);
    let total: f64 = each(&inside, |h| Some(h.precipitation_mm)).iter().sum();
    SkySummary {
        mean_temp: reading(mean(&each(&inside, |h| Some(h.temperature_c))).unwrap_or(0.0)),
        total_precip: reading(total),
        mean_cloud: mean(&each(&inside, |h| h.cloud_area_fraction)).map(reading),
    }
}

/// The precipitation that the radar sees in each hour: twelve five-minute steps
/// fill an hour.
fn radar_mm(hours: &[HourlyConditions], nowcast: &Nowcast) -> Vec<Reading> {
    hours
        .iter()
        .map(|h| {
            let rates: f64 = bucket_steps(nowcast, h.time)
                .into_iter()
                .map(|i| number(nowcast.steps[i].precipitation_rate_mm_h.reading))
                .sum();
            reading(rates / 12.0)
        })
        .collect()
}

// ---- Shorthands ----

const SECOND: i128 = 1_000_000_000;
const MINUTE: i128 = 60 * SECOND;
const HOUR: i128 = 3_600 * SECOND;

/// 2026-04-26, a Sunday.
const TODAY: Date = Date { day_number: 739_732 };

fn t(h: u32) -> i128 {
    let midnight = Utc.with_ymd_and_hms(2026, 4, 26, 0, 0, 0).unwrap();
    i128::from(midnight.timestamp()) * SECOND + i128::from(h) * HOUR
}

fn date(days_from_today: i32) -> Date {
    Date { day_number: TODAY.day_number + days_from_today }
}

fn utc() -> LocalClock {
    LocalClock { offset_secs: 0, changes: Vec::new() }
}

fn setting(lang: Language) -> Setting {
    Setting { lang, color: false, now: t(5), clock: utc() }
}

fn norwegian() -> Setting {
    setting(Language::Norwegian)
}

fn minimal(time: i128, temp: f64, wind: f64, precip: f64) -> HourlyConditions {
    HourlyConditions::minimal(time, reading(temp), reading(wind), reading(precip))
}

fn perfect(time_h: u32) -> HourlyConditions {
    HourlyConditions {
        probability_of_precip: Some(reading(5.0)),
        ..minimal(t(time_h), 17.0, 2.0, 0.0)
    }
}

fn awful(time_h: u32) -> HourlyConditions {
    HourlyConditions {
        probability_of_precip: Some(reading(95.0)),
        ..minimal(t(time_h), 5.0, 11.0, 3.0)
    }
}

fn oslo() -> Point {
    Point { lat: reading(59.9139), lon: reading(10.7522) }
}

fn east() -> Point {
    Point { lat: reading(59.9139), lon: reading(11.0) }
}

fn forecast_at(point: Point, label: &str, hours: Vec<HourlyConditions>) -> PointForecast {
    PointForecast { point, bearing_label: label.to_owned(), hours }
}

fn window_run(
    forecasts: &Vec<PointForecast>,
    window: RideWindow,
    ground: Option<SurfaceState>,
    lang: Language,
) -> AggregateScore {
    let signals = forecasts.iter().map(|f| signals_for(&f.hours, window, ground)).collect();
    run_score(forecasts, oslo(), window, ground, signals, lang, None, &None, t(5))
}

fn day_signals(
    f: &PointForecast,
    window: RideWindow,
    ground: Option<SurfaceState>,
    config: &BestWindowConfig,
) -> DaySignals {
    let windows =
        best_window_candidates(&f.hours, window, config.length_hours, &config.excluded_windows);
    DaySignals {
        day: signals_for(&f.hours, window, ground),
        sky: sky_for(&f.hours, window),
        candidates: windows.into_iter().map(|w| signals_for(&f.hours, w, ground)).collect(),
    }
}

fn outlook_along(ground: Option<SurfaceState>, hours: &[HourlyConditions]) -> Option<SurfaceOutlook> {
    ground.map(|initial| SurfaceOutlook {
        initial,
        water: water_along(initial.accumulated_mm, hours, &DryingParams::default()),
    })
}

fn days_run(
    days: Vec<DayWindow>,
    hours: Vec<HourlyConditions>,
    ground: Option<SurfaceState>,
    config: &BestWindowConfig,
    lang: Language,
) -> MultiDayForecast {
    let forecasts = vec![forecast_at(oslo(), "senter", hours)];
    let signals = days
        .iter()
        .map(|d| {
            forecasts.iter().map(|f| day_signals(f, d.window, ground, config)).collect()
        })
        .collect();
    let outlook = outlook_along(ground, &forecasts[0].hours);
    run_forecast(&days, &forecasts, oslo(), t(5), config, &outlook, signals, lang, None, &None)
}

fn today_window() -> DayWindow {
    DayWindow { date: TODAY, window: RideWindow::from_hours(t(6), 12) }
}

fn one_day(
    hours: Vec<HourlyConditions>,
    ground: SurfaceState,
    config: &BestWindowConfig,
) -> MultiDayForecast {
    days_run(vec![today_window()], hours, Some(ground), config, Language::Norwegian)
}

fn shown(forecast: &MultiDayForecast, verbose: bool) -> String {
    render_multi_day("Oslo", "20", forecast, verbose, ChipFlags::default(), &norwegian())
}

fn perfect_day() -> Vec<HourlyConditions> {
    (6..18).map(perfect).collect()
}

fn mixed_day() -> Vec<HourlyConditions> {
    let mut hours: Vec<_> = (6..9).map(perfect).collect();
    hours.extend((9..15).map(awful));
    hours.extend((15..18).map(perfect));
    hours
}

fn always(length_hours: i64) -> BestWindowConfig {
    BestWindowConfig { length_hours, min_improvement: 0, excluded_windows: Vec::new() }
}

fn one_day_forecast(days_from_today: i32) -> MultiDayForecast {
    let offset = i128::from(days_from_today) * 24 * HOUR;
    let hours = (6..18).map(|h| minimal(t(h) + offset, 17.0, 2.0, 0.0)).collect();
    let day = DayWindow {
        date: date(days_from_today),
        window: RideWindow::from_hours(t(6) + offset, 12),
    };
    days_run(
        vec![day],
        hours,
        Some(SurfaceState::default()),
        &BestWindowConfig::default(),
        Language::Norwegian,
    )
}

// ---- Radar banner ----

fn alert_with(peak_mm_h: f64, first_in_min: i128, last_in_min: i128) -> Option<NowcastAlert> {
    let now = t(5);
    Some(NowcastAlert {
        first_rain_at: now + first_in_min * MINUTE,
        last_rain_at: now + last_in_min * MINUTE,
        peak_at: now + (first_in_min + last_in_min) / 2 * MINUTE,
        peak_mm_h: measured(peak_mm_h, 1),
    })
}

#[test]
fn nowcast_banner_omitted_when_alert_is_none() {
    assert!(nowcast_banner(&None, &norwegian()).is_empty());
}

#[test]
fn nowcast_banner_includes_peak_and_label_for_imminent_rain() {
    let out = nowcast_banner(&alert_with(0.4, 15, 25), &norwegian());
    assert!(out.contains("Radar"), "got {out}");
    assert!(out.contains("regn"), "got {out}");
    assert!(out.contains("0.4 mm/h"), "got {out}");
    assert!(out.contains(" min"), "got {out}");
    assert_eq!(out, "⚠  Radar: regn om 15 min (topp 0.4 mm/h kl 05:20)\n\n");
}

#[test]
fn nowcast_banner_uses_hours_minutes_for_far_alerts() {
    let out = nowcast_banner(&alert_with(0.2, 95, 100), &norwegian());
    assert!(out.contains("1t"), "got {out}");
    assert!(out.contains("om 1t 35 min"), "got {out}");
}

#[test]
fn nowcast_banner_swedish_uses_swedish_words() {
    let out = nowcast_banner(&alert_with(0.4, 25, 35), &setting(Language::Swedish));
    assert!(out.contains("Radar"), "got {out}");
    assert!(out.contains("om "), "got {out}");
}

#[test]
fn a_banner_is_red_when_rain_is_near_or_heavy() {
    let red = "\u{1b}[38;2;251;73;52m";
    let yellow = "\u{1b}[38;2;250;189;47m";
    let mut set = norwegian();
    set.color = true;
    assert!(nowcast_banner(&alert_with(0.2, 30, 35), &set).starts_with(red));
    assert!(nowcast_banner(&alert_with(0.2, 31, 35), &set).starts_with(yellow));
    assert!(nowcast_banner(&alert_with(0.5, 60, 90), &set).starts_with(red));
    assert!(nowcast_banner(&alert_with(0.5, 60, 89), &set).starts_with(yellow));
    assert!(nowcast_banner(&alert_with(0.4, 60, 120), &set).starts_with(yellow));
}

#[test]
fn time_until_counts_whole_minutes() {
    let no = Language::Norwegian;
    assert_eq!(format_time_until(-3 * MINUTE, no), "nå");
    assert_eq!(format_time_until(59 * SECOND, no), "nå");
    assert_eq!(format_time_until(119 * SECOND, Language::Swedish), "om 1 min");
    assert_eq!(format_time_until(0, Language::Swedish), "nu");
    assert_eq!(format_time_until(120 * MINUTE, no), "om 2t");
}

// ---- One window ----

#[test]
fn human_output_includes_total_and_breakdown_labels() {
    let win = RideWindow::from_hours(t(14), 3);
    let forecasts = vec![forecast_at(oslo(), "senter", (14..17).map(perfect).collect())];
    let agg = window_run(&forecasts, win, Some(SurfaceState::default()), Language::Norwegian);
    let out = render_human("Oslo", "20", win, &agg, false, ChipFlags::default(), &norwegian());
    assert!(out.contains("Grusindeks for Oslo"));
    assert!(out.contains("Total:"));
    assert!(out.contains("Temperatur"));
    assert!(out.contains("Vind"));
    assert!(out.contains("Nedbør"));
    assert!(out.contains("Bakke"));
    assert!(!out.contains("Regnsannsynl."));
    let expected = "Grusindeks for Oslo (20km radius) — 2026-04-26 14:00–17:00\n\
═══════════════════════════════════════════════════════════════\n\
Total: 98/100  ⭐ Strålende\n\
\n\
Temperatur     ██████████ 100\n\
Vind           ██████████ 100\n\
Nedbør         ████████▉▒  98\n\
Bakke          ████████▌▒  95\n\
\n  Tall      17 °C · nedbør 0.0 mm · vind 2 m/s\n";
    assert_eq!(out, expected);
}

#[test]
fn human_output_lists_penalty_when_score_dropped() {
    let win = RideWindow::from_hours(t(14), 3);
    let hours = (14..17).map(|h| minimal(t(h), 17.0, 9.0, 0.0)).collect();
    let forecasts = vec![forecast_at(oslo(), "senter", hours)];
    let agg = window_run(&forecasts, win, Some(SurfaceState::default()), Language::Norwegian);
    let out = render_human("Oslo", "20", win, &agg, false, ChipFlags::default(), &norwegian());
    assert!(out.contains("Vind") && out.contains("9"), "got {out}");
    assert!(out.contains("  Vind: snitt 9.0 m/s — mye vind\n"), "got {out}");
}

#[test]
fn the_default_report_lists_three_penalties() {
    let win = RideWindow::from_hours(t(14), 3);
    let hours: Vec<HourlyConditions> = (14..17)
        .map(|h| HourlyConditions {
            probability_of_precip: Some(reading(90.0)),
            ..minimal(t(h), 0.0, 9.0, 1.0)
        })
        .collect();
    let ground = SurfaceState::new(finite(5.0));
    let forecasts = vec![forecast_at(oslo(), "senter", hours)];
    let agg = window_run(&forecasts, win, Some(ground), Language::Norwegian);
    assert_eq!(agg.points[0].score.penalties.len(), 5);
    let listed = |verbose| {
        render_human("Oslo", "20", win, &agg, verbose, ChipFlags::default(), &norwegian())
            .lines()
            .filter(|l| l.starts_with("  ") && l.contains(": "))
            .count()
    };
    assert_eq!(listed(false), 3);
    assert_eq!(listed(true), 5);
}

#[test]
fn worst_and_best_points_are_named_where_they_differ() {
    let win = RideWindow::from_hours(t(14), 3);
    let windy = (14..17).map(|h| minimal(t(h), 17.0, 9.0, 0.0)).collect();
    let forecasts = vec![
        forecast_at(oslo(), "senter", (14..17).map(perfect).collect()),
        forecast_at(east(), "Ø", windy),
    ];
    let agg = window_run(&forecasts, win, Some(SurfaceState::default()), Language::Norwegian);
    let out = render_human("Oslo", "20", win, &agg, false, ChipFlags::default(), &norwegian());
    assert!(out.contains("Verste punkt:  ") && out.contains(" (Ø)\n"), "got {out}");
    assert!(out.contains("Beste punkt:   98 (senter)\n"), "got {out}");
    let tied = vec![
        forecast_at(oslo(), "senter", (14..17).map(perfect).collect()),
        forecast_at(east(), "Ø", (14..17).map(perfect).collect()),
    ];
    let agg = window_run(&tied, win, Some(SurfaceState::default()), Language::Norwegian);
    let out = render_human("Oslo", "20", win, &agg, false, ChipFlags::default(), &norwegian());
    assert!(!out.contains("punkt"), "got {out}");
}

#[test]
fn aggregate_uses_swedish_compass_labels_when_language_is_swedish() {
    let win = RideWindow::from_hours(t(14), 3);
    let swedish = Language::Swedish;
    let forecasts = vec![
        forecast_at(oslo(), center_label(swedish), (14..17).map(perfect).collect()),
        forecast_at(east(), compass_label(90, swedish), (14..17).map(perfect).collect()),
    ];
    let agg = window_run(&forecasts, win, Some(SurfaceState::default()), swedish);
    let center_pt = agg.points.iter().find(|p| p.is_center).unwrap();
    assert_eq!(center_pt.bearing_label, "centrum");
    let other = agg.points.iter().find(|p| !p.is_center).unwrap();
    assert!(!other.bearing_label.contains('Ø'));
    assert_eq!(other.bearing_label, "Ö");
}

#[test]
fn compass_labels_cover_the_circle() {
    let norwegian: Vec<&str> =
        (0..8).map(|k| compass_label(k * 45, Language::Norwegian)).collect();
    assert_eq!(norwegian, ["N", "NØ", "Ø", "SØ", "S", "SV", "V", "NV"]);
    assert_eq!(compass_label(350, Language::Norwegian), "N");
    assert_eq!(compass_label(22, Language::Norwegian), "N");
    assert_eq!(compass_label(23, Language::Norwegian), "NØ");
}

#[test]
fn combined_precip_weights_amount_higher_than_probability() {
    assert_eq!(combined_precip(100, 40, Language::Norwegian), 82);
    assert_eq!(combined_precip(100, 100, Language::Norwegian), 100);
}

// ---- Day labels ----

#[test]
fn day_label_for_today_and_tomorrow_uses_norwegian_phrasing() {
    assert_eq!(day_label(TODAY, TODAY, Language::Norwegian), "i dag");
    assert_eq!(day_label(date(1), TODAY, Language::Norwegian), "i morgen");
}

#[test]
fn day_label_for_distant_day_uses_weekday_and_date() {
    let label = day_label(date(3), TODAY, Language::Norwegian);
    assert!(label.starts_with("on "), "got {label}");
    assert!(label.contains("29"), "got {label}");
    assert!(label.ends_with("apr"), "got {label}");
    assert_eq!(label, "on 29. apr");
}

#[test]
fn day_labels_in_swedish() {
    assert_eq!(day_label(TODAY, TODAY, Language::Swedish), "idag");
    assert_eq!(day_label(date(1), TODAY, Language::Swedish), "imorgon");
    assert_eq!(day_label(date(6), TODAY, Language::Swedish), "lö 2. maj");
    assert_eq!(day_label(date(-1), TODAY, Language::Swedish), "lö 25. apr");
    assert_eq!(day_label(date(7), TODAY, Language::Swedish), "sö 3. maj");
}

#[test]
fn months_and_weekdays_are_abbreviated() {
    let months: Vec<&str> = (1..=12).map(|m| month(m, Language::Norwegian)).collect();
    assert_eq!(
        months,
        ["jan", "feb", "mar", "apr", "mai", "jun", "jul", "aug", "sep", "okt", "nov", "des"]
    );
    assert_eq!(month(12, Language::Swedish), "dec");
    assert_eq!(month(13, Language::Swedish), "?");
    let days: Vec<&str> = (1..=7).map(|d| weekday(date(d), Language::Norwegian)).collect();
    assert_eq!(days, ["ma", "ti", "on", "to", "fr", "lø", "sø"]);
}

// ---- Several days ----

#[test]
fn multi_day_render_includes_title_and_skala_footer() {
    let forecast =
        one_day(perfect_day(), SurfaceState::default(), &BestWindowConfig::default());
    let out = shown(&forecast, false);
    assert!(out.contains("Grusindeks · Oslo"), "got {out}");
    assert!(out.contains("dag"), "got {out}");
    assert!(out.contains("Skala"), "got {out}");
    assert!(out.contains("strålende"), "got {out}");
}

#[test]
fn multi_day_report_in_full() {
    let forecast =
        one_day(perfect_day(), SurfaceState::default(), &BestWindowConfig::default());
    let expected = "Grusindeks · Oslo · 20 km · 1 dag\n\
\n\
╭────────────────────────────────────╮\n\
│  ★ Beste: i dag  —  98  Strålende  │\n\
╰────────────────────────────────────╯\n\
\n  Uke   █   98 → 98   →   spredning 0 p\n\
\n  i dag        ⛅  ████████▉▒  98    \n";
    let out = shown(&forecast, false);
    assert!(out.starts_with(expected), "got {out}\nexpected {expected}");
    assert!(out.contains("      ├─ Temp      ██████████  100\n"), "got {out}");
    assert!(out.contains("      └─ Tall      17 °C · 0.0 mm · 2 m/s\n"), "got {out}");
    assert!(
        out.ends_with(
            "\n  Skala     0 dårlig · 25 marginalt · 45 ok · 65 bra · 85 strålende\n"
        ),
        "got {out}"
    );
}

#[test]
fn multi_day_render_shows_headline_with_best_day() {
    let forecast =
        one_day(perfect_day(), SurfaceState::default(), &BestWindowConfig::default());
    let out = shown(&forecast, false);
    assert!(out.contains("★ Beste:") && out.contains("╭"), "got {out}");
}

#[test]
fn multi_day_render_appends_one_word_reason_after_optimal_window() {
    let forecast = one_day(mixed_day(), SurfaceState::default(), &BestWindowConfig::default());
    let out = shown(&forecast, true);
    assert!(out.contains("tørrest"), "got {out}");
    assert!(out.contains("opphold i luka"), "got {out}");
}

#[test]
fn multi_day_render_appends_rain_status_after_rainy_best_window() {
    let hours: Vec<HourlyConditions> = (6..18)
        .map(|h| HourlyConditions {
            probability_of_precip: Some(reading(95.0)),
            ..minimal(t(h), 12.0, 3.0, 1.0)
        })
        .collect();
    let forecast = one_day(hours, SurfaceState::default(), &always(3));
    let out = shown(&forecast, false);
    assert!(out.contains("regn 3.0 mm i vinduet"), "got {out}");
}

#[test]
fn multi_day_render_uses_vindu_label_and_omits_zero_improvement_suffix() {
    let forecast = one_day(perfect_day(), SurfaceState::default(), &always(2));
    let out = shown(&forecast, false);
    assert!(out.contains("Beste vindu"), "got {out}");
    assert!(!out.contains("Beste luke"), "got {out}");
    assert!(!out.contains("+0 poeng"), "got {out}");
    assert!(
        out.contains("      ★ Beste vindu: 06:00–08:00 → 98 (Strålende) · ☂ opphold i vinduet\n"),
        "got {out}"
    );
}

#[test]
fn multi_day_render_calls_out_optimal_luke_when_present() {
    let forecast = one_day(mixed_day(), SurfaceState::default(), &BestWindowConfig::default());
    let out = shown(&forecast, true);
    assert!(out.contains("Beste luke") || out.contains("luke"), "got {out}");
}

#[test]
fn openings_are_told_when_verbose_or_asked_for() {
    let forecast = one_day(mixed_day(), SurfaceState::default(), &BestWindowConfig::default());
    assert!(forecast.days[0].optimal_window.as_ref().is_some_and(|ow| ow.improvement > 0));
    let mut without = one_day(mixed_day(), SurfaceState::default(), &BestWindowConfig::default());
    without.days[0].optimal_window = None;
    let quiet = shown(&forecast, false);
    assert!(!quiet.contains("Beste luke") && !quiet.contains("luka"), "got {quiet}");
    assert_eq!(quiet, shown(&without, false));
    let flags = ChipFlags { best_window: true, ..ChipFlags::default() };
    let asked = render_multi_day("Oslo", "20", &forecast, false, flags, &norwegian());
    assert!(asked.contains("      ★ Beste luke: 06:00–09:00 → "), "got {asked}");
    assert!(asked.contains(" poeng)"), "got {asked}");
    let stars = |s: &str| s.matches('★').count();
    assert_eq!((stars(&quiet), stars(&asked), stars(&shown(&forecast, true))), (1, 2, 2));
}

#[test]
fn footer_chips_are_aligned() {
    let mut forecast = one_day(
        perfect_day(),
        SurfaceState::new(finite(5.0)),
        &BestWindowConfig::default(),
    );
    forecast.rain_history = Some(history(3.2, 2.4, -4, 1));
    forecast.days[0].confidence = Confidence::Lav;
    let out = shown(&forecast, false);
    let expected = "\n  Bakke     gjennomvåt (5.0 mm akkumulert)\n  \
Regn 7d   3.2 mm siste 7 døgn · våtest 22. apr (2.4 mm) · 1 regndøgn\n  \
Skala     0 dårlig · 25 marginalt · 45 ok · 65 bra · 85 strålende\n  \
~         lav konfidens (>60 t — 6-t oppløsning fra MET)\n";
    assert!(out.ends_with(expected), "got {out}");
}

fn count_penalty_rows(s: &str) -> usize {
    s.lines()
        .filter(|line| (line.contains("├─") || line.contains("└─")) && line.contains(": "))
        .count()
}

#[test]
fn multi_day_render_surfaces_ground_state_in_footer() {
    let forecast = one_day(
        perfect_day(),
        SurfaceState::new(finite(5.0)),
        &BestWindowConfig::default(),
    );
    let out = shown(&forecast, false);
    assert!(out.to_lowercase().contains("bakke"), "got {out}");
    assert!(out.contains("  Bakke     gjennomvåt (5.0 mm akkumulert)\n"), "got {out}");
    assert_eq!(count_penalty_rows(&out), 0, "got {out}");
    let verbose = shown(&forecast, true);
    assert!(count_penalty_rows(&verbose) > 0, "got {verbose}");
}

#[test]
fn verbose_multi_day_lists_more_penalties_than_default() {
    let hours: Vec<HourlyConditions> = (6..18)
        .map(|h| HourlyConditions {
            probability_of_precip: Some(reading(80.0)),
            ..minimal(t(h), 0.0, 9.0, 0.6)
        })
        .collect();
    let forecast =
        one_day(hours, SurfaceState::new(finite(5.0)), &BestWindowConfig::default());
    let default_out = shown(&forecast, false);
    let verbose_out = shown(&forecast, true);
    assert!(count_penalty_rows(&verbose_out) > count_penalty_rows(&default_out));
}

#[test]
fn highlights_close_the_verbose_tree() {
    let hours: Vec<HourlyConditions> = (6..18)
        .map(|h| HourlyConditions {
            cloud_area_fraction: Some(reading(0.0)),
            uv_index_clear_sky: Some(reading(7.0)),
            ..minimal(t(h), 4.0, 0.0, 0.0)
        })
        .collect();
    let forecast = one_day(hours, SurfaceState::default(), &BestWindowConfig::default());
    let out = shown(&forecast, true);
    assert!(out.contains("      └─ ☀ Sol bidrar med +3.5 °C\n"), "got {out}");
    assert!(!shown(&forecast, false).contains("Sol bidrar"));
}

fn day_with(days_from_today: i32, mean: u8, confidence: Confidence) -> DayAggregate {
    let mut day = one_day_forecast(days_from_today).days.remove(0);
    day.min = mean;
    day.mean = mean;
    day.max = mean;
    day.confidence = confidence;
    day
}

#[test]
fn pick_best_day_breaks_ties_by_confidence_then_earliest_date() {
    let days = vec![
        day_with(0, 90, Confidence::Lav),
        day_with(1, 90, Confidence::Hoy),
        day_with(2, 90, Confidence::Middels),
    ];
    assert_eq!(pick_best_day(&days).unwrap().date, date(1));

    let days_same_conf = vec![
        day_with(2, 80, Confidence::Hoy),
        day_with(1, 80, Confidence::Hoy),
        day_with(0, 80, Confidence::Hoy),
    ];
    assert_eq!(pick_best_day(&days_same_conf).unwrap().date, TODAY);

    let days_mean_wins =
        vec![day_with(0, 70, Confidence::Hoy), day_with(3, 95, Confidence::Lav)];
    assert_eq!(pick_best_day(&days_mean_wins).unwrap().mean, 95);
    assert!(pick_best_day(&Vec::new()).is_none());
}

#[test]
fn low_confidence_is_marked_and_explained() {
    let mut forecast = one_day_forecast(1);
    forecast.days[0].confidence = Confidence::Lav;
    let out = shown(&forecast, false);
    assert!(out.contains("98  Strålende  (lav konfidens)  │") || out.contains("(lav konfidens)"));
    assert!(out.contains("  ~\n"), "got {out}");
    assert!(out.contains("lav konfidens (>60 t — 6-t oppløsning fra MET)"), "got {out}");
}

#[test]
fn multi_day_render_shows_breakdown_for_today_by_default() {
    let out = shown(&one_day_forecast(0), false);
    assert!(out.contains("Temp "), "got {out}");
}

#[test]
fn multi_day_render_omits_breakdown_for_non_today_by_default() {
    let out = shown(&one_day_forecast(2), false);
    assert!(!out.contains("Temp "), "got {out}");
}

#[test]
fn multi_day_render_verbose_extends_breakdown_to_every_day() {
    let mut forecast = one_day_forecast(0);
    forecast.days.extend(one_day_forecast(1).days);
    let count = |s: &str| s.matches("Temp ").count();
    assert!(count(&shown(&forecast, true)) > count(&shown(&forecast, false)));
}

#[test]
fn a_week_has_a_shape() {
    let means = vec![10, 50, 99];
    assert_eq!(trend_arrow(&means), "↗");
    assert_eq!(trend_arrow(&vec![60, 55]), "↘");
    assert_eq!(trend_arrow(&vec![60, 56]), "→");
    assert_eq!(trend_arrow(&vec![60]), "→");
    let glyphs: String = [0, 14, 28, 42, 57, 71, 85, 100].into_iter().map(sparkline_glyph).collect();
    assert_eq!(glyphs, "▁▂▃▄▅▆▇█");
    let days: Vec<DayAggregate> = [(0, 40), (1, 90), (2, 60)]
        .into_iter()
        .map(|(d, mean)| day_with(d, mean, Confidence::Hoy))
        .collect();
    assert_eq!(
        write_week_trend(&days, &norwegian()),
        "  Uke   ▄▇▅   40 → 60   ↗   spredning 50 p\n"
    );
    assert_eq!(
        write_week_trend(&days, &setting(Language::Swedish)),
        "  Vecka ▄▇▅   40 → 60   ↗   spridning 50 p\n"
    );
    assert_eq!(write_week_trend(&Vec::new(), &norwegian()), "");
}

// ---- Chips ----

fn history(total: f64, wettest: f64, day: i32, rain_days: u32) -> RainHistory {
    RainHistory {
        total_mm: measured(total, 1),
        wettest_day_mm: measured(wettest, 1),
        wettest_day: date(day),
        rain_days,
        lookback_hours: 168,
    }
}

fn forecast_with_history(rain: Option<RainHistory>) -> MultiDayForecast {
    let mut f = one_day_forecast(0);
    f.rain_history = rain;
    f
}

#[test]
fn rain_history_chip_returns_none_when_dry() {
    let h = history(0.0, 0.0, -5, 0);
    assert!(rain_history_chip_content(&h, Language::Norwegian).is_none());
    assert!(rain_history_chip_content(&h, Language::Swedish).is_none());
}

#[test]
fn rain_history_chip_full_form_norwegian_and_swedish() {
    let h = history(14.2, 8.4, -8, 3);
    let no = rain_history_chip_content(&h, Language::Norwegian).expect("rain fell");
    assert!(no.contains("14.2 mm siste 7 døgn"), "got {no}");
    assert!(no.contains("våtest 18. apr"), "got {no}");
    assert!(no.contains("(8.4 mm)"), "got {no}");
    assert!(no.contains("3 regndøgn"), "got {no}");
    let sv = rain_history_chip_content(&h, Language::Swedish).expect("rain fell");
    assert!(sv.contains("14.2 mm senaste 7 dygn"), "got {sv}");
    assert!(sv.contains("blötast 18. apr"), "got {sv}");
    assert!(sv.contains("3 regndagar"), "got {sv}");
    let one = history(1.0, 1.0, -1, 1);
    let sv = rain_history_chip_content(&one, Language::Swedish).unwrap();
    assert!(sv.ends_with("1 regndag"), "got {sv}");
}

fn figures_of(
    lo: i32,
    hi: i32,
    total: f64,
    wettest: f64,
    wind: i32,
    gust: Option<i32>,
) -> WindowStats {
    WindowStats {
        figures: Some(WindowFigures {
            min_temp_c: lo,
            max_temp_c: hi,
            total_precip_mm: measured(total, 1),
            max_hourly_precip_mm: measured(wettest, 1),
            max_wind_ms: wind,
            max_gust_ms: gust,
            temp_score: 100,
            precip_score: 50,
            wind_score: 20,
        }),
    }
}

#[test]
fn window_stats_chip_renders_temp_range() {
    let stats = figures_of(12, 18, 0.4, 0.2, 7, Some(11));
    let s = window_stats_chip_content(&stats, Language::Norwegian).expect("figures");
    assert!(s.contains("12–18 °C"), "got {s}");
    assert!(s.contains("nedbør 0.4 mm"), "got {s}");
    assert!(s.contains("vind 7 m/s (kast 11)"), "got {s}");
}

#[test]
fn window_stats_chip_omits_gust_when_none() {
    let stats = figures_of(15, 15, 0.0, 0.0, 5, None);
    let s = window_stats_chip_content(&stats, Language::Norwegian).expect("figures");
    assert!(!s.contains("kast"), "got {s}");
    assert!(s.contains("15 °C"), "got {s}");
    assert!(!s.contains("15–15"), "got {s}");
}

#[test]
fn window_stats_chip_returns_none_for_empty_stats() {
    assert!(window_stats_chip_content(&WindowStats::empty(), Language::Norwegian).is_none());
}

#[test]
fn the_rain_in_a_window_has_five_degrees() {
    let said = |total, peak, opening| {
        let stats = figures_of(10, 12, total, peak, 3, None);
        best_window_rain_trailer(&stats, Language::Norwegian, opening).unwrap()
    };
    assert_eq!(said(0.0, 0.0, true), "☂ opphold i luka");
    assert_eq!(said(0.05, 0.05, true), "🌦 yr 0.1 mm i luka");
    assert_eq!(said(0.4, 0.3, false), "🌦 yr 0.4 mm i vinduet");
    assert_eq!(said(3.0, 1.0, false), "🌧 regn 3.0 mm i vinduet");
    assert_eq!(said(6.0, 3.0, true), "⛈ kraftig regn i luka, topp 3.0 mm/t");
    assert!(best_window_rain_trailer(&WindowStats::empty(), Language::Swedish, true).is_none());
    let stats = figures_of(10, 12, 6.0, 4.0, 3, None);
    assert_eq!(
        best_window_rain_trailer(&stats, Language::Swedish, false).unwrap(),
        "⛈ kraftigt regn i fönstret, topp 4.0 mm/h"
    );
}

#[test]
fn figures_take_the_colour_of_their_scores() {
    let stats = figures_of(-3, 2, 0.4, 0.2, 7, Some(11));
    let f = stats.figures.as_ref().unwrap();
    assert_eq!(
        format_tall_line(f, Language::Swedish, false),
        "-3–2 °C · 0.4 mm · 7 m/s (by 11)"
    );
    let painted = format_tall_line(f, Language::Norwegian, true);
    assert!(painted.starts_with("\u{1b}[38;2;142;192;124;1m-3–2 °C\u{1b}[0m "), "got {painted:?}");
    assert!(painted.ends_with("\u{1b}[38;2;251;73;52;1m7 m/s (kast 11)\u{1b}[0m"));
}

#[test]
fn footer_renders_both_chips_when_data_available() {
    let forecast = forecast_with_history(Some(history(14.2, 8.4, -8, 3)));
    let out = shown(&forecast, true);
    assert!(out.contains("Regn 7d"), "got {out}");
    assert!(out.contains("Tall"), "got {out}");
}

#[test]
fn footer_omits_rain_chip_when_history_is_none() {
    let out = shown(&forecast_with_history(None), false);
    assert!(!out.contains("Regn 7d"), "got {out}");
}

#[test]
fn flag_no_rain_history_hides_chip_even_with_data() {
    let forecast = forecast_with_history(Some(history(14.2, 8.4, -8, 3)));
    let flags = ChipFlags { rain_history: false, ..ChipFlags::default() };
    let out = render_multi_day("Oslo", "20", &forecast, true, flags, &norwegian());
    assert!(!out.contains("Regn 7d"), "got {out}");
    assert!(out.contains("Tall"), "got {out}");
}

#[test]
fn flag_no_window_stats_hides_chip() {
    let forecast = forecast_with_history(None);
    let flags = ChipFlags { window_stats: false, ..ChipFlags::default() };
    let out = render_multi_day("Oslo", "20", &forecast, false, flags, &norwegian());
    assert!(!out.contains("Tall"), "got {out}");
}

#[test]
fn footer_renders_swedish_labels() {
    let hours = (6..18).map(|h| minimal(t(h), 17.0, 2.0, 0.0)).collect();
    let mut forecast = days_run(
        vec![today_window()],
        hours,
        Some(SurfaceState::default()),
        &BestWindowConfig::default(),
        Language::Swedish,
    );
    forecast.rain_history = Some(history(14.2, 8.4, -8, 3));
    let out = render_multi_day(
        "Oslo",
        "20",
        &forecast,
        true,
        ChipFlags::default(),
        &setting(Language::Swedish),
    );
    assert!(out.contains("Tal"), "got {out}");
    assert!(out.contains("Regn 7d"), "got {out}");
    assert!(out.contains("regndagar"), "got {out}");
}

#[test]
fn chip_flags_default_to_showing_both() {
    let flags = ChipFlags::default();
    assert!(flags.rain_history && flags.window_stats);
}

// ---- Bars and columns ----

#[test]
fn colored_bar_glyph_counts() {
    let is_bar = |c: char| matches!(c, '█' | '▉' | '▊' | '▋' | '▌' | '▍' | '▎' | '▏' | '▒');
    let cells = |value| colored_bar(value, false).chars().filter(|c| is_bar(*c)).count();
    assert_eq!(cells(0), 10);
    assert!(colored_bar(100, false).contains('█'));
    assert_ne!(colored_bar(95, false), colored_bar(100, false));
    for value in 0..=100 {
        assert_eq!(cells(value), 10, "at {value}");
    }
}

#[test]
fn bars_follow_the_documented_examples() {
    assert_eq!(colored_bar(63, false), "█████▋▒▒▒▒");
    assert_eq!(colored_bar(80, false), "███████▎▒▒");
    assert_eq!(colored_bar(76, false), "██████▉▒▒▒");
    assert_eq!(colored_bar(18, false), "█▋▒▒▒▒▒▒▒▒");
    assert_eq!(colored_bar(0, false), "▒▒▒▒▒▒▒▒▒▒");
    assert_ne!(colored_bar(60, false), colored_bar(62, false));
    assert_eq!(colored_bar(100, false), "██████████");
}

#[test]
fn a_coloured_bar_has_three_parts() {
    let gray = "\u{1b}[38;2;146;131;116m";
    let bar = colored_bar(63, true);
    assert!(bar.starts_with("\u{1b}[38;2;250;189;47m█████\u{1b}[0m"), "got {bar:?}");
    assert!(
        bar.contains("\u{1b}[38;2;250;189;47;48;2;146;131;116m▋\u{1b}[0m"),
        "got {bar:?}"
    );
    assert!(bar.ends_with(&format!("{gray}▒▒▒▒\u{1b}[0m")), "got {bar:?}");
}

#[test]
fn columns_are_counted_as_the_eye_sees_them() {
    assert_eq!(pad_right("\u{1b}[1mi dag\u{1b}[0m", "i dag", 8), "\u{1b}[1mi dag\u{1b}[0m   ");
    assert_eq!(pad_right("ab", "日本", 5), "ab ");
    assert_eq!(pad_right("already wide", "already wide", 3), "already wide");
    assert_eq!(icon_pad("☀"), "  ");
    assert_eq!(icon_pad("⛅"), " ");
    assert_eq!(fill_up("x", 1, 3), "x  ");
    assert_eq!(icon_gap_for(3), "");
}

#[test]
fn a_callout_is_as_wide_as_what_it_says() {
    assert_eq!(callout_box(" ok ", 7, 50, false), "╭───────╮\n│  ★ ok │\n╰───────╯\n");
}

#[test]
fn hourly_block_glyph_maps_buckets_at_boundaries() {
    assert_eq!(hourly_block_glyph(0), "░░");
    assert_eq!(hourly_block_glyph(24), "░░");
    assert_eq!(hourly_block_glyph(25), "░░");
    assert_eq!(hourly_block_glyph(44), "░░");
    assert_eq!(hourly_block_glyph(45), "▒▒");
    assert_eq!(hourly_block_glyph(64), "▒▒");
    assert_eq!(hourly_block_glyph(65), "▓▓");
    assert_eq!(hourly_block_glyph(84), "▓▓");
    assert_eq!(hourly_block_glyph(85), "██");
    assert_eq!(hourly_block_glyph(100), "██");
}

// ---- Hour by hour ----

const WINDOW: [u8; 12] = [10, 11, 12, 13, 14, 15, 16, 17, 18, 19, 20, 21];

fn hour_score_at(local_hour: u8, mean: u8) -> HourScore {
    HourScore {
        time: t(local_hour.into()),
        mean,
        min: mean,
        max: mean,
        breakdown: ScoreBreakdown {
            temperature: mean,
            wind: mean,
            precipitation: mean,
            precip_probability: mean,
            ground: mean,
        },
        confidence: Confidence::Hoy,
    }
}

fn hourly_fixture(columns: &[u8]) -> HourlyForecast {
    let hours = columns
        .iter()
        .enumerate()
        .map(|(i, &h)| hour_score_at(h, 10 + (i as u8) * 8))
        .collect();
    let day = HourlyDayAggregate {
        date: TODAY,
        daytime_window: RideWindow::from_hours(t(columns[0].into()), columns.len() as i64),
        hours,
        stats: None,
    };
    HourlyForecast {
        header_hours: columns.to_vec(),
        days: vec![day],
        rain_history: None,
        nowcast_alert: None,
    }
}

fn shown_hourly(forecast: &HourlyForecast, verbose: bool, flags: ChipFlags) -> String {
    render_hourly("Oslo", "20", forecast, verbose, flags, &norwegian())
}

#[test]
fn hourly_render_uses_block_glyphs_not_score_digits() {
    let out = shown_hourly(&hourly_fixture(&WINDOW), false, ChipFlags::default());
    assert!(out.contains("░░"), "got {out}");
    assert!(out.contains("▒▒"), "got {out}");
    assert!(out.contains("▓▓"), "got {out}");
    assert!(out.contains("██"), "got {out}");
}

#[test]
fn hourly_report_in_full() {
    let mut forecast = hourly_fixture(&[9, 10, 11]);
    forecast.days[0].hours.remove(1);
    forecast.days[0].hours[1].mean = 90;
    let expected = "Grusindeks · Oslo · 20 km · 1 dag · time-for-time\n\
\n                9 10 11\n  i dag        ░░ ·· ██\n\
\n  Skala   ░ dårlig · ░ marginalt · ▒ ok · ▓ bra · █ strålende\n  \
··      utenfor sykkelvinduet\n";
    let out = shown_hourly(&forecast, false, ChipFlags::default());
    assert_eq!(out, expected);
}

#[test]
fn hourly_render_default_omits_breakdown_rows() {
    let out = shown_hourly(&hourly_fixture(&WINDOW), false, ChipFlags::default());
    assert!(!out.contains("├─"), "got {out}");
    assert!(!out.contains("└─"), "got {out}");
    assert!(!out.contains("Temp "), "got {out}");
}

#[test]
fn hourly_render_verbose_emits_four_breakdown_rows_per_day() {
    let out = shown_hourly(&hourly_fixture(&WINDOW), true, ChipFlags::default());
    assert_eq!(out.matches("├─").count(), 3, "got {out}");
    assert_eq!(out.matches("└─").count(), 1, "got {out}");
    assert!(out.contains("Temp"), "got {out}");
    assert!(out.contains("Vind"), "got {out}");
    assert!(out.contains("Nedbør"), "got {out}");
    assert!(out.contains("Bakke"), "got {out}");
}

#[test]
fn hourly_render_verbose_breakdown_aligns_under_day_cells() {
    let out = shown_hourly(&hourly_fixture(&WINDOW), true, ChipFlags::default());
    let lines: Vec<&str> = out.lines().collect();
    let day = lines.iter().find(|l| l.contains("i dag")).expect("day row");
    let temp = lines.iter().find(|l| l.contains("Temp")).expect("breakdown row");
    let first_cell_col = |line: &str| {
        let byte_idx = line
            .char_indices()
            .find(|(_, c)| matches!(c, '░' | '▒' | '▓' | '█'))
            .map(|(i, _)| i)?;
        Some(UnicodeWidthStr::width(&line[..byte_idx]))
    };
    assert_eq!(first_cell_col(day), first_cell_col(temp), "\n{day}\n{temp}");
}

#[test]
fn hourly_verbose_renders_per_day_tall_when_stats_present() {
    let mut forecast = hourly_fixture(&WINDOW);
    forecast.days[0].stats = figures_of(12, 18, 0.0, 0.0, 4, Some(7)).figures;
    let out = shown_hourly(&forecast, true, ChipFlags::default());
    assert!(out.contains("Tall"), "got {out}");
    assert!(out.contains("12–18 °C"), "got {out}");
    assert!(out.contains("(kast 7)"), "got {out}");
}

#[test]
fn every_verbose_day_closes_its_tree_once() {
    let branches = |s: &str| (s.matches("├─").count(), s.matches("└─").count());
    let mut forecast = hourly_fixture(&WINDOW);
    let hide = ChipFlags { window_stats: false, ..ChipFlags::default() };
    assert_eq!(branches(&shown_hourly(&forecast, true, ChipFlags::default())), (3, 1));
    let bare = shown_hourly(&forecast, true, ChipFlags::default());
    assert!(bare.contains("└─ Bakke"), "got {bare}");
    forecast.days[0].stats = figures_of(12, 18, 0.0, 0.0, 4, None).figures;
    let full = shown_hourly(&forecast, true, ChipFlags::default());
    assert_eq!(branches(&full), (4, 1), "got {full}");
    assert_eq!(branches(&shown_hourly(&forecast, true, hide)), (3, 1));
    assert_eq!(branches(&shown_hourly(&forecast, false, ChipFlags::default())), (0, 0));
}

#[test]
fn hourly_default_omits_per_day_tall_even_with_stats() {
    let mut forecast = hourly_fixture(&WINDOW);
    forecast.days[0].stats = figures_of(12, 18, 0.0, 0.0, 4, None).figures;
    let out = shown_hourly(&forecast, false, ChipFlags::default());
    assert!(!out.contains("Tall"), "got {out}");
}

#[test]
fn hourly_verbose_no_window_stats_flag_hides_tall() {
    let mut forecast = hourly_fixture(&WINDOW);
    forecast.days[0].stats = figures_of(12, 18, 0.0, 0.0, 4, None).figures;
    let flags = ChipFlags { window_stats: false, ..ChipFlags::default() };
    let out = shown_hourly(&forecast, true, flags);
    assert!(!out.contains("Tall"), "got {out}");
}

#[test]
fn hourly_render_handles_empty_forecast() {
    let forecast = HourlyForecast {
        header_hours: Vec::new(),
        days: Vec::new(),
        rain_history: None,
        nowcast_alert: None,
    };
    let out = shown_hourly(&forecast, false, ChipFlags::default());
    assert!(out.contains("Ingen timer"), "got {out}");
}

#[test]
fn low_confidence_hours_keep_their_block_but_not_their_colour() {
    let mut forecast = hourly_fixture(&[10]);
    forecast.days[0].hours[0].mean = 90;
    forecast.days[0].hours[0].confidence = Confidence::Lav;
    let mut set = norwegian();
    set.color = true;
    let cell = hourly_cell(&forecast.days[0], 10, Shown::Mean, &set);
    assert_eq!(cell, "\u{1b}[38;2;146;131;116m██\u{1b}[0m");
    let nothing = hourly_cell(&forecast.days[0], 11, Shown::Mean, &set);
    assert_eq!(nothing, "\u{1b}[38;2;146;131;116m··\u{1b}[0m");
}

#[test]
fn columns_follow_the_local_clock() {
    let forecast = hourly_fixture(&[10]);
    let mut set = norwegian();
    set.clock = LocalClock {
        offset_secs: 0,
        changes: vec![OffsetChange { from: t(9), offset_secs: 7_200 }],
    };
    assert_eq!(hourly_cell(&forecast.days[0], 10, Shown::Mean, &set), "··");
    assert_eq!(hourly_cell(&forecast.days[0], 12, Shown::Mean, &set), "░░");
}

// ---- Runs ----

#[test]
fn forecasts_are_put_into_point_order() {
    let at = |lat: f64, lon: f64| Point { lat: reading(lat), lon: reading(lon) };
    let f = |p: Point| forecast_at(p, "", Vec::new());
    let points = [at(60.0, 10.0), at(59.0, 11.0), at(59.0, -3.0), at(-1.0, 4.0)];
    let sorted = sort_by_point(points.into_iter().map(f).collect());
    let order: Vec<Point> = sorted.iter().map(|f| f.point).collect();
    assert_eq!(order, [points[3], points[2], points[1], points[0]]);
    let other = sort_by_point(points.into_iter().rev().map(f).collect());
    assert_eq!(sorted, other);
}

#[test]
fn the_centre_stands_for_the_region() {
    let forecasts = vec![
        forecast_at(east(), "Ø", vec![perfect(6)]),
        forecast_at(oslo(), "senter", vec![perfect(7)]),
    ];
    assert_eq!(center_hours(&forecasts, oslo())[0].time, t(7));
    let elsewhere = Point { lat: 0, lon: 0 };
    assert_eq!(center_hours(&forecasts, elsewhere)[0].time, t(6));
    assert!(center_hours(&Vec::new(), elsewhere).is_empty());
}

#[test]
fn buckets_lie_fully_inside_the_window() {
    let hours: Vec<HourlyConditions> = (12..18).map(perfect).collect();
    let window = RideWindow { start: t(14) - 37 * MINUTE, end: t(16) + 30 * MINUTE };
    assert_eq!(hour_bucket_starts(window, &hours), [t(14), t(15)]);
}

#[test]
fn hours_are_trusted_less_the_further_out() {
    let now = t(5);
    assert_eq!(hour_confidence(now + 23 * HOUR, now, false), Confidence::Hoy);
    assert_eq!(hour_confidence(now + 24 * HOUR, now, false), Confidence::Middels);
    assert_eq!(hour_confidence(now + 120 * HOUR, now, false), Confidence::Middels);
    assert_eq!(hour_confidence(now + 121 * HOUR, now, false), Confidence::Lav);
    assert_eq!(hour_confidence(now, now, true), Confidence::Lav);
}

fn hourly_signals(
    forecasts: &Vec<PointForecast>,
    center: Point,
    window: RideWindow,
) -> HourlySignals {
    let regional = center_hours(forecasts, center);
    let buckets = hour_bucket_starts(window, &regional)
        .into_iter()
        .map(|start| {
            let hour = RideWindow { start, end: start + HOUR };
            forecasts.iter().map(|f| signals_for(&f.hours, hour, None)).collect()
        })
        .collect();
    HourlySignals { buckets, center_day: signals_for(&regional, window, None) }
}

#[test]
fn an_hourly_run_rolls_up_every_bucket() {
    let mut far: Vec<HourlyConditions> =
        (10..13).map(|h| minimal(t(h), 17.0, 9.0, 0.0)).collect();
    far[2].resolution = Resolution::SixHourly;
    let forecasts = vec![
        forecast_at(oslo(), "senter", (10..13).map(perfect).collect()),
        forecast_at(east(), "Ø", far),
    ];
    let day = DayWindow { date: TODAY, window: RideWindow::from_hours(t(10), 3) };
    let signals = vec![hourly_signals(&forecasts, oslo(), day.window)];
    let run = run_hourly(
        &vec![day],
        &forecasts,
        oslo(),
        t(5),
        &None,
        signals,
        Language::Norwegian,
        vec![10, 11, 12],
        None,
        &None,
    );
    let hours = &run.days[0].hours;
    assert_eq!(hours.len(), 3);
    assert!(hours.iter().all(|h| h.min < h.max && h.min <= h.mean && h.mean <= h.max));
    assert_eq!(hours[0].confidence, Confidence::Hoy);
    assert_eq!(hours[2].confidence, Confidence::Lav);
    assert_eq!(hours[0].breakdown.wind, 72);
    assert!(run.days[0].stats.is_some());
    assert_eq!(run.header_hours, [10, 11, 12]);
}

fn rained_on(day: i32) -> DayWindow {
    DayWindow { date: date(day), window: RideWindow::from_hours(t(6) + i128::from(day) * 24 * HOUR, 3) }
}

#[test]
fn every_day_is_scored_on_the_surface_at_its_start() {
    let hours: Vec<HourlyConditions> = (6..33)
        .map(|h| minimal(t(h), 12.0, 2.0, if h < 30 { 2.0 } else { 0.0 }))
        .collect();
    let forecasts = vec![forecast_at(oslo(), "senter", hours)];
    let days = vec![rained_on(0), rained_on(1)];
    let config = BestWindowConfig::default();
    let outlook = outlook_along(Some(SurfaceState::default()), &forecasts[0].hours);
    let starts = days.iter().map(|d| d.window.start).collect();
    let surfaces = surfaces_for(&outlook, &forecasts[0].hours, &starts);
    assert_eq!(surfaces[0], Some(SurfaceState::default()));
    let wet = surfaces[1].unwrap();
    assert!(wet.accumulated_mm > reading(1.0));
    assert_eq!(wet.hours_since_meaningful_rain, 0);
    let signals = days
        .iter()
        .zip(&surfaces)
        .map(|(d, surface)| vec![day_signals(&forecasts[0], d.window, *surface, &config)])
        .collect();
    let run = run_forecast(
        &days,
        &forecasts,
        oslo(),
        t(5),
        &config,
        &outlook,
        signals,
        Language::Norwegian,
        None,
        &None,
    );
    let ground = |d: usize| run.days[d].points[0].day_score.score.breakdown.ground;
    assert_eq!(ground(0), 95);
    let signals = signals_for(&forecasts[0].hours, days[1].window, Some(wet));
    let direct = score(
        &forecasts[0].hours,
        days[1].window,
        Some(wet),
        signals,
        Language::Norwegian,
    );
    assert_eq!(ground(1), direct.breakdown.ground);
    assert!(ground(1) < 95);
    assert!(surfaces_for(&None, &forecasts[0].hours, &starts).iter().all(|s| s.is_none()));
}

#[test]
fn every_hour_is_scored_on_the_surface_at_its_start() {
    let hours: Vec<HourlyConditions> =
        (10..13).map(|h| minimal(t(h), 12.0, 2.0, if h == 10 { 4.0 } else { 0.0 })).collect();
    let forecasts = vec![forecast_at(oslo(), "senter", hours)];
    let day = DayWindow { date: TODAY, window: RideWindow::from_hours(t(10), 3) };
    let outlook = outlook_along(Some(SurfaceState::default()), &forecasts[0].hours);
    let days = vec![day];
    let starts = every_bucket_start(&days, &forecasts[0].hours);
    assert_eq!(starts, [t(10), t(11), t(12)]);
    let surfaces = surfaces_for(&outlook, &forecasts[0].hours, &starts);
    let buckets = starts
        .iter()
        .zip(&surfaces)
        .map(|(&start, surface)| {
            let hour = RideWindow { start, end: start + HOUR };
            vec![signals_for(&forecasts[0].hours, hour, *surface)]
        })
        .collect();
    let center_day = signals_for(&forecasts[0].hours, days[0].window, surfaces[0]);
    let run = run_hourly(
        &days,
        &forecasts,
        oslo(),
        t(5),
        &outlook,
        vec![HourlySignals { buckets, center_day }],
        Language::Norwegian,
        vec![10, 11, 12],
        None,
        &None,
    );
    let ground: Vec<u8> = run.days[0].hours.iter().map(|h| h.breakdown.ground).collect();
    assert_eq!(ground[0], 95);
    assert!(ground[1] < ground[2] && ground[2] < 95, "got {ground:?}");
}

#[test]
fn a_day_without_buckets_has_no_stats() {
    let forecasts = vec![forecast_at(oslo(), "senter", vec![perfect(10)])];
    let day = DayWindow { date: date(1), window: RideWindow::from_hours(t(34), 3) };
    let signals = vec![hourly_signals(&forecasts, oslo(), day.window)];
    let run = run_hourly(
        &vec![day],
        &forecasts,
        oslo(),
        t(5),
        &None,
        signals,
        Language::Norwegian,
        vec![10],
        None,
        &None,
    );
    assert!(run.days[0].hours.is_empty());
    assert!(run.days[0].stats.is_none());
}

#[test]
fn the_last_state_of_an_instant_counts() {
    let a = SurfaceState::default();
    let b = SurfaceState::new(finite(1.0));
    let starts = vec![t(6), t(7), t(6)];
    let surfaces = vec![Some(a), Some(a), Some(b)];
    assert_eq!(surface_at(&starts, &surfaces, t(6)), Some(b));
    assert_eq!(surface_at(&starts, &surfaces, t(7)), Some(a));
    assert_eq!(surface_at(&starts, &surfaces, t(8)), None);
}

#[test]
fn a_run_reports_the_radar_alert() {
    let win = RideWindow::from_hours(t(14), 3);
    let forecasts = vec![forecast_at(oslo(), "senter", (14..17).map(perfect).collect())];
    let signals = vec![signals_for(&forecasts[0].hours, win, None)];
    let nowcast = usable_nowcast(Some(Nowcast {
        radar_coverage_ok: true,
        steps: constant_rate_steps(t(6), 0.6),
    }));
    let agg = run_score(
        &forecasts,
        oslo(),
        win,
        None,
        signals,
        Language::Norwegian,
        None,
        &nowcast,
        t(5),
    );
    assert_eq!(agg.nowcast_alert.unwrap().first_rain_at, t(6));
    let uncovered = Nowcast { radar_coverage_ok: false, steps: Vec::new() };
    assert!(usable_nowcast(Some(uncovered)).is_none());
    assert!(usable_nowcast(None).is_none());
}

// ---- Radar overrides ----

fn step(time: i128, rate: f64) -> NowcastStep {
    NowcastStep { time, precipitation_rate_mm_h: measured(rate, 1) }
}

fn constant_rate_steps(start: i128, rate: f64) -> Vec<NowcastStep> {
    (0..12).map(|i| step(start + 5 * i * MINUTE, rate)).collect()
}

fn covered(steps: Vec<NowcastStep>) -> Nowcast {
    Nowcast { radar_coverage_ok: true, steps }
}

fn overridden(mut per_point: Vec<Vec<HourlyConditions>>, nowcast: &Nowcast) -> Vec<Vec<HourlyConditions>> {
    let mm = per_point.iter().map(|hours| radar_mm(hours, nowcast)).collect();
    apply_nowcast_overrides(&mut per_point, nowcast, &mm);
    per_point
}

fn close(r: Reading, x: f64) -> bool {
    (number(r) - x).abs() < 1e-9
}

#[test]
fn nowcast_overrides_dry_locationforecast_with_radar_rain() {
    let hours = vec![minimal(t(14), 12.0, 3.0, 0.0), minimal(t(15), 12.0, 3.0, 0.0)];
    let updated = overridden(vec![hours], &covered(constant_rate_steps(t(14), 0.6)));
    assert!(close(updated[0][0].precipitation_mm, 0.6));
    assert_eq!(updated[0][1].precipitation_mm, reading(0.0));
    assert_eq!(updated[0][0].probability_of_precip, Some(reading(95.0)));
    assert_eq!(updated[0][1].probability_of_precip, None);
}

#[test]
fn nowcast_does_not_lower_a_wetter_locationforecast() {
    let hours = vec![HourlyConditions {
        probability_of_precip: Some(reading(80.0)),
        ..minimal(t(14), 12.0, 3.0, 1.5)
    }];
    let updated = overridden(vec![hours], &covered(constant_rate_steps(t(14), 0.3)));
    assert_eq!(updated[0][0].precipitation_mm, reading(1.5));
    assert_eq!(updated[0][0].probability_of_precip, Some(reading(95.0)));
}

#[test]
fn nowcast_skips_buckets_outside_window() {
    let hours = vec![minimal(t(17), 12.0, 3.0, 0.0)];
    let updated = overridden(vec![hours], &covered(constant_rate_steps(t(14), 1.0)));
    assert_eq!(updated[0][0].precipitation_mm, reading(0.0));
    assert_eq!(updated[0][0].probability_of_precip, None);
}

#[test]
fn nowcast_no_coverage_is_a_noop() {
    let hours = vec![minimal(t(14), 12.0, 3.0, 0.0)];
    let nowcast =
        Nowcast { radar_coverage_ok: false, steps: constant_rate_steps(t(14), 0.6) };
    assert_eq!(overridden(vec![hours], &nowcast)[0][0].precipitation_mm, reading(0.0));
}

#[test]
fn nowcast_partial_coverage_only_affects_present_minutes() {
    let hours = vec![minimal(t(14), 12.0, 3.0, 0.0)];
    let steps = (0..6).map(|i| step(t(14) + 5 * i * MINUTE, 0.6)).collect();
    let updated = overridden(vec![hours], &covered(steps));
    assert!(close(updated[0][0].precipitation_mm, 0.3));
}

#[test]
fn nowcast_propagates_to_every_sample_point() {
    let make_hours = || vec![minimal(t(14), 12.0, 3.0, 0.0)];
    let per_point = vec![make_hours(), make_hours(), make_hours()];
    let updated = overridden(per_point, &covered(constant_rate_steps(t(14), 0.6)));
    assert_eq!(updated.len(), 3);
    assert!(updated.iter().all(|hours| close(hours[0].precipitation_mm, 0.6)));
}

#[test]
fn overriding_twice_changes_nothing() {
    let nowcast = covered(constant_rate_steps(t(14), 0.6));
    let once = overridden(vec![vec![minimal(t(14), 12.0, 3.0, 0.0)]], &nowcast);
    assert_eq!(overridden(once.clone(), &nowcast), once);
}

#[test]
fn build_nowcast_alert_dry_returns_none() {
    assert!(build_nowcast_alert(&covered(constant_rate_steps(t(14), 0.0)), t(14)).is_none());
}

#[test]
fn build_nowcast_alert_no_coverage_returns_none() {
    let nowcast =
        Nowcast { radar_coverage_ok: false, steps: constant_rate_steps(t(14), 0.6) };
    assert!(build_nowcast_alert(&nowcast, t(14)).is_none());
}

#[test]
fn build_nowcast_alert_returns_some_when_rain_in_future() {
    let now = t(14);
    let nowcast =
        covered(vec![step(now + 15 * MINUTE, 0.4), step(now + 20 * MINUTE, 0.6)]);
    let a = build_nowcast_alert(&nowcast, now).expect("rain in future");
    assert_eq!(a.first_rain_at, now + 15 * MINUTE);
    assert!(close(a.peak_mm_h.reading, 0.6));
}

#[test]
fn build_nowcast_alert_returns_none_when_only_past_steps() {
    let now = t(14);
    let nowcast = covered(vec![step(now - 10 * MINUTE, 0.6)]);
    assert!(build_nowcast_alert(&nowcast, now).is_none());
}

// ---- Replay of observations ----

fn observed(time: i128, precip: f64) -> HourlyObservation {
    HourlyObservation {
        time,
        precip_mm: Some(reading(precip)),
        temp_c: None,
        wind_ms: None,
        humidity_pct: None,
        cloud_pct: None,
    }
}

fn conditions(time: i128, precip: f64, temp: f64, wind: f64, rh: f64) -> HourlyObservation {
    HourlyObservation {
        temp_c: Some(reading(temp)),
        wind_ms: Some(reading(wind)),
        humidity_pct: Some(reading(rh)),
        ..observed(time, precip)
    }
}

fn water_of(history: &Vec<HourlyObservation>) -> Vec<Reading> {
    water_along(0, &replay_hours(history), &DryingParams::default())
}

fn replayed(history: &Vec<HourlyObservation>) -> SurfaceState {
    replay_into_state(&water_of(history))
}

fn dry_week() -> Vec<HourlyObservation> {
    (0..168).map(|i| observed(t(0) - i128::from(168 - i) * HOUR, 0.0)).collect()
}

#[test]
fn empty_history_yields_dry_ground() {
    assert_eq!(replayed(&Vec::new()), SurfaceState::default());
}

#[test]
fn heavy_recent_history_leaves_water_on_ground() {
    let history = (0..6).map(|i| observed(t(i), 3.0)).collect();
    assert!(replayed(&history).accumulated_mm > reading(0.0));
}

#[test]
fn replay_treats_gaps_in_history_as_dry_elapsed_time() {
    let history = vec![
        conditions(t(0), 0.0, 15.0, 3.0, 50.0),
        conditions(t(6), 0.0, 15.0, 3.0, 50.0),
    ];
    assert!(replayed(&history).hours_since_meaningful_rain >= 6);
    assert_eq!(replay_hours(&history).len(), 7);
}

#[test]
fn a_short_gap_is_no_gap() {
    let history = vec![observed(t(0), 0.0), observed(t(1) + 30 * MINUTE, 0.0)];
    assert_eq!(replay_hours(&history).len(), 2);
    let longer = vec![observed(t(0), 0.0), observed(t(1) + 31 * MINUTE, 0.0)];
    assert_eq!(replay_hours(&longer).len(), 3);
}

#[test]
fn replay_uses_observed_conditions_not_synthesised_neutral() {
    let dry = (0..6).map(|i| conditions(t(i), 1.0, 25.0, 8.0, 40.0)).collect();
    let damp = (0..6).map(|i| conditions(t(i), 1.0, 2.0, 0.5, 95.0)).collect();
    assert!(replayed(&dry).accumulated_mm < replayed(&damp).accumulated_mm);
}

#[test]
fn replay_marks_drought_at_lookback_cap_when_no_rain_in_history() {
    assert!(replayed(&dry_week()).drought_at_lookback_cap);
}

#[test]
fn replay_does_not_mark_cap_when_history_contains_rain() {
    let mut history = dry_week();
    history[72].precip_mm = Some(reading(2.0));
    assert!(!replayed(&history).drought_at_lookback_cap);
}

// ---- Rain history ----

fn rain_history_on(history: &Vec<HourlyObservation>, clock: &LocalClock) -> Option<RainHistory> {
    let water = water_of(history);
    let days = wet_days(history, &water, clock);
    let sums: Vec<f64> = rain_by_day(history, &days, clock)
        .iter()
        .map(|day| day.amounts.iter().map(|r| number(*r)).sum())
        .collect();
    let total = sums.iter().sum::<f64>();
    let day_totals = sums.iter().map(|mm| measured(*mm, 1)).collect();
    compute_rain_history(history, &water, clock, day_totals, measured(total, 1), 168)
}

fn rain_history_of(history: &Vec<HourlyObservation>) -> Option<RainHistory> {
    rain_history_on(history, &utc())
}

#[test]
fn rain_history_none_for_empty_history() {
    assert!(rain_history_of(&Vec::new()).is_none());
}

#[test]
fn rain_history_dry_period_is_some_with_zeroes() {
    let h = rain_history_of(&dry_week()).expect("observations were made");
    assert_eq!(h.total_mm.reading, reading(0.0));
    assert_eq!(h.rain_days, 0);
    assert_eq!(h.lookback_hours, 168);
    assert_eq!(h.wettest_day, date(-1));
}

fn two_wet_days() -> Vec<HourlyObservation> {
    let base = t(9) - 8 * 24 * HOUR;
    let mut history: Vec<HourlyObservation> =
        (0..3).map(|i| observed(base + i * HOUR, 1.5)).collect();
    history.push(observed(base + 28 * HOUR, 5.4));
    history
}

#[test]
fn rain_history_aggregates_days_in_local_tz() {
    let h = rain_history_of(&two_wet_days()).expect("observations were made");
    assert_eq!(h.rain_days, 2);
    assert!((number(h.total_mm.reading) - 9.9).abs() < 1e-6);
    assert!((number(h.wettest_day_mm.reading) - 5.4).abs() < 1e-6);
    assert_eq!(h.wettest_day, date(-7));
}

#[test]
fn rain_days_follow_the_local_date() {
    let history = vec![observed(t(22), 2.0), observed(t(23), 2.0)];
    assert_eq!(rain_history_of(&history).unwrap().wettest_day, TODAY);
    let east = LocalClock { offset_secs: 7_200, changes: Vec::new() };
    let h = rain_history_on(&history, &east).unwrap();
    assert_eq!(h.wettest_day, date(1));
    assert_eq!(h.rain_days, 1);
}

#[test]
fn the_later_of_equally_wet_days_is_named() {
    let history = vec![observed(t(9), 2.0), observed(t(33), 2.0)];
    let h = rain_history_of(&history).unwrap();
    assert_eq!(h.rain_days, 2);
    assert_eq!(h.wettest_day, date(1));
}

#[test]
fn rain_history_subthreshold_drizzle_is_not_a_rain_day() {
    let history = (0..5).map(|i| observed(t(6 + i) - 48 * HOUR, 0.1)).collect();
    let h = rain_history_of(&history).expect("observations were made");
    assert_eq!(h.rain_days, 0);
    assert_eq!(h.total_mm.reading, reading(0.0));
    assert!(replayed(&history).drought_at_lookback_cap);
}

#[test]
fn rain_history_single_strong_hour_counts_as_rain_day() {
    let h = rain_history_of(&vec![observed(t(3), 1.0)]).expect("observations were made");
    assert_eq!(h.rain_days, 1);
    assert!(close(h.total_mm.reading, 1.0));
}

#[test]
fn rain_history_threshold_hour_eaten_by_drying_does_not_count() {
    let history = vec![conditions(t(3), 0.3, 20.0, 5.0, 40.0)];
    let h = rain_history_of(&history).expect("observations were made");
    assert_eq!(h.rain_days, 0);
    assert_eq!(h.total_mm.reading, reading(0.0));
}

// ---- Projection ----

fn ts(h: i128) -> i128 {
    t(24) + h * HOUR
}

fn dry_hour(h: i128) -> HourlyConditions {
    HourlyConditions {
        relative_humidity: Some(reading(60.0)),
        cloud_area_fraction: Some(reading(50.0)),
        ..minimal(ts(h), 15.0, 3.0, 0.0)
    }
}

fn surface(mm: f64, hours: u64) -> SurfaceState {
    SurfaceState {
        accumulated_mm: reading(mm),
        hours_since_meaningful_rain: hours,
        drought_at_lookback_cap: false,
    }
}

fn projected(
    initial: SurfaceState,
    hours: &Vec<HourlyConditions>,
    day_starts: &Vec<i128>,
) -> Vec<SurfaceState> {
    let water = water_along(initial.accumulated_mm, hours, &DryingParams::default());
    project_states_for_days(initial, &water, hours, day_starts)
}

#[test]
fn projection_returns_initial_state_for_today_when_first_snapshot_is_now() {
    let initial = surface(1.5, 12);
    let hours = (0..24).map(dry_hour).collect();
    assert_eq!(projected(initial, &hours, &vec![ts(0)]), vec![initial]);
}

#[test]
fn projection_dries_ground_over_consecutive_dry_days() {
    let hours = (0..96).map(dry_hour).collect();
    let day_starts = vec![ts(0), ts(24), ts(48), ts(72)];
    let states = projected(surface(2.0, 0), &hours, &day_starts);
    assert_eq!(states.len(), 4);
    assert!(states.windows(2).all(|w| w[1].accumulated_mm <= w[0].accumulated_mm));
    assert!(states[3].hours_since_meaningful_rain > states[0].hours_since_meaningful_rain);
}

#[test]
fn projection_takes_the_state_before_the_snapshot_hour() {
    let mut hours: Vec<HourlyConditions> = (0..24).map(dry_hour).collect();
    hours.extend((24..30).map(|h| minimal(ts(h), 10.0, 2.0, 2.0)));
    let states = projected(SurfaceState::default(), &hours, &vec![ts(0), ts(24), ts(30)]);
    assert_eq!(states[0].accumulated_mm, reading(0.0));
    assert_eq!(states[1].accumulated_mm, reading(0.0));
    assert!(states[2].accumulated_mm > reading(0.0));
}

#[test]
fn projection_handles_snapshot_before_first_hour() {
    let initial = surface(0.5, 30);
    let hours = (10..20).map(dry_hour).collect();
    assert_eq!(projected(initial, &hours, &vec![ts(0)]), vec![initial]);
}

#[test]
fn projection_returns_one_state_per_day_start() {
    let hours = (0..96).map(dry_hour).collect();
    let day_starts = vec![ts(0), ts(24), ts(48), ts(72)];
    let states = projected(SurfaceState::default(), &hours, &day_starts);
    assert_eq!(states.len(), day_starts.len());
}

// ---- Plain terminals ----

#[test]
fn plain_reports_hold_no_escape_character() {
    let win = RideWindow::from_hours(t(6), 12);
    let forecasts = vec![forecast_at(oslo(), "senter", mixed_day())];
    let mut agg = window_run(&forecasts, win, Some(SurfaceState::default()), Language::Swedish);
    agg.rain_history = Some(history(14.2, 8.4, -8, 3));
    agg.nowcast_alert = alert_with(0.6, 10, 50);
    let days = one_day(mixed_day(), SurfaceState::default(), &BestWindowConfig::default());
    let hours = hourly_fixture(&WINDOW);
    let mut set = norwegian();
    for color in [false, true] {
        set.color = color;
        let flags = ChipFlags::default();
        for report in [
            render_human("Oslo", "20", win, &agg, true, flags, &set),
            render_multi_day("Oslo", "20", &days, true, flags, &set),
            render_hourly("Oslo", "20", &hours, true, flags, &set),
        ] {
            assert_eq!(report.contains('\u{1b}'), color, "got {report:?}");
        }
    }
}

// ---- Rollups ----

#[test]
fn a_window_rolls_up_its_points() {
    let win = RideWindow::from_hours(t(14), 3);
    let windy = (14..17).map(|h| minimal(t(h), 17.0, 9.0, 0.0)).collect();
    let forecasts = vec![
        forecast_at(oslo(), "senter", (14..17).map(perfect).collect()),
        forecast_at(east(), "Ø", windy),
    ];
    let agg = window_run(&forecasts, win, Some(SurfaceState::default()), Language::Norwegian);
    let totals: Vec<u8> = agg.points.iter().map(|p| p.score.total).collect();
    assert_eq!(totals[0], 98);
    assert_eq!((agg.max, agg.min), (totals[0], totals[1]));
    let sum = u32::from(totals[0]) + u32::from(totals[1]);
    assert_eq!(u32::from(agg.mean), (sum + 1) / 2);
    assert_eq!(agg.center_position(), 0);
    assert_eq!(agg.worst().bearing_label, "Ø");
    assert_eq!(agg.best().bearing_label, "senter");
}

#[test]
fn means_are_rounded_or_cut() {
    assert_eq!(mean_round(&vec![10, 11]), 11);
    assert_eq!(mean_floor(&vec![10, 11]), 10);
    assert_eq!(mean_floor(&Vec::new()), 0);
}

#[test]
fn combined_precip_lies_between_its_parts() {
    for (amount, probability) in [(0, 100), (100, 0), (37, 41), (80, 80)] {
        let both = combined_precip(amount, probability, Language::Norwegian);
        assert!(amount.min(probability) <= both && both <= amount.max(probability));
    }
}

#[test]
fn the_drought_counts_from_the_last_wet_hour() {
    let water: Vec<Reading> = [0.1, 0.5, 0.2, 0.0].into_iter().map(reading).collect();
    let state = replay_into_state(&water);
    assert_eq!(state.hours_since_meaningful_rain, 2);
    assert!(!state.drought_at_lookback_cap);
    assert_eq!(state.accumulated_mm, reading(0.0));
}
