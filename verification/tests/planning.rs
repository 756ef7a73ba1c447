//! Windows, configuration, command lines, colours, clocks and texts.

use grusindeks::command::{
    best_window_warning, chip_flags, days_need_nowcast, plan, Report, ScoreArgs, UsageError,
};
use grusindeks::conditions::HourlyConditions;
use grusindeks::config::{
    ClockTime, Config, DaytimeWindow, DrainageClass, FrostConfig, Place, Point, WorkHoursConfig,
};
use grusindeks::daily::{best_window_candidates, Confidence};
use grusindeks::lang::Language;
use grusindeks::reading::{Measured, Reading};
use grusindeks::run::ProgressSink;
use grusindeks::score::{Component, Severity};
use grusindeks::sun::{event, sun_times, PolarDay};
use grusindeks::text::{parse_u64, same_ignoring_ascii_case, trim};
use grusindeks::theme::{
    component_label, component_label_no, dim_for_confidence, paint_accent, paint_component_label,
    paint_dim, paint_fg, paint_label, paint_score, paint_score_soft, paint_severity, score_color,
    severity_color, AQUA, GREEN, ORANGE, RED, YELLOW,
};
use grusindeks::time::{
    rfc3339, Date, LocalClock, OffsetChange, RideWindow, Weekday, FIRST_DATE, FIRST_INSTANT,
    LAST_DATE, LAST_INSTANT,
};
use grusindeks::windows::{
    build_day_windows, build_work_hour_exclusions, daytime_header_hours,
    has_forecast_hour_in_window, local_to_utc, location_drainage, location_frost_source,
    max_offsets, next_whole_hour_at_or_after, parse_window, resolve_location, resolve_window,
    window_between, window_starts_within_nowcast_horizon, DayBounds, DayWindow, LocalMapping,
    LocalMoment, Location, LocationError, WindowError, DEFAULT_FORECAST_DAYS,
};

const SECOND: i128 = 1_000_000_000;
const MINUTE: i128 = 60 * SECOND;
const HOUR: i128 = 3_600 * SECOND;
const DAY: i128 = 24 * HOUR;

/// 2026-04-27, a Monday.
const TODAY: Date = Date { day_number: 739_733 };

fn reading(x: f64) -> Reading {
    let magnitude = x.abs().to_bits() as i64;
    if x < 0.0 {
        -magnitude
    } else {
        magnitude
    }
}

fn midnight(offset: i128) -> i128 {
    i128::from(TODAY.day_number - 719_163) * DAY + offset * DAY
}

/// A time of day, `offset` days from today; the local clock shows UTC.
fn dt(offset: i128, h: i128, m: i128) -> i128 {
    midnight(offset) + h * HOUR + m * MINUTE
}

fn date(offset: i32) -> Date {
    Date { day_number: TODAY.day_number + offset }
}

fn single(t: i128) -> LocalMoment {
    LocalMoment { naive: String::new(), mapping: LocalMapping::Single(t) }
}

fn clock(hour: u8, minute: u8) -> ClockTime {
    ClockTime { hour, minute }
}

fn bounds_of(daytime: DaytimeWindow, n: u8) -> Vec<DayBounds> {
    let at = |offset: u8, t: ClockTime| {
        single(dt(i128::from(offset), i128::from(t.hour), i128::from(t.minute)))
    };
    (0..max_offsets(n))
        .map(|k| DayBounds { start: at(k, daytime.start), end: at(k, daytime.end) })
        .collect()
}

fn day_windows(n: u8, now: i128, daytime: DaytimeWindow) -> Vec<DayWindow> {
    build_day_windows(TODAY, n, now, &bounds_of(daytime, n)).unwrap()
}

// ---- Day windows ----

#[test]
fn future_day_uses_full_daytime_window() {
    let days = day_windows(3, dt(0, 9, 0), DaytimeWindow::default());
    let tomorrow = days.iter().find(|d| d.date == date(1)).unwrap();
    assert_eq!(tomorrow.window.start, dt(1, 10, 0));
    assert_eq!(tomorrow.window.end, dt(1, 22, 0));
}

#[test]
fn today_before_daytime_starts_at_daytime_start() {
    let days = day_windows(1, dt(0, 6, 0), DaytimeWindow::default());
    assert_eq!(days.len(), 1);
    assert_eq!(days[0].window.start, dt(0, 10, 0));
    assert_eq!(days[0].window.end, dt(0, 22, 0));
}

#[test]
fn today_during_daytime_is_clipped_to_now() {
    let now = dt(0, 14, 30);
    let days = day_windows(1, now, DaytimeWindow::default());
    assert_eq!(days[0].window.start, now);
    assert_eq!(days[0].window.end, dt(0, 22, 0));
}

#[test]
fn today_dropped_when_past_daytime_end() {
    let days = day_windows(2, dt(0, 22, 30), DaytimeWindow::default());
    assert!(!days.iter().any(|d| d.date == TODAY));
    let tomorrow = days.iter().find(|d| d.date == date(1)).unwrap();
    assert_eq!(tomorrow.window.start, dt(1, 10, 0));
}

#[test]
fn today_dropped_when_no_whole_forecast_hour_remains() {
    let days = day_windows(2, dt(0, 21, 30), DaytimeWindow::default());
    assert!(!days.iter().any(|d| d.date == TODAY));
    let tomorrow = days.iter().find(|d| d.date == date(1)).unwrap();
    assert_eq!(tomorrow.window.start, dt(1, 10, 0));
    assert_eq!(days.len(), 2);
}

#[test]
fn today_kept_when_next_whole_forecast_hour_fits() {
    let now = dt(0, 20, 59);
    let days = day_windows(1, now, DaytimeWindow::default());
    assert_eq!(days.len(), 1);
    assert_eq!(days[0].window.start, now);
    assert_eq!(days[0].window.end, dt(0, 22, 0));
}

#[test]
fn custom_daytime_window_is_honored() {
    let custom = DaytimeWindow { start: clock(7, 0), end: clock(19, 0) };
    let days = day_windows(1, dt(0, 5, 0), custom);
    assert_eq!(days[0].window.start, dt(0, 7, 0));
    assert_eq!(days[0].window.end, dt(0, 19, 0));
}

#[test]
fn a_skipped_local_time_is_an_error() {
    let mut bounds = bounds_of(DaytimeWindow::default(), 1);
    bounds[0].start =
        LocalMoment { naive: "2026-03-29 02:30:00".to_owned(), mapping: LocalMapping::Missing };
    let why = build_day_windows(TODAY, 1, dt(0, 5, 0), &bounds).unwrap_err();
    assert!(why.contains("2026-03-29 02:30:00"), "got {why}");
    let twice = LocalMoment { naive: "x".to_owned(), mapping: LocalMapping::Ambiguous };
    assert!(local_to_utc(&twice).is_err());
    assert_eq!(local_to_utc(&single(7)), Ok(7));
}

// ---- Work hours ----

#[test]
fn work_hour_exclusions_follow_configured_weekdays() {
    let config = WorkHoursConfig {
        enabled: true,
        days: vec![Weekday::Mon, Weekday::Wed],
        window: DaytimeWindow { start: clock(8, 0), end: clock(15, 0) },
    };
    let exclusions =
        build_work_hour_exclusions(TODAY, 3, &config, &bounds_of(config.window, 3));
    assert_eq!(exclusions.len(), 2);
    assert_eq!(exclusions[0].start, dt(0, 8, 0));
    assert_eq!(exclusions[0].end, dt(0, 15, 0));
    assert_eq!(exclusions[1].start, dt(2, 8, 0));
}

#[test]
fn work_hour_exclusions_are_empty_when_disabled() {
    let config = WorkHoursConfig::default();
    let bounds = bounds_of(config.window, 5);
    assert!(build_work_hour_exclusions(TODAY, 5, &config, &bounds).is_empty());
}

// ---- Header hours ----

#[test]
fn daytime_header_hours_default_window_yields_10_to_21() {
    let hours = daytime_header_hours(DaytimeWindow::default());
    assert_eq!(hours, (10u8..22u8).collect::<Vec<_>>());
}

#[test]
fn daytime_header_hours_minute_offsets_are_clipped_inward() {
    let daytime = DaytimeWindow { start: clock(9, 30), end: clock(22, 30) };
    let hours = daytime_header_hours(daytime);
    assert_eq!(hours.first(), Some(&10));
    assert_eq!(hours.last(), Some(&21));
}

#[test]
fn daytime_header_hours_returns_empty_when_no_full_bucket_fits() {
    let daytime = DaytimeWindow { start: clock(10, 0), end: clock(10, 30) };
    assert!(daytime_header_hours(daytime).is_empty());
}

#[test]
fn whole_hours_lie_at_or_after() {
    assert_eq!(next_whole_hour_at_or_after(dt(0, 5, 0)), dt(0, 5, 0));
    assert_eq!(next_whole_hour_at_or_after(dt(0, 5, 0) + 1), dt(0, 6, 0));
    assert_eq!(next_whole_hour_at_or_after(-1), 0);
    assert!(has_forecast_hour_in_window(dt(0, 20, 59), dt(0, 22, 0)));
    assert!(!has_forecast_hour_in_window(dt(0, 21, 1), dt(0, 22, 0)));
}

#[test]
fn the_radar_looks_two_hours_ahead() {
    let now = dt(0, 12, 0);
    let from = |minutes: i128| RideWindow {
        start: now + minutes * MINUTE,
        end: now + minutes * MINUTE + HOUR,
    };
    assert!(window_starts_within_nowcast_horizon(from(0), now));
    assert!(window_starts_within_nowcast_horizon(from(120), now));
    assert!(!window_starts_within_nowcast_horizon(from(121), now));
    assert!(window_starts_within_nowcast_horizon(from(-59), now));
    assert!(!window_starts_within_nowcast_horizon(from(-60), now));
    let days = vec![DayWindow { date: TODAY, window: from(30) }];
    assert!(days_need_nowcast(&days, now));
    assert!(!days_need_nowcast(&Vec::new(), now));
}

// ---- Locations ----

fn place(name: &str, source: Option<&str>, drainage: Option<DrainageClass>) -> Place {
    Place {
        name: name.to_owned(),
        center: Point { lat: reading(59.9), lon: reading(10.7) },
        radius_km: reading(15.0),
        frost_source_id: source.map(str::to_owned),
        drainage,
    }
}

fn config() -> Config {
    Config {
        user_agent_contact: "dev@example.invalid".to_owned(),
        default_place: Some("oslo".to_owned()),
        language: Language::Norwegian,
        show_rain_history: true,
        show_window_stats: true,
        daytime_window: DaytimeWindow::default(),
        work_hours: WorkHoursConfig::default(),
        drainage: DrainageClass::Normal,
        frost: FrostConfig { client_id: None, source_id: Some("SN1".to_owned()) },
        places: vec![
            place("oslo", Some("SN18700"), Some(DrainageClass::Fast)),
            place("bergen", None, None),
        ],
    }
}

fn coordinate(x: f64) -> Option<Measured> {
    Some(Measured { reading: reading(x), text: format!("{x:.4}") })
}

#[test]
fn coordinates_win_over_the_default_place() {
    let loc =
        resolve_location(&config(), coordinate(1.5), coordinate(-2.25), None, None).unwrap();
    assert_eq!(loc.name, "1.5000,-2.2500");
    assert_eq!(loc.center, Point { lat: reading(1.5), lon: reading(-2.25) });
    assert_eq!(loc.radius_km, reading(20.0));
}

#[test]
fn places_are_found_by_name() {
    let cfg = config();
    let loc = resolve_location(&cfg, None, None, None, None).unwrap();
    assert_eq!(loc.name, "oslo");
    assert_eq!(loc.radius_km, reading(15.0));
    let wide = resolve_location(&cfg, None, None, Some("bergen".to_owned()), Some(reading(3.0)));
    assert_eq!(wide.unwrap().radius_km, reading(3.0));
}

#[test]
fn locations_can_be_refused() {
    let mut cfg = config();
    let both =
        resolve_location(&cfg, coordinate(1.0), None, Some("oslo".to_owned()), None).unwrap_err();
    assert_eq!(both, LocationError::MutuallyExclusive);
    assert_eq!(both.message(""), "--lat/--lon and --place are mutually exclusive");
    let one = resolve_location(&cfg, None, coordinate(1.0), None, None).unwrap_err();
    assert_eq!(one, LocationError::OneCoordinate);
    let unknown =
        resolve_location(&cfg, None, None, Some("rjukan".to_owned()), None).unwrap_err();
    assert_eq!(unknown, LocationError::UnknownPlace("rjukan".to_owned()));
    assert!(unknown.message("[]").contains("no place named 'rjukan'"));
    cfg.default_place = None;
    let nothing = resolve_location(&cfg, None, None, None, None).unwrap_err();
    assert_eq!(nothing, LocationError::NothingGiven);
}

#[test]
fn places_fall_back_to_the_configuration() {
    let cfg = config();
    let at = |name: &str| Location {
        name: name.to_owned(),
        center: Point { lat: 0, lon: 0 },
        radius_km: 0,
    };
    assert_eq!(location_frost_source(&cfg, &at("oslo")), Some("SN18700".to_owned()));
    assert_eq!(location_frost_source(&cfg, &at("bergen")), Some("SN1".to_owned()));
    assert_eq!(location_drainage(&cfg, &at("oslo")), DrainageClass::Fast);
    assert_eq!(location_drainage(&cfg, &at("elsewhere")), DrainageClass::Normal);
}

// ---- Ride windows ----

#[test]
fn window_arguments_are_read() {
    let daytime = parse_window("14:00-17:30").unwrap();
    assert_eq!(daytime, DaytimeWindow { start: clock(14, 0), end: clock(17, 30) });
    assert_eq!(parse_window(" 8:05 - 9:00 ").unwrap().start, clock(8, 5));
    assert_eq!(
        parse_window("14:00").unwrap_err(),
        WindowError::NotARange("14:00".to_owned())
    );
    assert!(matches!(parse_window("25:00-26:00").unwrap_err(), WindowError::BadStart(_)));
    assert!(matches!(parse_window("14:00-x").unwrap_err(), WindowError::BadEnd(_)));
    let why = parse_window("14:00").unwrap_err().message("\"14:00\"");
    assert_eq!(why, "--window must be HH:MM-HH:MM, got \"14:00\"");
}

#[test]
fn a_window_ends_after_it_starts() {
    let at = single;
    assert_eq!(window_between(&at(5), &at(9)), Ok(RideWindow { start: 5, end: 9 }));
    assert_eq!(window_between(&at(9), &at(9)), Err(WindowError::EndNotAfterStart));
    let now = dt(0, 12, 0);
    assert_eq!(
        resolve_window(None, now, 3),
        Ok(RideWindow { start: now, end: now + 3 * HOUR })
    );
    assert_eq!(
        resolve_window(Some((&at(5), &at(9))), now, 3),
        Ok(RideWindow { start: 5, end: 9 })
    );
    let gone = LocalMoment { naive: "n".to_owned(), mapping: LocalMapping::Missing };
    assert!(matches!(window_between(&gone, &at(9)), Err(WindowError::LocalTime(_))));
}

// ---- Command lines ----

fn args() -> ScoreArgs {
    ScoreArgs {
        window: None,
        hours: None,
        days: None,
        best_window: None,
        include_work_hours: false,
        hourly: false,
        no_rain_history: false,
        no_window_stats: false,
    }
}

#[test]
fn without_arguments_six_days_are_reported() {
    let p = plan(&args()).unwrap();
    assert_eq!(p.report, Report::Days(DEFAULT_FORECAST_DAYS));
    assert_eq!(DEFAULT_FORECAST_DAYS, 6);
    assert_eq!(p.best_window.length_hours, 3);
    assert_eq!(p.best_window.min_improvement, 10);
    assert!(!p.exclude_work_hours);
}

#[test]
fn a_window_or_hours_make_a_single_report() {
    let p = plan(&ScoreArgs { hours: Some(5), ..args() }).unwrap();
    assert_eq!(p.report, Report::Window(5));
    let window = Some("14:00-17:00".to_owned());
    let p = plan(&ScoreArgs { window, ..args() }).unwrap();
    assert_eq!(p.report, Report::Window(3));
    let p = plan(&ScoreArgs { days: Some(1), ..args() }).unwrap();
    assert_eq!(p.report, Report::Days(1));
    let p = plan(&ScoreArgs { hourly: true, days: Some(2), ..args() }).unwrap();
    assert_eq!(p.report, Report::Hours(2));
}

#[test]
fn the_best_window_keeps_out_of_work_hours() {
    let p = plan(&ScoreArgs { best_window: Some(2), ..args() }).unwrap();
    assert_eq!(p.best_window.length_hours, 2);
    assert_eq!(p.best_window.min_improvement, 0);
    assert!(p.exclude_work_hours);
    let p =
        plan(&ScoreArgs { best_window: Some(2), include_work_hours: true, ..args() }).unwrap();
    assert!(!p.exclude_work_hours);
}

#[test]
fn arguments_that_exclude_each_other_are_refused() {
    let refused = |a: ScoreArgs| plan(&a).unwrap_err();
    let hourly = refused(ScoreArgs { hourly: true, hours: Some(3), ..args() });
    assert_eq!(hourly, UsageError::HourlyWithWindow);
    assert_eq!(hourly.message(), "--hourly kan ikke brukes sammen med --window/--hours");
    let best = refused(ScoreArgs { hourly: true, best_window: Some(2), ..args() });
    assert_eq!(best, UsageError::HourlyWithBestWindow);
    assert_eq!(best.message(), "--hourly kan ikke brukes sammen med --best-window");
    let days = refused(ScoreArgs { hours: Some(3), days: Some(2), ..args() });
    assert_eq!(days, UsageError::WindowWithDays);
    assert_eq!(days.message(), "--window/--hours kan ikke brukes sammen med --days");
    let single = refused(ScoreArgs { hours: Some(3), best_window: Some(2), ..args() });
    assert_eq!(single, UsageError::WindowWithBestWindow);
    assert!(single.message().starts_with("--best-window gjelder bare multi-dags-prognosen"));
}

#[test]
fn chips_can_be_switched_off_twice() {
    let mut cfg = config();
    let shown = chip_flags(&cfg, &args());
    assert!(shown.rain_history && shown.window_stats && !shown.best_window);
    assert!(chip_flags(&cfg, &ScoreArgs { best_window: Some(2), ..args() }).best_window);
    let hidden = chip_flags(&cfg, &ScoreArgs { no_rain_history: true, ..args() });
    assert!(!hidden.rain_history && hidden.window_stats);
    cfg.show_window_stats = false;
    assert!(!chip_flags(&cfg, &args()).window_stats);
}

#[test]
fn a_best_window_that_never_fits_is_warned_of() {
    let daytime = DaytimeWindow { start: clock(10, 0), end: clock(12, 30) };
    assert_eq!(best_window_warning(2, daytime), None);
    assert_eq!(
        best_window_warning(3, daytime).unwrap(),
        "warning: --best-window 3t er lengre enn dag-vinduet (2t 30m). Ingen vindu vil bli foreslått. Juster `daytime_window` i config eller velg et kortere --best-window."
    );
    let short = DaytimeWindow { start: clock(10, 0), end: clock(10, 5) };
    assert!(best_window_warning(1, short).unwrap().contains("(0t 05m)"));
    let backward = DaytimeWindow { start: clock(10, 30), end: clock(9, 0) };
    assert!(best_window_warning(1, backward).unwrap().contains("(-1t -30m)"));
}

#[test]
fn a_warned_best_window_has_no_candidates() {
    let daytime = DaytimeWindow { start: clock(10, 0), end: clock(12, 30) };
    let day = RideWindow { start: dt(0, 10, 0), end: dt(0, 12, 30) };
    let hours: Vec<HourlyConditions> =
        (10..13).map(|h| HourlyConditions::minimal(dt(0, h, 0), 0, 0, 0)).collect();
    assert!(best_window_warning(3, daytime).is_some());
    assert!(best_window_candidates(&hours, day, 3, &Vec::new()).is_empty());
    assert_eq!(best_window_candidates(&hours, day, 2, &Vec::new()).len(), 1);
}

// ---- Colours ----

#[test]
fn score_color_matches_label_buckets() {
    assert_eq!(score_color(0), RED);
    assert_eq!(score_color(24), RED);
    assert_eq!(score_color(25), ORANGE);
    assert_eq!(score_color(44), ORANGE);
    assert_eq!(score_color(45), YELLOW);
    assert_eq!(score_color(64), YELLOW);
    assert_eq!(score_color(65), GREEN);
    assert_eq!(score_color(84), GREEN);
    assert_eq!(score_color(85), AQUA);
    assert_eq!(score_color(100), AQUA);
}

#[test]
fn severity_color_orders_by_intensity() {
    assert_ne!(severity_color(Severity::Minor), severity_color(Severity::Major));
    assert_ne!(severity_color(Severity::Major), severity_color(Severity::Critical));
}

#[test]
fn dim_for_confidence_only_dims_lav() {
    assert!(!dim_for_confidence(Confidence::Hoy));
    assert!(!dim_for_confidence(Confidence::Middels));
    assert!(dim_for_confidence(Confidence::Lav));
}

#[test]
fn painted_texts_carry_their_escape_sequences() {
    assert_eq!(paint_score(99, true), "\u{1b}[38;2;142;192;124;1m99\u{1b}[0m");
    assert_eq!(paint_label("OK", 50, true), "\u{1b}[38;2;250;189;47mOK\u{1b}[0m");
    assert_eq!(paint_dim("", true), "\u{1b}[38;2;146;131;116m\u{1b}[0m");
    assert_eq!(paint_fg("x", true), "\u{1b}[38;2;235;219;178mx\u{1b}[0m");
    assert_eq!(paint_accent("x", true), "\u{1b}[38;2;211;134;155;1mx\u{1b}[0m");
    assert_eq!(
        paint_severity("x", Severity::Critical, true),
        "\u{1b}[38;2;251;73;52mx\u{1b}[0m"
    );
    assert_eq!(
        paint_component_label(Component::Wind, Language::Swedish, true),
        "\u{1b}[38;2;254;128;25;1mVind\u{1b}[0m"
    );
}

#[test]
fn plain_terminals_get_plain_text() {
    assert_eq!(paint_score(99, false), "99");
    assert_eq!(paint_score_soft("★", 99, false), "★");
    assert_eq!(component_label_no(Component::Ground), "Bakke");
    assert_eq!(component_label(Component::Ground, Language::Swedish), "Mark");
}

#[test]
fn default_is_norwegian() {
    assert_eq!(Language::default(), Language::Norwegian);
}

// ---- Clocks and dates ----

#[test]
fn dates_have_fields_and_weekdays() {
    assert_eq!(TODAY.civil(), (2026, 4, 27));
    assert_eq!(TODAY.weekday(), Weekday::Mon);
    assert_eq!(Date { day_number: 719_163 }.civil(), (1970, 1, 1));
    assert_eq!(Date { day_number: 719_163 }.weekday(), Weekday::Thu);
    assert_eq!(Date { day_number: 1 }.civil(), (1, 1, 1));
    assert_eq!(Date { day_number: 0 }.civil(), (0, 12, 31));
}

#[test]
fn the_calendar_reaches_its_ends() {
    let first = Date { day_number: FIRST_DATE };
    let last = Date { day_number: LAST_DATE };
    assert_eq!(first.civil(), (-262_143, 1, 1));
    assert_eq!(last.civil(), (262_142, 12, 31));
    assert_eq!(first.weekday(), Weekday::Thu);
    assert_eq!(last.weekday(), Weekday::Mon);
    assert_eq!(rfc3339(FIRST_INSTANT), "-262143-01-01T00:00:00+00:00");
    assert_eq!(rfc3339(LAST_INSTANT), "+262142-12-31T23:59:59.999999999+00:00");
    let utc = LocalClock { offset_secs: 0, changes: Vec::new() };
    assert_eq!(utc.date_string(FIRST_INSTANT), "-262143-01-01");
    assert_eq!(utc.date_string(LAST_INSTANT), "+262142-12-31");
    assert_eq!(utc.date_string(midnight(-739_733)), "0000-12-31");
}

#[test]
fn the_local_clock_follows_its_offsets() {
    let summer = midnight(0);
    let local = LocalClock {
        offset_secs: 3_600,
        changes: vec![OffsetChange { from: summer, offset_secs: 7_200 }],
    };
    assert_eq!(local.hm(summer - MINUTE), "00:59");
    assert_eq!(local.hm(summer), "02:00");
    assert_eq!(local.date_string(summer + 22 * HOUR), "2026-04-28");
    assert_eq!(local.date_of(summer + 21 * HOUR), TODAY);
    assert_eq!(local.hour_of(summer + 21 * HOUR), 23);
    let west = LocalClock { offset_secs: -16_200, changes: Vec::new() };
    assert_eq!(west.hm(0), "19:30");
    assert_eq!(west.date_string(0), "1969-12-31");
}

#[test]
fn instants_are_written_in_full() {
    assert_eq!(rfc3339(0), "1970-01-01T00:00:00+00:00");
    assert_eq!(rfc3339(dt(0, 10, 5)), "2026-04-27T10:05:00+00:00");
    assert_eq!(rfc3339(-SECOND / 2), "1969-12-31T23:59:59.500+00:00");
}

#[test]
fn ride_windows_are_half_open() {
    let w = RideWindow::from_hours(dt(0, 10, 0), 2);
    assert!(w.contains(dt(0, 10, 0)));
    assert!(!w.contains(dt(0, 12, 0)));
    assert_eq!(w.duration_hours(), 2);
    assert_eq!(RideWindow { start: HOUR, end: 0 }.duration_hours(), -1);
}

// ---- Sun ----

#[test]
fn polar_midnight_sun_has_no_sunset() {
    let s = sun_times(None, None, reading(35.0));
    assert!(s.sunset.is_none());
    assert!(s.sunrise.is_none());
    assert_eq!(s.polar, Some(PolarDay::MidnightSun));
}

#[test]
fn polar_night_is_classified_distinctly() {
    let s = sun_times(None, None, reading(-12.0));
    assert!(s.sunset.is_none());
    assert!(s.sunrise.is_none());
    assert_eq!(s.polar, Some(PolarDay::PolarNight));
}

#[test]
fn the_sun_rises_only_where_it_crosses_the_horizon() {
    let day = midnight(0);
    assert_eq!(event(day, Some(reading(0.5)), 14_400), Some(dt(0, 4, 0)));
    assert_eq!(event(day, Some(reading(-1.0)), 0), Some(day));
    assert_eq!(event(day, Some(reading(1.01)), 14_400), None);
    assert_eq!(event(day, None, 14_400), None);
    let s = sun_times(Some(day), None, reading(10.0));
    assert_eq!(s.polar, None);
}

// ---- Texts ----

#[test]
fn texts_are_trimmed_and_compared() {
    assert_eq!(trim(" \u{a0}a b\t\n"), "a b");
    assert_eq!(trim("  "), "");
    assert!(same_ignoring_ascii_case("ReD", "rEd"));
    assert!(!same_ignoring_ascii_case("Ø", "ø"));
    assert_eq!(parse_u64("+42"), Some(42));
    assert_eq!(parse_u64("18446744073709551616"), None);
    assert_eq!(parse_u64(""), None);
}

// ---- Progress ----

struct Silent;

impl ProgressSink for Silent {}

#[test]
fn progress_is_silent_unless_told_otherwise() {
    let sink: &dyn ProgressSink = &Silent;
    sink.ground_started();
    sink.ground_finished(true);
    sink.forecast_started(9);
    sink.forecast_point_done();
    sink.forecast_finished();
    sink.nowcast_started();
    sink.nowcast_finished(false);
}
