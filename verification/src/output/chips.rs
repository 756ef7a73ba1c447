//! The small texts around a report: radar banner, chips and penalty lines.
use vstd::prelude::*;
use vstd::string::StringExecFns;

use crate::aggregate::{day_center, MultiDayForecast, RainHistory};
use crate::lang::Language;
use crate::nowcast::NowcastAlert;
use crate::output::labels::{format_time_until, push_short_date, short_date_text, time_until_text};
use crate::output::Setting;
use crate::reading::Reading;
use crate::score::{Component, Penalty, Severity, WindowFigures, WindowStats};
use crate::text::{decimal, push_decimal, push_signed, signed_decimal};
use crate::theme::{
    color_of_component, component_text, dimmed, in_score_color, in_severity_color,
    paint_component_label, paint_dim, paint_score_str, paint_severity, painted,
};
use crate::time::{is_instant, MINUTE};

verus! {

/// 0.5 mm/h: from here on a lasting rain is heavy.
pub const HEAVY_PEAK_MM_H: Reading = 0x3FE0_0000_0000_0000;

/// 0.05 mm: less prints as nothing.
pub const DRY_MM: Reading = 0x3FA9_9999_9999_999A;

/// 0.5 mm: less is drizzle.
pub const DRIZZLE_MM: Reading = 0x3FE0_0000_0000_0000;

/// 3.0 mm/h: from here on rain is heavy.
pub const HEAVY_RAIN_MM_H: Reading = 0x4008_0000_0000_0000;

// ---- Radar banner ----

/// An alert is critical when the rain is at most half an hour away, or when it
/// is heavy and lasts at least half an hour.
pub open spec fn alert_severity(a: NowcastAlert, now: int) -> Severity {
    let imminent = a.first_rain_at - now <= 30 * MINUTE;
    let heavy = a.peak_mm_h.reading >= HEAVY_PEAK_MM_H && a.last_rain_at - a.first_rain_at >= 30
        * MINUTE;
    if imminent || heavy {
        Severity::Critical
    } else {
        Severity::Minor
    }
}

/// The alert's times are instants.
pub open spec fn timed_alert(alert: Option<NowcastAlert>) -> bool {
    alert matches Some(a) ==> is_instant(a.first_rain_at as int) && is_instant(
        a.last_rain_at as int,
    ) && is_instant(a.peak_at as int)
}

/// The line on the radar, or nothing where there is no alert.
pub open spec fn banner_text(alert: Option<NowcastAlert>, set: Setting) -> Seq<char> {
    match alert {
        None => ""@,
        Some(a) => {
            let severity = alert_severity(a, set.now as int);
            in_severity_color("⚠"@, severity, set.color) + "  "@ + in_severity_color(
                "Radar"@,
                severity,
                set.color,
            ) + ": regn "@ + time_until_text(a.first_rain_at - set.now, set.lang) + " (topp "@
                + a.peak_mm_h.text@ + " mm/h kl "@ + set.clock.hm_text(a.peak_at as int)
                + ")\n\n"@
        },
    }
}

/// Single-line banner that surfaces the radar nowcast above the regular report.
pub fn nowcast_banner(alert: &Option<NowcastAlert>, set: &Setting) -> (text: String)
    requires
        set.valid(),
        timed_alert(*alert),
    ensures
        text@ == banner_text(*alert, *set),
{
    match alert {
        None => "".to_owned(),
        Some(a) => {
            let until_first: i128 = a.first_rain_at - set.now;
            let duration: i128 = a.last_rain_at - a.first_rain_at;
            let imminent = until_first <= 30 * MINUTE;
            let heavy = a.peak_mm_h.reading >= HEAVY_PEAK_MM_H && duration >= 30 * MINUTE;
            let severity = if imminent || heavy {
                Severity::Critical
            } else {
                Severity::Minor
            };
            let mut text = paint_severity("⚠", severity, set.color);
            text.append("  ");
            text.append(paint_severity("Radar", severity, set.color).as_str());
            text.append(": regn ");
            text.append(format_time_until(until_first, set.lang).as_str());
            text.append(" (topp ");
            text.append(a.peak_mm_h.text.as_str());
            text.append(" mm/h kl ");
            text.append(set.clock.hm(a.peak_at).as_str());
            text.append(")\n\n");
            text
        },
    }
}

// ---- The past week's rain ----

/// How many days the rain history looks back, at least one.
pub open spec fn lookback_days(hours: int) -> int {
    if hours < 24 {
        1
    } else {
        hours / 24
    }
}

/// The rain of the past week in words.
pub open spec fn rain_history_text(h: RainHistory, lang: Language) -> Seq<char> {
    let days = decimal(lookback_days(h.lookback_hours as int) as nat);
    match lang {
        Language::Norwegian => h.total_mm.text@ + " mm siste "@ + days + " døgn · våtest "@
            + short_date_text(h.wettest_day, lang) + " ("@ + h.wettest_day_mm.text@ + " mm) · "@
            + decimal(h.rain_days as nat) + " regndøgn"@,
        Language::Swedish => h.total_mm.text@ + " mm senaste "@ + days + " dygn · blötast "@
            + short_date_text(h.wettest_day, lang) + " ("@ + h.wettest_day_mm.text@ + " mm) · "@
            + decimal(h.rain_days as nat) + (if h.rain_days == 1 {
            " regndag"@
        } else {
            " regndagar"@
        }),
    }
}

/// What the "Regn 7d" chip says. A week without a rain day has none: the ground
/// chip already says so.
pub open spec fn rain_chip(h: Option<RainHistory>, lang: Language) -> Option<Seq<char>> {
    match h {
        Some(h) => if h.rain_days == 0 {
            None
        } else {
            Some(rain_history_text(h, lang))
        },
        None => None,
    }
}

pub open spec fn text_view(text: Option<String>) -> Option<Seq<char>> {
    match text {
        Some(t) => Some(t@),
        None => None,
    }
}

/// Compose the "Regn 7d" chip body.
pub fn rain_history_chip_content(history: &RainHistory, lang: Language) -> (text: Option<String>)
    requires
        history.wettest_day.valid(),
    ensures
        text_view(text) == (if history.rain_days == 0 {
            None
        } else {
            Some(rain_history_text(*history, lang))
        }),
{
    if history.rain_days == 0 {
        return None;
    }
    let days: u64 = if history.lookback_hours < 24 {
        1
    } else {
        (history.lookback_hours / 24) as u64
    };
    let mut text = history.total_mm.text.clone();
    match lang {
        Language::Norwegian => text.append(" mm siste "),
        Language::Swedish => text.append(" mm senaste "),
    }
    push_decimal(&mut text, days);
    match lang {
        Language::Norwegian => text.append(" døgn · våtest "),
        Language::Swedish => text.append(" dygn · blötast "),
    }
    push_short_date(&mut text, history.wettest_day, lang);
    text.append(" (");
    text.append(history.wettest_day_mm.text.as_str());
    text.append(" mm) · ");
    push_decimal(&mut text, history.rain_days as u64);
    match lang {
        Language::Norwegian => text.append(" regndøgn"),
        Language::Swedish => if history.rain_days == 1 {
            text.append(" regndag")
        } else {
            text.append(" regndagar")
        },
    }
    Some(text)
}

/// A rain history names a date.
pub open spec fn dated_history(h: Option<RainHistory>) -> bool {
    h matches Some(h) ==> h.wettest_day.valid()
}

/// The "Regn 7d" chip of a report.
pub fn rain_chip_of(history: &Option<RainHistory>, lang: Language) -> (text: Option<String>)
    requires
        dated_history(*history),
    ensures
        text_view(text) == rain_chip(*history, lang),
{
    match history {
        Some(h) => rain_history_chip_content(h, lang),
        None => None,
    }
}

// ---- Rain in the suggested window ----

/// How dry the suggested window is, in words.
pub open spec fn window_rain_text(
    f: WindowFigures,
    lang: Language,
    is_opening: bool,
) -> Seq<char> {
    let place = match (lang, is_opening) {
        (Language::Norwegian, true) => "i luka"@,
        (Language::Norwegian, false) => "i vinduet"@,
        (Language::Swedish, true) => "i luckan"@,
        (Language::Swedish, false) => "i fönstret"@,
    };
    let total = f.total_precip_mm.reading;
    let peak = f.max_hourly_precip_mm.reading;
    if total < DRY_MM && peak < DRY_MM {
        match lang {
            Language::Norwegian => "☂ opphold "@ + place,
            Language::Swedish => "☂ uppehåll "@ + place,
        }
    } else if total < DRIZZLE_MM && peak < DRIZZLE_MM {
        match lang {
            Language::Norwegian => "🌦 yr "@ + f.total_precip_mm.text@ + " mm "@ + place,
            Language::Swedish => "🌦 duggregn "@ + f.total_precip_mm.text@ + " mm "@ + place,
        }
    } else if peak >= HEAVY_RAIN_MM_H {
        match lang {
            Language::Norwegian => "⛈ kraftig regn "@ + place + ", topp "@
                + f.max_hourly_precip_mm.text@ + " mm/t"@,
            Language::Swedish => "⛈ kraftigt regn "@ + place + ", topp "@
                + f.max_hourly_precip_mm.text@ + " mm/h"@,
        }
    } else {
        "🌧 regn "@ + f.total_precip_mm.text@ + " mm "@ + place
    }
}

/// Rain status of the suggested window; nothing where it has no figures.
pub fn best_window_rain_trailer(stats: &WindowStats, lang: Language, is_opening: bool) -> (text:
    Option<String>)
    ensures
        text_view(text) == (match stats.figures {
            Some(f) => Some(window_rain_text(f, lang, is_opening)),
            None => None,
        }),
{
    let f = match &stats.figures {
        Some(f) => f,
        None => {
            return None;
        },
    };
    let place = match (lang, is_opening) {
        (Language::Norwegian, true) => "i luka",
        (Language::Norwegian, false) => "i vinduet",
        (Language::Swedish, true) => "i luckan",
        (Language::Swedish, false) => "i fönstret",
    };
    let total: Reading = f.total_precip_mm.reading;
    let peak: Reading = f.max_hourly_precip_mm.reading;
    if total < DRY_MM && peak < DRY_MM {
        let mut text = match lang {
            Language::Norwegian => "☂ opphold ".to_owned(),
            Language::Swedish => "☂ uppehåll ".to_owned(),
        };
        text.append(place);
        return Some(text);
    }
    if total < DRIZZLE_MM && peak < DRIZZLE_MM {
        let mut text = match lang {
            Language::Norwegian => "🌦 yr ".to_owned(),
            Language::Swedish => "🌦 duggregn ".to_owned(),
        };
        text.append(f.total_precip_mm.text.as_str());
        text.append(" mm ");
        text.append(place);
        return Some(text);
    }
    if peak >= HEAVY_RAIN_MM_H {
        let mut text = match lang {
            Language::Norwegian => "⛈ kraftig regn ".to_owned(),
            Language::Swedish => "⛈ kraftigt regn ".to_owned(),
        };
        text.append(place);
        text.append(", topp ");
        text.append(f.max_hourly_precip_mm.text.as_str());
        match lang {
            Language::Norwegian => text.append(" mm/t"),
            Language::Swedish => text.append(" mm/h"),
        }
        return Some(text);
    }
    let mut text = "🌧 regn ".to_owned();
    text.append(f.total_precip_mm.text.as_str());
    text.append(" mm ");
    text.append(place);
    Some(text)
}

// ---- Plain figures ----

/// A temperature, or a range of temperatures.
pub open spec fn temp_range_text(lo: int, hi: int) -> Seq<char> {
    if lo == hi {
        signed_decimal(lo) + " °C"@
    } else {
        signed_decimal(lo) + "–"@ + signed_decimal(hi) + " °C"@
    }
}

fn temp_range(lo: i32, hi: i32) -> (text: String)
    ensures
        text@ == temp_range_text(lo as int, hi as int),
{
    let mut text = String::new();
    push_signed(&mut text, lo as i64);
    proof {
        assert(text@ =~= signed_decimal(lo as int));
    }
    if lo != hi {
        text.append("–");
        push_signed(&mut text, hi as i64);
    }
    text.append(" °C");
    text
}

/// A wind speed, with the gusts where they are known.
pub open spec fn wind_speed_text(wind: int, gust: Option<i32>, lang: Language) -> Seq<char> {
    match gust {
        Some(g) => signed_decimal(wind) + (match lang {
            Language::Norwegian => " m/s (kast "@,
            Language::Swedish => " m/s (by "@,
        }) + signed_decimal(g as int) + ")"@,
        None => signed_decimal(wind) + " m/s"@,
    }
}

fn wind_speed(wind: i32, gust: Option<i32>, lang: Language) -> (text: String)
    ensures
        text@ == wind_speed_text(wind as int, gust, lang),
{
    let mut text = String::new();
    push_signed(&mut text, wind as i64);
    proof {
        assert(text@ =~= signed_decimal(wind as int));
    }
    match gust {
        Some(g) => {
            match lang {
                Language::Norwegian => text.append(" m/s (kast "),
                Language::Swedish => text.append(" m/s (by "),
            }
            push_signed(&mut text, g as i64);
            text.append(")");
        },
        None => text.append(" m/s"),
    }
    text
}

/// The figures of a window, each in the colour of its sub-score.
pub open spec fn tall_text(f: WindowFigures, lang: Language, color: bool) -> Seq<char> {
    in_score_color(
        temp_range_text(f.min_temp_c as int, f.max_temp_c as int),
        f.temp_score as int,
        true,
        color,
    ) + " "@ + dimmed("·"@, color) + " "@ + in_score_color(
        f.total_precip_mm.text@ + " mm"@,
        f.precip_score as int,
        true,
        color,
    ) + " "@ + dimmed("·"@, color) + " "@ + in_score_color(
        wind_speed_text(f.max_wind_ms as int, f.max_gust_ms, lang),
        f.wind_score as int,
        true,
        color,
    )
}

/// Compact, colour-coded one-liner for the per-day stats row.
pub fn format_tall_line(f: &WindowFigures, lang: Language, color: bool) -> (text: String)
    ensures
        text@ == tall_text(*f, lang, color),
{
    let mut precip = f.total_precip_mm.text.clone();
    precip.append(" mm");
    let mut text = paint_score_str(
        temp_range(f.min_temp_c, f.max_temp_c).as_str(),
        f.temp_score,
        color,
    );
    text.append(" ");
    text.append(paint_dim("·", color).as_str());
    text.append(" ");
    text.append(paint_score_str(precip.as_str(), f.precip_score, color).as_str());
    text.append(" ");
    text.append(paint_dim("·", color).as_str());
    text.append(" ");
    text.append(
        paint_score_str(
            wind_speed(f.max_wind_ms, f.max_gust_ms, lang).as_str(),
            f.wind_score,
            color,
        ).as_str(),
    );
    text
}

/// The figures of a window in words.
pub open spec fn window_stats_text(f: WindowFigures, lang: Language) -> Seq<char> {
    temp_range_text(f.min_temp_c as int, f.max_temp_c as int) + (match lang {
        Language::Norwegian => " · nedbør "@,
        Language::Swedish => " · nederbörd "@,
    }) + f.total_precip_mm.text@ + " mm · vind "@ + wind_speed_text(
        f.max_wind_ms as int,
        f.max_gust_ms,
        lang,
    )
}

/// Compose the "Tall" chip body; nothing where the window has no figures.
pub fn window_stats_chip_content(stats: &WindowStats, lang: Language) -> (text: Option<String>)
    ensures
        text_view(text) == (match stats.figures {
            Some(f) => Some(window_stats_text(f, lang)),
            None => None,
        }),
{
    match &stats.figures {
        None => None,
        Some(f) => {
            let mut text = temp_range(f.min_temp_c, f.max_temp_c);
            match lang {
                Language::Norwegian => text.append(" · nedbør "),
                Language::Swedish => text.append(" · nederbörd "),
            }
            text.append(f.total_precip_mm.text.as_str());
            text.append(" mm · vind ");
            text.append(wind_speed(f.max_wind_ms, f.max_gust_ms, lang).as_str());
            Some(text)
        },
    }
}

// ---- Ground ----

/// The first message on the ground.
pub open spec fn ground_message(penalties: Seq<Penalty>) -> Option<Seq<char>>
    decreases penalties.len(),
{
    if penalties.len() == 0 {
        None
    } else if penalties[0].component == Component::Ground {
        Some(penalties[0].message@)
    } else {
        ground_message(penalties.drop_first())
    }
}

/// What the first day says of the ground at the centre.
pub open spec fn ground_chip_text(forecast: MultiDayForecast) -> Option<Seq<char>> {
    if forecast.days@.len() == 0 {
        None
    } else {
        let points = forecast.days@[0].points@;
        ground_message(points[day_center(points)].day_score.score.penalties@)
    }
}

fn first_ground_message(penalties: &Vec<Penalty>) -> (text: Option<String>)
    ensures
        text_view(text) == ground_message(penalties@),
{
    let mut i: usize = 0;
    proof {
        assert(penalties@.skip(0) =~= penalties@);
    }
    while i < penalties.len()
        invariant
            i <= penalties.len(),
            ground_message(penalties@) == ground_message(penalties@.skip(i as int)),
        decreases penalties.len() - i,
    {
        proof {
            assert(penalties@.skip(i as int)[0] == penalties@[i as int]);
            assert(penalties@.skip(i as int).drop_first() =~= penalties@.skip(i + 1));
        }
        if matches!(penalties[i].component, Component::Ground) {
            return Some(penalties[i].message.clone());
        }
        i = i + 1;
    }
    None
}

/// Ground-state chip text.
pub fn ground_chip(forecast: &MultiDayForecast) -> (text: Option<String>)
    requires
        forecast.days@.len() > 0 ==> forecast.days@[0].points@.len() > 0,
    ensures
        text_view(text) == ground_chip_text(*forecast),
{
    if forecast.days.len() == 0 {
        return None;
    }
    first_ground_message(&forecast.days[0].center().score.penalties)
}

// ---- Penalties ----

/// A penalty: what it is about, and what it says.
pub open spec fn penalty_text(p: Penalty, lang: Language, color: bool) -> Seq<char> {
    painted(
        component_text(p.component, lang),
        color_of_component(p.component),
        None,
        true,
        color,
    ) + ": "@ + in_severity_color(p.message@, p.severity, color)
}

/// Format a single penalty line.
pub fn format_penalty_line(p: &Penalty, lang: Language, color: bool) -> (text: String)
    ensures
        text@ == penalty_text(*p, lang, color),
{
    let mut text = paint_component_label(p.component, lang, color);
    text.append(": ");
    text.append(paint_severity(p.message.as_str(), p.severity, color).as_str());
    text
}

} // verus!
