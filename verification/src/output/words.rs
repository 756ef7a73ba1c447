//! What the words of a report tell.
use vstd::prelude::*;

use crate::aggregate::{AggregateScore, HourlyForecast, MultiDayForecast, RainHistory};
use crate::lang::Language;
use crate::nowcast::NowcastAlert;
use crate::output::chips::{
    alert_severity, banner_text, ground_message as first_ground_message, rain_chip,
    rain_history_text, tall_text, window_rain_text, window_stats_text, DRIZZLE_MM, DRY_MM,
    HEAVY_PEAK_MM_H, HEAVY_RAIN_MM_H,
};
use crate::output::days::multi_day_text;
use crate::output::hours::hourly_text;
use crate::output::labels::{short_date_text, time_until_text};
use crate::output::shows::{is_center_of, lemma_between, lemma_day_center, lemma_either, shows};
use crate::output::window::{aligned_chip, human_text, CHIP_LABEL_WIDTH};
use crate::output::{ChipFlags, Setting};
use crate::reading::Measured;
use crate::score::thresholds::{TEMP_OPTIMAL_LOW, WIND_PERFECT_MAX};
use crate::score::{
    drought_message, ground_message, is_gusty, precip_message, prob_penalty_of, rain_cap_penalty,
    temp_message, wind_cap_penalty, wind_message, AxisSignals, Component, GroundSignal, Penalty,
    ProbabilitySignal, Severity, WindSignal, WindowFigures,
};
use crate::text::{decimal, padded, signed_decimal};
use crate::time::RideWindow;

verus! {

// ---- Radar ----

/// The radar line tells when the rain begins, how strong it gets and when that
/// is; there is none without an alert.
pub proof fn the_radar_line_tells_the_rain(alert: Option<NowcastAlert>, set: Setting)
    requires
        !set.color,
    ensures
        alert is None ==> banner_text(alert, set).len() == 0,
        alert matches Some(a) ==> shows(
            banner_text(alert, set),
            ": regn "@ + time_until_text(a.first_rain_at - set.now, set.lang) + " (topp "@
                + a.peak_mm_h.text@ + " mm/h kl "@ + set.clock.hm_text(a.peak_at as int) + ")\n\n"@,
        ),
{
    reveal_strlit("");
    if let Some(a) = alert {
        lemma_radar(
            "⚠"@ + "  "@ + "Radar"@,
            ": regn "@,
            time_until_text(a.first_rain_at - set.now, set.lang),
            " (topp "@,
            a.peak_mm_h.text@,
            " mm/h kl "@,
            set.clock.hm_text(a.peak_at as int),
            ")\n\n"@,
        );
    }
}

proof fn lemma_radar(
    before: Seq<char>,
    a: Seq<char>,
    b: Seq<char>,
    c: Seq<char>,
    d: Seq<char>,
    e: Seq<char>,
    f: Seq<char>,
    g: Seq<char>,
)
    ensures
        shows(before + a + b + c + d + e + f + g, a + b + c + d + e + f + g),
{
    lemma_assoc(before, a, b);
    lemma_assoc(before, a + b, c);
    lemma_assoc(before, a + b + c, d);
    lemma_assoc(before, a + b + c + d, e);
    lemma_assoc(before, a + b + c + d + e, f);
    lemma_assoc(before, a + b + c + d + e + f, g);
    lemma_itself(a + b + c + d + e + f + g);
    lemma_either(before, a + b + c + d + e + f + g, a + b + c + d + e + f + g);
}

proof fn lemma_assoc(a: Seq<char>, b: Seq<char>, c: Seq<char>)
    ensures
        a + b + c == a + (b + c),
{
    assert(a + b + c =~= a + (b + c));
}

/// Every report starts with what the radar sees.
pub proof fn every_report_tells_the_radar(
    label: Seq<char>,
    radius: Seq<char>,
    window: RideWindow,
    agg: AggregateScore,
    days: MultiDayForecast,
    hours: HourlyForecast,
    verbose: bool,
    flags: ChipFlags,
    set: Setting,
)
    ensures
        shows(
            human_text(label, radius, window, agg, verbose, flags, set),
            banner_text(agg.nowcast_alert, set),
        ),
        shows(
            multi_day_text(label, radius, days, verbose, flags, set),
            banner_text(days.nowcast_alert, set),
        ),
        shows(
            hourly_text(label, radius, hours, verbose, flags, set),
            banner_text(hours.nowcast_alert, set),
        ),
{
    broadcast use lemma_either;

    lemma_itself(banner_text(agg.nowcast_alert, set));
    lemma_itself(banner_text(days.nowcast_alert, set));
    lemma_itself(banner_text(hours.nowcast_alert, set));
}

proof fn lemma_itself(text: Seq<char>)
    ensures
        shows(text, text),
{
    lemma_between(Seq::empty(), text, Seq::empty());
    assert(Seq::<char>::empty() + text + Seq::<char>::empty() =~= text);
}

/// The radar line is urgent where the rain begins within half an hour, or where
/// it gets heavy and lasts at least as long.
pub proof fn near_or_heavy_rain_is_urgent(a: NowcastAlert, now: int)
    ensures
        alert_severity(a, now) == Severity::Critical <==> a.first_rain_at <= now
            + 1_800_000_000_000 || (a.peak_mm_h.reading >= HEAVY_PEAK_MM_H && a.last_rain_at
            >= a.first_rain_at + 1_800_000_000_000),
        alert_severity(a, now) != Severity::Critical ==> alert_severity(a, now) == Severity::Minor,
{
}

/// A span is told in whole minutes, from an hour on in hours and minutes, and
/// less than a minute as now.
pub proof fn a_span_is_told_in_hours_and_minutes(delta: int, minutes: int, lang: Language)
    requires
        minutes * 60_000_000_000 <= delta < (minutes + 1) * 60_000_000_000,
    ensures
        minutes <= 0 ==> time_until_text(delta, lang) == (match lang {
            Language::Norwegian => "nå"@,
            Language::Swedish => "nu"@,
        }),
        0 < minutes < 60 ==> time_until_text(delta, lang) == "om "@ + decimal(minutes as nat)
            + " min"@,
        minutes >= 60 && minutes % 60 == 0 ==> time_until_text(delta, lang) == "om "@ + decimal(
            (minutes / 60) as nat,
        ) + "t"@,
        minutes >= 60 && minutes % 60 != 0 ==> time_until_text(delta, lang) == "om "@ + decimal(
            (minutes / 60) as nat,
        ) + "t "@ + decimal((minutes % 60) as nat) + " min"@,
{
    if delta >= 0 {
        assert(delta / 60_000_000_000 == minutes);
    } else {
        assert(minutes < 0);
        assert((-delta) / 60_000_000_000 >= 0);
    }
}

// ---- Rain of the past week ----

/// The rain chip tells the sum, the wettest date with its amount, and how many
/// days it rained.
pub proof fn the_rain_chip_tells_the_week(h: RainHistory, lang: Language)
    ensures
        shows(rain_history_text(h, lang), h.total_mm.text@ + " mm s"@),
        shows(
            rain_history_text(h, lang),
            short_date_text(h.wettest_day, lang) + " ("@ + h.wettest_day_mm.text@ + " mm) · "@
                + decimal(h.rain_days as nat) + " regnd"@,
        ),
        rain_chip(Some(h), lang) is None <==> h.rain_days == 0,
        h.rain_days > 0 ==> rain_chip(Some(h), lang) == Some(rain_history_text(h, lang)),
        rain_chip(None, lang) is None,
{
    broadcast use lemma_either;

    reveal_strlit(" mm s");
    reveal_strlit(" mm siste ");
    reveal_strlit(" mm senaste ");
    reveal_strlit("iste ");
    reveal_strlit("enaste ");
    reveal_strlit(" regnd");
    reveal_strlit(" regndøgn");
    reveal_strlit("øgn");
    reveal_strlit(" regndag");
    reveal_strlit("ag");
    reveal_strlit(" regndagar");
    reveal_strlit("agar");
    assert(" mm siste "@ =~= " mm s"@ + "iste "@);
    assert(" mm senaste "@ =~= " mm s"@ + "enaste "@);
    assert(" regndøgn"@ =~= " regnd"@ + "øgn"@);
    assert(" regndag"@ =~= " regnd"@ + "ag"@);
    assert(" regndagar"@ =~= " regnd"@ + "agar"@);
    let days = decimal(crate::output::chips::lookback_days(h.lookback_hours as int) as nat);
    let first = h.total_mm.text@ + " mm s"@;
    let second = short_date_text(h.wettest_day, lang) + " ("@ + h.wettest_day_mm.text@ + " mm) · "@
        + decimal(h.rain_days as nat) + " regnd"@;
    let (more, middle, rest) = match lang {
        Language::Norwegian => ("iste "@, " døgn · våtest "@, "øgn"@),
        Language::Swedish => (
            "enaste "@,
            " dygn · blötast "@,
            if h.rain_days == 1 {
                "ag"@
            } else {
                "agar"@
            },
        ),
    };
    lemma_week(
        h.total_mm.text@,
        " mm s"@,
        more,
        days,
        middle,
        short_date_text(h.wettest_day, lang),
        " ("@,
        h.wettest_day_mm.text@,
        " mm) · "@,
        decimal(h.rain_days as nat),
        " regnd"@,
        rest,
    );
}

proof fn lemma_week(
    total: Seq<char>,
    unit: Seq<char>,
    more: Seq<char>,
    days: Seq<char>,
    middle: Seq<char>,
    date: Seq<char>,
    open: Seq<char>,
    amount: Seq<char>,
    close: Seq<char>,
    count: Seq<char>,
    word: Seq<char>,
    rest: Seq<char>,
)
    ensures
        ({
            let text = total + (unit + more) + days + middle + date + open + amount + close + count
                + (word + rest);
            &&& shows(text, total + unit)
            &&& shows(text, date + open + amount + close + count + word)
        }),
{
    let text = total + (unit + more) + days + middle + date + open + amount + close + count + (word
        + rest);
    let first = total + unit;
    let second = date + open + amount + close + count + word;
    let tail = more + days + middle + date + open + amount + close + count + (word + rest);
    lemma_between(Seq::empty(), first, tail);
    assert(text =~= Seq::<char>::empty() + first + tail);
    let before = total + (unit + more) + days + middle;
    lemma_between(before, second, rest);
    assert(text =~= before + second + rest);
}

// ---- Figures ----

/// The figures of a window are told in this order: the temperatures, from the
/// lowest to the highest or just the one; the rain; and the wind, with the gusts
/// where they are known.
pub proof fn figures_tell_temperature_rain_and_wind(f: WindowFigures, lang: Language)
    ensures
        ({
            let temperature = if f.min_temp_c == f.max_temp_c {
                signed_decimal(f.min_temp_c as int) + " °C"@
            } else {
                signed_decimal(f.min_temp_c as int) + "–"@ + signed_decimal(f.max_temp_c as int)
                    + " °C"@
            };
            let wind = match f.max_gust_ms {
                Some(g) => signed_decimal(f.max_wind_ms as int) + (match lang {
                    Language::Norwegian => " m/s (kast "@,
                    Language::Swedish => " m/s (by "@,
                }) + signed_decimal(g as int) + ")"@,
                None => signed_decimal(f.max_wind_ms as int) + " m/s"@,
            };
            &&& tall_text(f, lang, false) == temperature + " · "@ + f.total_precip_mm.text@
                + " mm"@ + " · "@ + wind
            &&& window_stats_text(f, lang) == temperature + (match lang {
                Language::Norwegian => " · nedbør "@,
                Language::Swedish => " · nederbörd "@,
            }) + f.total_precip_mm.text@ + " mm · vind "@ + wind
        }),
{
    reveal_strlit(" ");
    reveal_strlit("·");
    reveal_strlit(" · ");
    assert(" "@ + "·"@ + " "@ =~= " · "@);
    let t = crate::output::chips::temp_range_text(f.min_temp_c as int, f.max_temp_c as int);
    let w = crate::output::chips::wind_speed_text(f.max_wind_ms as int, f.max_gust_ms, lang);
    lemma_dots(t, f.total_precip_mm.text@, " mm"@, w, " "@, "·"@);
}

proof fn lemma_dots(
    t: Seq<char>,
    rain: Seq<char>,
    unit: Seq<char>,
    wind: Seq<char>,
    gap: Seq<char>,
    dot: Seq<char>,
)
    ensures
        t + gap + dot + gap + (rain + unit) + gap + dot + gap + wind == t + (gap + dot + gap) + rain
            + unit + (gap + dot + gap) + wind,
{
    assert(t + gap + dot + gap + (rain + unit) + gap + dot + gap + wind =~= t + (gap + dot + gap)
        + rain + unit + (gap + dot + gap) + wind);
}

/// How wet a suggested window is goes by its sum and its wettest hour: dry,
/// drizzle with its sum, heavy with its peak, or rain with its sum.
pub proof fn a_suggested_window_tells_its_rain(f: WindowFigures, lang: Language, is_opening: bool)
    ensures
        ({
            let text = window_rain_text(f, lang, is_opening);
            let total = f.total_precip_mm.reading;
            let peak = f.max_hourly_precip_mm.reading;
            let dry = total < DRY_MM && peak < DRY_MM;
            let drizzle = total < DRIZZLE_MM && peak < DRIZZLE_MM;
            &&& !dry && peak >= HEAVY_RAIN_MM_H && !drizzle ==> shows(
                text,
                ", topp "@ + f.max_hourly_precip_mm.text@ + " mm/"@,
            )
            &&& !dry && (drizzle || peak < HEAVY_RAIN_MM_H) ==> shows(
                text,
                f.total_precip_mm.text@ + " mm "@,
            )
            &&& dry ==> shows(
                text,
                match lang {
                    Language::Norwegian => "☂ opphold "@,
                    Language::Swedish => "☂ uppehåll "@,
                },
            )
        }),
{
    let place = match (lang, is_opening) {
        (Language::Norwegian, true) => "i luka"@,
        (Language::Norwegian, false) => "i vinduet"@,
        (Language::Swedish, true) => "i luckan"@,
        (Language::Swedish, false) => "i fönstret"@,
    };
    reveal_strlit(" mm/");
    reveal_strlit(" mm/t");
    reveal_strlit(" mm/h");
    reveal_strlit("t");
    reveal_strlit("h");
    assert(" mm/t"@ =~= " mm/"@ + "t"@);
    assert(" mm/h"@ =~= " mm/"@ + "h"@);
    lemma_four("☂ opphold "@, place, Seq::empty(), Seq::empty());
    lemma_four("☂ uppehåll "@, place, Seq::empty(), Seq::empty());
    lemma_four("🌦 yr "@, f.total_precip_mm.text@, " mm "@, place);
    lemma_four("🌦 duggregn "@, f.total_precip_mm.text@, " mm "@, place);
    lemma_four("🌧 regn "@, f.total_precip_mm.text@, " mm "@, place);
    lemma_peak("⛈ kraftig regn "@, place, ", topp "@, f.max_hourly_precip_mm.text@, " mm/"@, "t"@);
    lemma_peak(
        "⛈ kraftigt regn "@,
        place,
        ", topp "@,
        f.max_hourly_precip_mm.text@,
        " mm/"@,
        "h"@,
    );
}

proof fn lemma_four(a: Seq<char>, b: Seq<char>, c: Seq<char>, d: Seq<char>)
    ensures
        shows(a + b, a),
        shows(a + b + c + d, b + c),
{
    lemma_start(a, b);
    lemma_between(a, b + c, d);
    assert(a + b + c + d =~= a + (b + c) + d);
}

proof fn lemma_start(a: Seq<char>, b: Seq<char>)
    ensures
        shows(a + b, a),
{
    let at: int = 0;
    assert((a + b).subrange(at, at + a.len()) =~= a);
}

proof fn lemma_peak(
    a: Seq<char>,
    b: Seq<char>,
    c: Seq<char>,
    d: Seq<char>,
    e: Seq<char>,
    f: Seq<char>,
)
    ensures
        shows(a + b + c + d + (e + f), c + d + e),
{
    lemma_between(a + b, c + d + e, f);
    assert(a + b + c + d + (e + f) =~= a + b + (c + d + e) + f);
}

// ---- Penalties ----

/// A temperature penalty tells the mean, as cool below 12 °C and as warm from
/// there on, and how that feels where it differs by at least two degrees.
pub proof fn a_temperature_penalty_tells_the_mean(signals: AxisSignals, lang: Language)
    ensures
        ({
            let text = temp_message(signals, lang);
            let word = if signals.mean_temp.reading < TEMP_OPTIMAL_LOW {
                match lang {
                    Language::Norwegian => "kjølig, snitt "@,
                    Language::Swedish => "kyligt, snitt "@,
                }
            } else {
                "varmt, snitt "@
            };
            &&& shows(text, word + signals.mean_temp.text@ + " °C"@)
            &&& signals.felt_gap >= crate::score::thresholds::FELT_GAP_C ==> shows(
                text,
                (match lang {
                    Language::Norwegian => ", føles som "@,
                    Language::Swedish => ", känns som "@,
                }) + signals.felt_temp.text@ + " °C"@,
            )
        }),
{
    let word = if signals.mean_temp.reading < TEMP_OPTIMAL_LOW {
        match lang {
            Language::Norwegian => "kjølig, snitt "@,
            Language::Swedish => "kyligt, snitt "@,
        }
    } else {
        "varmt, snitt "@
    };
    reveal_strlit(" °C");
    reveal_strlit(", føles som ");
    reveal_strlit(" °C, føles som ");
    reveal_strlit(", känns som ");
    reveal_strlit(" °C, känns som ");
    assert(" °C, føles som "@ =~= " °C"@ + ", føles som "@);
    assert(" °C, känns som "@ =~= " °C"@ + ", känns som "@);
    let joint = match lang {
        Language::Norwegian => ", føles som "@,
        Language::Swedish => ", känns som "@,
    };
    let mean = signals.mean_temp.text@;
    let felt = signals.felt_temp.text@;
    lemma_itself(word + mean + " °C"@);
    lemma_between(Seq::empty(), word + mean + " °C"@, joint + felt + " °C"@);
    lemma_between(word + mean + " °C"@, joint + felt + " °C"@, Seq::empty());
    lemma_felt(word, mean, " °C"@, joint, felt);
}

proof fn lemma_felt(
    word: Seq<char>,
    mean: Seq<char>,
    unit: Seq<char>,
    joint: Seq<char>,
    felt: Seq<char>,
)
    ensures
        word + mean + (unit + joint) + felt + unit == Seq::<char>::empty() + (word + mean + unit) + (
        joint + felt + unit),
        word + mean + (unit + joint) + felt + unit == word + mean + unit + (joint + felt + unit)
            + Seq::<char>::empty(),
{
    let text = word + mean + (unit + joint) + felt + unit;
    assert(text =~= Seq::<char>::empty() + (word + mean + unit) + (joint + felt + unit));
    assert(text =~= word + mean + unit + (joint + felt + unit) + Seq::<char>::empty());
}

/// A wind penalty tells the mean, unless gusts alone are to blame, and the
/// strongest gust where gusts count.
pub proof fn a_wind_penalty_tells_mean_and_gust(wind: WindSignal, lang: Language)
    ensures
        ({
            let text = wind_message(wind, lang);
            &&& !is_gusty(wind) || wind.mean.reading > WIND_PERFECT_MAX ==> shows(
                text,
                "snitt "@ + wind.mean.text@ + " m/s"@,
            )
            &&& is_gusty(wind) ==> shows(text, wind.gust->0.text@ + " m/s"@)
        }),
{
    reveal_strlit(" m/s");
    reveal_strlit(" m/s — mye vind");
    reveal_strlit(" — mye vind");
    reveal_strlit(" m/s — mycket vind");
    reveal_strlit(" — mycket vind");
    reveal_strlit(" m/s, kastevind opp i ");
    reveal_strlit(", kastevind opp i ");
    reveal_strlit(" m/s, vindbyar upp till ");
    reveal_strlit(", vindbyar upp till ");
    assert(" m/s — mye vind"@ =~= " m/s"@ + " — mye vind"@);
    assert(" m/s — mycket vind"@ =~= " m/s"@ + " — mycket vind"@);
    assert(" m/s, kastevind opp i "@ =~= " m/s"@ + ", kastevind opp i "@);
    assert(" m/s, vindbyar upp till "@ =~= " m/s"@ + ", vindbyar upp till "@);
    let mean = wind.mean.text@;
    lemma_speed(mean, " — mye vind"@, Seq::empty(), " m/s"@);
    lemma_speed(mean, " — mycket vind"@, Seq::empty(), " m/s"@);
    lemma_itself("snitt "@ + mean + " m/s"@);
    if is_gusty(wind) {
        let gust = wind.gust->0.text@;
        lemma_speed(mean, ", kastevind opp i "@, gust, " m/s"@);
        lemma_speed(mean, ", vindbyar upp till "@, gust, " m/s"@);
        lemma_between("kastevind opp i "@, gust + " m/s"@, Seq::empty());
        lemma_between("vindbyar upp till "@, gust + " m/s"@, Seq::empty());
        assert("kastevind opp i "@ + gust + " m/s"@ =~= "kastevind opp i "@ + (gust + " m/s"@)
            + Seq::<char>::empty());
        assert("vindbyar upp till "@ + gust + " m/s"@ =~= "vindbyar upp till "@ + (gust + " m/s"@)
            + Seq::<char>::empty());
    }
}

proof fn lemma_speed(mean: Seq<char>, joint: Seq<char>, gust: Seq<char>, unit: Seq<char>)
    ensures
        shows("snitt "@ + mean + (unit + joint), "snitt "@ + mean + unit),
        shows("snitt "@ + mean + (unit + joint) + gust + unit, "snitt "@ + mean + unit),
        shows("snitt "@ + mean + (unit + joint) + gust + unit, gust + unit),
{
    let start = "snitt "@ + mean + unit;
    lemma_between(Seq::empty(), start, joint);
    assert("snitt "@ + mean + (unit + joint) =~= Seq::<char>::empty() + start + joint);
    let text = "snitt "@ + mean + (unit + joint) + gust + unit;
    lemma_between(Seq::empty(), start, joint + gust + unit);
    assert(text =~= Seq::<char>::empty() + start + (joint + gust + unit));
    lemma_between("snitt "@ + mean + (unit + joint), gust + unit, Seq::empty());
    assert(text =~= "snitt "@ + mean + (unit + joint) + (gust + unit) + Seq::<char>::empty());
}

/// Penalties for rain, its probability, water on the ground and hard caps tell
/// the amount, the percentage, the water and the peak that they are about.
pub proof fn other_penalties_tell_their_figure(
    mean: Measured,
    percent: ProbabilitySignal,
    water: Measured,
    peak: Seq<char>,
    subscore: int,
    lang: Language,
)
    requires
        0 <= subscore < 80,
    ensures
        shows(precip_message(mean, lang), mean.text@ + " mm/"@),
        prob_penalty_of(subscore, Some(percent), lang) matches Some(p) && shows(
            p.message,
            percent.percent@ + " % "@,
        ),
        shows(ground_message(water, lang), "("@ + water.text@ + " mm"@),
        shows(rain_cap_penalty(peak, lang).message, "("@ + peak + " mm/"@),
        shows(wind_cap_penalty(peak, lang).message, "("@ + peak + " m/s) "@),
{
    reveal_strlit("");
    reveal_strlit(" mm/");
    reveal_strlit(" mm");
    reveal_strlit("(");
    reveal_strlit(" % ");
    reveal_strlit(" m/s) ");
    reveal_strlit(" mm/t");
    reveal_strlit(" mm/h");
    reveal_strlit(" mm/t i snitt");
    reveal_strlit(" mm/h i snitt");
    lemma_cut("kraftig regn, snitt "@, ""@, mean.text@, " mm/"@, " mm/t"@);
    lemma_cut("kraftigt regn, snitt "@, ""@, mean.text@, " mm/"@, " mm/h"@);
    lemma_cut(""@, ""@, mean.text@, " mm/"@, " mm/t i snitt"@);
    lemma_cut(""@, ""@, mean.text@, " mm/"@, " mm/h i snitt"@);
    reveal_strlit(" % sjanse for nedbør");
    reveal_strlit(" % risk för nederbörd");
    lemma_cut(""@, ""@, percent.percent@, " % "@, " % sjanse for nedbør"@);
    lemma_cut(""@, ""@, percent.percent@, " % "@, " % risk för nederbörd"@);
    assert(""@ + mean.text@ + " mm/"@ =~= mean.text@ + " mm/"@);
    assert(""@ + percent.percent@ + " % "@ =~= percent.percent@ + " % "@);
    reveal_strlit("gjennomvåt (");
    reveal_strlit("våt fra forrige døgn (");
    reveal_strlit("genomblött (");
    reveal_strlit("vått från föregående dygn (");
    reveal_strlit(" mm akkumulert)");
    reveal_strlit(" mm ackumulerat)");
    reveal_strlit(" mm)");
    lemma_cut("gjennomvåt ("@, "("@, water.text@, " mm"@, " mm akkumulert)"@);
    lemma_cut("våt fra forrige døgn ("@, "("@, water.text@, " mm"@, " mm)"@);
    lemma_cut("genomblött ("@, "("@, water.text@, " mm"@, " mm ackumulerat)"@);
    lemma_cut("vått från föregående dygn ("@, "("@, water.text@, " mm"@, " mm)"@);
    reveal_strlit("Kraftig regn ventet (");
    reveal_strlit("Kraftigt regn väntas (");
    reveal_strlit("Stormvind ventet (");
    reveal_strlit("Stormvind väntas (");
    reveal_strlit(" mm/t) — score hard-cappet");
    reveal_strlit(" mm/h) — poäng hard-cappad");
    reveal_strlit(" m/s) — score hard-cappet");
    reveal_strlit(" m/s) — poäng hard-cappad");
    lemma_cut("Kraftig regn ventet ("@, "("@, peak, " mm/"@, " mm/t) — score hard-cappet"@);
    lemma_cut("Kraftigt regn väntas ("@, "("@, peak, " mm/"@, " mm/h) — poäng hard-cappad"@);
    lemma_cut("Stormvind ventet ("@, "("@, peak, " m/s) "@, " m/s) — score hard-cappet"@);
    lemma_cut("Stormvind väntas ("@, "("@, peak, " m/s) "@, " m/s) — poäng hard-cappad"@);
}

/// `open` closes `before`, and `unit` opens `after`.
proof fn lemma_cut(
    before: Seq<char>,
    open: Seq<char>,
    text: Seq<char>,
    unit: Seq<char>,
    after: Seq<char>,
)
    requires
        open.len() <= before.len(),
        before.skip(before.len() - open.len()) =~= open,
        unit.len() <= after.len(),
        after.take(unit.len() as int) =~= unit,
    ensures
        shows(before + text + after, open + text + unit),
{
    let start = before.take(before.len() - open.len());
    let rest = after.skip(unit.len() as int);
    lemma_between(start, open + text + unit, rest);
    assert(before + text + after =~= start + (open + text + unit) + rest);
}

/// A dry spell is told in days, to the nearest, with a plus where it is only a
/// lower bound.
pub proof fn a_dry_spell_is_told_in_days(g: GroundSignal, days: int, lang: Language)
    requires
        0 <= days,
        24 * days - 12 <= g.hours_since_meaningful_rain < 24 * days + 12,
    ensures
        shows(
            drought_message(g, lang),
            "("@ + decimal(days as nat) + (if g.drought_at_lookback_cap {
                "+"@
            } else {
                ""@
            }) + " d"@,
        ),
{
    let bound = if g.drought_at_lookback_cap {
        "+"@
    } else {
        ""@
    };
    let digits = decimal(days as nat);
    assert(crate::score::days_of_hours(g.hours_since_meaningful_rain as int) == days);
    reveal_strlit("(");
    reveal_strlit(" d");
    reveal_strlit("tørt og løst dekke (");
    reveal_strlit("torrt och löst underlag (");
    reveal_strlit(" døgn uten regn)");
    reveal_strlit(" dygn utan regn)");
    lemma_cut("tørt og løst dekke ("@, "("@, digits + bound, " d"@, " døgn uten regn)"@);
    lemma_cut("torrt och löst underlag ("@, "("@, digits + bound, " d"@, " dygn utan regn)"@);
    lemma_days("tørt og løst dekke ("@, digits, bound, " døgn uten regn)"@);
    lemma_days("torrt och löst underlag ("@, digits, bound, " dygn utan regn)"@);
    lemma_days("("@, digits, bound, " d"@);
}

proof fn lemma_days(a: Seq<char>, digits: Seq<char>, bound: Seq<char>, b: Seq<char>)
    ensures
        a + digits + bound + b == a + (digits + bound) + b,
{
    assert(a + digits + bound + b =~= a + (digits + bound) + b);
}

// ---- Ground ----

/// The report on several days tells what the first day's centre says of the
/// ground.
pub proof fn the_ground_chip_tells_the_first_day(
    label: Seq<char>,
    radius: Seq<char>,
    forecast: MultiDayForecast,
    verbose: bool,
    flags: ChipFlags,
    set: Setting,
    c: int,
    k: int,
)
    requires
        !set.color,
        forecast.days@.len() > 0,
        is_center_of(forecast.days@[0], c),
        ({
            let penalties = forecast.days@[0].points@[c].day_score.score.penalties@;
            &&& 0 <= k < penalties.len()
            &&& penalties[k].component == Component::Ground
            &&& forall|j: int|
                0 <= j < k ==> (#[trigger] penalties[j]).component != Component::Ground
        }),
    ensures
        shows(
            multi_day_text(label, radius, forecast, verbose, flags, set),
            "   "@ + forecast.days@[0].points@[c].day_score.score.penalties@[k].message@ + "\n"@,
        ),
{
    broadcast use lemma_either;

    let penalties = forecast.days@[0].points@[c].day_score.score.penalties@;
    let part = "   "@ + penalties[k].message@ + "\n"@;
    lemma_day_center(forecast.days@[0], c);
    lemma_first_ground(penalties, k);
    let name = match set.lang {
        Language::Norwegian => "Bakke"@,
        Language::Swedish => "Mark"@,
    };
    lemma_chip(name, penalties[k].message@);
    assert(shows(crate::output::days::footer_text(forecast, flags, set), part));
}

proof fn lemma_chip(name: Seq<char>, message: Seq<char>)
    ensures
        shows(aligned_chip(name, Some(message), false), "   "@ + message + "\n"@),
{
    let before = "  "@ + padded(name, CHIP_LABEL_WIDTH as nat);
    let part = "   "@ + message + "\n"@;
    lemma_between(before, part, Seq::empty());
    lemma_chip_parts(before, "   "@, message, "\n"@);
}

proof fn lemma_chip_parts(before: Seq<char>, gap: Seq<char>, message: Seq<char>, end: Seq<char>)
    ensures
        before + gap + message + end == before + (gap + message + end) + Seq::<char>::empty(),
{
    assert(before + gap + message + end =~= before + (gap + message + end) + Seq::<char>::empty());
}

proof fn lemma_first_ground(penalties: Seq<Penalty>, k: int)
    requires
        0 <= k < penalties.len(),
        penalties[k].component == Component::Ground,
        forall|j: int| 0 <= j < k ==> (#[trigger] penalties[j]).component != Component::Ground,
    ensures
        first_ground_message(penalties) == Some(penalties[k].message@),
    decreases k,
{
    if k > 0 {
        let rest = penalties.drop_first();
        assert(penalties[0].component != Component::Ground);
        assert forall|j: int| 0 <= j < k - 1 implies (#[trigger] rest[j]).component
            != Component::Ground by {
            assert(rest[j] == penalties[j + 1]);
        }
        lemma_first_ground(rest, k - 1);
    }
}

} // verus!
