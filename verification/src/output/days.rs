//! The report on several days.
use vstd::prelude::*;
use vstd::string::StringExecFns;

use crate::aggregate::{
    axis_scores, day_breakdowns, day_breakdowns_of, day_center, floored_mean, highest, is_highest,
    is_lowest, lowest, mean_on, Axis, DayAggregate, DayOptimum, MultiDayForecast,
};
use crate::daily::Confidence;
use crate::lang::Language;
use crate::output::bars::{
    bar_text, bucket_legend, colored_bar, columns_of, display_width, filled_up, icon_gap, icon_pad,
    legend_text, pad_right, spark_text, sparkline_glyph, trend_arrow, trend_text,
};
use crate::output::chips::{
    banner_text, best_window_rain_trailer, dated_history, format_penalty_line, format_tall_line,
    ground_chip, ground_chip_text, nowcast_banner, penalty_text, tall_text, timed_alert,
    window_rain_text,
};
use crate::output::labels::{
    axis_label_short, combined, combined_precip, day_label, day_text, day_word, days_word,
    rain_history_chip_label, rain_history_label, short_axis_text, window_stats_chip_label,
    window_stats_label,
};
use crate::output::window::{aligned_chip, rain_if_wanted, wanted_rain, write_aligned_chip};
use crate::output::{ChipFlags, Setting};
use crate::score::{label_for, label_text, Penalty, WindowStats};
use crate::text::{decimal, padded, push_decimal, push_padded, push_repeated, repeated};
use crate::theme::{
    dim_for_confidence, dimmed, in_score_color, paint_accent, paint_bar_filled, paint_dim, paint_fg,
    paint_label, paint_score, paint_score_soft, paint_score_str, painted, FG, PURPLE,
};
use crate::time::is_instant;

verus! {

/// Indent before the tree on breakdown, penalty and best-window rows.
pub const BREAKDOWN_INDENT: &'static str = "      ";

// ---- The best day ----

/// Day `a` is to be featured rather than day `b`: it has the higher mean, else
/// the higher confidence, else the earlier date.
pub open spec fn beats(a: DayAggregate, b: DayAggregate) -> bool {
    ||| a.mean > b.mean
    ||| (a.mean == b.mean && a.confidence.spec_rank() > b.confidence.spec_rank())
    ||| (a.mean == b.mean && a.confidence.spec_rank() == b.confidence.spec_rank()
        && a.date.day_number < b.date.day_number)
}

/// No day beats day `k`, and day `k` beats every later one.
pub open spec fn is_best_day(days: Seq<DayAggregate>, k: int) -> bool {
    &&& 0 <= k < days.len()
    &&& forall|j: int| 0 <= j < days.len() ==> !beats(#[trigger] days[j], days[k])
    &&& forall|j: int| k < j < days.len() ==> beats(days[k], #[trigger] days[j])
}

/// The position of the day to feature.
pub open spec fn best_day_at(days: Seq<DayAggregate>) -> int {
    choose|k: int| is_best_day(days, k)
}

fn better(a: &DayAggregate, b: &DayAggregate) -> (yes: bool)
    ensures
        yes == beats(*a, *b),
{
    let rank_a: u8 = a.confidence.rank();
    let rank_b: u8 = b.confidence.rank();
    a.mean > b.mean || (a.mean == b.mean && rank_a > rank_b) || (a.mean == b.mean && rank_a
        == rank_b && a.date.day_number < b.date.day_number)
}

/// Pick the day to feature in the headline; nothing where there is no day.
pub fn pick_best_day(days: &Vec<DayAggregate>) -> (best: Option<&DayAggregate>)
    ensures
        best is None <==> days@.len() == 0,
        best matches Some(d) ==> is_best_day(days@, best_day_at(days@)) && *d
            == days@[best_day_at(days@)],
{
    if days.len() == 0 {
        return None;
    }
    let mut at: usize = 0;
    let mut i: usize = 1;
    while i < days.len()
        invariant
            at < i <= days.len(),
            forall|j: int| 0 <= j < i ==> !beats(#[trigger] days@[j], days@[at as int]),
            forall|j: int| at < j < i ==> beats(days@[at as int], #[trigger] days@[j]),
        decreases days.len() - i,
    {
        if !better(&days[at], &days[i]) {
            at = i;
        }
        i = i + 1;
    }
    proof {
        assert(is_best_day(days@, at as int));
        let k = best_day_at(days@);
        assert(is_best_day(days@, k));
        if k < at {
            assert(beats(days@[k], days@[at as int]));
        }
        if at < k {
            assert(beats(days@[at as int], days@[k]));
        }
    }
    Some(&days[at])
}

/// What the callout says of the confidence.
pub open spec fn confidence_suffix(confidence: Confidence, lang: Language) -> Seq<char> {
    match (lang, confidence) {
        (_, Confidence::Hoy) => ""@,
        (Language::Norwegian, Confidence::Middels) => "  (middels konfidens)"@,
        (Language::Norwegian, Confidence::Lav) => "  (lav konfidens)"@,
        (Language::Swedish, Confidence::Middels) => "  (medel tillförlitlighet)"@,
        (Language::Swedish, Confidence::Lav) => "  (låg tillförlitlighet)"@,
    }
}

/// What stands behind the star in the callout.
pub open spec fn callout_words(best: DayAggregate, set: Setting) -> Seq<char> {
    (match set.lang {
        Language::Norwegian => " Beste: "@,
        Language::Swedish => " Bästa: "@,
    }) + day_text(best.date, set.spec_today(), set.lang) + "  —  "@ + decimal(best.mean as nat)
        + "  "@ + label_text(best.mean as int, set.lang) + confidence_suffix(
        best.confidence,
        set.lang,
    ) + "  "@
}

/// A box around a star and `words`, `columns` wide inside. The border and the
/// star take the colour of the total.
pub open spec fn callout_box_text(
    words: Seq<char>,
    columns: nat,
    mean: int,
    color: bool,
) -> Seq<char> {
    let rule = repeated("─"@, columns);
    in_score_color("╭"@ + rule + "╮"@, mean, false, color) + "\n│  "@ + in_score_color(
        "★"@,
        mean,
        false,
        color,
    ) + words + "│\n"@ + in_score_color("╰"@ + rule + "╯"@, mean, false, color) + "\n"@
}

fn border(left: &str, columns: usize, right: &str) -> (text: String)
    ensures
        text@ == left@ + repeated("─"@, columns as nat) + right@,
{
    let mut text = left.to_owned();
    push_repeated(&mut text, "─", columns);
    text.append(right);
    text
}

/// A box around a star and `words`, `columns` wide inside.
pub fn callout_box(words: &str, columns: usize, mean: u8, color: bool) -> (text: String)
    ensures
        text@ == callout_box_text(words@, columns as nat, mean as int, color),
{
    let mut text = paint_score_soft(border("╭", columns, "╮").as_str(), mean, color);
    text.append("\n│  ");
    text.append(paint_score_soft("★", mean, color).as_str());
    text.append(words);
    text.append("│\n");
    text.append(paint_score_soft(border("╰", columns, "╯").as_str(), mean, color).as_str());
    text.append("\n");
    text
}

/// The callout of the best day, its border as wide as what it says.
pub open spec fn callout_text(best: DayAggregate, set: Setting) -> Seq<char> {
    let words = callout_words(best, set);
    callout_box_text(words, display_width("  ★"@ + words), best.mean as int, set.color)
}

/// Round-cornered callout at the top of the multi-day report.
pub fn write_best_callout(best: &DayAggregate, set: &Setting) -> (text: String)
    requires
        set.valid(),
        best.date.valid(),
    ensures
        text@ == callout_text(*best, *set),
{
    let mut words = match set.lang {
        Language::Norwegian => " Beste: ".to_owned(),
        Language::Swedish => " Bästa: ".to_owned(),
    };
    words.append(day_label(best.date, set.today(), set.lang).as_str());
    words.append("  —  ");
    push_decimal(&mut words, best.mean as u64);
    words.append("  ");
    words.append(label_for(best.mean, set.lang));
    words.append(
        match (set.lang, best.confidence) {
            (_, Confidence::Hoy) => "",
            (Language::Norwegian, Confidence::Middels) => "  (middels konfidens)",
            (Language::Norwegian, Confidence::Lav) => "  (lav konfidens)",
            (Language::Swedish, Confidence::Middels) => "  (medel tillförlitlighet)",
            (Language::Swedish, Confidence::Lav) => "  (låg tillförlitlighet)",
        },
    );
    words.append("  ");
    let mut body = "  ★".to_owned();
    body.append(words.as_str());
    callout_box(words.as_str(), columns_of(body.as_str()), best.mean, set.color)
}

// ---- The week ----

/// The means of the days.
pub open spec fn day_means(days: Seq<DayAggregate>) -> Seq<u8> {
    days.map_values(|d: DayAggregate| d.mean)
}

/// One block per day, in the colour of its mean.
pub open spec fn sparkline(means: Seq<u8>, color: bool) -> Seq<char>
    decreases means.len(),
{
    if means.len() == 0 {
        ""@
    } else {
        sparkline(means.drop_last(), color) + in_score_color(
            spark_text(means.last() as int),
            means.last() as int,
            false,
            color,
        )
    }
}

/// The highest less the lowest of several values.
pub open spec fn spread_of(values: Seq<u8>) -> int {
    (choose|m: u8| is_highest(values, m)) - (choose|m: u8| is_lowest(values, m))
}

/// The shape of the week; nothing where there is no day.
pub open spec fn week_trend_text(days: Seq<DayAggregate>, set: Setting) -> Seq<char> {
    let means = day_means(days);
    if days.len() == 0 {
        ""@
    } else {
        (match set.lang {
            Language::Norwegian => "  Uke   "@,
            Language::Swedish => "  Vecka "@,
        }) + sparkline(means, set.color) + "   "@ + decimal(means[0] as nat) + " → "@ + decimal(
            means.last() as nat,
        ) + "   "@ + trend_text(means) + (match set.lang {
            Language::Norwegian => "   spredning "@,
            Language::Swedish => "   spridning "@,
        }) + decimal(spread_of(means) as nat) + " p\n"@
    }
}

fn means_of(days: &Vec<DayAggregate>) -> (means: Vec<u8>)
    ensures
        means@ == day_means(days@),
{
    let mut means: Vec<u8> = Vec::new();
    let mut i: usize = 0;
    while i < days.len()
        invariant
            i <= days.len(),
            means@ == day_means(days@).take(i as int),
        decreases days.len() - i,
    {
        means.push(days[i].mean);
        proof {
            let all = day_means(days@);
            assert(all.take(i + 1) =~= all.take(i as int).push(all[i as int]));
        }
        i = i + 1;
    }
    proof {
        assert(means@ =~= day_means(days@));
    }
    means
}

fn sparkline_of(means: &Vec<u8>, color: bool) -> (text: String)
    ensures
        text@ == sparkline(means@, color),
{
    let mut text = "".to_owned();
    let mut i: usize = 0;
    proof {
        assert(means@.take(0) =~= Seq::empty());
    }
    while i < means.len()
        invariant
            i <= means.len(),
            text@ == sparkline(means@.take(i as int), color),
        decreases means.len() - i,
    {
        text.append(paint_bar_filled(sparkline_glyph(means[i]), means[i], color).as_str());
        proof {
            assert(means@.take(i + 1).drop_last() =~= means@.take(i as int));
            assert(means@.take(i + 1).last() == means@[i as int]);
        }
        i = i + 1;
    }
    proof {
        assert(means@.take(means.len() as int) =~= means@);
    }
    text
}

fn spread(values: &Vec<u8>) -> (spread: u8)
    requires
        values@.len() > 0,
    ensures
        spread == spread_of(values@),
{
    let hi: u8 = highest(values);
    let lo: u8 = lowest(values);
    proof {
        let high = choose|m: u8| is_highest(values@, m);
        let low = choose|m: u8| is_lowest(values@, m);
        assert(is_highest(values@, hi) && is_lowest(values@, lo));
        assert(is_highest(values@, high) && is_lowest(values@, low));
        assert(high == hi && low == lo);
        let i = choose|i: int| 0 <= i < values@.len() && values@[i] == hi;
        assert(lo <= values@[i]);
    }
    hi - lo
}

/// Week-trend line: sparkline, first and last score, slope and spread.
pub fn write_week_trend(days: &Vec<DayAggregate>, set: &Setting) -> (text: String)
    ensures
        text@ == week_trend_text(days@, *set),
{
    if days.len() == 0 {
        return "".to_owned();
    }
    let means = means_of(days);
    let mut text = match set.lang {
        Language::Norwegian => "  Uke   ".to_owned(),
        Language::Swedish => "  Vecka ".to_owned(),
    };
    text.append(sparkline_of(&means, set.color).as_str());
    text.append("   ");
    push_decimal(&mut text, means[0] as u64);
    text.append(" → ");
    push_decimal(&mut text, means[means.len() - 1] as u64);
    text.append("   ");
    text.append(trend_arrow(&means));
    match set.lang {
        Language::Norwegian => text.append("   spredning "),
        Language::Swedish => text.append("   spridning "),
    }
    push_decimal(&mut text, spread(&means) as u64);
    text.append(" p\n");
    text
}

// ---- The tree below a day ----

/// The branch of a row: the last one closes the tree.
pub open spec fn branch_text(is_last: bool) -> Seq<char> {
    if is_last {
        "└─"@
    } else {
        "├─"@
    }
}

pub fn branch(is_last: bool) -> (text: &'static str)
    ensures
        text@ == branch_text(is_last),
{
    if is_last {
        "└─"
    } else {
        "├─"
    }
}

fn padded_text(text: &str, width: usize) -> (out: String)
    ensures
        out@ == padded(text@, width as nat),
{
    let mut out = String::new();
    push_padded(&mut out, text, width);
    proof {
        assert(out@ =~= padded(text@, width as nat));
    }
    out
}

/// A score in three cells, dimmed or in its colour.
pub open spec fn score_cell(value: int, dim: bool, color: bool) -> Seq<char> {
    let text = padded(decimal(value as nat), 3);
    if dim {
        dimmed(text, color)
    } else {
        in_score_color(text, value, true, color)
    }
}

fn score_in_cell(value: u8, dim: bool, color: bool) -> (text: String)
    ensures
        text@ == score_cell(value as int, dim, color),
{
    let text = padded_text(crate::text::decimal_text(value as u64).as_str(), 3);
    if dim {
        paint_dim(text.as_str(), color)
    } else {
        paint_score_str(text.as_str(), value, color)
    }
}

/// One axis of a breakdown tree: its name, a bar and the score.
pub open spec fn tree_axis_text(
    label: Seq<char>,
    value: int,
    dim: bool,
    color: bool,
) -> Seq<char> {
    dimmed(padded(label, 9), color) + " "@ + bar_text(value, color) + "  "@ + score_cell(
        value,
        dim,
        color,
    )
}

/// One row of the breakdown tree.
pub fn format_axis_row(label: &str, value: u8, dim: bool, color: bool) -> (text: String)
    ensures
        text@ == tree_axis_text(label@, value as int, dim, color),
{
    let mut text = paint_dim(padded_text(label, 9).as_str(), color);
    text.append(" ");
    text.append(colored_bar(value, color).as_str());
    text.append("  ");
    text.append(score_in_cell(value, dim, color).as_str());
    text
}

/// The mean of a day's points on one axis, fractions dropped.
pub open spec fn day_axis_mean(day: DayAggregate, axis: Axis) -> int {
    floored_mean(axis_scores(day_breakdowns(day.points@), axis))
}

/// The mean of a day's points on one axis.
pub fn avg_day_axis(day: &DayAggregate, axis: Axis) -> (mean: u8)
    ensures
        mean == day_axis_mean(*day, axis),
{
    mean_on(&day_breakdowns_of(&day.points), axis)
}

/// The score that a tree shows on an axis; precipitation counts amount and
/// probability.
pub open spec fn shown_on_axis(day: DayAggregate, axis: Axis) -> int {
    match axis {
        Axis::Precipitation => combined(
            day_axis_mean(day, Axis::Precipitation),
            day_axis_mean(day, Axis::PrecipProbability),
        ),
        _ => day_axis_mean(day, axis),
    }
}

/// One row of the breakdown tree of a day.
pub open spec fn day_axis_row(
    day: DayAggregate,
    axis: Axis,
    dim: bool,
    is_last: bool,
    set: Setting,
) -> Seq<char> {
    BREAKDOWN_INDENT@ + branch_text(is_last) + " "@ + tree_axis_text(
        short_axis_text(axis, set.lang),
        shown_on_axis(day, axis),
        dim,
        set.color,
    ) + dimmed(""@, set.color) + "\n"@
}

fn write_day_axis(day: &DayAggregate, axis: Axis, dim: bool, is_last: bool, set: &Setting) -> (text:
    String)
    ensures
        text@ == day_axis_row(*day, axis, dim, is_last, *set),
{
    let value: u8 = match axis {
        Axis::Precipitation => combined_precip(
            avg_day_axis(day, Axis::Precipitation),
            avg_day_axis(day, Axis::PrecipProbability),
            set.lang,
        ),
        _ => avg_day_axis(day, axis),
    };
    let mut text = BREAKDOWN_INDENT.to_owned();
    text.append(branch(is_last));
    text.append(" ");
    text.append(
        format_axis_row(axis_label_short(axis, set.lang), value, dim, set.color).as_str(),
    );
    text.append(paint_dim("", set.color).as_str());
    text.append("\n");
    text
}

/// The breakdown tree of a day; it stays open where something follows.
pub open spec fn day_breakdown_text(
    day: DayAggregate,
    dim: bool,
    continues: bool,
    set: Setting,
) -> Seq<char> {
    day_axis_row(day, Axis::Temperature, dim, false, set) + day_axis_row(
        day,
        Axis::Wind,
        dim,
        false,
        set,
    ) + day_axis_row(day, Axis::Precipitation, dim, false, set) + day_axis_row(
        day,
        Axis::Ground,
        dim,
        !continues,
        set,
    )
}

/// Per-axis sub-score breakdown as a small tree under the day row.
pub fn write_day_breakdown(
    day: &DayAggregate,
    dim: bool,
    penalties_follow: bool,
    set: &Setting,
) -> (text: String)
    ensures
        text@ == day_breakdown_text(*day, dim, penalties_follow, *set),
{
    let mut text = write_day_axis(day, Axis::Temperature, dim, false, set);
    text.append(write_day_axis(day, Axis::Wind, dim, false, set).as_str());
    text.append(write_day_axis(day, Axis::Precipitation, dim, false, set).as_str());
    text.append(write_day_axis(day, Axis::Ground, dim, !penalties_follow, set).as_str());
    text
}

/// The figures of the day as the last row of its breakdown.
pub open spec fn day_tall_row(stats: WindowStats, is_last: bool, set: Setting) -> Seq<char> {
    match stats.figures {
        Some(f) => BREAKDOWN_INDENT@ + branch_text(is_last) + " "@ + dimmed(
            padded(window_stats_label(set.lang), 9),
            set.color,
        ) + " "@ + tall_text(f, set.lang, set.color) + "\n"@,
        None => ""@,
    }
}

fn write_day_tall(stats: &WindowStats, is_last: bool, set: &Setting) -> (text: String)
    ensures
        text@ == day_tall_row(*stats, is_last, *set),
{
    match &stats.figures {
        Some(f) => {
            let mut text = BREAKDOWN_INDENT.to_owned();
            text.append(branch(is_last));
            text.append(" ");
            text.append(
                paint_dim(
                    padded_text(window_stats_chip_label(set.lang), 9).as_str(),
                    set.color,
                ).as_str(),
            );
            text.append(" ");
            text.append(format_tall_line(f, set.lang, set.color).as_str());
            text.append("\n");
            text
        },
        None => "".to_owned(),
    }
}

// ---- The best sub-window ----

/// The reason for the best window, where one stands out.
pub open spec fn reason_trailer(ow: DayOptimum, set: Setting) -> Seq<char> {
    match ow.reason {
        Some(r) => " — "@ + dimmed(r.label_text(set.lang), set.color),
        None => ""@,
    }
}

/// The rain in the best window, where its figures are known.
pub open spec fn rain_trailer(ow: DayOptimum, set: Setting) -> Seq<char> {
    match ow.stats.figures {
        Some(f) => " · "@ + dimmed(
            window_rain_text(f, set.lang, ow.improvement > 0),
            set.color,
        ),
        None => ""@,
    }
}

/// How much better than the day, where it is better at all.
pub open spec fn points_suffix(improvement: int, lang: Language) -> Seq<char> {
    if improvement > 0 {
        ", +"@ + decimal(improvement as nat) + (match lang {
            Language::Norwegian => " poeng"@,
            Language::Swedish => " poäng"@,
        })
    } else {
        ""@
    }
}

/// The best sub-window of a day: an opening where it is better than the day,
/// else just a window.
pub open spec fn best_window_text(optimum: Option<DayOptimum>, set: Setting) -> Seq<char> {
    match optimum {
        None => ""@,
        Some(ow) => BREAKDOWN_INDENT@ + (match (set.lang, ow.improvement > 0) {
            (Language::Norwegian, false) => "★ Beste vindu: "@,
            (Language::Norwegian, true) => "★ Beste luke: "@,
            (Language::Swedish, false) => "★ Bästa fönster: "@,
            (Language::Swedish, true) => "★ Bästa lucka: "@,
        }) + set.clock.hm_text(ow.window.start as int) + "–"@ + set.clock.hm_text(
            ow.window.end as int,
        ) + " → "@ + in_score_color(
            decimal(ow.total as nat),
            ow.total as int,
            true,
            set.color,
        ) + " ("@ + in_score_color(
            label_text(ow.total as int, set.lang),
            ow.total as int,
            false,
            set.color,
        ) + points_suffix(ow.improvement as int, set.lang) + ")"@ + reason_trailer(ow, set)
            + rain_trailer(ow, set) + "\n"@,
    }
}

/// Whether the best sub-window of a day is told: an opening, which is better
/// than the day, only with `verbose` or where best windows were asked for.
pub open spec fn shows_window(ow: DayOptimum, verbose: bool, flags: ChipFlags) -> bool {
    verbose || flags.best_window || ow.improvement == 0
}

/// The best sub-window of a day, as far as it is told.
pub open spec fn told_window(
    optimum: Option<DayOptimum>,
    verbose: bool,
    flags: ChipFlags,
) -> Option<DayOptimum> {
    match optimum {
        Some(ow) => if shows_window(ow, verbose, flags) {
            Some(ow)
        } else {
            None
        },
        None => None,
    }
}

/// The best window lies between instants.
pub open spec fn timed_optimum(optimum: Option<DayOptimum>) -> bool {
    optimum matches Some(ow) ==> is_instant(ow.window.start as int) && is_instant(
        ow.window.end as int,
    )
}

fn write_points_suffix(improvement: u8, lang: Language) -> (text: String)
    ensures
        text@ == points_suffix(improvement as int, lang),
{
    if improvement == 0 {
        return "".to_owned();
    }
    let mut text = ", +".to_owned();
    push_decimal(&mut text, improvement as u64);
    match lang {
        Language::Norwegian => text.append(" poeng"),
        Language::Swedish => text.append(" poäng"),
    }
    text
}

fn write_trailers(ow: &DayOptimum, set: &Setting) -> (texts: (String, String))
    ensures
        texts.0@ == reason_trailer(*ow, *set),
        texts.1@ == rain_trailer(*ow, *set),
{
    let reason = match ow.reason {
        Some(r) => {
            let mut text = " — ".to_owned();
            text.append(paint_dim(r.label(set.lang), set.color).as_str());
            text
        },
        None => "".to_owned(),
    };
    let rain = match best_window_rain_trailer(&ow.stats, set.lang, ow.improvement > 0) {
        Some(said) => {
            let mut text = " · ".to_owned();
            text.append(paint_dim(said.as_str(), set.color).as_str());
            text
        },
        None => "".to_owned(),
    };
    (reason, rain)
}

fn write_best_window(optimum: &Option<DayOptimum>, set: &Setting) -> (text: String)
    requires
        set.valid(),
        timed_optimum(*optimum),
    ensures
        text@ == best_window_text(*optimum, *set),
{
    match optimum {
        None => "".to_owned(),
        Some(ow) => {
            let (reason, rain) = write_trailers(ow, set);
            let mut text = BREAKDOWN_INDENT.to_owned();
            text.append(
                match (set.lang, ow.improvement > 0) {
                    (Language::Norwegian, false) => "★ Beste vindu: ",
                    (Language::Norwegian, true) => "★ Beste luke: ",
                    (Language::Swedish, false) => "★ Bästa fönster: ",
                    (Language::Swedish, true) => "★ Bästa lucka: ",
                },
            );
            text.append(set.clock.hm(ow.window.start).as_str());
            text.append("–");
            text.append(set.clock.hm(ow.window.end).as_str());
            text.append(" → ");
            text.append(paint_score(ow.total, set.color).as_str());
            text.append(" (");
            text.append(paint_label(label_for(ow.total, set.lang), ow.total, set.color).as_str());
            text.append(write_points_suffix(ow.improvement, set.lang).as_str());
            text.append(")");
            text.append(reason.as_str());
            text.append(rain.as_str());
            text.append("\n");
            text
        },
    }
}

fn write_told_window(
    optimum: &Option<DayOptimum>,
    verbose: bool,
    flags: ChipFlags,
    set: &Setting,
) -> (text: String)
    requires
        set.valid(),
        timed_optimum(*optimum),
    ensures
        text@ == best_window_text(told_window(*optimum, verbose, flags), *set),
{
    match optimum {
        Some(ow) => if verbose || flags.best_window || ow.improvement == 0 {
            write_best_window(optimum, set)
        } else {
            "".to_owned()
        },
        None => "".to_owned(),
    }
}

// ---- Penalties and highlights ----

/// One row for each penalty of a tree with `total` rows.
pub open spec fn penalty_rows(penalties: Seq<Penalty>, total: int, set: Setting) -> Seq<char>
    decreases penalties.len(),
{
    if penalties.len() == 0 {
        ""@
    } else {
        penalty_rows(penalties.drop_last(), total, set) + BREAKDOWN_INDENT@ + branch_text(
            penalties.len() == total,
        ) + " "@ + penalty_text(penalties.last(), set.lang, set.color) + "\n"@
    }
}

fn write_penalty_rows(penalties: &Vec<Penalty>, total: usize, set: &Setting) -> (text: String)
    ensures
        text@ == penalty_rows(penalties@, total as int, *set),
{
    let mut text = "".to_owned();
    let mut i: usize = 0;
    proof {
        assert(penalties@.take(0) =~= Seq::empty());
    }
    while i < penalties.len()
        invariant
            i <= penalties.len(),
            text@ == penalty_rows(penalties@.take(i as int), total as int, *set),
        decreases penalties.len() - i,
    {
        text.append(BREAKDOWN_INDENT);
        text.append(branch(i + 1 == total));
        text.append(" ");
        text.append(format_penalty_line(&penalties[i], set.lang, set.color).as_str());
        text.append("\n");
        proof {
            assert(penalties@.take(i + 1).drop_last() =~= penalties@.take(i as int));
            assert(penalties@.take(i + 1).last() == penalties@[i as int]);
        }
        i = i + 1;
    }
    proof {
        assert(penalties@.take(penalties.len() as int) =~= penalties@);
    }
    text
}

/// One row for each highlight, behind `before` rows of a tree with `total`.
pub open spec fn highlight_rows(highlights: Seq<String>, before: int, total: int) -> Seq<char>
    decreases highlights.len(),
{
    if highlights.len() == 0 {
        ""@
    } else {
        highlight_rows(highlights.drop_last(), before, total) + BREAKDOWN_INDENT@ + branch_text(
            before + highlights.len() == total,
        ) + " ☀ "@ + highlights.last()@ + "\n"@
    }
}

fn write_highlight_rows(highlights: &Vec<String>, before: usize, total: usize) -> (text: String)
    requires
        before + highlights@.len() == total,
    ensures
        text@ == highlight_rows(highlights@, before as int, total as int),
{
    let mut text = "".to_owned();
    let mut i: usize = 0;
    proof {
        assert(highlights@.take(0) =~= Seq::empty());
    }
    while i < highlights.len()
        invariant
            i <= highlights.len(),
            before + highlights@.len() == total,
            text@ == highlight_rows(highlights@.take(i as int), before as int, total as int),
        decreases highlights.len() - i,
    {
        text.append(BREAKDOWN_INDENT);
        text.append(branch(i + 1 == highlights.len()));
        text.append(" ☀ ");
        text.append(highlights[i].as_str());
        text.append("\n");
        proof {
            assert(highlights@.take(i + 1).drop_last() =~= highlights@.take(i as int));
            assert(highlights@.take(i + 1).last() == highlights@[i as int]);
        }
        i = i + 1;
    }
    proof {
        assert(highlights@.take(highlights.len() as int) =~= highlights@);
    }
    text
}

// ---- One day ----

/// The row of a day: label, weather, bar, score and a mark for low confidence.
pub open spec fn day_line(day: DayAggregate, icon: Seq<char>, set: Setting) -> Seq<char> {
    let label = day_text(day.date, set.spec_today(), set.lang);
    let dim = day.confidence == Confidence::Lav;
    "  "@ + filled_up(
        if dim {
            dimmed(label, set.color)
        } else {
            painted(label, FG, None, false, set.color)
        },
        display_width(label),
        11,
    ) + "  "@ + icon + icon_gap(display_width(icon)) + " "@ + bar_text(day.mean as int, set.color)
        + "  "@ + score_cell(day.mean as int, dim, set.color) + "  "@ + (if dim {
        dimmed("~"@, set.color)
    } else {
        " "@
    }) + "\n"@
}

fn write_day_line(day: &DayAggregate, icon: &str, set: &Setting) -> (text: String)
    requires
        set.valid(),
        day.date.valid(),
    ensures
        text@ == day_line(*day, icon@, *set),
{
    let label = day_label(day.date, set.today(), set.lang);
    let dim = dim_for_confidence(day.confidence);
    let painted_label = if dim {
        paint_dim(label.as_str(), set.color)
    } else {
        paint_fg(label.as_str(), set.color)
    };
    let mut text = "  ".to_owned();
    text.append(pad_right(painted_label.as_str(), label.as_str(), 11).as_str());
    text.append("  ");
    text.append(icon);
    text.append(icon_pad(icon));
    text.append(" ");
    text.append(colored_bar(day.mean, set.color).as_str());
    text.append("  ");
    text.append(score_in_cell(day.mean, dim, set.color).as_str());
    text.append("  ");
    if dim {
        text.append(paint_dim("~", set.color).as_str());
    } else {
        text.append(" ");
    }
    text.append("\n");
    text
}

/// A day: its row; for today, or for every day with `verbose`, the breakdown
/// and the figures; the best sub-window, where it is told; and with `verbose`
/// every penalty and highlight.
pub open spec fn day_row_text(
    day: DayAggregate,
    verbose: bool,
    flags: ChipFlags,
    set: Setting,
) -> Seq<char> {
    let center = day.points@[day_center(day.points@)].day_score;
    let penalties = center.score.penalties@;
    let highlights = center.score.highlights@;
    let open = day.date == set.spec_today() || verbose;
    let tall = flags.window_stats && open && !center.score.stats.has_no_figures();
    let listed = verbose && penalties.len() > 0;
    day_line(day, center.weather_icon@, set) + (if open {
        day_breakdown_text(day, day.confidence == Confidence::Lav, listed || tall, set)
    } else {
        ""@
    }) + (if tall {
        day_tall_row(center.score.stats, !listed, set)
    } else {
        ""@
    }) + best_window_text(told_window(day.optimal_window, verbose, flags), set) + (if verbose {
        penalty_rows(penalties, (penalties.len() + highlights.len()) as int, set) + highlight_rows(
            highlights,
            penalties.len() as int,
            (penalties.len() + highlights.len()) as int,
        )
    } else {
        ""@
    })
}

/// A day can be reported on.
pub open spec fn reportable(day: DayAggregate) -> bool {
    let center = day.points@[day_center(day.points@)].day_score;
    &&& day.points@.len() > 0
    &&& day.date.valid()
    &&& timed_optimum(day.optimal_window)
    &&& center.score.penalties@.len() + center.score.highlights@.len() <= usize::MAX
}

/// Render one day.
pub fn write_day_row(day: &DayAggregate, verbose: bool, flags: ChipFlags, set: &Setting) -> (text:
    String)
    requires
        set.valid(),
        reportable(*day),
    ensures
        text@ == day_row_text(*day, verbose, flags, *set),
{
    let center = day.center();
    let penalties: usize = center.score.penalties.len();
    let highlights: usize = center.score.highlights.len();
    let is_today = day.date.day_number == set.today().day_number;
    let open = is_today || verbose;
    let tall = flags.window_stats && open && !center.score.stats.is_empty();
    let listed = verbose && penalties > 0;
    let mut text = write_day_line(day, center.weather_icon, set);
    if open {
        let dim = dim_for_confidence(day.confidence);
        text.append(write_day_breakdown(day, dim, listed || tall, set).as_str());
    } else {
        text.append("");
    }
    if tall {
        text.append(write_day_tall(&center.score.stats, !listed, set).as_str());
    } else {
        text.append("");
    }
    text.append(write_told_window(&day.optimal_window, verbose, flags, set).as_str());
    if verbose {
        let total: usize = penalties + highlights;
        let mut rows = write_penalty_rows(&center.score.penalties, total, set);
        rows.append(write_highlight_rows(&center.score.highlights, penalties, total).as_str());
        text.append(rows.as_str());
    } else {
        text.append("");
    }
    text
}

/// All days.
pub open spec fn day_rows_text(
    days: Seq<DayAggregate>,
    verbose: bool,
    flags: ChipFlags,
    set: Setting,
) -> Seq<char>
    decreases days.len(),
{
    if days.len() == 0 {
        ""@
    } else {
        day_rows_text(days.drop_last(), verbose, flags, set) + day_row_text(
            days.last(),
            verbose,
            flags,
            set,
        )
    }
}

fn write_day_rows(days: &Vec<DayAggregate>, verbose: bool, flags: ChipFlags, set: &Setting) -> (text:
    String)
    requires
        set.valid(),
        forall|i: int| 0 <= i < days@.len() ==> reportable(#[trigger] days@[i]),
    ensures
        text@ == day_rows_text(days@, verbose, flags, *set),
{
    let mut text = "".to_owned();
    let mut i: usize = 0;
    proof {
        assert(days@.take(0) =~= Seq::empty());
    }
    while i < days.len()
        invariant
            i <= days.len(),
            set.valid(),
            forall|k: int| 0 <= k < days@.len() ==> reportable(#[trigger] days@[k]),
            text@ == day_rows_text(days@.take(i as int), verbose, flags, *set),
        decreases days.len() - i,
    {
        text.append(write_day_row(&days[i], verbose, flags, set).as_str());
        proof {
            assert(days@.take(i + 1).drop_last() =~= days@.take(i as int));
            assert(days@.take(i + 1).last() == days@[i as int]);
        }
        i = i + 1;
    }
    proof {
        assert(days@.take(days.len() as int) =~= days@);
    }
    text
}

// ---- Footer ----

/// Some day has low confidence.
pub open spec fn any_low_confidence(days: Seq<DayAggregate>) -> bool {
    exists|i: int| 0 <= i < days.len() && (#[trigger] days[i]).confidence == Confidence::Lav
}

/// Ground, rain, the scale, and a note on low confidence.
pub open spec fn footer_text(
    forecast: MultiDayForecast,
    flags: ChipFlags,
    set: Setting,
) -> Seq<char> {
    aligned_chip(
        match set.lang {
            Language::Norwegian => "Bakke"@,
            Language::Swedish => "Mark"@,
        },
        ground_chip_text(forecast),
        set.color,
    ) + aligned_chip(
        rain_history_label(set.lang),
        wanted_rain(forecast.rain_history, flags, set.lang),
        set.color,
    ) + aligned_chip("Skala"@, Some(legend_text(set.lang, set.color)), set.color) + (
    if any_low_confidence(forecast.days@) {
        "  "@ + dimmed(
            match set.lang {
                Language::Norwegian => "~         lav konfidens (>60 t — 6-t oppløsning fra MET)"@,
                Language::Swedish =>
                    "~         låg tillförlitlighet (>60 h — 6-h upplösning från MET)"@,
            },
            set.color,
        ) + "\n"@
    } else {
        ""@
    })
}

fn has_low_confidence(days: &Vec<DayAggregate>) -> (b: bool)
    ensures
        b == any_low_confidence(days@),
{
    let mut i: usize = 0;
    while i < days.len()
        invariant
            i <= days.len(),
            forall|k: int|
                0 <= k < i ==> (#[trigger] days@[k]).confidence != Confidence::Lav,
        decreases days.len() - i,
    {
        if dim_for_confidence(days[i].confidence) {
            return true;
        }
        i = i + 1;
    }
    false
}

/// Trailing chips of the multi-day report.
pub fn write_footer(forecast: &MultiDayForecast, flags: ChipFlags, set: &Setting) -> (text: String)
    requires
        forecast.days@.len() > 0 ==> forecast.days@[0].points@.len() > 0,
        dated_history(forecast.rain_history),
    ensures
        text@ == footer_text(*forecast, flags, *set),
{
    let ground_word = match set.lang {
        Language::Norwegian => "Bakke",
        Language::Swedish => "Mark",
    };
    let ground = ground_chip(forecast);
    let rain = rain_if_wanted(&forecast.rain_history, flags, set.lang);
    let scale = Some(bucket_legend(set.lang, set.color));
    let mut text = write_aligned_chip(ground_word, &ground, set.color);
    text.append(write_aligned_chip(rain_history_chip_label(set.lang), &rain, set.color).as_str());
    text.append(write_aligned_chip("Skala", &scale, set.color).as_str());
    if has_low_confidence(&forecast.days) {
        let note = match set.lang {
            Language::Norwegian => "~         lav konfidens (>60 t — 6-t oppløsning fra MET)",
            Language::Swedish => "~         låg tillförlitlighet (>60 h — 6-h upplösning från MET)",
        };
        let mut line = "  ".to_owned();
        line.append(paint_dim(note, set.color).as_str());
        line.append("\n");
        text.append(line.as_str());
    } else {
        text.append("");
    }
    text
}

// ---- The report ----

/// The place, its radius and the number of days.
pub open spec fn days_title(
    label: Seq<char>,
    radius: Seq<char>,
    n: nat,
    lang: Language,
) -> Seq<char> {
    "Grusindeks · "@ + label + " · "@ + radius + " km · "@ + decimal(n) + " "@ + days_word(n, lang)
}

pub fn title_of_days(label: &str, radius: &str, n: usize, lang: Language) -> (text: String)
    ensures
        text@ == days_title(label@, radius@, n as nat, lang),
{
    let mut text = "Grusindeks · ".to_owned();
    text.append(label);
    text.append(" · ");
    text.append(radius);
    text.append(" km · ");
    push_decimal(&mut text, n as u64);
    text.append(" ");
    text.append(day_word(n, lang));
    text
}

/// The callout of the best day; nothing where there is no day.
pub open spec fn callout_block(days: Seq<DayAggregate>, set: Setting) -> Seq<char> {
    if days.len() == 0 {
        ""@
    } else {
        callout_text(days[best_day_at(days)], set) + "\n"@
    }
}

/// The report on several days.
pub open spec fn multi_day_text(
    label: Seq<char>,
    radius: Seq<char>,
    forecast: MultiDayForecast,
    verbose: bool,
    flags: ChipFlags,
    set: Setting,
) -> Seq<char> {
    let days = forecast.days@;
    painted(
        days_title(label, radius, days.len(), set.lang),
        PURPLE,
        None,
        true,
        set.color,
    ) + "\n\n"@ + banner_text(forecast.nowcast_alert, set) + callout_block(days, set)
        + week_trend_text(days, set) + "\n"@ + day_rows_text(days, verbose, flags, set) + "\n"@
        + footer_text(forecast, flags, set)
}

fn write_callout(days: &Vec<DayAggregate>, set: &Setting) -> (text: String)
    requires
        set.valid(),
        forall|i: int| 0 <= i < days@.len() ==> reportable(#[trigger] days@[i]),
    ensures
        text@ == callout_block(days@, *set),
{
    match pick_best_day(days) {
        Some(best) => {
            proof {
                assert(reportable(days@[best_day_at(days@)]));
            }
            let mut text = write_best_callout(best, set);
            text.append("\n");
            text
        },
        None => "".to_owned(),
    }
}

/// Render the multi-day forecast. `radius` is the sample radius in whole
/// kilometres. `verbose` adds the breakdown, every penalty and the opening to
/// every day.
pub fn render_multi_day(
    label: &str,
    radius: &str,
    forecast: &MultiDayForecast,
    verbose: bool,
    flags: ChipFlags,
    set: &Setting,
) -> (text: String)
    requires
        set.valid(),
        forall|i: int| 0 <= i < forecast.days@.len() ==> reportable(#[trigger] forecast.days@[i]),
        dated_history(forecast.rain_history),
        timed_alert(forecast.nowcast_alert),
    ensures
        text@ == multi_day_text(label@, radius@, *forecast, verbose, flags, *set),
{
    let title = title_of_days(label, radius, forecast.days.len(), set.lang);
    let mut text = paint_accent(title.as_str(), set.color);
    text.append("\n\n");
    text.append(nowcast_banner(&forecast.nowcast_alert, set).as_str());
    text.append(write_callout(&forecast.days, set).as_str());
    text.append(write_week_trend(&forecast.days, set).as_str());
    text.append("\n");
    text.append(write_day_rows(&forecast.days, verbose, flags, set).as_str());
    text.append("\n");
    proof {
        if forecast.days@.len() > 0 {
            assert(reportable(forecast.days@[0]));
        }
    }
    text.append(write_footer(forecast, flags, set).as_str());
    text
}

} // verus!
