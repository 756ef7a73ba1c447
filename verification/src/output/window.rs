//! The report on a single ride window.
use vstd::prelude::*;
use vstd::string::StringExecFns;

use crate::aggregate::{
    axis_scores, breakdowns_of, floored_mean, is_best_position, is_center_position,
    is_worst_position, mean_on, point_breakdowns, AggregateScore, Axis, PointScore, RainHistory,
};
use crate::lang::Language;
use crate::output::bars::{bar_text, colored_bar};
use crate::output::chips::{
    banner_text, dated_history, format_penalty_line, nowcast_banner, penalty_text, rain_chip,
    rain_chip_of, text_view, timed_alert, window_stats_chip_content, window_stats_text,
};
use crate::output::labels::{
    axis_label_long, axis_text, combined, combined_precip, rain_history_chip_label,
    rain_history_label, window_stats_chip_label, window_stats_label,
};
use crate::output::{ChipFlags, Setting};
use crate::score::{label_for, label_text, Penalty, WindowStats};
use crate::text::{
    decimal, decimal_text, padded, push_padded, push_repeated, push_right_aligned, repeated,
    right_aligned,
};
use crate::theme::{
    dimmed, in_score_color, paint_accent, paint_dim, paint_label, paint_score, paint_score_str,
    painted, PURPLE,
};
use crate::time::{is_instant, RideWindow, FIRST_DATE, LAST_DATE};

verus! {

// ---- Pieces ----

/// The place, its radius and the window.
pub open spec fn window_header(
    label: Seq<char>,
    radius: Seq<char>,
    window: RideWindow,
    set: Setting,
) -> Seq<char> {
    "Grusindeks for "@ + label + " ("@ + radius + "km radius) — "@ + set.clock.date_text(
        window.start as int,
    ) + " "@ + set.clock.hm_text(window.start as int) + "–"@ + set.clock.hm_text(
        window.end as int,
    )
}

/// The mean total and its label.
pub open spec fn total_line(mean: int, set: Setting) -> Seq<char> {
    (match set.lang {
        Language::Norwegian => "Total"@,
        Language::Swedish => "Totalt"@,
    }) + ": "@ + in_score_color(decimal(mean as nat), mean, true, set.color) + "/100  ⭐ "@
        + in_score_color(label_text(mean, set.lang), mean, false, set.color) + "\n\n"@
}

/// One axis: its name, a bar and the score, right-aligned.
pub open spec fn axis_row(label: Seq<char>, value: int, color: bool) -> Seq<char> {
    padded(label, 14) + " "@ + bar_text(value, color) + " "@ + in_score_color(
        right_aligned(decimal(value as nat), 3),
        value,
        true,
        color,
    ) + "\n"@
}

/// One axis: its name, a bar and the score.
pub fn write_axis_row(label: &str, value: u8, color: bool) -> (text: String)
    ensures
        text@ == axis_row(label@, value as int, color),
{
    let mut text = String::new();
    push_padded(&mut text, label, 14);
    proof {
        assert(text@ =~= padded(label@, 14));
    }
    text.append(" ");
    text.append(colored_bar(value, color).as_str());
    text.append(" ");
    let mut number = String::new();
    push_right_aligned(&mut number, decimal_text(value as u64).as_str(), 3);
    proof {
        assert(number@ =~= right_aligned(decimal(value as nat), 3));
    }
    text.append(paint_score_str(number.as_str(), value, color).as_str());
    text.append("\n");
    text
}

/// The mean of the points on one axis, fractions dropped.
pub open spec fn axis_mean(points: Seq<PointScore>, axis: Axis) -> int {
    floored_mean(axis_scores(point_breakdowns(points), axis))
}

/// The mean of the points on one axis.
pub fn avg_axis(agg: &AggregateScore, axis: Axis) -> (mean: u8)
    ensures
        mean == axis_mean(agg.points@, axis),
{
    mean_on(&breakdowns_of(&agg.points), axis)
}

/// The four rows of axes; amount and probability of precipitation share one.
pub open spec fn axis_rows(points: Seq<PointScore>, set: Setting) -> Seq<char> {
    axis_row(
        axis_text(Axis::Temperature, set.lang),
        axis_mean(points, Axis::Temperature),
        set.color,
    ) + axis_row(axis_text(Axis::Wind, set.lang), axis_mean(points, Axis::Wind), set.color)
        + axis_row(
        axis_text(Axis::Precipitation, set.lang),
        combined(
            axis_mean(points, Axis::Precipitation),
            axis_mean(points, Axis::PrecipProbability),
        ),
        set.color,
    ) + axis_row(axis_text(Axis::Ground, set.lang), axis_mean(points, Axis::Ground), set.color)
}

fn write_axis_rows(agg: &AggregateScore, set: &Setting) -> (text: String)
    ensures
        text@ == axis_rows(agg.points@, *set),
{
    let precip: u8 = combined_precip(
        avg_axis(agg, Axis::Precipitation),
        avg_axis(agg, Axis::PrecipProbability),
        set.lang,
    );
    let mut text = write_axis_row(
        axis_label_long(Axis::Temperature, set.lang),
        avg_axis(agg, Axis::Temperature),
        set.color,
    );
    text.append(
        write_axis_row(
            axis_label_long(Axis::Wind, set.lang),
            avg_axis(agg, Axis::Wind),
            set.color,
        ).as_str(),
    );
    text.append(
        write_axis_row(axis_label_long(Axis::Precipitation, set.lang), precip, set.color).as_str(),
    );
    text.append(
        write_axis_row(
            axis_label_long(Axis::Ground, set.lang),
            avg_axis(agg, Axis::Ground),
            set.color,
        ).as_str(),
    );
    text
}

// ---- The centre ----

/// The position of the centre among the points.
pub open spec fn center_at(points: Seq<PointScore>) -> int {
    choose|i: int| is_center_position(points, i)
}

pub(crate) proof fn lemma_center(points: Seq<PointScore>, i: int)
    requires
        is_center_position(points, i),
    ensures
        center_at(points) == i,
        0 <= i < points.len(),
{
    let j = center_at(points);
    assert(is_center_position(points, j));
    if i < j {
        assert(!points[i].is_center);
        assert(points[j].is_center);
    }
    if j < i {
        assert(!points[j].is_center);
        assert(points[i].is_center);
    }
}

/// The penalties of the centre, so that the "why" matches the chosen ride
/// centre.
pub fn center_penalties(agg: &AggregateScore) -> (penalties: &Vec<Penalty>)
    requires
        agg.points@.len() > 0,
    ensures
        *penalties == agg.points@[center_at(agg.points@)].score.penalties,
{
    let at: usize = agg.center_position();
    proof {
        lemma_center(agg.points@, at as int);
    }
    &agg.points[at].score.penalties
}

fn center_stats(agg: &AggregateScore) -> (stats: &WindowStats)
    requires
        agg.points@.len() > 0,
    ensures
        *stats == agg.points@[center_at(agg.points@)].score.stats,
{
    let at: usize = agg.center_position();
    proof {
        lemma_center(agg.points@, at as int);
    }
    &agg.points[at].score.stats
}

/// One line for each penalty.
pub open spec fn penalty_lines(penalties: Seq<Penalty>, set: Setting) -> Seq<char>
    decreases penalties.len(),
{
    if penalties.len() == 0 {
        ""@
    } else {
        penalty_lines(penalties.drop_last(), set) + "  "@ + penalty_text(
            penalties.last(),
            set.lang,
            set.color,
        ) + "\n"@
    }
}

/// The penalties behind an empty line: all of them, or the worst three.
pub open spec fn penalty_block(penalties: Seq<Penalty>, verbose: bool, set: Setting) -> Seq<char> {
    if penalties.len() == 0 {
        ""@
    } else if verbose || penalties.len() <= 3 {
        "\n"@ + penalty_lines(penalties, set)
    } else {
        "\n"@ + penalty_lines(penalties.take(3), set)
    }
}

fn write_penalty_block(penalties: &Vec<Penalty>, verbose: bool, set: &Setting) -> (text: String)
    ensures
        text@ == penalty_block(penalties@, verbose, *set),
{
    if penalties.len() == 0 {
        return "".to_owned();
    }
    let cap: usize = if verbose || penalties.len() <= 3 {
        penalties.len()
    } else {
        3
    };
    let mut lines = "".to_owned();
    let mut i: usize = 0;
    proof {
        assert(penalties@.take(0) =~= Seq::empty());
    }
    while i < cap
        invariant
            i <= cap <= penalties.len(),
            lines@ == penalty_lines(penalties@.take(i as int), *set),
        decreases cap - i,
    {
        lines.append("  ");
        lines.append(format_penalty_line(&penalties[i], set.lang, set.color).as_str());
        lines.append("\n");
        proof {
            assert(penalties@.take(i + 1).drop_last() =~= penalties@.take(i as int));
            assert(penalties@.take(i + 1).last() == penalties@[i as int]);
        }
        i = i + 1;
    }
    proof {
        assert(penalties@.take(penalties.len() as int) =~= penalties@);
    }
    let mut text = "\n".to_owned();
    text.append(lines.as_str());
    text
}

// ---- Spread ----

/// The position of the worst point.
pub open spec fn worst_at(points: Seq<PointScore>) -> int {
    choose|i: int| is_worst_position(points, i)
}

/// The position of the best point.
pub open spec fn best_at(points: Seq<PointScore>) -> int {
    choose|i: int| is_best_position(points, i)
}

pub(crate) proof fn lemma_extremes(points: Seq<PointScore>)
    ensures
        forall|i: int| is_worst_position(points, i) ==> worst_at(points) == i,
        forall|i: int| is_best_position(points, i) ==> best_at(points) == i,
{
    assert forall|i: int| is_worst_position(points, i) implies worst_at(points) == i by {
        let j = worst_at(points);
        assert(is_worst_position(points, j));
        assert(points[i].score.total <= points[j].score.total);
        assert(points[j].score.total <= points[i].score.total);
    }
    assert forall|i: int| is_best_position(points, i) implies best_at(points) == i by {
        let j = best_at(points);
        assert(is_best_position(points, j));
        assert(points[i].score.total <= points[j].score.total);
        assert(points[j].score.total <= points[i].score.total);
    }
}

/// A point with its total and where it lies.
pub open spec fn point_line(word: Seq<char>, p: PointScore, color: bool) -> Seq<char> {
    word + "  "@ + in_score_color(
        decimal(p.score.total as nat),
        p.score.total as int,
        true,
        color,
    ) + " ("@ + p.bearing_label@ + ")\n"@
}

fn write_point_line(word: &str, p: &PointScore, color: bool) -> (text: String)
    ensures
        text@ == point_line(word@, *p, color),
{
    let mut text = word.to_owned();
    text.append("  ");
    text.append(paint_score(p.score.total, color).as_str());
    text.append(" (");
    text.append(p.bearing_label.as_str());
    text.append(")\n");
    text
}

/// Worst and best point, where the points differ at all.
pub open spec fn spread_block(agg: AggregateScore, set: Setting) -> Seq<char> {
    if agg.points@.len() > 1 && agg.min < agg.max {
        "\n"@ + point_line(
            match set.lang {
                Language::Norwegian => "Verste punkt:"@,
                Language::Swedish => "Sämsta punkt:"@,
            },
            agg.points@[worst_at(agg.points@)],
            set.color,
        ) + point_line(
            match set.lang {
                Language::Norwegian => "Beste punkt: "@,
                Language::Swedish => "Bästa punkt: "@,
            },
            agg.points@[best_at(agg.points@)],
            set.color,
        )
    } else {
        ""@
    }
}

fn write_spread(agg: &AggregateScore, set: &Setting) -> (text: String)
    ensures
        text@ == spread_block(*agg, *set),
{
    if agg.points.len() <= 1 || agg.min >= agg.max {
        return "".to_owned();
    }
    let (worst_word, best_word) = match set.lang {
        Language::Norwegian => ("Verste punkt:", "Beste punkt: "),
        Language::Swedish => ("Sämsta punkt:", "Bästa punkt: "),
    };
    proof {
        lemma_extremes(agg.points@);
    }
    let mut text = "\n".to_owned();
    text.append(write_point_line(worst_word, agg.worst(), set.color).as_str());
    text.append(write_point_line(best_word, agg.best(), set.color).as_str());
    text
}

// ---- Chips ----

/// A chip: its dimmed name and what it says; nothing where it says nothing.
pub open spec fn chip_line(label: Seq<char>, content: Option<Seq<char>>, color: bool) -> Seq<char> {
    match content {
        Some(text) => "  "@ + dimmed(label, color) + "   "@ + text + "\n"@,
        None => ""@,
    }
}

/// A chip: its dimmed name and what it says.
pub fn write_chip(label: &str, content: &Option<String>, color: bool) -> (text: String)
    ensures
        text@ == chip_line(label@, text_view(*content), color),
{
    match content {
        Some(said) => {
            let mut text = "  ".to_owned();
            text.append(paint_dim(label, color).as_str());
            text.append("   ");
            text.append(said.as_str());
            text.append("\n");
            text
        },
        None => "".to_owned(),
    }
}

/// The columns that the names of aligned chips take up.
pub const CHIP_LABEL_WIDTH: usize = 7;

/// A chip whose content is aligned with that of the other chips.
pub open spec fn aligned_chip(
    label: Seq<char>,
    content: Option<Seq<char>>,
    color: bool,
) -> Seq<char> {
    chip_line(padded(label, CHIP_LABEL_WIDTH as nat), content, color)
}

/// A chip whose content is aligned with that of the other chips.
pub fn write_aligned_chip(label: &str, content: &Option<String>, color: bool) -> (text: String)
    ensures
        text@ == aligned_chip(label@, text_view(*content), color),
{
    let mut name = String::new();
    push_padded(&mut name, label, CHIP_LABEL_WIDTH);
    proof {
        assert(name@ =~= padded(label@, CHIP_LABEL_WIDTH as nat));
    }
    write_chip(name.as_str(), content, color)
}

/// What the rain chip says, where it is wanted.
pub open spec fn wanted_rain(
    history: Option<RainHistory>,
    flags: ChipFlags,
    lang: Language,
) -> Option<Seq<char>> {
    if flags.rain_history {
        rain_chip(history, lang)
    } else {
        None
    }
}

/// What the rain chip says, where it is wanted.
pub fn rain_if_wanted(history: &Option<RainHistory>, flags: ChipFlags, lang: Language) -> (text:
    Option<String>)
    requires
        dated_history(*history),
    ensures
        text_view(text) == wanted_rain(*history, flags, lang),
{
    if flags.rain_history {
        rain_chip_of(history, lang)
    } else {
        None
    }
}

/// What the stats chip says, where it is wanted.
pub open spec fn wanted_stats(
    stats: WindowStats,
    flags: ChipFlags,
    lang: Language,
) -> Option<Seq<char>> {
    match stats.figures {
        Some(f) => if flags.window_stats {
            Some(window_stats_text(f, lang))
        } else {
            None
        },
        None => None,
    }
}

/// The chips below the report, behind an empty line where there is one.
pub open spec fn chips_block(agg: AggregateScore, flags: ChipFlags, set: Setting) -> Seq<char> {
    let rain = wanted_rain(agg.rain_history, flags, set.lang);
    let stats = wanted_stats(agg.points@[center_at(agg.points@)].score.stats, flags, set.lang);
    if rain is None && stats is None {
        ""@
    } else {
        "\n"@ + aligned_chip(rain_history_label(set.lang), rain, set.color) + aligned_chip(
            window_stats_label(set.lang),
            stats,
            set.color,
        )
    }
}

/// Footer chips for the single-window report.
pub fn write_aggregate_chips(agg: &AggregateScore, flags: ChipFlags, set: &Setting) -> (text:
    String)
    requires
        agg.points@.len() > 0,
        dated_history(agg.rain_history),
    ensures
        text@ == chips_block(*agg, flags, *set),
{
    let rain = rain_if_wanted(&agg.rain_history, flags, set.lang);
    let stats = if flags.window_stats {
        window_stats_chip_content(center_stats(agg), set.lang)
    } else {
        None
    };
    if rain.is_none() && stats.is_none() {
        return "".to_owned();
    }
    let mut text = "\n".to_owned();
    text.append(write_aligned_chip(rain_history_chip_label(set.lang), &rain, set.color).as_str());
    text.append(write_aligned_chip(window_stats_chip_label(set.lang), &stats, set.color).as_str());
    text
}

// ---- The report ----

/// The report on a single ride window.
pub open spec fn human_text(
    label: Seq<char>,
    radius: Seq<char>,
    window: RideWindow,
    agg: AggregateScore,
    verbose: bool,
    flags: ChipFlags,
    set: Setting,
) -> Seq<char> {
    painted(window_header(label, radius, window, set), PURPLE, None, true, set.color) + "\n"@
        + dimmed(repeated("═"@, 63), set.color) + "\n"@ + banner_text(agg.nowcast_alert, set)
        + total_line(agg.mean as int, set) + axis_rows(agg.points@, set) + penalty_block(
        agg.points@[center_at(agg.points@)].score.penalties@,
        verbose,
        set,
    ) + spread_block(agg, set) + chips_block(agg, flags, set)
}

fn write_header(label: &str, radius: &str, window: RideWindow, set: &Setting) -> (text: String)
    requires
        set.valid(),
        is_instant(window.start as int),
        is_instant(window.end as int),
        FIRST_DATE <= set.clock.local_day(window.start as int) <= LAST_DATE,
    ensures
        text@ == window_header(label@, radius@, window, *set),
{
    let mut text = "Grusindeks for ".to_owned();
    text.append(label);
    text.append(" (");
    text.append(radius);
    text.append("km radius) — ");
    text.append(set.clock.date_string(window.start).as_str());
    text.append(" ");
    text.append(set.clock.hm(window.start).as_str());
    text.append("–");
    text.append(set.clock.hm(window.end).as_str());
    text
}

fn write_total(mean: u8, set: &Setting) -> (text: String)
    ensures
        text@ == total_line(mean as int, *set),
{
    let mut text = match set.lang {
        Language::Norwegian => "Total".to_owned(),
        Language::Swedish => "Totalt".to_owned(),
    };
    text.append(": ");
    text.append(paint_score(mean, set.color).as_str());
    text.append("/100  ⭐ ");
    text.append(paint_label(label_for(mean, set.lang), mean, set.color).as_str());
    text.append("\n\n");
    text
}

/// Render the aggregate score for a single ride window. `radius` is the sample
/// radius in whole kilometres. Penalties are listed under the bar block, the
/// worst three or with `verbose` all of them.
pub fn render_human(
    label: &str,
    radius: &str,
    window: RideWindow,
    agg: &AggregateScore,
    verbose: bool,
    flags: ChipFlags,
    set: &Setting,
) -> (text: String)
    requires
        set.valid(),
        is_instant(window.start as int),
        is_instant(window.end as int),
        FIRST_DATE <= set.clock.local_day(window.start as int) <= LAST_DATE,
        agg.points@.len() > 0,
        dated_history(agg.rain_history),
        timed_alert(agg.nowcast_alert),
    ensures
        text@ == human_text(label@, radius@, window, *agg, verbose, flags, *set),
{
    let mut rule = String::new();
    push_repeated(&mut rule, "═", 63);
    proof {
        assert(rule@ =~= repeated("═"@, 63));
    }
    let mut text = paint_accent(write_header(label, radius, window, set).as_str(), set.color);
    text.append("\n");
    text.append(paint_dim(rule.as_str(), set.color).as_str());
    text.append("\n");
    text.append(nowcast_banner(&agg.nowcast_alert, set).as_str());
    text.append(write_total(agg.mean, set).as_str());
    text.append(write_axis_rows(agg, set).as_str());
    text.append(write_penalty_block(center_penalties(agg), verbose, set).as_str());
    text.append(write_spread(agg, set).as_str());
    text.append(write_aggregate_chips(agg, flags, set).as_str());
    text
}

} // verus!
