//! What every report shows.
use vstd::prelude::*;

use crate::aggregate::laws::{added_up, the_mean_drops_fractions_of_the_sum};
use crate::aggregate::{
    axis_scores, day_breakdowns, is_best_position, is_center_position, is_worst_position,
    point_breakdowns, AggregateScore, Axis, DayAggregate, DayOptimum, HourlyDayAggregate,
    HourlyForecast, MultiDayForecast, PointScore,
};
use crate::daily::Confidence;
use crate::lang::Language;
use crate::output::bars::{bar_text, display_width, filled_up, icon_gap};
use crate::output::chips::penalty_text;
use crate::output::days::{
    beats, best_day_at, best_window_text, callout_text, callout_words, day_axis_mean, day_axis_row,
    day_breakdown_text, day_line, day_means, day_row_text, day_rows_text, is_best_day,
    multi_day_text, shown_on_axis, told_window, week_trend_text,
};
use crate::output::hours::{
    hour_at, hourly_day_text, hourly_rows_text, hourly_text, row_cells, Shown,
};
use crate::output::labels::{combined, day_text, short_axis_text};
use crate::output::window::{
    axis_mean, axis_row, human_text, penalty_lines, point_line, spread_block, total_line,
};
use crate::output::{ChipFlags, Setting};
use crate::score::Penalty;
use crate::text::{decimal, joined, padded, right_aligned};
use crate::time::RideWindow;

verus! {

/// The text holds `part` somewhere.
pub open spec fn shows(text: Seq<char>, part: Seq<char>) -> bool {
    exists|at: int|
        0 <= at <= text.len() - part.len() && #[trigger] text.subrange(at, at + part.len()) == part
}

pub(crate) broadcast proof fn lemma_either(a: Seq<char>, b: Seq<char>, part: Seq<char>)
    ensures
        shows(a, part) || shows(b, part) ==> #[trigger] shows(a + b, part),
{
    if shows(a, part) {
        let at = choose|at: int|
            0 <= at <= a.len() - part.len() && #[trigger] a.subrange(at, at + part.len()) == part;
        assert((a + b).subrange(at, at + part.len()) =~= a.subrange(at, at + part.len()));
    }
    if shows(b, part) {
        let at = choose|at: int|
            0 <= at <= b.len() - part.len() && #[trigger] b.subrange(at, at + part.len()) == part;
        let n = a.len() as int;
        assert((a + b).subrange(n + at, n + at + part.len()) =~= b.subrange(at, at + part.len()));
    }
}

pub(crate) proof fn lemma_between(before: Seq<char>, part: Seq<char>, after: Seq<char>)
    ensures
        shows(before + part + after, part),
{
    let text = before + part + after;
    let at = before.len() as int;
    assert(text.subrange(at, at + part.len()) =~= part);
}

// ---- One window ----

/// The report on a window shows its mean out of a hundred.
pub proof fn a_window_report_shows_its_mean(
    label: Seq<char>,
    radius: Seq<char>,
    window: RideWindow,
    agg: AggregateScore,
    verbose: bool,
    flags: ChipFlags,
    set: Setting,
)
    requires
        !set.color,
    ensures
        shows(
            human_text(label, radius, window, agg, verbose, flags, set),
            ": "@ + decimal(agg.mean as nat) + "/100  ⭐ "@,
        ),
{
    broadcast use lemma_either;

    let part = ": "@ + decimal(agg.mean as nat) + "/100  ⭐ "@;
    let word = match set.lang {
        Language::Norwegian => "Total"@,
        Language::Swedish => "Totalt"@,
    };
    let rest = crate::score::label_text(agg.mean as int, set.lang) + "\n\n"@;
    lemma_between(word, part, rest);
    assert(total_line(agg.mean as int, set) =~= word + part + rest);
}

/// `value` is the mean of the scores, fractions dropped.
pub open spec fn is_mean_of(value: int, scores: Seq<u8>) -> bool {
    value * scores.len() <= added_up(scores) < (value + 1) * scores.len()
}

/// A row of the report on a window: the name of an axis, a bar and its value.
pub open spec fn window_row(name: Seq<char>, value: int) -> Seq<char> {
    padded(name, 14) + " "@ + bar_text(value, false) + " "@ + right_aligned(
        decimal(value as nat),
        3,
    )
}

proof fn lemma_mean_is(points: Seq<PointScore>, axis: Axis, scores: Seq<u8>, value: int)
    requires
        points.len() > 0,
        axis_scores(point_breakdowns(points), axis) == scores,
        is_mean_of(value, scores),
    ensures
        axis_mean(points, axis) == value,
{
    the_mean_drops_fractions_of_the_sum(scores);
    lemma_one_mean(axis_mean(points, axis), value, added_up(scores), scores.len() as int);
}

proof fn lemma_one_mean(a: int, b: int, sum: int, n: int)
    requires
        n > 0,
        a * n <= sum < (a + 1) * n,
        b * n <= sum < (b + 1) * n,
    ensures
        a == b,
{
    assert(a == b) by (nonlinear_arith)
        requires
            n > 0,
            a * n <= sum < (a + 1) * n,
            b * n <= sum < (b + 1) * n,
    ;
}

proof fn lemma_row(name: Seq<char>, value: int)
    ensures
        shows(axis_row(name, value, false), window_row(name, value)),
{
    lemma_between(Seq::empty(), window_row(name, value), "\n"@);
    assert(axis_row(name, value, false) =~= Seq::<char>::empty() + window_row(name, value)
        + "\n"@);
}

/// The report on a window shows, for temperature, wind and ground, the mean of
/// all points, and for precipitation that of amount and probability together,
/// 25 to 10.
pub proof fn a_window_report_shows_every_axis(
    label: Seq<char>,
    radius: Seq<char>,
    window: RideWindow,
    agg: AggregateScore,
    verbose: bool,
    flags: ChipFlags,
    set: Setting,
    temperature: int,
    wind: int,
    amount: int,
    probability: int,
    rain: int,
    ground: int,
)
    requires
        !set.color,
        agg.points@.len() > 0,
        is_mean_of(
            temperature,
            Seq::new(agg.points@.len(), |i: int| agg.points@[i].score.breakdown.temperature),
        ),
        is_mean_of(
            wind,
            Seq::new(agg.points@.len(), |i: int| agg.points@[i].score.breakdown.wind),
        ),
        is_mean_of(
            amount,
            Seq::new(agg.points@.len(), |i: int| agg.points@[i].score.breakdown.precipitation),
        ),
        is_mean_of(
            probability,
            Seq::new(
                agg.points@.len(),
                |i: int| agg.points@[i].score.breakdown.precip_probability,
            ),
        ),
        35 * rain <= 25 * amount + 10 * probability < 35 * rain + 35,
        is_mean_of(
            ground,
            Seq::new(agg.points@.len(), |i: int| agg.points@[i].score.breakdown.ground),
        ),
    ensures
        ({
            let text = human_text(label, radius, window, agg, verbose, flags, set);
            &&& shows(text, window_row("Temperatur"@, temperature))
            &&& shows(text, window_row("Vind"@, wind))
            &&& shows(
                text,
                window_row(
                    match set.lang {
                        Language::Norwegian => "Nedbør"@,
                        Language::Swedish => "Nederbörd"@,
                    },
                    rain,
                ),
            )
            &&& shows(
                text,
                window_row(
                    match set.lang {
                        Language::Norwegian => "Bakke"@,
                        Language::Swedish => "Mark"@,
                    },
                    ground,
                ),
            )
        }),
{
    broadcast use lemma_either;

    let points = agg.points@;
    let n = points.len();
    let each = point_breakdowns(points);
    assert(axis_scores(each, Axis::Temperature) =~= Seq::new(
        n,
        |i: int| points[i].score.breakdown.temperature,
    ));
    assert(axis_scores(each, Axis::Wind) =~= Seq::new(n, |i: int| points[i].score.breakdown.wind));
    assert(axis_scores(each, Axis::Precipitation) =~= Seq::new(
        n,
        |i: int| points[i].score.breakdown.precipitation,
    ));
    assert(axis_scores(each, Axis::PrecipProbability) =~= Seq::new(
        n,
        |i: int| points[i].score.breakdown.precip_probability,
    ));
    assert(axis_scores(each, Axis::Ground) =~= Seq::new(
        n,
        |i: int| points[i].score.breakdown.ground,
    ));
    lemma_mean_is(points, Axis::Temperature, axis_scores(each, Axis::Temperature), temperature);
    lemma_mean_is(points, Axis::Wind, axis_scores(each, Axis::Wind), wind);
    lemma_mean_is(points, Axis::Precipitation, axis_scores(each, Axis::Precipitation), amount);
    lemma_mean_is(
        points,
        Axis::PrecipProbability,
        axis_scores(each, Axis::PrecipProbability),
        probability,
    );
    lemma_mean_is(points, Axis::Ground, axis_scores(each, Axis::Ground), ground);
    lemma_row("Temperatur"@, temperature);
    lemma_row("Vind"@, wind);
    lemma_row("Nedbør"@, rain);
    lemma_row("Nederbörd"@, rain);
    lemma_row("Bakke"@, ground);
    lemma_row("Mark"@, ground);
    assert(combined(amount, probability) == rain);
}

proof fn lemma_lines(penalties: Seq<Penalty>, set: Setting, k: int)
    requires
        0 <= k < penalties.len(),
        !set.color,
    ensures
        shows(penalty_lines(penalties, set), ": "@ + penalties[k].message@ + "\n"@),
    decreases penalties.len(),
{
    let part = ": "@ + penalties[k].message@ + "\n"@;
    let earlier = penalty_lines(penalties.drop_last(), set);
    let p = penalties.last();
    let name = crate::theme::component_text(p.component, set.lang);
    let last = "  "@ + name + (": "@ + p.message@ + "\n"@);
    assert(penalty_lines(penalties, set) =~= earlier + last) by {
        lemma_line(earlier, name, p.message@);
        assert(penalty_text(p, set.lang, set.color) == name + ": "@ + p.message@);
    }
    if k == penalties.len() - 1 {
        lemma_between("  "@ + name, part, Seq::empty());
        assert("  "@ + name + part + Seq::<char>::empty() =~= last);
    } else {
        assert(penalties.drop_last()[k] == penalties[k]);
        lemma_lines(penalties.drop_last(), set, k);
    }
    lemma_either(earlier, last, part);
}

proof fn lemma_line(earlier: Seq<char>, name: Seq<char>, message: Seq<char>)
    ensures
        earlier + "  "@ + (name + ": "@ + message) + "\n"@ == earlier + ("  "@ + name + (": "@
            + message + "\n"@)),
{
    assert(earlier + "  "@ + (name + ": "@ + message) + "\n"@ =~= earlier + ("  "@ + name + (": "@
        + message + "\n"@)));
}

/// The report on a window says what the centre's score was docked for: the first
/// three penalties, and with `verbose` all of them.
pub proof fn a_window_report_says_why(
    label: Seq<char>,
    radius: Seq<char>,
    window: RideWindow,
    agg: AggregateScore,
    verbose: bool,
    flags: ChipFlags,
    set: Setting,
    c: int,
    k: int,
)
    requires
        !set.color,
        is_center_position(agg.points@, c),
        0 <= k < agg.points@[c].score.penalties@.len(),
        verbose || k < 3,
    ensures
        shows(
            human_text(label, radius, window, agg, verbose, flags, set),
            ": "@ + agg.points@[c].score.penalties@[k].message@ + "\n"@,
        ),
{
    broadcast use lemma_either;

    crate::output::window::lemma_center(agg.points@, c);
    let penalties = agg.points@[c].score.penalties@;
    if verbose || penalties.len() <= 3 {
        lemma_lines(penalties, set, k);
    } else {
        assert(penalties.take(3)[k] == penalties[k]);
        lemma_lines(penalties.take(3), set, k);
    }
}

/// Where the points differ, the report on a window names the lowest and the
/// highest total, each with where it was.
pub proof fn a_window_report_names_the_extremes(
    label: Seq<char>,
    radius: Seq<char>,
    window: RideWindow,
    agg: AggregateScore,
    verbose: bool,
    flags: ChipFlags,
    set: Setting,
    w: int,
    b: int,
)
    requires
        !set.color,
        agg.points@.len() > 1,
        agg.min < agg.max,
        is_worst_position(agg.points@, w),
        is_best_position(agg.points@, b),
    ensures
        ({
            let text = human_text(label, radius, window, agg, verbose, flags, set);
            let worst = agg.points@[w];
            let best = agg.points@[b];
            &&& shows(
                text,
                (match set.lang {
                    Language::Norwegian => "Verste punkt:"@,
                    Language::Swedish => "Sämsta punkt:"@,
                }) + "  "@ + decimal(worst.score.total as nat) + " ("@ + worst.bearing_label@
                    + ")\n"@,
            )
            &&& shows(
                text,
                (match set.lang {
                    Language::Norwegian => "Beste punkt: "@,
                    Language::Swedish => "Bästa punkt: "@,
                }) + "  "@ + decimal(best.score.total as nat) + " ("@ + best.bearing_label@ + ")\n"@,
            )
        }),
{
    broadcast use lemma_either;

    crate::output::window::lemma_extremes(agg.points@);
    let worst_word = match set.lang {
        Language::Norwegian => "Verste punkt:"@,
        Language::Swedish => "Sämsta punkt:"@,
    };
    let best_word = match set.lang {
        Language::Norwegian => "Beste punkt: "@,
        Language::Swedish => "Bästa punkt: "@,
    };
    let low = point_line(worst_word, agg.points@[w], false);
    let high = point_line(best_word, agg.points@[b], false);
    lemma_between("\n"@, low, high);
    lemma_between("\n"@ + low, high, Seq::empty());
    assert(spread_block(agg, set) =~= "\n"@ + low + high);
    assert("\n"@ + low + high + Seq::<char>::empty() =~= "\n"@ + low + high);
}

// ---- Several days ----

/// The row of a day: its label, its weather, a bar and its mean.
pub open spec fn day_row(day: DayAggregate, icon: Seq<char>, set: Setting) -> Seq<char> {
    let label = day_text(day.date, set.spec_today(), set.lang);
    "  "@ + filled_up(label, display_width(label), 11) + "  "@ + icon + icon_gap(
        display_width(icon),
    ) + " "@ + bar_text(day.mean as int, false) + "  "@ + padded(decimal(day.mean as nat), 3)
}

proof fn lemma_rows(
    days: Seq<DayAggregate>,
    verbose: bool,
    flags: ChipFlags,
    set: Setting,
    k: int,
    part: Seq<char>,
)
    requires
        0 <= k < days.len(),
        shows(day_row_text(days[k], verbose, flags, set), part),
    ensures
        shows(day_rows_text(days, verbose, flags, set), part),
    decreases days.len(),
{
    broadcast use lemma_either;

    if k < days.len() - 1 {
        assert(days.drop_last()[k] == days[k]);
        lemma_rows(days.drop_last(), verbose, flags, set, k, part);
    }
}

proof fn lemma_report(
    label: Seq<char>,
    radius: Seq<char>,
    forecast: MultiDayForecast,
    verbose: bool,
    flags: ChipFlags,
    set: Setting,
    k: int,
    part: Seq<char>,
)
    requires
        0 <= k < forecast.days@.len(),
        shows(day_row_text(forecast.days@[k], verbose, flags, set), part),
    ensures
        shows(multi_day_text(label, radius, forecast, verbose, flags, set), part),
{
    broadcast use lemma_either;

    lemma_rows(forecast.days@, verbose, flags, set, k, part);
}

/// The report on several days has a row for every day, with its own label,
/// weather and mean.
pub proof fn every_day_has_its_row(
    label: Seq<char>,
    radius: Seq<char>,
    forecast: MultiDayForecast,
    verbose: bool,
    flags: ChipFlags,
    set: Setting,
    k: int,
    c: int,
)
    requires
        !set.color,
        0 <= k < forecast.days@.len(),
        is_center_of(forecast.days@[k], c),
    ensures
        shows(
            multi_day_text(label, radius, forecast, verbose, flags, set),
            day_row(
                forecast.days@[k],
                forecast.days@[k].points@[c].day_score.weather_icon@,
                set,
            ),
        ),
{
    broadcast use lemma_either;

    let day = forecast.days@[k];
    lemma_day_center(day, c);
    let icon = day.points@[c].day_score.weather_icon@;
    let rest = "  "@ + (if day.confidence == Confidence::Lav {
        "~"@
    } else {
        " "@
    }) + "\n"@;
    lemma_between(Seq::empty(), day_row(day, icon, set), rest);
    assert(day_line(day, icon, set) =~= Seq::<char>::empty() + day_row(day, icon, set) + rest);
    lemma_report(label, radius, forecast, verbose, flags, set, k, day_row(day, icon, set));
}

/// Position `c` is the centre of the day: the first point marked so, else the
/// first.
pub open spec fn is_center_of(day: DayAggregate, c: int) -> bool {
    &&& 0 <= c < day.points@.len()
    &&& forall|j: int| 0 <= j < c ==> !(#[trigger] day.points@[j]).is_center
    &&& day.points@[c].is_center || (c == 0 && forall|j: int|
        0 <= j < day.points@.len() ==> !(#[trigger] day.points@[j]).is_center)
}

pub(crate) proof fn lemma_day_center(day: DayAggregate, c: int)
    requires
        is_center_of(day, c),
    ensures
        crate::aggregate::day_center(day.points@) == c,
{
    crate::aggregate::laws::lemma_center(day.points@, 0, c);
}

/// Where best windows are told, the report gives the hours of a day's best
/// sub-window and its total.
pub proof fn a_told_window_gives_hours_and_total(
    label: Seq<char>,
    radius: Seq<char>,
    forecast: MultiDayForecast,
    verbose: bool,
    flags: ChipFlags,
    set: Setting,
    k: int,
)
    requires
        !set.color,
        0 <= k < forecast.days@.len(),
        forecast.days@[k].optimal_window is Some,
        verbose || flags.best_window || forecast.days@[k].optimal_window->0.improvement == 0,
    ensures
        ({
            let ow = forecast.days@[k].optimal_window->0;
            shows(
                multi_day_text(label, radius, forecast, verbose, flags, set),
                set.clock.hm_text(ow.window.start as int) + "–"@ + set.clock.hm_text(
                    ow.window.end as int,
                ) + " → "@ + decimal(ow.total as nat) + " ("@,
            )
        }),
{
    broadcast use lemma_either;

    let day = forecast.days@[k];
    let ow = day.optimal_window->0;
    let part = set.clock.hm_text(ow.window.start as int) + "–"@ + set.clock.hm_text(
        ow.window.end as int,
    ) + " → "@ + decimal(ow.total as nat) + " ("@;
    lemma_window_line(ow, set);
    assert(told_window(day.optimal_window, verbose, flags) == Some(ow));
    assert(shows(day_row_text(day, verbose, flags, set), part));
    lemma_report(label, radius, forecast, verbose, flags, set, k, part);
}

proof fn lemma_window_line(ow: DayOptimum, set: Setting)
    requires
        !set.color,
    ensures
        shows(
            best_window_text(Some(ow), set),
            set.clock.hm_text(ow.window.start as int) + "–"@ + set.clock.hm_text(
                ow.window.end as int,
            ) + " → "@ + decimal(ow.total as nat) + " ("@,
        ),
{
    let part = set.clock.hm_text(ow.window.start as int) + "–"@ + set.clock.hm_text(
        ow.window.end as int,
    ) + " → "@ + decimal(ow.total as nat) + " ("@;
    let line = best_window_text(Some(ow), set);
    let before = crate::output::days::BREAKDOWN_INDENT@ + (match (set.lang, ow.improvement > 0) {
        (Language::Norwegian, false) => "★ Beste vindu: "@,
        (Language::Norwegian, true) => "★ Beste luke: "@,
        (Language::Swedish, false) => "★ Bästa fönster: "@,
        (Language::Swedish, true) => "★ Bästa lucka: "@,
    });
    let rest = crate::score::label_text(ow.total as int, set.lang)
        + crate::output::days::points_suffix(ow.improvement as int, set.lang) + ")"@
        + crate::output::days::reason_trailer(ow, set) + crate::output::days::rain_trailer(ow, set)
        + "\n"@;
    lemma_between(before, part, rest);
    assert(line =~= before + part + rest);
}

/// The day with the highest mean is called out, by its label and mean.
pub proof fn the_highest_day_is_called_out(
    label: Seq<char>,
    radius: Seq<char>,
    forecast: MultiDayForecast,
    verbose: bool,
    flags: ChipFlags,
    set: Setting,
    k: int,
)
    requires
        !set.color,
        0 <= k < forecast.days@.len(),
        forall|j: int|
            0 <= j < forecast.days@.len() && j != k ==> (#[trigger] forecast.days@[j]).mean
                < forecast.days@[k].mean,
    ensures
        shows(
            multi_day_text(label, radius, forecast, verbose, flags, set),
            ": "@ + day_text(forecast.days@[k].date, set.spec_today(), set.lang) + "  —  "@
                + decimal(forecast.days@[k].mean as nat) + "  "@,
        ),
{
    broadcast use lemma_either;

    let days = forecast.days@;
    let day = days[k];
    assert(is_best_day(days, k)) by {
        assert forall|j: int| 0 <= j < days.len() implies !beats(#[trigger] days[j], days[k]) by {}
        assert forall|j: int| k < j < days.len() implies beats(days[k], #[trigger] days[j]) by {}
    }
    let l = best_day_at(days);
    assert(is_best_day(days, l));
    if l != k {
        assert(beats(days[k], days[l]));
    }
    let part = ": "@ + day_text(day.date, set.spec_today(), set.lang) + "  —  "@ + decimal(
        day.mean as nat,
    ) + "  "@;
    let word = match set.lang {
        Language::Norwegian => " Beste"@,
        Language::Swedish => " Bästa"@,
    };
    reveal_strlit(" Beste: ");
    reveal_strlit(" Beste");
    reveal_strlit(" Bästa: ");
    reveal_strlit(" Bästa");
    reveal_strlit(": ");
    assert(" Beste: "@ =~= " Beste"@ + ": "@);
    assert(" Bästa: "@ =~= " Bästa"@ + ": "@);
    let rest = crate::score::label_text(day.mean as int, set.lang)
        + crate::output::days::confidence_suffix(day.confidence, set.lang) + "  "@;
    lemma_between(word, part, rest);
    assert(callout_words(day, set) =~= word + part + rest);
    assert(shows(callout_text(day, set), part));
}

/// The shape of the week gives the first and the last mean, and by how far the
/// highest exceeds the lowest.
pub proof fn the_week_goes_from_the_first_day_to_the_last(
    label: Seq<char>,
    radius: Seq<char>,
    forecast: MultiDayForecast,
    verbose: bool,
    flags: ChipFlags,
    set: Setting,
    low: int,
    high: int,
)
    requires
        !set.color,
        0 <= low < forecast.days@.len(),
        0 <= high < forecast.days@.len(),
        forall|j: int|
            0 <= j < forecast.days@.len() ==> forecast.days@[low].mean <= (
            #[trigger] forecast.days@[j]).mean <= forecast.days@[high].mean,
    ensures
        shows(
            multi_day_text(label, radius, forecast, verbose, flags, set),
            "   "@ + decimal(forecast.days@[0].mean as nat) + " → "@ + decimal(
                forecast.days@.last().mean as nat,
            ) + "   "@,
        ),
        shows(
            multi_day_text(label, radius, forecast, verbose, flags, set),
            (match set.lang {
                Language::Norwegian => "   spredning "@,
                Language::Swedish => "   spridning "@,
            }) + decimal((forecast.days@[high].mean - forecast.days@[low].mean) as nat) + " p\n"@,
        ),
{
    broadcast use lemma_either;

    let days = forecast.days@;
    let means = day_means(days);
    assert(means[0] == days[0].mean && means.last() == days.last().mean);
    assert(means[low] == days[low].mean && means[high] == days[high].mean);
    assert forall|j: int| 0 <= j < means.len() implies means[low] <= #[trigger] means[j]
        <= means[high] by {
        assert(means[j] == days[j].mean);
    }
    let top = choose|m: u8| crate::aggregate::is_highest(means, m);
    let bottom = choose|m: u8| crate::aggregate::is_lowest(means, m);
    assert(means.contains(means[high]) && means.contains(means[low]));
    assert(crate::aggregate::is_highest(means, means[high]));
    assert(crate::aggregate::is_lowest(means, means[low]));
    assert(crate::aggregate::is_highest(means, top) && crate::aggregate::is_lowest(means, bottom));
    assert(top == means[high]) by {
        let i = choose|i: int| 0 <= i < means.len() && means[i] == top;
        assert(means[i] <= means[high] && means[high] <= top);
    }
    assert(bottom == means[low]) by {
        let i = choose|i: int| 0 <= i < means.len() && means[i] == bottom;
        assert(means[low] <= means[i] && bottom <= means[low]);
    }
    lemma_week(days, set, means[high] - means[low]);
}

proof fn lemma_week(days: Seq<DayAggregate>, set: Setting, apart: int)
    requires
        !set.color,
        days.len() > 0,
        apart == crate::output::days::spread_of(day_means(days)),
    ensures
        shows(
            week_trend_text(days, set),
            "   "@ + decimal(days[0].mean as nat) + " → "@ + decimal(days.last().mean as nat)
                + "   "@,
        ),
        shows(
            week_trend_text(days, set),
            (match set.lang {
                Language::Norwegian => "   spredning "@,
                Language::Swedish => "   spridning "@,
            }) + decimal(apart as nat) + " p\n"@,
        ),
{
    let means = day_means(days);
    assert(means[0] == days[0].mean && means.last() == days.last().mean);
    let word = match set.lang {
        Language::Norwegian => "  Uke   "@,
        Language::Swedish => "  Vecka "@,
    };
    let spread = (match set.lang {
        Language::Norwegian => "   spredning "@,
        Language::Swedish => "   spridning "@,
    }) + decimal(apart as nat) + " p\n"@;
    let line = crate::output::days::sparkline(means, false);
    let trend = crate::output::bars::trend_text(means);
    let named = match set.lang {
        Language::Norwegian => "   spredning "@,
        Language::Swedish => "   spridning "@,
    };
    lemma_regroup(
        word,
        line,
        "   "@,
        decimal(means[0] as nat),
        " → "@,
        decimal(means.last() as nat),
        trend,
        spread,
    );
    let text = word + line + "   "@ + decimal(means[0] as nat) + " → "@ + decimal(
        means.last() as nat,
    ) + "   "@ + trend + spread;
    assert(text == week_trend_text(days, set)) by {
        lemma_tail(
            word + line + "   "@ + decimal(means[0] as nat) + " → "@ + decimal(means.last() as nat)
                + "   "@ + trend,
            named,
            decimal(apart as nat),
            " p\n"@,
        );
    }
}

proof fn lemma_regroup(
    word: Seq<char>,
    line: Seq<char>,
    gap: Seq<char>,
    a: Seq<char>,
    arrow: Seq<char>,
    b: Seq<char>,
    trend: Seq<char>,
    spread: Seq<char>,
)
    ensures
        shows(
            word + line + gap + a + arrow + b + gap + trend + spread,
            gap + a + arrow + b + gap,
        ),
        shows(word + line + gap + a + arrow + b + gap + trend + spread, spread),
{
    let text = word + line + gap + a + arrow + b + gap + trend + spread;
    let ends = gap + a + arrow + b + gap;
    lemma_between(word + line, ends, trend + spread);
    assert(text =~= word + line + ends + (trend + spread));
    let before = word + line + gap + a + arrow + b + gap + trend;
    lemma_between(before, spread, Seq::empty());
    assert(text =~= before + spread + Seq::<char>::empty());
}

proof fn lemma_tail(before: Seq<char>, named: Seq<char>, number: Seq<char>, unit: Seq<char>)
    ensures
        before + named + number + unit == before + (named + number + unit),
{
    assert(before + named + number + unit =~= before + (named + number + unit));
}

// ---- Hour by hour ----

/// The report hour by hour has a row for every day: its label and the cells of
/// its hours, one for each column.
pub proof fn every_day_has_its_cells(
    label: Seq<char>,
    radius: Seq<char>,
    forecast: HourlyForecast,
    verbose: bool,
    flags: ChipFlags,
    set: Setting,
    k: int,
)
    requires
        !set.color,
        forecast.header_hours@.len() > 0,
        0 <= k < forecast.days@.len(),
    ensures
        ({
            let day = forecast.days@[k];
            let name = day_text(day.date, set.spec_today(), set.lang);
            shows(
                hourly_text(label, radius, forecast, verbose, flags, set),
                "  "@ + filled_up(name, display_width(name), 11) + "  "@ + joined(
                    row_cells(day, forecast.header_hours@, Shown::Mean, set),
                    " "@,
                ) + "\n"@,
            )
        }),
{
    broadcast use lemma_either;

    let columns = forecast.header_hours@;
    let day = forecast.days@[k];
    let name = day_text(day.date, set.spec_today(), set.lang);
    let part = "  "@ + filled_up(name, display_width(name), 11) + "  "@ + joined(
        row_cells(day, columns, Shown::Mean, set),
        " "@,
    ) + "\n"@;
    lemma_between(Seq::empty(), part, Seq::empty());
    assert(part =~= Seq::<char>::empty() + part + Seq::<char>::empty());
    lemma_hourly_rows(forecast.days@, columns, verbose, flags, set, k, part);
}

proof fn lemma_hourly_rows(
    days: Seq<HourlyDayAggregate>,
    columns: Seq<u8>,
    verbose: bool,
    flags: ChipFlags,
    set: Setting,
    k: int,
    part: Seq<char>,
)
    requires
        0 <= k < days.len(),
        shows(hourly_day_text(days[k], columns, verbose, flags, set), part),
    ensures
        shows(hourly_rows_text(days, columns, verbose, flags, set), part),
    decreases days.len(),
{
    broadcast use lemma_either;

    if k < days.len() - 1 {
        assert(days.drop_last()[k] == days[k]);
        lemma_hourly_rows(days.drop_last(), columns, verbose, flags, set, k, part);
    }
}

/// A cell shades the mean of the hour that the local clock has in its column on
/// its day: darker from 45, 65 and 85 points on. It is a placeholder where no
/// such hour was scored.
pub proof fn a_cell_shades_the_hour_of_its_column(
    day: HourlyDayAggregate,
    columns: Seq<u8>,
    set: Setting,
    c: int,
    i: int,
)
    requires
        !set.color,
        0 <= c < columns.len(),
    ensures
        0 <= i < day.hours@.len() && set.clock.spec_hour(day.hours@[i].time as int) == columns[c]
            && set.clock.local_day(day.hours@[i].time as int) == day.date.day_number && (forall|
            j: int,
        |
            0 <= j < i ==> set.clock.spec_hour((#[trigger] day.hours@[j]).time as int) != columns[c]
                || set.clock.local_day(day.hours@[j].time as int) != day.date.day_number)
            ==> row_cells(day, columns, Shown::Mean, set)[c] == (if day.hours@[i].mean < 45 {
            "░░"@
        } else if day.hours@[i].mean < 65 {
            "▒▒"@
        } else if day.hours@[i].mean < 85 {
            "▓▓"@
        } else {
            "██"@
        }),
        (forall|j: int|
            0 <= j < day.hours@.len() ==> set.clock.spec_hour(
                (#[trigger] day.hours@[j]).time as int,
            ) != columns[c] || set.clock.local_day(day.hours@[j].time as int)
                != day.date.day_number) ==> row_cells(day, columns, Shown::Mean, set)[c] == "··"@,
{
    let date = day.date.day_number as int;
    if 0 <= i < day.hours@.len() && set.clock.spec_hour(day.hours@[i].time as int) == columns[c]
        && set.clock.local_day(day.hours@[i].time as int) == date && (forall|j: int|
        0 <= j < i ==> set.clock.spec_hour((#[trigger] day.hours@[j]).time as int) != columns[c]
            || set.clock.local_day(day.hours@[j].time as int) != date) {
        lemma_found(day.hours@, set, date, columns[c] as int, i);
    }
    if forall|j: int|
        0 <= j < day.hours@.len() ==> set.clock.spec_hour((#[trigger] day.hours@[j]).time as int)
            != columns[c] || set.clock.local_day(day.hours@[j].time as int) != date {
        crate::output::laws::every_scored_hour_has_a_cell(
            day.hours@,
            set.clock,
            date,
            columns[c] as int,
        );
    }
}

proof fn lemma_found(
    hours: Seq<crate::aggregate::HourScore>,
    set: Setting,
    date: int,
    column: int,
    i: int,
)
    requires
        0 <= i < hours.len(),
        set.clock.spec_hour(hours[i].time as int) == column,
        set.clock.local_day(hours[i].time as int) == date,
        forall|j: int|
            0 <= j < i ==> set.clock.spec_hour((#[trigger] hours[j]).time as int) != column
                || set.clock.local_day(hours[j].time as int) != date,
    ensures
        hour_at(hours, set.clock, date, column) == Some(hours[i]),
    decreases i,
{
    if i > 0 {
        let rest = hours.drop_first();
        assert(set.clock.spec_hour(hours[0].time as int) != column || set.clock.local_day(
            hours[0].time as int,
        ) != date);
        assert forall|j: int| 0 <= j < i - 1 implies set.clock.spec_hour(
            (#[trigger] rest[j]).time as int,
        ) != column || set.clock.local_day(rest[j].time as int) != date by {
            assert(rest[j] == hours[j + 1]);
        }
        lemma_found(rest, set, date, column, i - 1);
    }
}

// ---- A day in detail ----

/// A row of the tree below a day: the name of an axis, a bar and its value.
pub open spec fn tree_row(name: Seq<char>, value: int) -> Seq<char> {
    padded(name, 9) + " "@ + bar_text(value, false) + "  "@ + padded(decimal(value as nat), 3)
}

proof fn lemma_tree_row(day: DayAggregate, axis: Axis, dim: bool, is_last: bool, set: Setting)
    requires
        !set.color,
    ensures
        shows(
            day_axis_row(day, axis, dim, is_last, set),
            tree_row(short_axis_text(axis, set.lang), shown_on_axis(day, axis)),
        ),
{
    let row = tree_row(short_axis_text(axis, set.lang), shown_on_axis(day, axis));
    let before = crate::output::days::BREAKDOWN_INDENT@ + crate::output::days::branch_text(is_last)
        + " "@;
    lemma_between(before, row, ""@ + "\n"@);
    assert(day_axis_row(day, axis, dim, is_last, set) =~= before + row + (""@ + "\n"@));
}

proof fn lemma_day_mean_is(day: DayAggregate, axis: Axis, scores: Seq<u8>, value: int)
    requires
        day.points@.len() > 0,
        axis_scores(day_breakdowns(day.points@), axis) == scores,
        is_mean_of(value, scores),
    ensures
        day_axis_mean(day, axis) == value,
{
    the_mean_drops_fractions_of_the_sum(scores);
    lemma_one_mean(day_axis_mean(day, axis), value, added_up(scores), scores.len() as int);
}

/// Below today, and with `verbose` below every day, the report shows the mean of
/// all points for temperature, wind and ground, and for precipitation that of
/// amount and probability together, 25 to 10.
pub proof fn a_day_in_detail_shows_every_axis(
    label: Seq<char>,
    radius: Seq<char>,
    forecast: MultiDayForecast,
    verbose: bool,
    flags: ChipFlags,
    set: Setting,
    k: int,
    temperature: int,
    wind: int,
    amount: int,
    probability: int,
    rain: int,
    ground: int,
)
    requires
        !set.color,
        0 <= k < forecast.days@.len(),
        verbose || forecast.days@[k].date == set.spec_today(),
        forecast.days@[k].points@.len() > 0,
        ({
            let points = forecast.days@[k].points@;
            let n = points.len();
            &&& is_mean_of(
                temperature,
                Seq::new(n, |i: int| points[i].day_score.score.breakdown.temperature),
            )
            &&& is_mean_of(wind, Seq::new(n, |i: int| points[i].day_score.score.breakdown.wind))
            &&& is_mean_of(
                amount,
                Seq::new(n, |i: int| points[i].day_score.score.breakdown.precipitation),
            )
            &&& is_mean_of(
                probability,
                Seq::new(n, |i: int| points[i].day_score.score.breakdown.precip_probability),
            )
            &&& is_mean_of(ground, Seq::new(n, |i: int| points[i].day_score.score.breakdown.ground))
        }),
        35 * rain <= 25 * amount + 10 * probability < 35 * rain + 35,
    ensures
        ({
            let text = multi_day_text(label, radius, forecast, verbose, flags, set);
            &&& shows(text, tree_row("Temp"@, temperature))
            &&& shows(text, tree_row("Vind"@, wind))
            &&& shows(
                text,
                tree_row(
                    match set.lang {
                        Language::Norwegian => "Nedbør"@,
                        Language::Swedish => "Nederbörd"@,
                    },
                    rain,
                ),
            )
            &&& shows(
                text,
                tree_row(
                    match set.lang {
                        Language::Norwegian => "Bakke"@,
                        Language::Swedish => "Mark"@,
                    },
                    ground,
                ),
            )
        }),
{
    let day = forecast.days@[k];
    let points = day.points@;
    let n = points.len();
    let each = day_breakdowns(points);
    assert(axis_scores(each, Axis::Temperature) =~= Seq::new(
        n,
        |i: int| points[i].day_score.score.breakdown.temperature,
    ));
    assert(axis_scores(each, Axis::Wind) =~= Seq::new(
        n,
        |i: int| points[i].day_score.score.breakdown.wind,
    ));
    assert(axis_scores(each, Axis::Precipitation) =~= Seq::new(
        n,
        |i: int| points[i].day_score.score.breakdown.precipitation,
    ));
    assert(axis_scores(each, Axis::PrecipProbability) =~= Seq::new(
        n,
        |i: int| points[i].day_score.score.breakdown.precip_probability,
    ));
    assert(axis_scores(each, Axis::Ground) =~= Seq::new(
        n,
        |i: int| points[i].day_score.score.breakdown.ground,
    ));
    lemma_day_mean_is(day, Axis::Temperature, axis_scores(each, Axis::Temperature), temperature);
    lemma_day_mean_is(day, Axis::Wind, axis_scores(each, Axis::Wind), wind);
    lemma_day_mean_is(day, Axis::Precipitation, axis_scores(each, Axis::Precipitation), amount);
    lemma_day_mean_is(
        day,
        Axis::PrecipProbability,
        axis_scores(each, Axis::PrecipProbability),
        probability,
    );
    lemma_day_mean_is(day, Axis::Ground, axis_scores(each, Axis::Ground), ground);
    assert(combined(amount, probability) == rain);
    lemma_detail(label, radius, forecast, verbose, flags, set, k, Axis::Temperature);
    lemma_detail(label, radius, forecast, verbose, flags, set, k, Axis::Wind);
    lemma_detail(label, radius, forecast, verbose, flags, set, k, Axis::Precipitation);
    lemma_detail(label, radius, forecast, verbose, flags, set, k, Axis::Ground);
}

proof fn lemma_detail(
    label: Seq<char>,
    radius: Seq<char>,
    forecast: MultiDayForecast,
    verbose: bool,
    flags: ChipFlags,
    set: Setting,
    k: int,
    axis: Axis,
)
    requires
        !set.color,
        0 <= k < forecast.days@.len(),
        verbose || forecast.days@[k].date == set.spec_today(),
        axis != Axis::PrecipProbability,
    ensures
        shows(
            multi_day_text(label, radius, forecast, verbose, flags, set),
            tree_row(
                short_axis_text(axis, set.lang),
                shown_on_axis(forecast.days@[k], axis),
            ),
        ),
{
    broadcast use lemma_either;

    let day = forecast.days@[k];
    let part = tree_row(short_axis_text(axis, set.lang), shown_on_axis(day, axis));
    let center = day.points@[crate::aggregate::day_center(day.points@)].day_score;
    let listed = verbose && center.score.penalties@.len() > 0;
    let tall = flags.window_stats && !center.score.stats.has_no_figures();
    let dim = day.confidence == Confidence::Lav;
    lemma_tree_row(day, axis, dim, false, set);
    lemma_tree_row(day, axis, dim, true, set);
    assert(shows(day_breakdown_text(day, dim, listed || tall, set), part));
    assert(shows(day_row_text(day, verbose, flags, set), part));
    lemma_report(label, radius, forecast, verbose, flags, set, k, part);
}

} // verus!
