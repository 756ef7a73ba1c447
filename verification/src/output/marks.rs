//! How often a report draws a branch or a star, and when it tells a window.
use vstd::prelude::*;

use crate::aggregate::{
    day_center, Axis, DayAggregate, DayOptimum, HourlyDayAggregate, HourlyForecast,
    MultiDayForecast,
};
use crate::daily::Confidence;
use crate::output::bars::display_width;
use crate::output::days::{
    any_low_confidence, beats, best_day_at, best_window_text, branch_text, callout_block,
    callout_words, day_means, day_row_text, day_rows_text, is_best_day, multi_day_text,
    told_window,
};
use crate::output::hours::{
    hourly_axis_row, hourly_breakdown_text, hourly_day_text, hourly_details, hourly_rows_text,
    hourly_text, Shown,
};
use crate::output::labels::{day_text, short_axis_text, window_stats_label};
use crate::output::laws::lemma_some_best_day;
use crate::output::plain::{
    alert_lacks, day_lacks, history_lacks, hourly_day_lacks, is_branch, lacks, lemma_banner,
    lemma_callout_words, lemma_cells, lemma_chip_labels, lemma_concat, lemma_day,
    lemma_day_breakdown, lemma_day_line, lemma_day_tall, lemma_days_title, lemma_decimal,
    lemma_empty, lemma_filled_up, lemma_footer, lemma_header_row, lemma_highlight_rows, lemma_hm,
    lemma_hourly_footer, lemma_label, lemma_padded, lemma_penalty_rows, lemma_repeated, lemma_rule,
    lemma_short_axis, lemma_tall, lemma_trailers, lemma_tree, lemma_week_trend, stats_lack, CORNER,
    FORK, STAR,
};
use crate::output::{ChipFlags, Setting};

verus! {

/// How often the mark stands in the text.
pub open spec fn occurrences(mark: char, text: Seq<char>) -> nat {
    text.to_multiset().count(mark)
}

broadcast proof fn lemma_sum(mark: char, a: Seq<char>, b: Seq<char>)
    ensures
        #[trigger] occurrences(mark, a + b) == occurrences(mark, a) + occurrences(mark, b),
{
    vstd::seq_lib::lemma_multiset_commutative(a, b);
}

broadcast proof fn lemma_none(mark: char, text: Seq<char>)
    requires
        lacks(mark, text),
    ensures
        #[trigger] occurrences(mark, text) == 0,
{
    broadcast use vstd::seq_lib::group_to_multiset_ensures;

    if text.contains(mark) {
        let i = choose|i: int| 0 <= i < text.len() && text[i] == mark;
        assert(text[i] != mark);
    }
}

/// A text that starts with `first` and goes on without the mark.
proof fn lemma_first(mark: char, text: Seq<char>, first: char)
    requires
        text.len() > 0,
        text[0] == first,
        lacks(mark, text.skip(1)),
    ensures
        occurrences(mark, text) == if first == mark {
            1nat
        } else {
            0
        },
{
    broadcast use vstd::seq_lib::group_to_multiset_ensures;

    let start = Seq::<char>::empty().push(first);
    assert(start + text.skip(1) =~= text);
    lemma_sum(mark, start, text.skip(1));
    lemma_none(mark, text.skip(1));
    lemma_none(mark, Seq::<char>::empty());
}

// ---- Trees ----

proof fn lemma_branch(mark: char, is_last: bool)
    requires
        is_branch(mark),
    ensures
        occurrences(mark, branch_text(is_last)) == if (mark == CORNER) == is_last {
            1nat
        } else {
            0
        },
{
    reveal_strlit("└─");
    reveal_strlit("├─");
    lemma_first(mark, "└─"@, CORNER);
    lemma_first(mark, "├─"@, FORK);
}

proof fn lemma_axis_branch(
    mark: char,
    day: HourlyDayAggregate,
    columns: Seq<u8>,
    axis: Axis,
    is_last: bool,
    set: Setting,
)
    requires
        is_branch(mark),
        !set.color,
    ensures
        occurrences(mark, hourly_axis_row(day, columns, axis, is_last, set)) == if (mark == CORNER)
            == is_last {
            1nat
        } else {
            0
        },
{
    broadcast use {lemma_sum, lemma_none};

    lemma_tree(mark);
    lemma_branch(mark, is_last);
    lemma_short_axis(mark, axis, set.lang);
    lemma_padded(mark, short_axis_text(axis, set.lang), 9);
    lemma_cells(mark, day, columns, Shown::On(axis), set);
}

/// The figures of the day are shown below its axes.
pub open spec fn shows_figures(day: HourlyDayAggregate, flags: ChipFlags) -> bool {
    flags.window_stats && day.stats is Some
}

/// How often a verbose day draws the mark: one corner, and a fork for every row
/// before it.
pub open spec fn branches_of(mark: char, day: HourlyDayAggregate, flags: ChipFlags) -> nat {
    if mark == CORNER {
        1
    } else if shows_figures(day, flags) {
        4
    } else {
        3
    }
}

proof fn lemma_breakdown_branches(
    mark: char,
    day: HourlyDayAggregate,
    columns: Seq<u8>,
    continues: bool,
    set: Setting,
)
    requires
        is_branch(mark),
        !set.color,
    ensures
        occurrences(mark, hourly_breakdown_text(day, columns, continues, set)) == if mark == FORK {
            if continues {
                4nat
            } else {
                3
            }
        } else if continues {
            0
        } else {
            1
        },
{
    broadcast use lemma_sum;

    lemma_axis_branch(mark, day, columns, Axis::Temperature, false, set);
    lemma_axis_branch(mark, day, columns, Axis::Wind, false, set);
    lemma_axis_branch(mark, day, columns, Axis::Precipitation, false, set);
    lemma_axis_branch(mark, day, columns, Axis::Ground, !continues, set);
}

proof fn lemma_details_branches(
    mark: char,
    day: HourlyDayAggregate,
    columns: Seq<u8>,
    flags: ChipFlags,
    set: Setting,
)
    requires
        is_branch(mark),
        !set.color,
        hourly_day_lacks(mark, day),
    ensures
        occurrences(mark, hourly_details(day, columns, flags, set)) == branches_of(
            mark,
            day,
            flags,
        ),
{
    broadcast use {lemma_sum, lemma_none};

    lemma_breakdown_branches(mark, day, columns, true, set);
    lemma_breakdown_branches(mark, day, columns, false, set);
    if let Some(f) = day.stats {
        lemma_tree(mark);
        reveal_strlit("└─");
        lemma_first(mark, "└─"@, CORNER);
        lemma_chip_labels(mark, set.lang);
        lemma_padded(mark, window_stats_label(set.lang), 9);
        lemma_tall(mark, f, set.lang);
    }
}

proof fn lemma_day_branches(
    mark: char,
    day: HourlyDayAggregate,
    columns: Seq<u8>,
    verbose: bool,
    flags: ChipFlags,
    set: Setting,
)
    requires
        is_branch(mark),
        !set.color,
        hourly_day_lacks(mark, day),
    ensures
        occurrences(mark, hourly_day_text(day, columns, verbose, flags, set)) == if verbose {
            branches_of(mark, day, flags)
        } else {
            0
        },
{
    broadcast use {lemma_sum, lemma_none};

    let label = day_text(day.date, set.spec_today(), set.lang);
    lemma_tree(mark);
    lemma_empty(mark);
    lemma_day(mark, day.date, set.spec_today(), set.lang);
    lemma_filled_up(mark, label, display_width(label), 11);
    lemma_cells(mark, day, columns, Shown::Mean, set);
    lemma_details_branches(mark, day, columns, flags, set);
}

/// How many of the days show their figures.
pub open spec fn days_with_figures(days: Seq<HourlyDayAggregate>, flags: ChipFlags) -> nat
    decreases days.len(),
{
    if days.len() == 0 {
        0
    } else {
        days_with_figures(days.drop_last(), flags) + if shows_figures(days.last(), flags) {
            1nat
        } else {
            0
        }
    }
}

proof fn lemma_rows_branches(
    mark: char,
    days: Seq<HourlyDayAggregate>,
    columns: Seq<u8>,
    verbose: bool,
    flags: ChipFlags,
    set: Setting,
)
    requires
        is_branch(mark),
        !set.color,
        forall|i: int| 0 <= i < days.len() ==> hourly_day_lacks(mark, #[trigger] days[i]),
    ensures
        occurrences(mark, hourly_rows_text(days, columns, verbose, flags, set)) == if !verbose {
            0
        } else if mark == CORNER {
            days.len()
        } else {
            3 * days.len() + days_with_figures(days, flags)
        },
    decreases days.len(),
{
    broadcast use {lemma_sum, lemma_none};

    lemma_empty(mark);
    if days.len() > 0 {
        let shorter = days.drop_last();
        assert forall|i: int| 0 <= i < shorter.len() implies hourly_day_lacks(
            mark,
            #[trigger] shorter[i],
        ) by {
            assert(shorter[i] == days[i]);
        }
        lemma_rows_branches(mark, shorter, columns, verbose, flags, set);
        assert(hourly_day_lacks(mark, days[days.len() - 1]));
        lemma_day_branches(mark, days.last(), columns, verbose, flags, set);
    }
}

/// No text handed in for the grid holds the mark.
pub open spec fn grid_texts_lack(
    mark: char,
    label: Seq<char>,
    radius: Seq<char>,
    forecast: HourlyForecast,
) -> bool {
    &&& lacks(mark, label)
    &&& lacks(mark, radius)
    &&& history_lacks(mark, forecast.rain_history)
    &&& alert_lacks(mark, forecast.nowcast_alert)
    &&& forall|i: int|
        0 <= i < forecast.days@.len() ==> hourly_day_lacks(mark, #[trigger] forecast.days@[i])
}

proof fn lemma_report_branches(
    mark: char,
    label: Seq<char>,
    radius: Seq<char>,
    forecast: HourlyForecast,
    verbose: bool,
    flags: ChipFlags,
    set: Setting,
)
    requires
        is_branch(mark),
        !set.color,
        forecast.header_hours@.len() > 0,
        grid_texts_lack(mark, label, radius, forecast),
    ensures
        occurrences(mark, hourly_text(label, radius, forecast, verbose, flags, set))
            == if !verbose {
            0
        } else if mark == CORNER {
            forecast.days@.len()
        } else {
            3 * forecast.days@.len() + days_with_figures(forecast.days@, flags)
        },
{
    broadcast use {lemma_sum, lemma_none};

    lemma_rule(mark);
    lemma_tree(mark);
    lemma_days_title(mark, label, radius, forecast.days@.len(), set.lang);
    lemma_banner(mark, forecast.nowcast_alert, set);
    lemma_header_row(mark, forecast.header_hours@);
    lemma_rows_branches(
        mark,
        forecast.days@,
        forecast.header_hours@,
        verbose,
        flags,
        set,
    );
    lemma_hourly_footer(mark, forecast, flags, set);
    reveal_strlit("Ingen timer i konfigurert dag-vindu.");
    reveal_strlit("Inga timmar i konfigurerat dag-fönster.");
    assert(lacks(mark, "Ingen timer i konfigurert dag-vindu."@));
    assert(lacks(mark, "Inga timmar i konfigurerat dag-fönster."@));
}

/// In a verbose grid the tree of every day is closed exactly once, behind three
/// rows that go on, or four where the day shows its figures; without `verbose`
/// there is no tree.
pub proof fn every_tree_of_the_grid_is_closed_once(
    label: Seq<char>,
    radius: Seq<char>,
    forecast: HourlyForecast,
    verbose: bool,
    flags: ChipFlags,
    set: Setting,
)
    requires
        !set.color,
        forecast.header_hours@.len() > 0,
        grid_texts_lack(CORNER, label, radius, forecast),
        grid_texts_lack(FORK, label, radius, forecast),
    ensures
        occurrences(CORNER, hourly_text(label, radius, forecast, verbose, flags, set))
            == if verbose {
            forecast.days@.len()
        } else {
            0
        },
        occurrences(FORK, hourly_text(label, radius, forecast, verbose, flags, set)) == if verbose {
            3 * forecast.days@.len() + days_with_figures(forecast.days@, flags)
        } else {
            0
        },
{
    lemma_report_branches(CORNER, label, radius, forecast, verbose, flags, set);
    lemma_report_branches(FORK, label, radius, forecast, verbose, flags, set);
}

// ---- Stars ----

proof fn lemma_window_star(optimum: Option<DayOptimum>, set: Setting)
    requires
        !set.color,
        optimum matches Some(ow) ==> stats_lack(STAR, ow.stats),
    ensures
        occurrences(STAR, best_window_text(optimum, set)) == if optimum is Some {
            1nat
        } else {
            0
        },
{
    broadcast use {lemma_sum, lemma_none};

    lemma_tree(STAR);
    lemma_empty(STAR);
    reveal_strlit("★ Beste vindu: ");
    reveal_strlit("★ Beste luke: ");
    reveal_strlit("★ Bästa fönster: ");
    reveal_strlit("★ Bästa lucka: ");
    reveal_strlit("–");
    reveal_strlit(" → ");
    reveal_strlit(" (");
    reveal_strlit(")");
    lemma_first(STAR, "★ Beste vindu: "@, STAR);
    lemma_first(STAR, "★ Beste luke: "@, STAR);
    lemma_first(STAR, "★ Bästa fönster: "@, STAR);
    lemma_first(STAR, "★ Bästa lucka: "@, STAR);
    assert(lacks(STAR, "–"@));
    assert(lacks(STAR, " → "@));
    assert(lacks(STAR, " ("@));
    assert(lacks(STAR, ")"@));
    if let Some(ow) = optimum {
        lemma_trailers(STAR, ow, set);
        lemma_hm(STAR, set.clock, ow.window.start as int);
        lemma_hm(STAR, set.clock, ow.window.end as int);
        lemma_decimal(STAR, ow.total as nat);
        lemma_label(STAR, ow.total as int, set.lang);
    }
}

proof fn lemma_callout_star(days: Seq<DayAggregate>, set: Setting)
    requires
        !set.color,
    ensures
        occurrences(STAR, callout_block(days, set)) == if days.len() == 0 {
            0nat
        } else {
            1
        },
{
    broadcast use {lemma_concat, lemma_sum, lemma_none};

    let best = days[best_day_at(days)];
    let words = callout_words(best, set);
    lemma_empty(STAR);
    lemma_rule(STAR);
    lemma_callout_words(STAR, best, set);
    reveal_strlit("─");
    reveal_strlit("╭");
    reveal_strlit("╮");
    reveal_strlit("╰");
    reveal_strlit("╯");
    reveal_strlit("\n│  ");
    reveal_strlit("★");
    reveal_strlit("│\n");
    assert(lacks(STAR, "─"@));
    assert(lacks(STAR, "╭"@));
    assert(lacks(STAR, "╮"@));
    assert(lacks(STAR, "╰"@));
    assert(lacks(STAR, "╯"@));
    assert(lacks(STAR, "\n│  "@));
    assert(lacks(STAR, "│\n"@));
    lemma_first(STAR, "★"@, STAR);
    lemma_repeated(STAR, "─"@, display_width("  ★"@ + words));
}

proof fn lemma_row_star(day: DayAggregate, verbose: bool, flags: ChipFlags, set: Setting)
    requires
        !set.color,
        day_lacks(STAR, day),
    ensures
        occurrences(STAR, day_row_text(day, verbose, flags, set)) == if told_window(
            day.optimal_window,
            verbose,
            flags,
        ) is Some {
            1nat
        } else {
            0
        },
{
    broadcast use {lemma_concat, lemma_sum, lemma_none};

    let center = day.points@[day_center(day.points@)].day_score;
    let penalties = center.score.penalties@;
    let highlights = center.score.highlights@;
    let total = (penalties.len() + highlights.len()) as int;
    let open = day.date == set.spec_today() || verbose;
    let tall = flags.window_stats && open && !center.score.stats.has_no_figures();
    let listed = verbose && penalties.len() > 0;
    lemma_empty(STAR);
    lemma_day_line(STAR, day, center.weather_icon@, set);
    lemma_day_breakdown(STAR, day, day.confidence == Confidence::Lav, listed || tall, set);
    lemma_day_tall(STAR, center.score.stats, !listed, set);
    lemma_window_star(told_window(day.optimal_window, verbose, flags), set);
    lemma_penalty_rows(STAR, penalties, total, set);
    lemma_highlight_rows(STAR, highlights, penalties.len() as int, total);
}

/// How many of the days tell their best sub-window.
pub open spec fn told_windows(days: Seq<DayAggregate>, verbose: bool, flags: ChipFlags) -> nat
    decreases days.len(),
{
    if days.len() == 0 {
        0
    } else {
        told_windows(days.drop_last(), verbose, flags) + if told_window(
            days.last().optimal_window,
            verbose,
            flags,
        ) is Some {
            1nat
        } else {
            0
        }
    }
}

proof fn lemma_rows_stars(days: Seq<DayAggregate>, verbose: bool, flags: ChipFlags, set: Setting)
    requires
        !set.color,
        forall|i: int| 0 <= i < days.len() ==> day_lacks(STAR, #[trigger] days[i]),
    ensures
        occurrences(STAR, day_rows_text(days, verbose, flags, set)) == told_windows(
            days,
            verbose,
            flags,
        ),
    decreases days.len(),
{
    broadcast use {lemma_sum, lemma_none};

    lemma_empty(STAR);
    if days.len() > 0 {
        let shorter = days.drop_last();
        assert forall|i: int| 0 <= i < shorter.len() implies day_lacks(
            STAR,
            #[trigger] shorter[i],
        ) by {
            assert(shorter[i] == days[i]);
        }
        lemma_rows_stars(shorter, verbose, flags, set);
        assert(day_lacks(STAR, days[days.len() - 1]));
        lemma_row_star(days.last(), verbose, flags, set);
    }
}

/// A report on several days has one star for its best day, and one more for
/// every day whose best sub-window is told.
pub proof fn stars_stand_for_the_best_day_and_told_windows(
    label: Seq<char>,
    radius: Seq<char>,
    forecast: MultiDayForecast,
    verbose: bool,
    flags: ChipFlags,
    set: Setting,
)
    requires
        !set.color,
        lacks(STAR, label),
        lacks(STAR, radius),
        history_lacks(STAR, forecast.rain_history),
        alert_lacks(STAR, forecast.nowcast_alert),
        forall|i: int|
            0 <= i < forecast.days@.len() ==> day_lacks(STAR, #[trigger] forecast.days@[i]),
    ensures
        occurrences(STAR, multi_day_text(label, radius, forecast, verbose, flags, set)) == (
        if forecast.days@.len() == 0 {
            0nat
        } else {
            1
        }) + told_windows(forecast.days@, verbose, flags),
{
    broadcast use {lemma_sum, lemma_none};

    let days = forecast.days@;
    lemma_rule(STAR);
    lemma_days_title(STAR, label, radius, days.len(), set.lang);
    lemma_banner(STAR, forecast.nowcast_alert, set);
    lemma_callout_star(days, set);
    lemma_week_trend(STAR, days, set);
    lemma_rows_stars(days, verbose, flags, set);
    lemma_footer(STAR, forecast, flags, set);
}

// ---- Openings ----

/// `b` is `a` without its best sub-window, where that is an opening.
pub open spec fn opening_left_out(a: DayAggregate, b: DayAggregate) -> bool {
    b == DayAggregate {
        optimal_window: match a.optimal_window {
            Some(ow) => if ow.improvement > 0 {
                None
            } else {
                Some(ow)
            },
            None => None,
        },
        ..a
    }
}

proof fn lemma_same_best_day(a: Seq<DayAggregate>, b: Seq<DayAggregate>)
    requires
        a.len() == b.len() > 0,
        forall|i: int| 0 <= i < a.len() ==> opening_left_out(#[trigger] a[i], b[i]),
    ensures
        0 <= best_day_at(a) < a.len(),
        best_day_at(a) == best_day_at(b),
{
    lemma_some_best_day(a, a.len() as int);
    lemma_some_best_day(b, b.len() as int);
    assert(a.take(a.len() as int) =~= a && b.take(b.len() as int) =~= b);
    let k = best_day_at(a);
    let l = best_day_at(b);
    assert(is_best_day(a, k));
    assert(is_best_day(b, l));
    assert(opening_left_out(a[k], b[k]) && opening_left_out(a[l], b[l]));
    if k < l {
        assert(beats(a[k], a[l]));
        assert(!beats(b[k], b[l]));
    } else if l < k {
        assert(beats(b[l], b[k]));
        assert(!beats(a[l], a[k]));
    }
}

proof fn lemma_same_rows(
    a: Seq<DayAggregate>,
    b: Seq<DayAggregate>,
    flags: ChipFlags,
    set: Setting,
)
    requires
        !flags.best_window,
        a.len() == b.len(),
        forall|i: int| 0 <= i < a.len() ==> opening_left_out(#[trigger] a[i], b[i]),
    ensures
        day_rows_text(a, false, flags, set) == day_rows_text(b, false, flags, set),
    decreases a.len(),
{
    if a.len() > 0 {
        assert forall|i: int| 0 <= i < a.drop_last().len() implies opening_left_out(
            #[trigger] a.drop_last()[i],
            b.drop_last()[i],
        ) by {
            assert(opening_left_out(a[i], b[i]));
        }
        lemma_same_rows(a.drop_last(), b.drop_last(), flags, set);
        assert(opening_left_out(a[a.len() - 1], b[a.len() - 1]));
    }
}

/// Without `verbose`, and where best windows were not asked for, the report says
/// nothing of any opening: it is the same as if none had been found.
pub proof fn openings_are_told_only_when_asked_for(
    label: Seq<char>,
    radius: Seq<char>,
    forecast: MultiDayForecast,
    without: MultiDayForecast,
    flags: ChipFlags,
    set: Setting,
)
    requires
        !flags.best_window,
        without.days@.len() == forecast.days@.len(),
        forall|i: int|
            0 <= i < forecast.days@.len() ==> opening_left_out(
                #[trigger] forecast.days@[i],
                without.days@[i],
            ),
        without.rain_history == forecast.rain_history,
        without.nowcast_alert == forecast.nowcast_alert,
    ensures
        multi_day_text(label, radius, forecast, false, flags, set) == multi_day_text(
            label,
            radius,
            without,
            false,
            flags,
            set,
        ),
{
    let a = forecast.days@;
    let b = without.days@;
    lemma_same_rows(a, b, flags, set);
    assert(day_means(a) =~= day_means(b)) by {
        assert forall|i: int| 0 <= i < a.len() implies a[i].mean == b[i].mean by {
            assert(opening_left_out(a[i], b[i]));
        }
    }
    if a.len() > 0 {
        lemma_same_best_day(a, b);
        let k = best_day_at(a);
        assert(opening_left_out(a[k], b[k]));
        assert(opening_left_out(a[0], b[0]));
    }
    assert(any_low_confidence(a) == any_low_confidence(b)) by {
        assert forall|i: int| 0 <= i < a.len() implies a[i].confidence == b[i].confidence by {
            assert(opening_left_out(a[i], b[i]));
        }
        if any_low_confidence(a) {
            let i = choose|i: int| 0 <= i < a.len() && a[i].confidence == Confidence::Lav;
            assert(b[i].confidence == Confidence::Lav);
        }
        if any_low_confidence(b) {
            let i = choose|i: int| 0 <= i < b.len() && b[i].confidence == Confidence::Lav;
            assert(a[i].confidence == Confidence::Lav);
        }
    }
}

} // verus!
