//! The report hour by hour.
use vstd::prelude::*;
use vstd::string::StringExecFns;

use crate::aggregate::{Axis, HourScore, HourlyDayAggregate, HourlyForecast};
use crate::daily::Confidence;
use crate::lang::Language;
use crate::output::bars::{
    block_text, display_width, filled_up, hourly_block_glyph, hourly_bucket_legend,
    hourly_legend_text, pad_right,
};
use crate::output::chips::{
    banner_text, dated_history, format_tall_line, nowcast_banner, tall_text, timed_alert,
};
use crate::output::days::{branch, branch_text, days_title, title_of_days};
use crate::output::labels::{
    axis_label_short, combined, combined_precip, day_label, day_text, rain_history_chip_label,
    rain_history_label, short_axis_text, window_stats_chip_label, window_stats_label,
};
use crate::output::window::{chip_line, rain_if_wanted, wanted_rain, write_chip};
use crate::output::{ChipFlags, Setting};
use crate::score::WindowFigures;
use crate::text::{
    decimal, decimal_text, join, joined, padded, push_padded, push_right_aligned, push_spaces,
    right_aligned, spaces, texts,
};
use crate::theme::{
    dimmed, in_score_color, paint_accent, paint_dim, paint_fg, paint_score_str, painted, FG, PURPLE,
};
use crate::time::{is_instant, LocalClock};

verus! {

/// Indent before the tree on hourly breakdown rows.
pub const HOURLY_BREAKDOWN_INDENT: &'static str = "  ";

// ---- Cells ----

/// Every hour is an instant.
pub open spec fn timed_scores(hours: Seq<HourScore>) -> bool {
    forall|i: int| 0 <= i < hours.len() ==> is_instant((#[trigger] hours[i]).time as int)
}

/// The hour stands in the column of that local hour on that local day.
pub open spec fn stands_at(h: HourScore, clock: LocalClock, day: int, column: int) -> bool {
    clock.spec_hour(h.time as int) == column && clock.local_day(h.time as int) == day
}

/// The first scored hour of the column.
pub open spec fn hour_at(
    hours: Seq<HourScore>,
    clock: LocalClock,
    day: int,
    column: int,
) -> Option<HourScore>
    decreases hours.len(),
{
    if hours.len() == 0 {
        None
    } else if stands_at(hours[0], clock, day, column) {
        Some(hours[0])
    } else {
        hour_at(hours.drop_first(), clock, day, column)
    }
}

fn find_hour(day: &HourlyDayAggregate, clock: &LocalClock, column: u8) -> (hour: Option<HourScore>)
    requires
        clock.valid(),
        timed_scores(day.hours@),
    ensures
        hour == hour_at(day.hours@, *clock, day.date.day_number as int, column as int),
{
    let mut i: usize = 0;
    let ghost number = day.date.day_number as int;
    proof {
        assert(day.hours@.skip(0) =~= day.hours@);
    }
    while i < day.hours.len()
        invariant
            i <= day.hours.len(),
            clock.valid(),
            timed_scores(day.hours@),
            number == day.date.day_number,
            hour_at(day.hours@, *clock, number, column as int) == hour_at(
                day.hours@.skip(i as int),
                *clock,
                number,
                column as int,
            ),
        decreases day.hours.len() - i,
    {
        let h = day.hours[i];
        proof {
            assert(day.hours@.skip(i as int)[0] == h);
            assert(day.hours@.skip(i as int).drop_first() =~= day.hours@.skip(i + 1));
            assert(is_instant(day.hours@[i as int].time as int));
        }
        if clock.hour_of(h.time) == column && clock.date_of(h.time).day_number
            == day.date.day_number {
            return Some(h);
        }
        i = i + 1;
    }
    None
}

/// What a row of the grid shows.
#[derive(Debug, Clone, Copy, PartialEq, Eq, Structural)]
pub enum Shown {
    Mean,
    On(Axis),
}

/// The score that a row shows of an hour; precipitation counts amount and
/// probability.
pub open spec fn shown_score(h: HourScore, what: Shown) -> int {
    match what {
        Shown::Mean => h.mean as int,
        Shown::On(Axis::Precipitation) => combined(
            h.breakdown.precipitation as int,
            h.breakdown.precip_probability as int,
        ),
        Shown::On(axis) => axis.spec_of(h.breakdown) as int,
    }
}

fn score_shown(h: &HourScore, what: Shown, lang: Language) -> (score: u8)
    ensures
        score == shown_score(*h, what),
{
    match what {
        Shown::Mean => h.mean,
        Shown::On(Axis::Precipitation) => combined_precip(
            h.breakdown.precipitation,
            h.breakdown.precip_probability,
            lang,
        ),
        Shown::On(axis) => axis.of(&h.breakdown),
    }
}

/// A cell: the block of the score in its colour, dimmed at low confidence, or a
/// dim placeholder where no hour was scored.
pub open spec fn cell_text(hour: Option<HourScore>, what: Shown, color: bool) -> Seq<char> {
    match hour {
        Some(h) => if h.confidence == Confidence::Lav {
            dimmed(block_text(shown_score(h, what)), color)
        } else {
            in_score_color(block_text(shown_score(h, what)), shown_score(h, what), true, color)
        },
        None => dimmed("··"@, color),
    }
}

/// Render one heatmap cell for a column in a day's row.
pub fn hourly_cell(day: &HourlyDayAggregate, col_hour: u8, what: Shown, set: &Setting) -> (text:
    String)
    requires
        set.valid(),
        timed_scores(day.hours@),
    ensures
        text@ == cell_text(
            hour_at(day.hours@, set.clock, day.date.day_number as int, col_hour as int),
            what,
            set.color,
        ),
{
    match find_hour(day, &set.clock, col_hour) {
        Some(h) => {
            let value: u8 = score_shown(&h, what, set.lang);
            let glyph = hourly_block_glyph(value);
            if matches!(h.confidence, Confidence::Lav) {
                paint_dim(glyph, set.color)
            } else {
                paint_score_str(glyph, value, set.color)
            }
        },
        None => paint_dim("··", set.color),
    }
}

/// The cells of a row, one for each column.
pub open spec fn row_cells(
    day: HourlyDayAggregate,
    columns: Seq<u8>,
    what: Shown,
    set: Setting,
) -> Seq<Seq<char>> {
    columns.map_values(
        |c: u8|
            cell_text(
                hour_at(day.hours@, set.clock, day.date.day_number as int, c as int),
                what,
                set.color,
            ),
    )
}

fn write_cells(day: &HourlyDayAggregate, columns: &Vec<u8>, what: Shown, set: &Setting) -> (text:
    String)
    requires
        set.valid(),
        timed_scores(day.hours@),
    ensures
        text@ == joined(row_cells(*day, columns@, what, *set), " "@),
{
    let mut cells: Vec<String> = Vec::new();
    let mut i: usize = 0;
    while i < columns.len()
        invariant
            i <= columns.len(),
            set.valid(),
            timed_scores(day.hours@),
            texts(cells@) == row_cells(*day, columns@, what, *set).take(i as int),
        decreases columns.len() - i,
    {
        let ghost before = cells@;
        cells.push(hourly_cell(day, columns[i], what, set));
        proof {
            let all = row_cells(*day, columns@, what, *set);
            assert(all.take(i + 1) =~= all.take(i as int).push(all[i as int]));
            assert(texts(cells@) =~= texts(before).push(all[i as int]));
        }
        i = i + 1;
    }
    proof {
        assert(texts(cells@) =~= row_cells(*day, columns@, what, *set));
    }
    join(&cells, " ")
}

// ---- The tree below a day ----

/// One axis of a day, hour by hour.
pub open spec fn hourly_axis_row(
    day: HourlyDayAggregate,
    columns: Seq<u8>,
    axis: Axis,
    is_last: bool,
    set: Setting,
) -> Seq<char> {
    HOURLY_BREAKDOWN_INDENT@ + dimmed(branch_text(is_last), set.color) + " "@ + dimmed(
        padded(short_axis_text(axis, set.lang), 9),
        set.color,
    ) + " "@ + joined(row_cells(day, columns, Shown::On(axis), set), " "@) + "\n"@
}

fn padded_label(label: &str) -> (text: String)
    ensures
        text@ == padded(label@, 9),
{
    let mut text = String::new();
    push_padded(&mut text, label, 9);
    proof {
        assert(text@ =~= padded(label@, 9));
    }
    text
}

fn write_hourly_axis(
    day: &HourlyDayAggregate,
    columns: &Vec<u8>,
    axis: Axis,
    is_last: bool,
    set: &Setting,
) -> (text: String)
    requires
        set.valid(),
        timed_scores(day.hours@),
    ensures
        text@ == hourly_axis_row(*day, columns@, axis, is_last, *set),
{
    let label = padded_label(axis_label_short(axis, set.lang));
    let mut text = HOURLY_BREAKDOWN_INDENT.to_owned();
    text.append(paint_dim(branch(is_last), set.color).as_str());
    text.append(" ");
    text.append(paint_dim(label.as_str(), set.color).as_str());
    text.append(" ");
    text.append(write_cells(day, columns, Shown::On(axis), set).as_str());
    text.append("\n");
    text
}

/// The four axes of a day, hour by hour; the tree stays open where something
/// follows.
pub open spec fn hourly_breakdown_text(
    day: HourlyDayAggregate,
    columns: Seq<u8>,
    continues: bool,
    set: Setting,
) -> Seq<char> {
    hourly_axis_row(day, columns, Axis::Temperature, false, set) + hourly_axis_row(
        day,
        columns,
        Axis::Wind,
        false,
        set,
    ) + hourly_axis_row(day, columns, Axis::Precipitation, false, set) + hourly_axis_row(
        day,
        columns,
        Axis::Ground,
        !continues,
        set,
    )
}

/// Per-axis breakdown rows under a day's main row.
pub fn write_hourly_day_breakdown(
    day: &HourlyDayAggregate,
    header_hours: &Vec<u8>,
    tail_continues: bool,
    set: &Setting,
) -> (text: String)
    requires
        set.valid(),
        timed_scores(day.hours@),
    ensures
        text@ == hourly_breakdown_text(*day, header_hours@, tail_continues, *set),
{
    let mut text = write_hourly_axis(day, header_hours, Axis::Temperature, false, set);
    text.append(write_hourly_axis(day, header_hours, Axis::Wind, false, set).as_str());
    text.append(write_hourly_axis(day, header_hours, Axis::Precipitation, false, set).as_str());
    text.append(write_hourly_axis(day, header_hours, Axis::Ground, !tail_continues, set).as_str());
    text
}

/// The figures of a day, which close its tree.
pub open spec fn hourly_tall_row(f: WindowFigures, set: Setting) -> Seq<char> {
    HOURLY_BREAKDOWN_INDENT@ + dimmed("└─"@, set.color) + " "@ + dimmed(
        padded(window_stats_label(set.lang), 9),
        set.color,
    ) + " "@ + tall_text(f, set.lang, set.color) + "\n"@
}

fn write_hourly_tall(f: &WindowFigures, set: &Setting) -> (text: String)
    ensures
        text@ == hourly_tall_row(*f, *set),
{
    let label = padded_label(window_stats_chip_label(set.lang));
    let mut text = HOURLY_BREAKDOWN_INDENT.to_owned();
    text.append(paint_dim("└─", set.color).as_str());
    text.append(" ");
    text.append(paint_dim(label.as_str(), set.color).as_str());
    text.append(" ");
    text.append(format_tall_line(f, set.lang, set.color).as_str());
    text.append("\n");
    text
}

// ---- One day ----

/// What stands below the row of a day: the axes, and the figures where there
/// are any. The last row closes the tree.
pub open spec fn hourly_details(
    day: HourlyDayAggregate,
    columns: Seq<u8>,
    flags: ChipFlags,
    set: Setting,
) -> Seq<char> {
    match day.stats {
        Some(f) => if flags.window_stats {
            hourly_breakdown_text(day, columns, true, set) + hourly_tall_row(f, set)
        } else {
            hourly_breakdown_text(day, columns, false, set)
        },
        None => hourly_breakdown_text(day, columns, false, set),
    }
}

/// A day of the grid; with `verbose` its axes and figures below.
pub open spec fn hourly_day_text(
    day: HourlyDayAggregate,
    columns: Seq<u8>,
    verbose: bool,
    flags: ChipFlags,
    set: Setting,
) -> Seq<char> {
    let label = day_text(day.date, set.spec_today(), set.lang);
    "  "@ + filled_up(painted(label, FG, None, false, set.color), display_width(label), 11) + "  "@
        + joined(row_cells(day, columns, Shown::Mean, set), " "@) + "\n"@ + (if verbose {
        hourly_details(day, columns, flags, set)
    } else {
        ""@
    })
}

fn write_hourly_details(
    day: &HourlyDayAggregate,
    columns: &Vec<u8>,
    flags: ChipFlags,
    set: &Setting,
) -> (text: String)
    requires
        set.valid(),
        timed_scores(day.hours@),
    ensures
        text@ == hourly_details(*day, columns@, flags, *set),
{
    match &day.stats {
        Some(f) => if flags.window_stats {
            let mut text = write_hourly_day_breakdown(day, columns, true, set);
            text.append(write_hourly_tall(f, set).as_str());
            text
        } else {
            write_hourly_day_breakdown(day, columns, false, set)
        },
        None => write_hourly_day_breakdown(day, columns, false, set),
    }
}

/// One day's row in the hourly grid.
pub fn write_hourly_day_row(
    day: &HourlyDayAggregate,
    header_hours: &Vec<u8>,
    verbose: bool,
    flags: ChipFlags,
    set: &Setting,
) -> (text: String)
    requires
        set.valid(),
        day.date.valid(),
        timed_scores(day.hours@),
    ensures
        text@ == hourly_day_text(*day, header_hours@, verbose, flags, *set),
{
    let label = day_label(day.date, set.today(), set.lang);
    let painted_label = paint_fg(label.as_str(), set.color);
    let mut text = "  ".to_owned();
    text.append(pad_right(painted_label.as_str(), label.as_str(), 11).as_str());
    text.append("  ");
    text.append(write_cells(day, header_hours, Shown::Mean, set).as_str());
    text.append("\n");
    if verbose {
        text.append(write_hourly_details(day, header_hours, flags, set).as_str());
    } else {
        text.append("");
    }
    text
}

/// All days of the grid.
pub open spec fn hourly_rows_text(
    days: Seq<HourlyDayAggregate>,
    columns: Seq<u8>,
    verbose: bool,
    flags: ChipFlags,
    set: Setting,
) -> Seq<char>
    decreases days.len(),
{
    if days.len() == 0 {
        ""@
    } else {
        hourly_rows_text(days.drop_last(), columns, verbose, flags, set) + hourly_day_text(
            days.last(),
            columns,
            verbose,
            flags,
            set,
        )
    }
}

/// A day of the grid can be reported on.
pub open spec fn hourly_reportable(day: HourlyDayAggregate) -> bool {
    day.date.valid() && timed_scores(day.hours@)
}

fn write_hourly_rows(
    days: &Vec<HourlyDayAggregate>,
    columns: &Vec<u8>,
    verbose: bool,
    flags: ChipFlags,
    set: &Setting,
) -> (text: String)
    requires
        set.valid(),
        forall|i: int| 0 <= i < days@.len() ==> hourly_reportable(#[trigger] days@[i]),
    ensures
        text@ == hourly_rows_text(days@, columns@, verbose, flags, *set),
{
    let mut text = "".to_owned();
    let mut i: usize = 0;
    proof {
        assert(days@.take(0) =~= Seq::empty());
    }
    while i < days.len()
        invariant
            i <= days.len(),
            set.valid(),
            forall|k: int| 0 <= k < days@.len() ==> hourly_reportable(#[trigger] days@[k]),
            text@ == hourly_rows_text(days@.take(i as int), columns@, verbose, flags, *set),
        decreases days.len() - i,
    {
        proof {
            assert(hourly_reportable(days@[i as int]));
        }
        text.append(write_hourly_day_row(&days[i], columns, verbose, flags, set).as_str());
        proof {
            assert(days@.take(i + 1).drop_last() =~= days@.take(i as int));
            assert(days@.take(i + 1).last() == days@[i as int]);
        }
        i = i + 1;
    }
    proof {
        assert(days@.take(days.len() as int) =~= days@);
    }
    text
}

// ---- The report ----

/// The hours above the columns.
pub open spec fn header_cells(columns: Seq<u8>) -> Seq<Seq<char>> {
    columns.map_values(|h: u8| right_aligned(decimal(h as nat), 2))
}

/// The row of hours above the grid.
pub open spec fn header_row(columns: Seq<u8>, color: bool) -> Seq<char> {
    "  "@ + dimmed(spaces(11), color) + "  "@ + dimmed(joined(header_cells(columns), " "@), color)
        + "\n"@
}

fn write_header_row(columns: &Vec<u8>, color: bool) -> (text: String)
    ensures
        text@ == header_row(columns@, color),
{
    let mut cells: Vec<String> = Vec::new();
    let mut i: usize = 0;
    while i < columns.len()
        invariant
            i <= columns.len(),
            texts(cells@) == header_cells(columns@).take(i as int),
        decreases columns.len() - i,
    {
        let ghost before = cells@;
        let mut cell = String::new();
        push_right_aligned(&mut cell, decimal_text(columns[i] as u64).as_str(), 2);
        proof {
            assert(cell@ =~= right_aligned(decimal(columns@[i as int] as nat), 2));
        }
        cells.push(cell);
        proof {
            let all = header_cells(columns@);
            assert(all.take(i + 1) =~= all.take(i as int).push(all[i as int]));
            assert(texts(cells@) =~= texts(before).push(all[i as int]));
        }
        i = i + 1;
    }
    proof {
        assert(texts(cells@) =~= header_cells(columns@));
    }
    let mut gap = String::new();
    push_spaces(&mut gap, 11);
    proof {
        assert(gap@ =~= spaces(11));
    }
    let mut text = "  ".to_owned();
    text.append(paint_dim(gap.as_str(), color).as_str());
    text.append("  ");
    text.append(paint_dim(join(&cells, " ").as_str(), color).as_str());
    text.append("\n");
    text
}

/// Rain, the scale, and what the placeholder stands for.
pub open spec fn hourly_footer_text(
    forecast: HourlyForecast,
    flags: ChipFlags,
    set: Setting,
) -> Seq<char> {
    chip_line(
        rain_history_label(set.lang),
        wanted_rain(forecast.rain_history, flags, set.lang),
        set.color,
    ) + chip_line("Skala"@, Some(hourly_legend_text(set.lang, set.color)), set.color) + "  "@
        + dimmed(
        match set.lang {
            Language::Norwegian => "··      utenfor sykkelvinduet"@,
            Language::Swedish => "··      utanför åkfönstret"@,
        },
        set.color,
    ) + "\n"@
}

fn write_hourly_footer(forecast: &HourlyForecast, flags: ChipFlags, set: &Setting) -> (text: String)
    requires
        dated_history(forecast.rain_history),
    ensures
        text@ == hourly_footer_text(*forecast, flags, *set),
{
    let rain = rain_if_wanted(&forecast.rain_history, flags, set.lang);
    let scale = Some(hourly_bucket_legend(set.lang, set.color));
    let note = match set.lang {
        Language::Norwegian => "··      utenfor sykkelvinduet",
        Language::Swedish => "··      utanför åkfönstret",
    };
    let mut text = write_chip(rain_history_chip_label(set.lang), &rain, set.color);
    text.append(write_chip("Skala", &scale, set.color).as_str());
    text.append("  ");
    text.append(paint_dim(note, set.color).as_str());
    text.append("\n");
    text
}

/// The place, its radius and the number of days, and that it is by the hour.
pub open spec fn hourly_title(
    label: Seq<char>,
    radius: Seq<char>,
    n: nat,
    lang: Language,
) -> Seq<char> {
    days_title(label, radius, n, lang) + (match lang {
        Language::Norwegian => " · time-for-time"@,
        Language::Swedish => " · timme-för-timme"@,
    })
}

/// The grid, or a note where it would be empty.
pub open spec fn grid_text(
    forecast: HourlyForecast,
    verbose: bool,
    flags: ChipFlags,
    set: Setting,
) -> Seq<char> {
    let columns = forecast.header_hours@;
    if columns.len() == 0 || forecast.days@.len() == 0 {
        "  "@ + dimmed(
            match set.lang {
                Language::Norwegian => "Ingen timer i konfigurert dag-vindu."@,
                Language::Swedish => "Inga timmar i konfigurerat dag-fönster."@,
            },
            set.color,
        ) + "\n"@
    } else {
        header_row(columns, set.color) + hourly_rows_text(
            forecast.days@,
            columns,
            verbose,
            flags,
            set,
        ) + "\n"@ + hourly_footer_text(forecast, flags, set)
    }
}

fn write_grid(forecast: &HourlyForecast, verbose: bool, flags: ChipFlags, set: &Setting) -> (text:
    String)
    requires
        set.valid(),
        forall|i: int|
            0 <= i < forecast.days@.len() ==> hourly_reportable(#[trigger] forecast.days@[i]),
        dated_history(forecast.rain_history),
    ensures
        text@ == grid_text(*forecast, verbose, flags, *set),
{
    if forecast.header_hours.len() == 0 || forecast.days.len() == 0 {
        let note = match set.lang {
            Language::Norwegian => "Ingen timer i konfigurert dag-vindu.",
            Language::Swedish => "Inga timmar i konfigurerat dag-fönster.",
        };
        let mut text = "  ".to_owned();
        text.append(paint_dim(note, set.color).as_str());
        text.append("\n");
        return text;
    }
    let mut text = write_header_row(&forecast.header_hours, set.color);
    text.append(
        write_hourly_rows(&forecast.days, &forecast.header_hours, verbose, flags, set).as_str(),
    );
    text.append("\n");
    text.append(write_hourly_footer(forecast, flags, set).as_str());
    text
}

/// The report hour by hour.
pub open spec fn hourly_text(
    label: Seq<char>,
    radius: Seq<char>,
    forecast: HourlyForecast,
    verbose: bool,
    flags: ChipFlags,
    set: Setting,
) -> Seq<char> {
    painted(
        hourly_title(label, radius, forecast.days@.len(), set.lang),
        PURPLE,
        None,
        true,
        set.color,
    ) + "\n\n"@ + banner_text(forecast.nowcast_alert, set) + grid_text(
        forecast,
        verbose,
        flags,
        set,
    )
}

/// Render the hourly forecast: one row per day, one column per local hour.
/// `radius` is the sample radius in whole kilometres. With `verbose` each day
/// expands into one row per axis.
pub fn render_hourly(
    label: &str,
    radius: &str,
    forecast: &HourlyForecast,
    verbose: bool,
    flags: ChipFlags,
    set: &Setting,
) -> (text: String)
    requires
        set.valid(),
        forall|i: int|
            0 <= i < forecast.days@.len() ==> hourly_reportable(#[trigger] forecast.days@[i]),
        dated_history(forecast.rain_history),
        timed_alert(forecast.nowcast_alert),
    ensures
        text@ == hourly_text(label@, radius@, *forecast, verbose, flags, *set),
{
    let mut title = title_of_days(label, radius, forecast.days.len(), set.lang);
    match set.lang {
        Language::Norwegian => title.append(" · time-for-time"),
        Language::Swedish => title.append(" · timme-för-timme"),
    }
    let mut text = paint_accent(title.as_str(), set.color);
    text.append("\n\n");
    text.append(nowcast_banner(&forecast.nowcast_alert, set).as_str());
    text.append(write_grid(forecast, verbose, flags, set).as_str());
    text
}

} // verus!
