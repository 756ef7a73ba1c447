//! Which marks a report can hold, and that reports for plain terminals are plain.
use vstd::prelude::*;

use crate::aggregate::{
    day_center, is_best_position, is_center_position, is_worst_position, AggregateScore, Axis,
    DayAggregate, DayOptimum, HourScore, HourlyDayAggregate, HourlyForecast, MultiDayForecast,
    PointScore, RainHistory,
};
use crate::daily::{BestWindowReason, Confidence};
use crate::lang::Language;
use crate::nowcast::NowcastAlert;
use crate::output::bars::{
    bar_text, block_text, filled_up, hourly_legend_text, icon_gap, legend_text, partial_block,
    spark_text, trend_text,
};
use crate::output::chips::{
    banner_text, ground_chip_text, ground_message, penalty_text, rain_history_text, tall_text,
    temp_range_text, wind_speed_text, window_rain_text, window_stats_text,
};
use crate::output::days::{
    best_day_at, best_window_text, branch_text, callout_block, callout_box_text, callout_words,
    confidence_suffix, day_axis_row, day_breakdown_text, day_line, day_means, day_row_text,
    day_rows_text, day_tall_row, days_title, footer_text, highlight_rows, multi_day_text,
    penalty_rows, points_suffix, rain_trailer, reason_trailer, score_cell, sparkline, spread_of,
    told_window, tree_axis_text, week_trend_text, BREAKDOWN_INDENT,
};
use crate::output::hours::{
    cell_text, grid_text, header_cells, header_row, hourly_axis_row, hourly_breakdown_text,
    hourly_day_text, hourly_details, hourly_footer_text, hourly_rows_text, hourly_tall_row,
    hourly_text, hourly_title, row_cells, Shown, HOURLY_BREAKDOWN_INDENT,
};
use crate::output::labels::{
    axis_text, day_text, days_word, month_text, rain_history_label, short_axis_text,
    short_date_text, time_until_text, weekday_text, window_stats_label,
};
use crate::output::window::{
    aligned_chip, axis_row, axis_rows, best_at, center_at, chip_line, chips_block, human_text,
    penalty_block, penalty_lines, point_line, spread_block, total_line, wanted_rain, wanted_stats,
    window_header, worst_at, CHIP_LABEL_WIDTH,
};
use crate::output::{ChipFlags, Setting};
use crate::score::{label_text, Component, Penalty, WindowFigures, WindowStats};
use crate::text::{
    decimal, joined, padded, repeated, right_aligned, signed_decimal, spaces, two_digits,
    zero_padded,
};
use crate::theme::component_text;
use crate::time::{civil_fields, weekday_index, Date, LocalClock, RideWindow};

verus! {

/// What every colour and style of a terminal starts with.
pub const ESCAPE: char = '\u{1b}';

/// Starts a row of a tree that goes on.
pub const FORK: char = '├';

/// Starts the last row of a tree.
pub const CORNER: char = '└';

/// Stands before what is best.
pub const STAR: char = '★';

/// A character that stands out in a report and that no number, date or word of
/// it holds.
pub open spec fn is_mark(c: char) -> bool {
    c == ESCAPE || c == FORK || c == CORNER || c == STAR
}

/// The mark belongs to a tree.
pub open spec fn is_branch(mark: char) -> bool {
    mark == FORK || mark == CORNER
}

/// The text does not hold the mark.
pub open spec fn lacks(mark: char, text: Seq<char>) -> bool {
    forall|i: int| 0 <= i < text.len() ==> #[trigger] text[i] != mark
}

/// The text holds no escape character.
pub open spec fn is_plain(text: Seq<char>) -> bool {
    lacks(ESCAPE, text)
}

pub(crate) broadcast proof fn lemma_concat(mark: char, a: Seq<char>, b: Seq<char>)
    requires
        lacks(mark, a),
        lacks(mark, b),
    ensures
        #[trigger] lacks(mark, a + b),
{
}

// ---- Numbers and padding ----

pub(crate) proof fn lemma_empty(mark: char)
    requires
        is_mark(mark),
    ensures
        lacks(mark, ""@),
{
    reveal_strlit("");
}

pub(crate) proof fn lemma_decimal(mark: char, n: nat)
    requires
        is_mark(mark),
    ensures
        lacks(mark, decimal(n)),
    decreases n,
{
    broadcast use lemma_concat;

    if n >= 10 {
        lemma_decimal(mark, n / 10);
    }
}

proof fn lemma_signed(mark: char, n: int)
    requires
        is_mark(mark),
    ensures
        lacks(mark, signed_decimal(n)),
{
    broadcast use lemma_concat;

    lemma_decimal(mark, n as nat);
    lemma_decimal(mark, (-n) as nat);
}

proof fn lemma_two_digits(mark: char, n: nat)
    requires
        is_mark(mark),
    ensures
        lacks(mark, two_digits(n)),
{
    broadcast use lemma_concat;

    lemma_decimal(mark, n);
}

pub(crate) proof fn lemma_repeated(mark: char, unit: Seq<char>, n: nat)
    requires
        is_mark(mark),
        lacks(mark, unit),
    ensures
        lacks(mark, repeated(unit, n)),
    decreases n,
{
    broadcast use lemma_concat;

    if n > 0 {
        lemma_repeated(mark, unit, (n - 1) as nat);
    }
}

proof fn lemma_zero_padded(mark: char, n: nat, width: nat)
    requires
        is_mark(mark),
    ensures
        lacks(mark, zero_padded(n, width)),
{
    broadcast use lemma_concat;

    lemma_decimal(mark, n);
}

pub(crate) proof fn lemma_padded(mark: char, text: Seq<char>, width: nat)
    requires
        is_mark(mark),
        lacks(mark, text),
    ensures
        lacks(mark, padded(text, width)),
        lacks(mark, right_aligned(text, width)),
{
    broadcast use lemma_concat;

}

pub(crate) proof fn lemma_filled_up(mark: char, text: Seq<char>, columns: nat, target: nat)
    requires
        is_mark(mark),
        lacks(mark, text),
    ensures
        lacks(mark, filled_up(text, columns, target)),
{
    broadcast use lemma_concat;

}

proof fn lemma_joined(mark: char, parts: Seq<Seq<char>>, sep: Seq<char>)
    requires
        is_mark(mark),
        forall|i: int| 0 <= i < parts.len() ==> lacks(mark, #[trigger] parts[i]),
        lacks(mark, sep),
    ensures
        lacks(mark, joined(parts, sep)),
    decreases parts.len(),
{
    broadcast use lemma_concat;

    if parts.len() > 1 {
        let shorter = parts.drop_last();
        assert forall|i: int| 0 <= i < shorter.len() implies lacks(mark, #[trigger] shorter[i]) by {
            assert(shorter[i] == parts[i]);
        }
        lemma_joined(mark, shorter, sep);
        assert(lacks(mark, parts[parts.len() - 1]));
    }
    if parts.len() == 1 {
        assert(lacks(mark, parts[0]));
    }
}

// ---- Clock ----

pub(crate) proof fn lemma_hm(mark: char, clock: LocalClock, t: int)
    requires
        is_mark(mark),
    ensures
        lacks(mark, clock.hm_text(t)),
{
    broadcast use lemma_concat;

    lemma_two_digits(mark, clock.spec_hour(t) as nat);
    lemma_two_digits(mark, clock.spec_minute(t) as nat);
}

proof fn lemma_date(mark: char, clock: LocalClock, t: int)
    requires
        is_mark(mark),
    ensures
        lacks(mark, clock.date_text(t)),
{
    broadcast use lemma_concat;

    let fields = civil_fields(clock.local_day(t));
    lemma_zero_padded(mark, fields.0 as nat, 4);
    lemma_zero_padded(mark, (-fields.0) as nat, 4);
    lemma_two_digits(mark, fields.1 as nat);
    lemma_two_digits(mark, fields.2 as nat);
}

// ---- Words ----
pub(crate) proof fn lemma_label(mark: char, total: int, lang: Language)
    requires
        is_mark(mark),
    ensures
        lacks(mark, label_text(total, lang)),
{
    reveal_strlit("Dårlig");
    reveal_strlit("Marginalt");
    reveal_strlit("OK");
    reveal_strlit("Bra");
    reveal_strlit("Strålende");
    reveal_strlit("Dåligt");
    reveal_strlit("Marginellt");
    reveal_strlit("Strålande");
    assert(lacks(mark, "Dårlig"@));
    assert(lacks(mark, "Marginalt"@));
    assert(lacks(mark, "OK"@));
    assert(lacks(mark, "Bra"@));
    assert(lacks(mark, "Strålende"@));
    assert(lacks(mark, "Dåligt"@));
    assert(lacks(mark, "Marginellt"@));
    assert(lacks(mark, "Strålande"@));
}

proof fn lemma_weekday(mark: char, index: int, lang: Language)
    requires
        is_mark(mark),
    ensures
        lacks(mark, weekday_text(index, lang)),
{
    reveal_strlit("ma");
    reveal_strlit("ti");
    reveal_strlit("on");
    reveal_strlit("to");
    reveal_strlit("fr");
    reveal_strlit("lø");
    reveal_strlit("sø");
    reveal_strlit("må");
    reveal_strlit("lö");
    reveal_strlit("sö");
    assert(lacks(mark, "ma"@));
    assert(lacks(mark, "ti"@));
    assert(lacks(mark, "on"@));
    assert(lacks(mark, "to"@));
    assert(lacks(mark, "fr"@));
    assert(lacks(mark, "lø"@));
    assert(lacks(mark, "sø"@));
    assert(lacks(mark, "må"@));
    assert(lacks(mark, "lö"@));
    assert(lacks(mark, "sö"@));
}

proof fn lemma_month(mark: char, month: int, lang: Language)
    requires
        is_mark(mark),
    ensures
        lacks(mark, month_text(month, lang)),
{
    reveal_strlit("jan");
    reveal_strlit("feb");
    reveal_strlit("mar");
    reveal_strlit("apr");
    reveal_strlit("mai");
    reveal_strlit("maj");
    reveal_strlit("jun");
    reveal_strlit("jul");
    reveal_strlit("aug");
    reveal_strlit("sep");
    reveal_strlit("okt");
    reveal_strlit("nov");
    reveal_strlit("des");
    reveal_strlit("dec");
    reveal_strlit("?");
    assert(lacks(mark, "jan"@));
    assert(lacks(mark, "feb"@));
    assert(lacks(mark, "mar"@));
    assert(lacks(mark, "apr"@));
    assert(lacks(mark, "mai"@));
    assert(lacks(mark, "maj"@));
    assert(lacks(mark, "jun"@));
    assert(lacks(mark, "jul"@));
    assert(lacks(mark, "aug"@));
    assert(lacks(mark, "sep"@));
    assert(lacks(mark, "okt"@));
    assert(lacks(mark, "nov"@));
    assert(lacks(mark, "des"@));
    assert(lacks(mark, "dec"@));
    assert(lacks(mark, "?"@));
}

proof fn lemma_short_date(mark: char, date: Date, lang: Language)
    requires
        is_mark(mark),
    ensures
        lacks(mark, short_date_text(date, lang)),
{
    broadcast use lemma_concat;

    lemma_decimal(mark, date.spec_civil().2 as nat);
    lemma_month(mark, date.spec_civil().1, lang);
    reveal_strlit(". ");
    assert(lacks(mark, ". "@));
}

pub(crate) proof fn lemma_day(mark: char, date: Date, today: Date, lang: Language)
    requires
        is_mark(mark),
    ensures
        lacks(mark, day_text(date, today, lang)),
{
    broadcast use lemma_concat;

    lemma_weekday(mark, weekday_index(date.day_number as int), lang);
    lemma_short_date(mark, date, lang);
    reveal_strlit("i dag");
    reveal_strlit("idag");
    reveal_strlit("i morgen");
    reveal_strlit("imorgon");
    reveal_strlit(" ");
    assert(lacks(mark, "i dag"@));
    assert(lacks(mark, "idag"@));
    assert(lacks(mark, "i morgen"@));
    assert(lacks(mark, "imorgon"@));
    assert(lacks(mark, " "@));
}

proof fn lemma_days_word(mark: char, n: nat, lang: Language)
    requires
        is_mark(mark),
    ensures
        lacks(mark, days_word(n, lang)),
{
    reveal_strlit("dag");
    reveal_strlit("dager");
    reveal_strlit("dagar");
    assert(lacks(mark, "dag"@));
    assert(lacks(mark, "dager"@));
    assert(lacks(mark, "dagar"@));
}

proof fn lemma_time_until(mark: char, delta: int, lang: Language)
    requires
        is_mark(mark),
    ensures
        lacks(mark, time_until_text(delta, lang)),
{
    broadcast use lemma_concat;

    let minutes = crate::time::truncated_div(delta, crate::time::MINUTE as int);
    lemma_decimal(mark, minutes as nat);
    lemma_decimal(mark, (minutes / 60) as nat);
    lemma_decimal(mark, (minutes % 60) as nat);
    reveal_strlit("nå");
    reveal_strlit("nu");
    reveal_strlit("om ");
    reveal_strlit(" min");
    reveal_strlit("t");
    reveal_strlit("t ");
    assert(lacks(mark, "nå"@));
    assert(lacks(mark, "nu"@));
    assert(lacks(mark, "om "@));
    assert(lacks(mark, " min"@));
    assert(lacks(mark, "t"@));
    assert(lacks(mark, "t "@));
}

proof fn lemma_axis(mark: char, axis: Axis, lang: Language)
    requires
        is_mark(mark),
    ensures
        lacks(mark, axis_text(axis, lang)),
{
    reveal_strlit("Temperatur");
    reveal_strlit("Vind");
    reveal_strlit("Nedbør");
    reveal_strlit("Nederbörd");
    reveal_strlit("Bakke");
    reveal_strlit("Mark");
    reveal_strlit("?");
    assert(lacks(mark, "Temperatur"@));
    assert(lacks(mark, "Vind"@));
    assert(lacks(mark, "Nedbør"@));
    assert(lacks(mark, "Nederbörd"@));
    assert(lacks(mark, "Bakke"@));
    assert(lacks(mark, "Mark"@));
    assert(lacks(mark, "?"@));
}

pub(crate) proof fn lemma_short_axis(mark: char, axis: Axis, lang: Language)
    requires
        is_mark(mark),
    ensures
        lacks(mark, short_axis_text(axis, lang)),
{
    lemma_axis(mark, axis, lang);
    reveal_strlit("Temp");
    assert(lacks(mark, "Temp"@));
}

pub(crate) proof fn lemma_chip_labels(mark: char, lang: Language)
    requires
        is_mark(mark),
    ensures
        lacks(mark, rain_history_label(lang)),
        lacks(mark, window_stats_label(lang)),
{
    reveal_strlit("Regn 7d");
    reveal_strlit("Tall");
    reveal_strlit("Tal");
    assert(lacks(mark, "Regn 7d"@));
    assert(lacks(mark, "Tall"@));
    assert(lacks(mark, "Tal"@));
}

proof fn lemma_component(mark: char, c: Component, lang: Language)
    requires
        is_mark(mark),
    ensures
        lacks(mark, component_text(c, lang)),
{
    reveal_strlit("Temperatur");
    reveal_strlit("Vind");
    reveal_strlit("Nedbør");
    reveal_strlit("Sannsynlighet");
    reveal_strlit("Bakke");
    reveal_strlit("Advarsel");
    reveal_strlit("Ingen data");
    reveal_strlit("Nederbörd");
    reveal_strlit("Sannolikhet");
    reveal_strlit("Mark");
    reveal_strlit("Varning");
    reveal_strlit("Inga data");
    assert(lacks(mark, "Temperatur"@));
    assert(lacks(mark, "Vind"@));
    assert(lacks(mark, "Nedbør"@));
    assert(lacks(mark, "Sannsynlighet"@));
    assert(lacks(mark, "Bakke"@));
    assert(lacks(mark, "Advarsel"@));
    assert(lacks(mark, "Ingen data"@));
    assert(lacks(mark, "Nederbörd"@));
    assert(lacks(mark, "Sannolikhet"@));
    assert(lacks(mark, "Mark"@));
    assert(lacks(mark, "Varning"@));
    assert(lacks(mark, "Inga data"@));
}

proof fn lemma_reason(mark: char, reason: BestWindowReason, lang: Language)
    requires
        is_mark(mark),
    ensures
        lacks(mark, reason.label_text(lang)),
{
    reveal_strlit("mildest");
    reveal_strlit("minst kald");
    reveal_strlit("minst vind");
    reveal_strlit("tørrest");
    reveal_strlit("mildast");
    reveal_strlit("minst kall");
    reveal_strlit("torrast");
    assert(lacks(mark, "mildest"@));
    assert(lacks(mark, "minst kald"@));
    assert(lacks(mark, "minst vind"@));
    assert(lacks(mark, "tørrest"@));
    assert(lacks(mark, "mildast"@));
    assert(lacks(mark, "minst kall"@));
    assert(lacks(mark, "torrast"@));
}

// ---- Bars ----

proof fn lemma_bar(mark: char, value: int)
    requires
        is_mark(mark),
    ensures
        lacks(mark, bar_text(value, false)),
{
    broadcast use lemma_concat;

    let full = crate::output::bars::bar_eighths(value) / 8;
    let rest = crate::output::bars::bar_eighths(value) % 8;
    reveal_strlit("█");
    reveal_strlit("▒");
    reveal_strlit("▏");
    reveal_strlit("▎");
    reveal_strlit("▍");
    reveal_strlit("▌");
    reveal_strlit("▋");
    reveal_strlit("▊");
    reveal_strlit("▉");
    assert(lacks(mark, "█"@));
    assert(lacks(mark, "▒"@));
    assert(lacks(mark, "▏"@));
    assert(lacks(mark, "▎"@));
    assert(lacks(mark, "▍"@));
    assert(lacks(mark, "▌"@));
    assert(lacks(mark, "▋"@));
    assert(lacks(mark, "▊"@));
    assert(lacks(mark, "▉"@));
    lemma_repeated(mark, "█"@, 10);
    lemma_repeated(mark, "█"@, full as nat);
    lemma_repeated(mark, "▒"@, (10 - full) as nat);
    lemma_repeated(mark, "▒"@, (10 - full - 1) as nat);
    assert(lacks(mark, partial_block(rest)));
}

proof fn lemma_spark(mark: char, value: int)
    requires
        is_mark(mark),
    ensures
        lacks(mark, spark_text(value)),
{
    reveal_strlit("▁");
    reveal_strlit("▂");
    reveal_strlit("▃");
    reveal_strlit("▄");
    reveal_strlit("▅");
    reveal_strlit("▆");
    reveal_strlit("▇");
    reveal_strlit("█");
    assert(lacks(mark, "▁"@));
    assert(lacks(mark, "▂"@));
    assert(lacks(mark, "▃"@));
    assert(lacks(mark, "▄"@));
    assert(lacks(mark, "▅"@));
    assert(lacks(mark, "▆"@));
    assert(lacks(mark, "▇"@));
    assert(lacks(mark, "█"@));
}

proof fn lemma_trend(mark: char, values: Seq<u8>)
    requires
        is_mark(mark),
    ensures
        lacks(mark, trend_text(values)),
{
    reveal_strlit("→");
    reveal_strlit("↗");
    reveal_strlit("↘");
    assert(lacks(mark, "→"@));
    assert(lacks(mark, "↗"@));
    assert(lacks(mark, "↘"@));
}

proof fn lemma_block(mark: char, mean: int)
    requires
        is_mark(mark),
    ensures
        lacks(mark, block_text(mean)),
{
    reveal_strlit("░░");
    reveal_strlit("▒▒");
    reveal_strlit("▓▓");
    reveal_strlit("██");
    assert(lacks(mark, "░░"@));
    assert(lacks(mark, "▒▒"@));
    assert(lacks(mark, "▓▓"@));
    assert(lacks(mark, "██"@));
}

proof fn lemma_icon_gap(mark: char, columns: nat)
    requires
        is_mark(mark),
    ensures
        lacks(mark, icon_gap(columns)),
{
    reveal_strlit("");
    reveal_strlit(" ");
    reveal_strlit("  ");
    assert(lacks(mark, ""@));
    assert(lacks(mark, " "@));
    assert(lacks(mark, "  "@));
}

proof fn lemma_legends(mark: char, lang: Language)
    requires
        is_mark(mark),
    ensures
        lacks(mark, legend_text(lang, false)),
        lacks(mark, hourly_legend_text(lang, false)),
{
    broadcast use lemma_concat;

    reveal_strlit("dårlig");
    reveal_strlit("marginalt");
    reveal_strlit("ok");
    reveal_strlit("bra");
    reveal_strlit("strålende");
    reveal_strlit("dåligt");
    reveal_strlit("marginellt");
    reveal_strlit("strålande");
    reveal_strlit("0 ");
    reveal_strlit(" · 25 ");
    reveal_strlit(" · 45 ");
    reveal_strlit(" · 65 ");
    reveal_strlit(" · 85 ");
    reveal_strlit("░");
    reveal_strlit("▒");
    reveal_strlit("▓");
    reveal_strlit("█");
    reveal_strlit(" ");
    reveal_strlit(" · ");
    assert(lacks(mark, "dårlig"@));
    assert(lacks(mark, "marginalt"@));
    assert(lacks(mark, "ok"@));
    assert(lacks(mark, "bra"@));
    assert(lacks(mark, "strålende"@));
    assert(lacks(mark, "dåligt"@));
    assert(lacks(mark, "marginellt"@));
    assert(lacks(mark, "strålande"@));
    assert(lacks(mark, "0 "@));
    assert(lacks(mark, " · 25 "@));
    assert(lacks(mark, " · 45 "@));
    assert(lacks(mark, " · 65 "@));
    assert(lacks(mark, " · 85 "@));
    assert(lacks(mark, "░"@));
    assert(lacks(mark, "▒"@));
    assert(lacks(mark, "▓"@));
    assert(lacks(mark, "█"@));
    assert(lacks(mark, " "@));
    assert(lacks(mark, " · "@));
}

// ---- Chips ----

/// The printed amounts of a rain history do not hold the mark.
pub open spec fn history_lacks(mark: char, h: Option<RainHistory>) -> bool {
    h matches Some(h) ==> lacks(mark, h.total_mm.text@) && lacks(mark, h.wettest_day_mm.text@)
}

/// The printed peak of an alert does not hold the mark.
pub open spec fn alert_lacks(mark: char, a: Option<NowcastAlert>) -> bool {
    a matches Some(a) ==> lacks(mark, a.peak_mm_h.text@)
}

/// The printed figures of a window do not hold the mark.
pub open spec fn stats_lack(mark: char, s: WindowStats) -> bool {
    s.figures matches Some(f) ==> lacks(mark, f.total_precip_mm.text@) && lacks(
        mark,
        f.max_hourly_precip_mm.text@,
    )
}

/// What the penalties say does not hold the mark.
pub open spec fn penalties_lack(mark: char, penalties: Seq<Penalty>) -> bool {
    forall|i: int| 0 <= i < penalties.len() ==> lacks(mark, (#[trigger] penalties[i]).message@)
}

/// What the highlights say does not hold the mark.
pub open spec fn highlights_lack(mark: char, highlights: Seq<String>) -> bool {
    forall|i: int| 0 <= i < highlights.len() ==> lacks(mark, (#[trigger] highlights[i])@)
}

pub(crate) proof fn lemma_banner(mark: char, a: Option<NowcastAlert>, set: Setting)
    requires
        is_mark(mark),
        !set.color,
        alert_lacks(mark, a),
    ensures
        lacks(mark, banner_text(a, set)),
{
    broadcast use lemma_concat;

    lemma_empty(mark);
    reveal_strlit("⚠");
    reveal_strlit("  ");
    reveal_strlit("Radar");
    reveal_strlit(": regn ");
    reveal_strlit(" (topp ");
    reveal_strlit(" mm/h kl ");
    reveal_strlit(")\n\n");
    assert(lacks(mark, "⚠"@));
    assert(lacks(mark, "  "@));
    assert(lacks(mark, "Radar"@));
    assert(lacks(mark, ": regn "@));
    assert(lacks(mark, " (topp "@));
    assert(lacks(mark, " mm/h kl "@));
    assert(lacks(mark, ")\n\n"@));
    if let Some(alert) = a {
        lemma_time_until(mark, alert.first_rain_at - set.now, set.lang);
        lemma_hm(mark, set.clock, alert.peak_at as int);
    }
}

proof fn lemma_rain_history(mark: char, h: RainHistory, lang: Language)
    requires
        is_mark(mark),
        history_lacks(mark, Some(h)),
    ensures
        lacks(mark, rain_history_text(h, lang)),
{
    broadcast use lemma_concat;

    lemma_decimal(mark, crate::output::chips::lookback_days(h.lookback_hours as int) as nat);
    lemma_decimal(mark, h.rain_days as nat);
    lemma_short_date(mark, h.wettest_day, lang);
    reveal_strlit(" mm siste ");
    reveal_strlit(" døgn · våtest ");
    reveal_strlit(" (");
    reveal_strlit(" mm) · ");
    reveal_strlit(" regndøgn");
    reveal_strlit(" mm senaste ");
    reveal_strlit(" dygn · blötast ");
    reveal_strlit(" regndag");
    reveal_strlit(" regndagar");
    assert(lacks(mark, " mm siste "@));
    assert(lacks(mark, " døgn · våtest "@));
    assert(lacks(mark, " ("@));
    assert(lacks(mark, " mm) · "@));
    assert(lacks(mark, " regndøgn"@));
    assert(lacks(mark, " mm senaste "@));
    assert(lacks(mark, " dygn · blötast "@));
    assert(lacks(mark, " regndag"@));
    assert(lacks(mark, " regndagar"@));
}

proof fn lemma_window_rain(mark: char, f: WindowFigures, lang: Language, is_opening: bool)
    requires
        is_mark(mark),
        stats_lack(mark, WindowStats { figures: Some(f) }),
    ensures
        lacks(mark, window_rain_text(f, lang, is_opening)),
{
    broadcast use lemma_concat;

    reveal_strlit("i luka");
    reveal_strlit("i vinduet");
    reveal_strlit("i luckan");
    reveal_strlit("i fönstret");
    reveal_strlit("☂ opphold ");
    reveal_strlit("☂ uppehåll ");
    reveal_strlit("🌦 yr ");
    reveal_strlit("🌦 duggregn ");
    reveal_strlit(" mm ");
    reveal_strlit("⛈ kraftig regn ");
    reveal_strlit("⛈ kraftigt regn ");
    reveal_strlit(", topp ");
    reveal_strlit(" mm/t");
    reveal_strlit(" mm/h");
    reveal_strlit("🌧 regn ");
    assert(lacks(mark, "i luka"@));
    assert(lacks(mark, "i vinduet"@));
    assert(lacks(mark, "i luckan"@));
    assert(lacks(mark, "i fönstret"@));
    assert(lacks(mark, "☂ opphold "@));
    assert(lacks(mark, "☂ uppehåll "@));
    assert(lacks(mark, "🌦 yr "@));
    assert(lacks(mark, "🌦 duggregn "@));
    assert(lacks(mark, " mm "@));
    assert(lacks(mark, "⛈ kraftig regn "@));
    assert(lacks(mark, "⛈ kraftigt regn "@));
    assert(lacks(mark, ", topp "@));
    assert(lacks(mark, " mm/t"@));
    assert(lacks(mark, " mm/h"@));
    assert(lacks(mark, "🌧 regn "@));
}

proof fn lemma_temp_range(mark: char, lo: int, hi: int)
    requires
        is_mark(mark),
    ensures
        lacks(mark, temp_range_text(lo, hi)),
{
    broadcast use lemma_concat;

    lemma_signed(mark, lo);
    lemma_signed(mark, hi);
    reveal_strlit(" °C");
    reveal_strlit("–");
    assert(lacks(mark, " °C"@));
    assert(lacks(mark, "–"@));
}

proof fn lemma_wind_speed(mark: char, wind: int, gust: Option<i32>, lang: Language)
    requires
        is_mark(mark),
    ensures
        lacks(mark, wind_speed_text(wind, gust, lang)),
{
    broadcast use lemma_concat;

    lemma_signed(mark, wind);
    if let Some(g) = gust {
        lemma_signed(mark, g as int);
    }
    reveal_strlit(" m/s (kast ");
    reveal_strlit(" m/s (by ");
    reveal_strlit(")");
    reveal_strlit(" m/s");
    assert(lacks(mark, " m/s (kast "@));
    assert(lacks(mark, " m/s (by "@));
    assert(lacks(mark, ")"@));
    assert(lacks(mark, " m/s"@));
}

pub(crate) proof fn lemma_tall(mark: char, f: WindowFigures, lang: Language)
    requires
        is_mark(mark),
        stats_lack(mark, WindowStats { figures: Some(f) }),
    ensures
        lacks(mark, tall_text(f, lang, false)),
        lacks(mark, window_stats_text(f, lang)),
{
    broadcast use lemma_concat;

    lemma_temp_range(mark, f.min_temp_c as int, f.max_temp_c as int);
    lemma_wind_speed(mark, f.max_wind_ms as int, f.max_gust_ms, lang);
    reveal_strlit(" ");
    reveal_strlit("·");
    reveal_strlit(" mm");
    reveal_strlit(" · nedbør ");
    reveal_strlit(" · nederbörd ");
    reveal_strlit(" mm · vind ");
    assert(lacks(mark, " "@));
    assert(lacks(mark, "·"@));
    assert(lacks(mark, " mm"@));
    assert(lacks(mark, " · nedbør "@));
    assert(lacks(mark, " · nederbörd "@));
    assert(lacks(mark, " mm · vind "@));
}

proof fn lemma_penalty(mark: char, p: Penalty, lang: Language)
    requires
        is_mark(mark),
        lacks(mark, p.message@),
    ensures
        lacks(mark, penalty_text(p, lang, false)),
{
    broadcast use lemma_concat;

    lemma_component(mark, p.component, lang);
    reveal_strlit(": ");
    assert(lacks(mark, ": "@));
}

proof fn lemma_ground_message(mark: char, penalties: Seq<Penalty>)
    requires
        is_mark(mark),
        penalties_lack(mark, penalties),
    ensures
        ground_message(penalties) matches Some(text) ==> lacks(mark, text),
    decreases penalties.len(),
{
    if penalties.len() > 0 {
        let rest = penalties.drop_first();
        assert forall|i: int| 0 <= i < rest.len() implies lacks(
            mark,
            (#[trigger] rest[i]).message@,
        ) by {
            assert(rest[i] == penalties[i + 1]);
        }
        lemma_ground_message(mark, rest);
        assert(lacks(mark, penalties[0].message@));
    }
}

proof fn lemma_chip(mark: char, label: Seq<char>, content: Option<Seq<char>>)
    requires
        is_mark(mark),
        lacks(mark, label),
        content matches Some(text) ==> lacks(mark, text),
    ensures
        lacks(mark, chip_line(label, content, false)),
{
    broadcast use lemma_concat;

    lemma_empty(mark);
    reveal_strlit("  ");
    reveal_strlit("   ");
    reveal_strlit("\n");
    assert(lacks(mark, "  "@));
    assert(lacks(mark, "   "@));
    assert(lacks(mark, "\n"@));
}

proof fn lemma_aligned_chip(mark: char, label: Seq<char>, content: Option<Seq<char>>)
    requires
        is_mark(mark),
        lacks(mark, label),
        content matches Some(text) ==> lacks(mark, text),
    ensures
        lacks(mark, aligned_chip(label, content, false)),
{
    lemma_padded(mark, label, CHIP_LABEL_WIDTH as nat);
    lemma_chip(mark, padded(label, CHIP_LABEL_WIDTH as nat), content);
}

proof fn lemma_wanted_rain(mark: char, h: Option<RainHistory>, flags: ChipFlags, lang: Language)
    requires
        is_mark(mark),
        history_lacks(mark, h),
    ensures
        wanted_rain(h, flags, lang) matches Some(text) ==> lacks(mark, text),
{
    if let Some(history) = h {
        lemma_rain_history(mark, history, lang);
    }
}

// ---- One window ----

proof fn lemma_axis_row(mark: char, label: Seq<char>, value: int)
    requires
        is_mark(mark),
        lacks(mark, label),
    ensures
        lacks(mark, axis_row(label, value, false)),
{
    broadcast use lemma_concat;

    lemma_padded(mark, label, 14);
    lemma_bar(mark, value);
    lemma_decimal(mark, value as nat);
    lemma_padded(mark, decimal(value as nat), 3);
    reveal_strlit(" ");
    reveal_strlit("\n");
    assert(lacks(mark, " "@));
    assert(lacks(mark, "\n"@));
}

proof fn lemma_axis_rows(mark: char, points: Seq<PointScore>, set: Setting)
    requires
        is_mark(mark),
        !set.color,
    ensures
        lacks(mark, axis_rows(points, set)),
{
    broadcast use lemma_concat;

    lemma_axis(mark, Axis::Temperature, set.lang);
    lemma_axis(mark, Axis::Wind, set.lang);
    lemma_axis(mark, Axis::Precipitation, set.lang);
    lemma_axis(mark, Axis::Ground, set.lang);
    assert forall|label: Seq<char>, value: int| lacks(mark, label) implies lacks(
        mark,
        #[trigger] axis_row(label, value, false),
    ) by {
        lemma_axis_row(mark, label, value);
    }
}

proof fn lemma_penalty_lines(mark: char, penalties: Seq<Penalty>, set: Setting)
    requires
        is_mark(mark),
        !set.color,
        penalties_lack(mark, penalties),
    ensures
        lacks(mark, penalty_lines(penalties, set)),
    decreases penalties.len(),
{
    broadcast use lemma_concat;

    lemma_empty(mark);
    if penalties.len() > 0 {
        let shorter = penalties.drop_last();
        assert forall|i: int| 0 <= i < shorter.len() implies lacks(
            mark,
            (#[trigger] shorter[i]).message@,
        ) by {
            assert(shorter[i] == penalties[i]);
        }
        lemma_penalty_lines(mark, shorter, set);
        assert(lacks(mark, penalties[penalties.len() - 1].message@));
        lemma_penalty(mark, penalties.last(), set.lang);
        reveal_strlit("  ");
        reveal_strlit("\n");
        assert(lacks(mark, "  "@));
        assert(lacks(mark, "\n"@));
    }
}

proof fn lemma_penalty_block(mark: char, penalties: Seq<Penalty>, verbose: bool, set: Setting)
    requires
        is_mark(mark),
        !set.color,
        penalties_lack(mark, penalties),
    ensures
        lacks(mark, penalty_block(penalties, verbose, set)),
{
    broadcast use lemma_concat;

    lemma_empty(mark);
    lemma_penalty_lines(mark, penalties, set);
    if penalties.len() > 3 {
        let worst = penalties.take(3);
        assert forall|i: int| 0 <= i < worst.len() implies lacks(
            mark,
            (#[trigger] worst[i]).message@,
        ) by {
            assert(worst[i] == penalties[i]);
        }
        lemma_penalty_lines(mark, worst, set);
    }
    reveal_strlit("\n");
    assert(lacks(mark, "\n"@));
}

proof fn lemma_point_line(mark: char, word: Seq<char>, p: PointScore)
    requires
        is_mark(mark),
        lacks(mark, word),
        lacks(mark, p.bearing_label@),
    ensures
        lacks(mark, point_line(word, p, false)),
{
    broadcast use lemma_concat;

    lemma_decimal(mark, p.score.total as nat);
    reveal_strlit("  ");
    reveal_strlit(" (");
    reveal_strlit(")\n");
    assert(lacks(mark, "  "@));
    assert(lacks(mark, " ("@));
    assert(lacks(mark, ")\n"@));
}

/// Nothing that a report on one window prints of its points holds the mark.
pub open spec fn aggregate_lacks(mark: char, agg: AggregateScore) -> bool {
    &&& agg.points@.len() > 0
    &&& forall|i: int|
        0 <= i < agg.points@.len() ==> lacks(mark, (#[trigger] agg.points@[i]).bearing_label@)
            && penalties_lack(mark, agg.points@[i].score.penalties@) && stats_lack(
            mark,
            agg.points@[i].score.stats,
        )
    &&& history_lacks(mark, agg.rain_history)
    &&& alert_lacks(mark, agg.nowcast_alert)
}

proof fn lemma_some_center(points: Seq<PointScore>, n: int)
    requires
        0 <= n <= points.len(),
    ensures
        (forall|j: int| 0 <= j < n ==> !(#[trigger] points[j]).is_center) || (exists|i: int|
            0 <= i < n && is_center_position(points, i)),
    decreases n,
{
    if n > 0 {
        lemma_some_center(points, n - 1);
        if (forall|j: int| 0 <= j < n - 1 ==> !(#[trigger] points[j]).is_center) && points[n
            - 1].is_center {
            assert(is_center_position(points, n - 1));
        }
    }
}

proof fn lemma_some_worst(points: Seq<PointScore>, n: int)
    requires
        0 < n <= points.len(),
    ensures
        exists|k: int| is_worst_position(points.take(n), k),
        exists|k: int| is_best_position(points.take(n), k),
    decreases n,
{
    let shown = points.take(n);
    if n == 1 {
        assert(is_worst_position(shown, 0));
        assert(is_best_position(shown, 0));
    } else {
        lemma_some_worst(points, n - 1);
        let before = points.take(n - 1);
        assert forall|j: int| 0 <= j < n - 1 implies #[trigger] shown[j] == before[j] by {}
        let low = choose|k: int| is_worst_position(before, k);
        let high = choose|k: int| is_best_position(before, k);
        if shown[n - 1].score.total < shown[low].score.total {
            assert forall|j: int| 0 <= j < n implies shown[n - 1].score.total <= (
            #[trigger] shown[j]).score.total by {
                if j < n - 1 {
                    assert(before[low].score.total <= before[j].score.total);
                }
            }
            assert forall|j: int| 0 <= j < n - 1 implies shown[n - 1].score.total < (
            #[trigger] shown[j]).score.total by {
                assert(before[low].score.total <= before[j].score.total);
            }
            assert(is_worst_position(shown, n - 1));
        } else {
            assert forall|j: int| 0 <= j < n implies shown[low].score.total <= (
            #[trigger] shown[j]).score.total by {
                if j < n - 1 {
                    assert(before[low].score.total <= before[j].score.total);
                }
            }
            assert forall|j: int| 0 <= j < low implies shown[low].score.total < (
            #[trigger] shown[j]).score.total by {
                assert(before[low].score.total < before[j].score.total);
            }
            assert(is_worst_position(shown, low));
        }
        if shown[n - 1].score.total >= shown[high].score.total {
            assert forall|j: int| 0 <= j < n implies (#[trigger] shown[j]).score.total <= shown[n
                - 1].score.total by {
                if j < n - 1 {
                    assert(before[j].score.total <= before[high].score.total);
                }
            }
            assert(is_best_position(shown, n - 1));
        } else {
            assert forall|j: int| 0 <= j < n implies (
            #[trigger] shown[j]).score.total <= shown[high].score.total by {
                if j < n - 1 {
                    assert(before[j].score.total <= before[high].score.total);
                }
            }
            assert forall|j: int| high < j < n implies (
            #[trigger] shown[j]).score.total < shown[high].score.total by {
                if j < n - 1 {
                    assert(before[j].score.total < before[high].score.total);
                }
            }
            assert(is_best_position(shown, high));
        }
    }
}

proof fn lemma_positions(points: Seq<PointScore>)
    requires
        points.len() > 0,
    ensures
        0 <= center_at(points) < points.len(),
        0 <= worst_at(points) < points.len(),
        0 <= best_at(points) < points.len(),
{
    let n = points.len() as int;
    lemma_some_center(points, n);
    if forall|j: int| 0 <= j < n ==> !(#[trigger] points[j]).is_center {
        assert(is_center_position(points, 0));
    }
    assert(is_center_position(points, center_at(points)));
    lemma_some_worst(points, n);
    assert(points.take(n) =~= points);
    assert(is_worst_position(points, worst_at(points)));
    assert(is_best_position(points, best_at(points)));
}

proof fn lemma_spread(mark: char, agg: AggregateScore, set: Setting)
    requires
        is_mark(mark),
        !set.color,
        aggregate_lacks(mark, agg),
        0 <= worst_at(agg.points@) < agg.points@.len(),
        0 <= best_at(agg.points@) < agg.points@.len(),
    ensures
        lacks(mark, spread_block(agg, set)),
{
    broadcast use lemma_concat;

    lemma_empty(mark);
    reveal_strlit("\n");
    reveal_strlit("Verste punkt:");
    reveal_strlit("Sämsta punkt:");
    reveal_strlit("Beste punkt: ");
    reveal_strlit("Bästa punkt: ");
    assert(lacks(mark, "\n"@));
    assert(lacks(mark, "Verste punkt:"@));
    assert(lacks(mark, "Sämsta punkt:"@));
    assert(lacks(mark, "Beste punkt: "@));
    assert(lacks(mark, "Bästa punkt: "@));
    let worst = agg.points@[worst_at(agg.points@)];
    let best = agg.points@[best_at(agg.points@)];
    lemma_point_line(mark, "Verste punkt:"@, worst);
    lemma_point_line(mark, "Sämsta punkt:"@, worst);
    lemma_point_line(mark, "Beste punkt: "@, best);
    lemma_point_line(mark, "Bästa punkt: "@, best);
}

proof fn lemma_chips(mark: char, agg: AggregateScore, flags: ChipFlags, set: Setting)
    requires
        is_mark(mark),
        !set.color,
        aggregate_lacks(mark, agg),
        0 <= center_at(agg.points@) < agg.points@.len(),
    ensures
        lacks(mark, chips_block(agg, flags, set)),
{
    broadcast use lemma_concat;

    lemma_empty(mark);
    lemma_chip_labels(mark, set.lang);
    let stats = agg.points@[center_at(agg.points@)].score.stats;
    let rain = wanted_rain(agg.rain_history, flags, set.lang);
    let shown = wanted_stats(stats, flags, set.lang);
    lemma_wanted_rain(mark, agg.rain_history, flags, set.lang);
    if let Some(f) = stats.figures {
        lemma_tall(mark, f, set.lang);
    }
    lemma_aligned_chip(mark, rain_history_label(set.lang), rain);
    lemma_aligned_chip(mark, window_stats_label(set.lang), shown);
    reveal_strlit("\n");
    assert(lacks(mark, "\n"@));
}

proof fn lemma_window_header(
    mark: char,
    label: Seq<char>,
    radius: Seq<char>,
    window: RideWindow,
    set: Setting,
)
    requires
        is_mark(mark),
        lacks(mark, label),
        lacks(mark, radius),
    ensures
        lacks(mark, window_header(label, radius, window, set)),
{
    broadcast use lemma_concat;

    lemma_date(mark, set.clock, window.start as int);
    lemma_hm(mark, set.clock, window.start as int);
    lemma_hm(mark, set.clock, window.end as int);
    reveal_strlit("Grusindeks for ");
    reveal_strlit(" (");
    reveal_strlit("km radius) — ");
    reveal_strlit(" ");
    reveal_strlit("–");
    assert(lacks(mark, "Grusindeks for "@));
    assert(lacks(mark, " ("@));
    assert(lacks(mark, "km radius) — "@));
    assert(lacks(mark, " "@));
    assert(lacks(mark, "–"@));
}

proof fn lemma_total_line(mark: char, mean: int, set: Setting)
    requires
        is_mark(mark),
        !set.color,
    ensures
        lacks(mark, total_line(mean, set)),
{
    broadcast use lemma_concat;

    lemma_decimal(mark, mean as nat);
    lemma_label(mark, mean, set.lang);
    reveal_strlit("Total");
    reveal_strlit("Totalt");
    reveal_strlit(": ");
    reveal_strlit("/100  ⭐ ");
    reveal_strlit("\n\n");
    assert(lacks(mark, "Total"@));
    assert(lacks(mark, "Totalt"@));
    assert(lacks(mark, ": "@));
    assert(lacks(mark, "/100  ⭐ "@));
    assert(lacks(mark, "\n\n"@));
}

pub(crate) proof fn lemma_rule(mark: char)
    requires
        is_mark(mark),
    ensures
        lacks(mark, repeated("═"@, 63)),
        lacks(mark, "\n"@),
        lacks(mark, "\n\n"@),
{
    reveal_strlit("═");
    reveal_strlit("\n");
    reveal_strlit("\n\n");
    assert(lacks(mark, "═"@));
    assert(lacks(mark, "\n"@));
    assert(lacks(mark, "\n\n"@));
    lemma_repeated(mark, "═"@, 63);
}

/// On a terminal without colour, the report on one window holds no escape
/// character unless a text handed in does.
pub proof fn a_plain_window_report_is_plain(
    label: Seq<char>,
    radius: Seq<char>,
    window: RideWindow,
    agg: AggregateScore,
    verbose: bool,
    flags: ChipFlags,
    set: Setting,
)
    requires
        !set.color,
        is_plain(label),
        is_plain(radius),
        aggregate_lacks(ESCAPE, agg),
    ensures
        is_plain(human_text(label, radius, window, agg, verbose, flags, set)),
{
    broadcast use lemma_concat;

    lemma_positions(agg.points@);
    let center = agg.points@[center_at(agg.points@)];
    lemma_window_header(ESCAPE, label, radius, window, set);
    lemma_rule(ESCAPE);
    lemma_banner(ESCAPE, agg.nowcast_alert, set);
    lemma_total_line(ESCAPE, agg.mean as int, set);
    lemma_axis_rows(ESCAPE, agg.points@, set);
    lemma_penalty_block(ESCAPE, center.score.penalties@, verbose, set);
    lemma_spread(ESCAPE, agg, set);
    lemma_chips(ESCAPE, agg, flags, set);
}

// ---- Several days ----

proof fn lemma_confidence_suffix(mark: char, confidence: Confidence, lang: Language)
    requires
        is_mark(mark),
    ensures
        lacks(mark, confidence_suffix(confidence, lang)),
{
    reveal_strlit("");
    reveal_strlit("  (middels konfidens)");
    reveal_strlit("  (lav konfidens)");
    reveal_strlit("  (medel tillförlitlighet)");
    reveal_strlit("  (låg tillförlitlighet)");
    assert(lacks(mark, ""@));
    assert(lacks(mark, "  (middels konfidens)"@));
    assert(lacks(mark, "  (lav konfidens)"@));
    assert(lacks(mark, "  (medel tillförlitlighet)"@));
    assert(lacks(mark, "  (låg tillförlitlighet)"@));
}

pub(crate) proof fn lemma_callout_words(mark: char, best: DayAggregate, set: Setting)
    requires
        is_mark(mark),
    ensures
        lacks(mark, callout_words(best, set)),
{
    broadcast use lemma_concat;

    lemma_day(mark, best.date, set.spec_today(), set.lang);
    lemma_decimal(mark, best.mean as nat);
    lemma_label(mark, best.mean as int, set.lang);
    lemma_confidence_suffix(mark, best.confidence, set.lang);
    reveal_strlit(" Beste: ");
    reveal_strlit(" Bästa: ");
    reveal_strlit("  —  ");
    reveal_strlit("  ");
    assert(lacks(mark, " Beste: "@));
    assert(lacks(mark, " Bästa: "@));
    assert(lacks(mark, "  —  "@));
    assert(lacks(mark, "  "@));
}

proof fn lemma_callout_box(mark: char, words: Seq<char>, columns: nat, mean: int)
    requires
        is_mark(mark),
        mark != STAR,
        lacks(mark, words),
    ensures
        lacks(mark, callout_box_text(words, columns, mean, false)),
{
    broadcast use lemma_concat;

    reveal_strlit("─");
    reveal_strlit("╭");
    reveal_strlit("╮");
    reveal_strlit("╰");
    reveal_strlit("╯");
    reveal_strlit("\n│  ");
    reveal_strlit("★");
    reveal_strlit("│\n");
    reveal_strlit("\n");
    assert(lacks(mark, "─"@));
    assert(lacks(mark, "╭"@));
    assert(lacks(mark, "╮"@));
    assert(lacks(mark, "╰"@));
    assert(lacks(mark, "╯"@));
    assert(lacks(mark, "\n│  "@));
    assert(lacks(mark, "★"@));
    assert(lacks(mark, "│\n"@));
    assert(lacks(mark, "\n"@));
    lemma_repeated(mark, "─"@, columns);
}

proof fn lemma_callout(mark: char, days: Seq<DayAggregate>, set: Setting)
    requires
        is_mark(mark),
        mark != STAR,
        !set.color,
    ensures
        lacks(mark, callout_block(days, set)),
{
    broadcast use lemma_concat;

    lemma_empty(mark);
    lemma_rule(mark);
    let best = days[best_day_at(days)];
    let words = callout_words(best, set);
    lemma_callout_words(mark, best, set);
    lemma_callout_box(mark, words,
        crate::output::bars::display_width("  ★"@ + words),
        best.mean as int,
    );
}

proof fn lemma_sparkline(mark: char, means: Seq<u8>)
    requires
        is_mark(mark),
    ensures
        lacks(mark, sparkline(means, false)),
    decreases means.len(),
{
    broadcast use lemma_concat;

    lemma_empty(mark);
    if means.len() > 0 {
        lemma_sparkline(mark, means.drop_last());
        lemma_spark(mark, means.last() as int);
    }
}

pub(crate) proof fn lemma_week_trend(mark: char, days: Seq<DayAggregate>, set: Setting)
    requires
        is_mark(mark),
        !set.color,
    ensures
        lacks(mark, week_trend_text(days, set)),
{
    broadcast use lemma_concat;

    let means = day_means(days);
    lemma_empty(mark);
    lemma_sparkline(mark, means);
    lemma_trend(mark, means);
    lemma_decimal(mark, means[0] as nat);
    lemma_decimal(mark, means.last() as nat);
    lemma_decimal(mark, spread_of(means) as nat);
    reveal_strlit("  Uke   ");
    reveal_strlit("  Vecka ");
    reveal_strlit("   ");
    reveal_strlit(" → ");
    reveal_strlit("   spredning ");
    reveal_strlit("   spridning ");
    reveal_strlit(" p\n");
    assert(lacks(mark, "  Uke   "@));
    assert(lacks(mark, "  Vecka "@));
    assert(lacks(mark, "   "@));
    assert(lacks(mark, " → "@));
    assert(lacks(mark, "   spredning "@));
    assert(lacks(mark, "   spridning "@));
    assert(lacks(mark, " p\n"@));
}

pub(crate) proof fn lemma_tree(mark: char)
    requires
        is_mark(mark),
    ensures
        lacks(mark, BREAKDOWN_INDENT@),
        lacks(mark, HOURLY_BREAKDOWN_INDENT@),
        !is_branch(mark) ==> lacks(mark, branch_text(true)) && lacks(mark, branch_text(false)),
        lacks(mark, " "@),
        lacks(mark, "  "@),
        lacks(mark, "\n"@),
{
    reveal_strlit("      ");
    reveal_strlit("  ");
    reveal_strlit("└─");
    reveal_strlit("├─");
    reveal_strlit(" ");
    reveal_strlit("\n");
    assert(lacks(mark, "      "@));
    assert(lacks(mark, "  "@));
    if !is_branch(mark) {
        assert(lacks(mark, "└─"@));
        assert(lacks(mark, "├─"@));
    }
    assert(lacks(mark, " "@));
    assert(lacks(mark, "\n"@));
}

proof fn lemma_score_cell(mark: char, value: int, dim: bool)
    requires
        is_mark(mark),
    ensures
        lacks(mark, score_cell(value, dim, false)),
{
    lemma_decimal(mark, value as nat);
    lemma_padded(mark, decimal(value as nat), 3);
}

proof fn lemma_tree_axis(mark: char, label: Seq<char>, value: int, dim: bool)
    requires
        is_mark(mark),
        lacks(mark, label),
    ensures
        lacks(mark, tree_axis_text(label, value, dim, false)),
{
    broadcast use lemma_concat;

    lemma_tree(mark);
    lemma_padded(mark, label, 9);
    lemma_bar(mark, value);
    lemma_score_cell(mark, value, dim);
}

proof fn lemma_day_axis_row(
    mark: char,
    day: DayAggregate,
    axis: Axis,
    dim: bool,
    is_last: bool,
    set: Setting,
)
    requires
        is_mark(mark),
        !is_branch(mark),
        !set.color,
    ensures
        lacks(mark, day_axis_row(day, axis, dim, is_last, set)),
{
    broadcast use lemma_concat;

    lemma_tree(mark);
    lemma_empty(mark);
    lemma_short_axis(mark, axis, set.lang);
    lemma_tree_axis(mark, short_axis_text(axis, set.lang),
        crate::output::days::shown_on_axis(day, axis),
        dim,
    );
}

pub(crate) proof fn lemma_day_breakdown(
    mark: char,
    day: DayAggregate,
    dim: bool,
    continues: bool,
    set: Setting,
)
    requires
        is_mark(mark),
        !is_branch(mark),
        !set.color,
    ensures
        lacks(mark, day_breakdown_text(day, dim, continues, set)),
{
    broadcast use lemma_concat;

    lemma_day_axis_row(mark, day, Axis::Temperature, dim, false, set);
    lemma_day_axis_row(mark, day, Axis::Wind, dim, false, set);
    lemma_day_axis_row(mark, day, Axis::Precipitation, dim, false, set);
    lemma_day_axis_row(mark, day, Axis::Ground, dim, !continues, set);
}

pub(crate) proof fn lemma_day_tall(mark: char, stats: WindowStats, is_last: bool, set: Setting)
    requires
        is_mark(mark),
        !is_branch(mark),
        !set.color,
        stats_lack(mark, stats),
    ensures
        lacks(mark, day_tall_row(stats, is_last, set)),
        stats.figures matches Some(f) ==> lacks(mark, hourly_tall_row(f, set)),
{
    broadcast use lemma_concat;

    lemma_tree(mark);
    lemma_empty(mark);
    lemma_chip_labels(mark, set.lang);
    lemma_padded(mark, window_stats_label(set.lang), 9);
    if let Some(f) = stats.figures {
        lemma_tall(mark, f, set.lang);
    }
}

pub(crate) proof fn lemma_trailers(mark: char, ow: DayOptimum, set: Setting)
    requires
        is_mark(mark),
        !set.color,
        stats_lack(mark, ow.stats),
    ensures
        lacks(mark, reason_trailer(ow, set)),
        lacks(mark, rain_trailer(ow, set)),
        lacks(mark, points_suffix(ow.improvement as int, set.lang)),
{
    broadcast use lemma_concat;

    lemma_empty(mark);
    lemma_decimal(mark, ow.improvement as nat);
    if let Some(r) = ow.reason {
        lemma_reason(mark, r, set.lang);
    }
    if let Some(f) = ow.stats.figures {
        lemma_window_rain(mark, f, set.lang, ow.improvement > 0);
    }
    reveal_strlit(" — ");
    reveal_strlit(" · ");
    reveal_strlit(", +");
    reveal_strlit(" poeng");
    reveal_strlit(" poäng");
    assert(lacks(mark, " — "@));
    assert(lacks(mark, " · "@));
    assert(lacks(mark, ", +"@));
    assert(lacks(mark, " poeng"@));
    assert(lacks(mark, " poäng"@));
}

proof fn lemma_best_window(mark: char, optimum: Option<DayOptimum>, set: Setting)
    requires
        is_mark(mark),
        mark != STAR,
        !set.color,
        optimum matches Some(ow) ==> stats_lack(mark, ow.stats),
    ensures
        lacks(mark, best_window_text(optimum, set)),
{
    broadcast use lemma_concat;

    lemma_tree(mark);
    lemma_empty(mark);
    reveal_strlit("★ Beste vindu: ");
    reveal_strlit("★ Beste luke: ");
    reveal_strlit("★ Bästa fönster: ");
    reveal_strlit("★ Bästa lucka: ");
    reveal_strlit("–");
    reveal_strlit(" → ");
    reveal_strlit(" (");
    reveal_strlit(")");
    assert(lacks(mark, "★ Beste vindu: "@));
    assert(lacks(mark, "★ Beste luke: "@));
    assert(lacks(mark, "★ Bästa fönster: "@));
    assert(lacks(mark, "★ Bästa lucka: "@));
    assert(lacks(mark, "–"@));
    assert(lacks(mark, " → "@));
    assert(lacks(mark, " ("@));
    assert(lacks(mark, ")"@));
    if let Some(ow) = optimum {
        lemma_trailers(mark, ow, set);
        lemma_hm(mark, set.clock, ow.window.start as int);
        lemma_hm(mark, set.clock, ow.window.end as int);
        lemma_decimal(mark, ow.total as nat);
        lemma_label(mark, ow.total as int, set.lang);
    }
}

pub(crate) proof fn lemma_penalty_rows(
    mark: char,
    penalties: Seq<Penalty>,
    total: int,
    set: Setting,
)
    requires
        is_mark(mark),
        !is_branch(mark),
        !set.color,
        penalties_lack(mark, penalties),
    ensures
        lacks(mark, penalty_rows(penalties, total, set)),
    decreases penalties.len(),
{
    broadcast use lemma_concat;

    lemma_tree(mark);
    lemma_empty(mark);
    if penalties.len() > 0 {
        let shorter = penalties.drop_last();
        assert forall|i: int| 0 <= i < shorter.len() implies lacks(
            mark,
            (#[trigger] shorter[i]).message@,
        ) by {
            assert(shorter[i] == penalties[i]);
        }
        lemma_penalty_rows(mark, shorter, total, set);
        assert(lacks(mark, penalties[penalties.len() - 1].message@));
        lemma_penalty(mark, penalties.last(), set.lang);
    }
}

pub(crate) proof fn lemma_highlight_rows(
    mark: char,
    highlights: Seq<String>,
    before: int,
    total: int,
)
    requires
        is_mark(mark),
        !is_branch(mark),
        highlights_lack(mark, highlights),
    ensures
        lacks(mark, highlight_rows(highlights, before, total)),
    decreases highlights.len(),
{
    broadcast use lemma_concat;

    lemma_tree(mark);
    lemma_empty(mark);
    if highlights.len() > 0 {
        let shorter = highlights.drop_last();
        assert forall|i: int| 0 <= i < shorter.len() implies lacks(mark, (#[trigger] shorter[i])@) by {
            assert(shorter[i] == highlights[i]);
        }
        lemma_highlight_rows(mark, shorter, before, total);
        assert(lacks(mark, highlights[highlights.len() - 1]@));
        reveal_strlit(" ☀ ");
        assert(lacks(mark, " ☀ "@));
    }
}

/// Nothing that a report prints of a day holds the mark.
pub open spec fn day_lacks(mark: char, day: DayAggregate) -> bool {
    let center = day.points@[day_center(day.points@)].day_score;
    &&& lacks(mark, center.weather_icon@)
    &&& penalties_lack(mark, center.score.penalties@)
    &&& highlights_lack(mark, center.score.highlights@)
    &&& stats_lack(mark, center.score.stats)
    &&& day.optimal_window matches Some(ow) ==> stats_lack(mark, ow.stats)
}

pub(crate) proof fn lemma_day_line(mark: char, day: DayAggregate, icon: Seq<char>, set: Setting)
    requires
        is_mark(mark),
        !set.color,
        lacks(mark, icon),
    ensures
        lacks(mark, day_line(day, icon, set)),
{
    broadcast use lemma_concat;

    let label = day_text(day.date, set.spec_today(), set.lang);
    lemma_tree(mark);
    lemma_day(mark, day.date, set.spec_today(), set.lang);
    lemma_filled_up(mark, label, crate::output::bars::display_width(label), 11);
    lemma_icon_gap(mark, crate::output::bars::display_width(icon));
    lemma_bar(mark, day.mean as int);
    lemma_score_cell(mark, day.mean as int, day.confidence == Confidence::Lav);
    reveal_strlit("~");
    assert(lacks(mark, "~"@));
}

proof fn lemma_day_row(mark: char, day: DayAggregate, verbose: bool, flags: ChipFlags, set: Setting)
    requires
        is_mark(mark),
        mark != STAR,
        !is_branch(mark),
        !set.color,
        day_lacks(mark, day),
    ensures
        lacks(mark, day_row_text(day, verbose, flags, set)),
{
    broadcast use lemma_concat;

    let center = day.points@[day_center(day.points@)].day_score;
    let penalties = center.score.penalties@;
    let highlights = center.score.highlights@;
    let total = (penalties.len() + highlights.len()) as int;
    let open = day.date == set.spec_today() || verbose;
    let tall = flags.window_stats && open && !center.score.stats.has_no_figures();
    let listed = verbose && penalties.len() > 0;
    lemma_empty(mark);
    lemma_day_line(mark, day, center.weather_icon@, set);
    lemma_day_breakdown(mark, day, day.confidence == Confidence::Lav, listed || tall, set);
    lemma_day_tall(mark, center.score.stats, !listed, set);
    lemma_best_window(mark, told_window(day.optimal_window, verbose, flags), set);
    lemma_penalty_rows(mark, penalties, total, set);
    lemma_highlight_rows(mark, highlights, penalties.len() as int, total);
}

proof fn lemma_day_rows(
    mark: char,
    days: Seq<DayAggregate>,
    verbose: bool,
    flags: ChipFlags,
    set: Setting,
)
    requires
        is_mark(mark),
        mark != STAR,
        !is_branch(mark),
        !set.color,
        forall|i: int| 0 <= i < days.len() ==> day_lacks(mark, #[trigger] days[i]),
    ensures
        lacks(mark, day_rows_text(days, verbose, flags, set)),
    decreases days.len(),
{
    broadcast use lemma_concat;

    lemma_empty(mark);
    if days.len() > 0 {
        let shorter = days.drop_last();
        assert forall|i: int| 0 <= i < shorter.len() implies day_lacks(mark, #[trigger] shorter[i]) by {
            assert(shorter[i] == days[i]);
        }
        lemma_day_rows(mark, shorter, verbose, flags, set);
        assert(day_lacks(mark, days[days.len() - 1]));
        lemma_day_row(mark, days.last(), verbose, flags, set);
    }
}

pub(crate) proof fn lemma_footer(
    mark: char,
    forecast: MultiDayForecast,
    flags: ChipFlags,
    set: Setting,
)
    requires
        is_mark(mark),
        !set.color,
        history_lacks(mark, forecast.rain_history),
        forall|i: int| 0 <= i < forecast.days@.len() ==> day_lacks(mark, #[trigger] forecast.days@[i]),
    ensures
        lacks(mark, footer_text(forecast, flags, set)),
{
    broadcast use lemma_concat;

    lemma_empty(mark);
    reveal_strlit("Bakke");
    reveal_strlit("Mark");
    reveal_strlit("Skala");
    reveal_strlit("  ");
    reveal_strlit("\n");
    reveal_strlit("~         lav konfidens (>60 t — 6-t oppløsning fra MET)");
    reveal_strlit("~         låg tillförlitlighet (>60 h — 6-h upplösning från MET)");
    assert(lacks(mark, "Bakke"@));
    assert(lacks(mark, "Mark"@));
    assert(lacks(mark, "Skala"@));
    assert(lacks(mark, "  "@));
    assert(lacks(mark, "\n"@));
    assert(lacks(mark, "~         lav konfidens (>60 t — 6-t oppløsning fra MET)"@));
    assert(lacks(mark, "~         låg tillförlitlighet (>60 h — 6-h upplösning från MET)"@));
    if forecast.days@.len() > 0 {
        let points = forecast.days@[0].points@;
        assert(day_lacks(mark, forecast.days@[0]));
        lemma_ground_message(mark, points[day_center(points)].day_score.score.penalties@);
    }
    let ground = ground_chip_text(forecast);
    lemma_aligned_chip(mark, "Bakke"@, ground);
    lemma_aligned_chip(mark, "Mark"@, ground);
    lemma_chip_labels(mark, set.lang);
    lemma_wanted_rain(mark, forecast.rain_history, flags, set.lang);
    lemma_aligned_chip(mark, rain_history_label(set.lang),
        wanted_rain(forecast.rain_history, flags, set.lang),
    );
    lemma_legends(mark, set.lang);
    lemma_aligned_chip(mark, "Skala"@, Some(legend_text(set.lang, false)));
}

pub(crate) proof fn lemma_days_title(
    mark: char,
    label: Seq<char>,
    radius: Seq<char>,
    n: nat,
    lang: Language,
)
    requires
        is_mark(mark),
        lacks(mark, label),
        lacks(mark, radius),
    ensures
        lacks(mark, days_title(label, radius, n, lang)),
        lacks(mark, hourly_title(label, radius, n, lang)),
{
    broadcast use lemma_concat;

    lemma_decimal(mark, n);
    lemma_days_word(mark, n, lang);
    reveal_strlit("Grusindeks · ");
    reveal_strlit(" · ");
    reveal_strlit(" km · ");
    reveal_strlit(" ");
    reveal_strlit(" · time-for-time");
    reveal_strlit(" · timme-för-timme");
    assert(lacks(mark, "Grusindeks · "@));
    assert(lacks(mark, " · "@));
    assert(lacks(mark, " km · "@));
    assert(lacks(mark, " "@));
    assert(lacks(mark, " · time-for-time"@));
    assert(lacks(mark, " · timme-för-timme"@));
}

/// On a terminal without colour, the report on several days holds no escape
/// character unless a text handed in does.
pub proof fn a_plain_multi_day_report_is_plain(
    label: Seq<char>,
    radius: Seq<char>,
    forecast: MultiDayForecast,
    verbose: bool,
    flags: ChipFlags,
    set: Setting,
)
    requires
        !set.color,
        is_plain(label),
        is_plain(radius),
        history_lacks(ESCAPE, forecast.rain_history),
        alert_lacks(ESCAPE, forecast.nowcast_alert),
        forall|i: int| 0 <= i < forecast.days@.len() ==> day_lacks(ESCAPE, #[trigger] forecast.days@[i]),
    ensures
        is_plain(multi_day_text(label, radius, forecast, verbose, flags, set)),
{
    broadcast use lemma_concat;

    let days = forecast.days@;
    lemma_rule(ESCAPE);
    lemma_days_title(ESCAPE, label, radius, days.len(), set.lang);
    lemma_banner(ESCAPE, forecast.nowcast_alert, set);
    lemma_callout(ESCAPE, days, set);
    lemma_week_trend(ESCAPE, days, set);
    lemma_day_rows(ESCAPE, days, verbose, flags, set);
    lemma_footer(ESCAPE, forecast, flags, set);
}

// ---- Hour by hour ----

proof fn lemma_cell(mark: char, hour: Option<HourScore>, what: Shown)
    requires
        is_mark(mark),
    ensures
        lacks(mark, cell_text(hour, what, false)),
{
    reveal_strlit("··");
    assert(lacks(mark, "··"@));
    if let Some(h) = hour {
        lemma_block(mark, crate::output::hours::shown_score(h, what));
    }
}

pub(crate) proof fn lemma_cells(
    mark: char,
    day: HourlyDayAggregate,
    columns: Seq<u8>,
    what: Shown,
    set: Setting,
)
    requires
        is_mark(mark),
        !set.color,
    ensures
        lacks(mark, joined(row_cells(day, columns, what, set), " "@)),
{
    lemma_tree(mark);
    let cells = row_cells(day, columns, what, set);
    assert forall|i: int| 0 <= i < cells.len() implies lacks(mark, #[trigger] cells[i]) by {
        lemma_cell(mark, crate::output::hours::hour_at(
                day.hours@,
                set.clock,
                day.date.day_number as int,
                columns[i] as int,
            ),
            what,
        );
    }
    lemma_joined(mark, cells, " "@);
}

proof fn lemma_hourly_axis_row(
    mark: char,
    day: HourlyDayAggregate,
    columns: Seq<u8>,
    axis: Axis,
    is_last: bool,
    set: Setting,
)
    requires
        is_mark(mark),
        !is_branch(mark),
        !set.color,
    ensures
        lacks(mark, hourly_axis_row(day, columns, axis, is_last, set)),
{
    broadcast use lemma_concat;

    lemma_tree(mark);
    lemma_short_axis(mark, axis, set.lang);
    lemma_padded(mark, short_axis_text(axis, set.lang), 9);
    lemma_cells(mark, day, columns, Shown::On(axis), set);
}

proof fn lemma_hourly_breakdown(
    mark: char,
    day: HourlyDayAggregate,
    columns: Seq<u8>,
    continues: bool,
    set: Setting,
)
    requires
        is_mark(mark),
        !is_branch(mark),
        !set.color,
    ensures
        lacks(mark, hourly_breakdown_text(day, columns, continues, set)),
{
    broadcast use lemma_concat;

    lemma_hourly_axis_row(mark, day, columns, Axis::Temperature, false, set);
    lemma_hourly_axis_row(mark, day, columns, Axis::Wind, false, set);
    lemma_hourly_axis_row(mark, day, columns, Axis::Precipitation, false, set);
    lemma_hourly_axis_row(mark, day, columns, Axis::Ground, !continues, set);
}

/// The printed figures of a day of the grid do not hold the mark.
pub open spec fn hourly_day_lacks(mark: char, day: HourlyDayAggregate) -> bool {
    day.stats matches Some(f) ==> stats_lack(mark, WindowStats { figures: Some(f) })
}

proof fn lemma_hourly_day(
    mark: char,
    day: HourlyDayAggregate,
    columns: Seq<u8>,
    verbose: bool,
    flags: ChipFlags,
    set: Setting,
)
    requires
        is_mark(mark),
        !is_branch(mark),
        !set.color,
        hourly_day_lacks(mark, day),
    ensures
        lacks(mark, hourly_day_text(day, columns, verbose, flags, set)),
{
    broadcast use lemma_concat;

    let label = day_text(day.date, set.spec_today(), set.lang);
    lemma_tree(mark);
    lemma_empty(mark);
    lemma_day(mark, day.date, set.spec_today(), set.lang);
    lemma_filled_up(mark, label, crate::output::bars::display_width(label), 11);
    lemma_cells(mark, day, columns, Shown::Mean, set);
    lemma_hourly_breakdown(mark, day, columns, true, set);
    lemma_hourly_breakdown(mark, day, columns, false, set);
    if let Some(f) = day.stats {
        lemma_day_tall(mark, WindowStats { figures: Some(f) }, true, set);
    }
    assert(lacks(mark, hourly_details(day, columns, flags, set)));
}

proof fn lemma_hourly_rows(
    mark: char,
    days: Seq<HourlyDayAggregate>,
    columns: Seq<u8>,
    verbose: bool,
    flags: ChipFlags,
    set: Setting,
)
    requires
        is_mark(mark),
        !is_branch(mark),
        !set.color,
        forall|i: int| 0 <= i < days.len() ==> hourly_day_lacks(mark, #[trigger] days[i]),
    ensures
        lacks(mark, hourly_rows_text(days, columns, verbose, flags, set)),
    decreases days.len(),
{
    broadcast use lemma_concat;

    lemma_empty(mark);
    if days.len() > 0 {
        let shorter = days.drop_last();
        assert forall|i: int| 0 <= i < shorter.len() implies hourly_day_lacks(
            mark,
            #[trigger] shorter[i],
        ) by {
            assert(shorter[i] == days[i]);
        }
        lemma_hourly_rows(mark, shorter, columns, verbose, flags, set);
        assert(hourly_day_lacks(mark, days[days.len() - 1]));
        lemma_hourly_day(mark, days.last(), columns, verbose, flags, set);
    }
}

pub(crate) proof fn lemma_header_row(mark: char, columns: Seq<u8>)
    requires
        is_mark(mark),
    ensures
        lacks(mark, header_row(columns, false)),
{
    broadcast use lemma_concat;

    lemma_tree(mark);
    let cells = header_cells(columns);
    assert forall|i: int| 0 <= i < cells.len() implies lacks(mark, #[trigger] cells[i]) by {
        lemma_decimal(mark, columns[i] as nat);
        lemma_padded(mark, decimal(columns[i] as nat), 2);
    }
    lemma_joined(mark, cells, " "@);
    assert(lacks(mark, spaces(11)));
}

pub(crate) proof fn lemma_hourly_footer(
    mark: char,
    forecast: HourlyForecast,
    flags: ChipFlags,
    set: Setting,
)
    requires
        is_mark(mark),
        !set.color,
        history_lacks(mark, forecast.rain_history),
    ensures
        lacks(mark, hourly_footer_text(forecast, flags, set)),
{
    broadcast use lemma_concat;

    reveal_strlit("Skala");
    reveal_strlit("  ");
    reveal_strlit("\n");
    reveal_strlit("··      utenfor sykkelvinduet");
    reveal_strlit("··      utanför åkfönstret");
    assert(lacks(mark, "Skala"@));
    assert(lacks(mark, "  "@));
    assert(lacks(mark, "\n"@));
    assert(lacks(mark, "··      utenfor sykkelvinduet"@));
    assert(lacks(mark, "··      utanför åkfönstret"@));
    lemma_chip_labels(mark, set.lang);
    lemma_wanted_rain(mark, forecast.rain_history, flags, set.lang);
    lemma_chip(mark, rain_history_label(set.lang),
        wanted_rain(forecast.rain_history, flags, set.lang),
    );
    lemma_legends(mark, set.lang);
    lemma_chip(mark, "Skala"@, Some(hourly_legend_text(set.lang, false)));
}

proof fn lemma_grid(
    mark: char,
    forecast: HourlyForecast,
    verbose: bool,
    flags: ChipFlags,
    set: Setting,
)
    requires
        is_mark(mark),
        !is_branch(mark),
        !set.color,
        history_lacks(mark, forecast.rain_history),
        forall|i: int|
            0 <= i < forecast.days@.len() ==> hourly_day_lacks(mark, #[trigger] forecast.days@[i]),
    ensures
        lacks(mark, grid_text(forecast, verbose, flags, set)),
{
    broadcast use lemma_concat;

    reveal_strlit("  ");
    reveal_strlit("\n");
    reveal_strlit("Ingen timer i konfigurert dag-vindu.");
    reveal_strlit("Inga timmar i konfigurerat dag-fönster.");
    assert(lacks(mark, "  "@));
    assert(lacks(mark, "\n"@));
    assert(lacks(mark, "Ingen timer i konfigurert dag-vindu."@));
    assert(lacks(mark, "Inga timmar i konfigurerat dag-fönster."@));
    lemma_header_row(mark, forecast.header_hours@);
    lemma_hourly_rows(mark, forecast.days@, forecast.header_hours@, verbose, flags, set);
    lemma_hourly_footer(mark, forecast, flags, set);
}

/// On a terminal without colour, the report hour by hour holds no escape
/// character unless a text handed in does.
pub proof fn a_plain_hourly_report_is_plain(
    label: Seq<char>,
    radius: Seq<char>,
    forecast: HourlyForecast,
    verbose: bool,
    flags: ChipFlags,
    set: Setting,
)
    requires
        !set.color,
        is_plain(label),
        is_plain(radius),
        history_lacks(ESCAPE, forecast.rain_history),
        alert_lacks(ESCAPE, forecast.nowcast_alert),
        forall|i: int|
            0 <= i < forecast.days@.len() ==> hourly_day_lacks(ESCAPE, #[trigger] forecast.days@[i]),
    ensures
        is_plain(hourly_text(label, radius, forecast, verbose, flags, set)),
{
    broadcast use lemma_concat;

    lemma_rule(ESCAPE);
    lemma_days_title(ESCAPE, label, radius, forecast.days@.len(), set.lang);
    lemma_banner(ESCAPE, forecast.nowcast_alert, set);
    lemma_grid(ESCAPE, forecast, verbose, flags, set);
}

} // verus!
