//! Bars, blocks and columns of the human renderer.
use vstd::prelude::*;
use vstd::string::StringExecFns;

use unicode_width::UnicodeWidthStr;

use crate::lang::Language;
use crate::text::{push_repeated, push_spaces, repeated, spaces};
use crate::theme::{
    color_of_score, dimmed, in_score_color, paint_bar_empty, paint_bar_filled, paint_bar_partial,
    paint_label, paint_score_str, painted, GRAY,
};

verus! {

/// How many cells of a bar can be full below the top of the scale. One more
/// cell takes the remainder, so a bar is ten cells wide.
pub const BAR_FULL_CELLS: usize = 9;

/// Eighths of a cell that a value fills.
pub open spec fn bar_eighths(value: int) -> int {
    let eighths = (value * 72 + 50) / 100;
    if eighths > 72 {
        72
    } else {
        eighths
    }
}

/// The block that fills `eighths` of a cell from the left.
pub open spec fn partial_block(eighths: int) -> Seq<char> {
    if eighths == 1 {
        "▏"@
    } else if eighths == 2 {
        "▎"@
    } else if eighths == 3 {
        "▍"@
    } else if eighths == 4 {
        "▌"@
    } else if eighths == 5 {
        "▋"@
    } else if eighths == 6 {
        "▊"@
    } else {
        "▉"@
    }
}

/// A bar for a value: full cells in the score colour, a partial cell on gray,
/// and the rest empty. At the top of the scale all ten cells are full.
pub open spec fn bar_text(value: int, color: bool) -> Seq<char> {
    let full = bar_eighths(value) / 8;
    let rest = bar_eighths(value) % 8;
    if full == 9 {
        in_score_color(repeated("█"@, 10), value, false, color)
    } else {
        in_score_color(repeated("█"@, full as nat), value, false, color) + (if rest == 0 {
            Seq::empty()
        } else {
            painted(partial_block(rest), color_of_score(value), Some(GRAY), false, color)
        }) + dimmed(
            repeated(
                "▒"@,
                (10 - full - if rest == 0 {
                    0int
                } else {
                    1
                }) as nat,
            ),
            color,
        )
    }
}

fn block_of(eighths: u32) -> (block: &'static str)
    ensures
        block@ == partial_block(eighths as int),
{
    if eighths == 1 {
        "▏"
    } else if eighths == 2 {
        "▎"
    } else if eighths == 3 {
        "▍"
    } else if eighths == 4 {
        "▌"
    } else if eighths == 5 {
        "▋"
    } else if eighths == 6 {
        "▊"
    } else {
        "▉"
    }
}

fn row_of(unit: &str, n: usize) -> (row: String)
    ensures
        row@ == repeated(unit@, n as nat),
{
    let mut row = String::new();
    push_repeated(&mut row, unit, n);
    proof {
        assert(row@ =~= repeated(unit@, n as nat));
    }
    row
}

/// Bar with the filled portion painted in the score colour and the empty
/// portion dimmed.
pub fn colored_bar(value: u8, color: bool) -> (bar: String)
    ensures
        bar@ == bar_text(value as int, color),
{
    let eighths: u32 = (value as u32 * 72 + 50) / 100;
    let eighths: u32 = if eighths > 72 {
        72
    } else {
        eighths
    };
    let full: usize = (eighths / 8) as usize;
    let rest: u32 = eighths % 8;
    if full == BAR_FULL_CELLS {
        return paint_bar_filled(row_of("█", BAR_FULL_CELLS + 1).as_str(), value, color);
    }
    let mut bar = paint_bar_filled(row_of("█", full).as_str(), value, color);
    let ghost filled = bar@;
    let mut empty: usize = BAR_FULL_CELLS + 1 - full;
    if rest != 0 {
        empty = empty - 1;
        bar.append(paint_bar_partial(block_of(rest), value, color).as_str());
    } else {
        proof {
            assert(filled + Seq::<char>::empty() =~= filled);
        }
    }
    bar.append(paint_bar_empty(row_of("▒", empty).as_str(), color).as_str());
    bar
}

/// The sparkline block of a value.
pub open spec fn spark_text(value: int) -> Seq<char> {
    let level = (value * 7 + 50) / 100;
    if level <= 0 {
        "▁"@
    } else if level == 1 {
        "▂"@
    } else if level == 2 {
        "▃"@
    } else if level == 3 {
        "▄"@
    } else if level == 4 {
        "▅"@
    } else if level == 5 {
        "▆"@
    } else if level == 6 {
        "▇"@
    } else {
        "█"@
    }
}

/// 8-level sparkline glyph: maps a 0–100 score to the closest block.
pub fn sparkline_glyph(value: u8) -> (glyph: &'static str)
    ensures
        glyph@ == spark_text(value as int),
{
    let level: u32 = (value as u32 * 7 + 50) / 100;
    if level == 0 {
        "▁"
    } else if level == 1 {
        "▂"
    } else if level == 2 {
        "▃"
    } else if level == 3 {
        "▄"
    } else if level == 4 {
        "▅"
    } else if level == 5 {
        "▆"
    } else if level == 6 {
        "▇"
    } else {
        "█"
    }
}

/// The slope from the first to the last of several values.
pub open spec fn trend_text(values: Seq<u8>) -> Seq<char> {
    if values.len() < 2 {
        "→"@
    } else if values.last() - values[0] >= 5 {
        "↗"@
    } else if values.last() - values[0] <= -5 {
        "↘"@
    } else {
        "→"@
    }
}

/// Slope arrow over a sequence of daily scores.
pub fn trend_arrow(values: &Vec<u8>) -> (arrow: &'static str)
    ensures
        arrow@ == trend_text(values@),
{
    if values.len() < 2 {
        return "→";
    }
    let first: i32 = values[0] as i32;
    let last: i32 = values[values.len() - 1] as i32;
    if last - first >= 5 {
        "↗"
    } else if last - first <= -5 {
        "↘"
    } else {
        "→"
    }
}

/// The shading of a score: the higher, the denser.
pub open spec fn block_text(mean: int) -> Seq<char> {
    if mean <= 44 {
        "░░"@
    } else if mean <= 64 {
        "▒▒"@
    } else if mean <= 84 {
        "▓▓"@
    } else {
        "██"@
    }
}

/// Map a 0–100 score to a 2-cell shading glyph.
pub fn hourly_block_glyph(mean: u8) -> (glyph: &'static str)
    ensures
        glyph@ == block_text(mean as int),
{
    if mean <= 44 {
        "░░"
    } else if mean <= 64 {
        "▒▒"
    } else if mean <= 84 {
        "▓▓"
    } else {
        "██"
    }
}

// ---- Legends ----

/// The names of the buckets in running text, lowest first.
pub open spec fn bucket_words(lang: Language) -> (
    Seq<char>,
    Seq<char>,
    Seq<char>,
    Seq<char>,
    Seq<char>,
) {
    match lang {
        Language::Norwegian => ("dårlig"@, "marginalt"@, "ok"@, "bra"@, "strålende"@),
        Language::Swedish => ("dåligt"@, "marginellt"@, "ok"@, "bra"@, "strålande"@),
    }
}

fn bucket_names(lang: Language) -> (words: (
    &'static str,
    &'static str,
    &'static str,
    &'static str,
    &'static str,
))
    ensures
        words.0@ == bucket_words(lang).0,
        words.1@ == bucket_words(lang).1,
        words.2@ == bucket_words(lang).2,
        words.3@ == bucket_words(lang).3,
        words.4@ == bucket_words(lang).4,
{
    match lang {
        Language::Norwegian => ("dårlig", "marginalt", "ok", "bra", "strålende"),
        Language::Swedish => ("dåligt", "marginellt", "ok", "bra", "strålande"),
    }
}

/// The lowest score of each bucket with its name.
pub open spec fn legend_text(lang: Language, color: bool) -> Seq<char> {
    let words = bucket_words(lang);
    "0 "@ + in_score_color(words.0, 0, false, color) + " · 25 "@ + in_score_color(
        words.1,
        25,
        false,
        color,
    ) + " · 45 "@ + in_score_color(words.2, 45, false, color) + " · 65 "@ + in_score_color(
        words.3,
        65,
        false,
        color,
    ) + " · 85 "@ + in_score_color(words.4, 85, false, color)
}

/// One-line bucket legend, each label in the colour of its bucket.
pub fn bucket_legend(lang: Language, color: bool) -> (legend: String)
    ensures
        legend@ == legend_text(lang, color),
{
    let words = bucket_names(lang);
    let mut legend = "0 ".to_owned();
    legend.append(paint_label(words.0, 0, color).as_str());
    legend.append(" · 25 ");
    legend.append(paint_label(words.1, 25, color).as_str());
    legend.append(" · 45 ");
    legend.append(paint_label(words.2, 45, color).as_str());
    legend.append(" · 65 ");
    legend.append(paint_label(words.3, 65, color).as_str());
    legend.append(" · 85 ");
    legend.append(paint_label(words.4, 85, color).as_str());
    legend
}

/// A shading and the name of its bucket, both in the bucket's colour.
pub open spec fn shaded_name(
    shade: Seq<char>,
    name: Seq<char>,
    total: int,
    color: bool,
) -> Seq<char> {
    in_score_color(shade, total, true, color) + " "@ + in_score_color(name, total, false, color)
}

fn shaded(shade: &str, name: &str, total: u8, color: bool) -> (text: String)
    ensures
        text@ == shaded_name(shade@, name@, total as int, color),
{
    let mut text = paint_score_str(shade, total, color);
    text.append(" ");
    text.append(paint_label(name, total, color).as_str());
    text
}

/// Each bucket with its shading.
pub open spec fn hourly_legend_text(lang: Language, color: bool) -> Seq<char> {
    let words = bucket_words(lang);
    shaded_name("░"@, words.0, 0, color) + " · "@ + shaded_name("░"@, words.1, 25, color)
        + " · "@ + shaded_name("▒"@, words.2, 45, color) + " · "@ + shaded_name(
        "▓"@,
        words.3,
        65,
        color,
    ) + " · "@ + shaded_name("█"@, words.4, 85, color)
}

/// Glyph-prefixed legend for the hourly view.
pub fn hourly_bucket_legend(lang: Language, color: bool) -> (legend: String)
    ensures
        legend@ == hourly_legend_text(lang, color),
{
    let words = bucket_names(lang);
    let mut legend = shaded("░", words.0, 0, color);
    legend.append(" · ");
    legend.append(shaded("░", words.1, 25, color).as_str());
    legend.append(" · ");
    legend.append(shaded("▒", words.2, 45, color).as_str());
    legend.append(" · ");
    legend.append(shaded("▓", words.3, 65, color).as_str());
    legend.append(" · ");
    legend.append(shaded("█", words.4, 85, color).as_str());
    legend
}

// ---- Columns ----

/// How many terminal columns `unicode_width` gives a text.
pub uninterp spec fn display_width(text: Seq<char>) -> nat;

/// `UnicodeWidthStr::width`: the columns that a text takes on a terminal, a
/// function of its characters alone.
#[verifier::external_body]
pub(crate) fn columns_of(text: &str) -> (columns: usize)
    ensures
        columns == display_width(text@),
{
    UnicodeWidthStr::width(text)
}

/// `coloured` followed by the spaces that bring `columns` to `target`.
pub open spec fn filled_up(coloured: Seq<char>, columns: nat, target: nat) -> Seq<char> {
    coloured + spaces(if columns < target { (target - columns) as nat } else { 0 })
}

/// Fill a text that takes `columns` columns up to `target`.
pub fn fill_up(coloured: &str, columns: usize, target: usize) -> (out: String)
    ensures
        out@ == filled_up(coloured@, columns as nat, target as nat),
{
    let mut out = coloured.to_owned();
    if columns < target {
        push_spaces(&mut out, target - columns);
    } else {
        proof {
            assert(coloured@ + spaces(0) =~= coloured@);
        }
    }
    out
}

/// Pad a coloured string to `target_visible_width`. `visible` is what the eye
/// sees of it.
pub fn pad_right(coloured: &str, visible: &str, target_visible_width: usize) -> (out: String)
    ensures
        out@ == filled_up(coloured@, display_width(visible@), target_visible_width as nat),
{
    fill_up(coloured, columns_of(visible), target_visible_width)
}

/// The padding behind an icon of that many columns.
pub open spec fn icon_gap(columns: nat) -> Seq<char> {
    if columns >= 3 {
        ""@
    } else if columns == 2 {
        " "@
    } else {
        "  "@
    }
}

/// The padding behind an icon of that many columns.
pub fn icon_gap_for(columns: usize) -> (gap: &'static str)
    ensures
        gap@ == icon_gap(columns as nat),
{
    if columns >= 3 {
        ""
    } else if columns == 2 {
        " "
    } else {
        "  "
    }
}

/// Padding for the weather icon, so that narrow and wide glyphs leave the same
/// gap before the bar.
pub fn icon_pad(icon: &str) -> (gap: &'static str)
    ensures
        gap@ == icon_gap(display_width(icon@)),
{
    icon_gap_for(columns_of(icon))
}

} // verus!
