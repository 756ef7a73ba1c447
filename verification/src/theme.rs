//! Gruvbox dark palette and small styling helpers for the human renderer.
//!
//! Colours map to score buckets (the same buckets
//! [`crate::score::label_for`] uses) and to penalty severity. Whether the
//! terminal takes colour is found out elsewhere and comes in as a flag; without
//! it every helper hands its text back plain.
use vstd::prelude::*;

use owo_colors::Style;

use crate::daily::Confidence;
use crate::lang::Language;
use crate::score::{Component, Severity};
use crate::text::{decimal, decimal_text};

verus! {

/// A colour of the palette. The background is the terminal's own, so the
/// palette has none.
#[derive(Debug, Clone, Copy, PartialEq, Eq, Structural)]
pub enum Rgb {
    Fg,
    Gray,
    Red,
    Orange,
    Yellow,
    Green,
    Aqua,
    Blue,
    Purple,
}

pub const FG: Rgb = Rgb::Fg;

pub const GRAY: Rgb = Rgb::Gray;

pub const RED: Rgb = Rgb::Red;

pub const ORANGE: Rgb = Rgb::Orange;

pub const YELLOW: Rgb = Rgb::Yellow;

pub const GREEN: Rgb = Rgb::Green;

pub const AQUA: Rgb = Rgb::Aqua;

pub const BLUE: Rgb = Rgb::Blue;

pub const PURPLE: Rgb = Rgb::Purple;

impl Rgb {
    /// Red, green and blue.
    pub open spec fn spec_parts(self) -> (u8, u8, u8) {
        match self {
            Rgb::Fg => (0xeb, 0xdb, 0xb2),
            Rgb::Gray => (0x92, 0x83, 0x74),
            Rgb::Red => (0xfb, 0x49, 0x34),
            Rgb::Orange => (0xfe, 0x80, 0x19),
            Rgb::Yellow => (0xfa, 0xbd, 0x2f),
            Rgb::Green => (0xb8, 0xbb, 0x26),
            Rgb::Aqua => (0x8e, 0xc0, 0x7c),
            Rgb::Blue => (0x83, 0xa5, 0x98),
            Rgb::Purple => (0xd3, 0x86, 0x9b),
        }
    }

    /// Red, green and blue.
    pub fn parts(self) -> (parts: (u8, u8, u8))
        ensures
            parts == self.spec_parts(),
    {
        match self {
            Rgb::Fg => (0xeb, 0xdb, 0xb2),
            Rgb::Gray => (0x92, 0x83, 0x74),
            Rgb::Red => (0xfb, 0x49, 0x34),
            Rgb::Orange => (0xfe, 0x80, 0x19),
            Rgb::Yellow => (0xfa, 0xbd, 0x2f),
            Rgb::Green => (0xb8, 0xbb, 0x26),
            Rgb::Aqua => (0x8e, 0xc0, 0x7c),
            Rgb::Blue => (0x83, 0xa5, 0x98),
            Rgb::Purple => (0xd3, 0x86, 0x9b),
        }
    }
}

/// The colour of a total: one colour per label.
pub open spec fn color_of_score(total: int) -> Rgb {
    if total <= 24 {
        RED
    } else if total <= 44 {
        ORANGE
    } else if total <= 64 {
        YELLOW
    } else if total <= 84 {
        GREEN
    } else {
        AQUA
    }
}

/// Color a 0–100 score by the bucket boundaries of its label.
pub fn score_color(total: u8) -> (color: Rgb)
    ensures
        color == color_of_score(total as int),
{
    if total <= 24 {
        RED
    } else if total <= 44 {
        ORANGE
    } else if total <= 64 {
        YELLOW
    } else if total <= 84 {
        GREEN
    } else {
        AQUA
    }
}

pub open spec fn color_of_severity(s: Severity) -> Rgb {
    match s {
        Severity::Minor => YELLOW,
        Severity::Major => ORANGE,
        Severity::Critical => RED,
    }
}

/// Color a `Severity` so a list of penalties reads like a triage list.
pub fn severity_color(s: Severity) -> (color: Rgb)
    ensures
        color == color_of_severity(s),
{
    match s {
        Severity::Minor => YELLOW,
        Severity::Major => ORANGE,
        Severity::Critical => RED,
    }
}

pub open spec fn color_of_component(c: Component) -> Rgb {
    match c {
        Component::Temperature => YELLOW,
        Component::Wind => ORANGE,
        Component::Precipitation => BLUE,
        Component::PrecipProbability => BLUE,
        Component::Ground => PURPLE,
        Component::HardCap => RED,
        Component::NoData => RED,
    }
}

/// Per-component accent of the label prefix on a penalty line.
pub fn component_color(c: Component) -> (color: Rgb)
    ensures
        color == color_of_component(c),
{
    match c {
        Component::Temperature => YELLOW,
        Component::Wind => ORANGE,
        Component::Precipitation => BLUE,
        Component::PrecipProbability => BLUE,
        Component::Ground => PURPLE,
        Component::HardCap => RED,
        Component::NoData => RED,
    }
}

pub open spec fn component_text(c: Component, lang: Language) -> Seq<char> {
    match (lang, c) {
        (Language::Norwegian, Component::Temperature) => "Temperatur"@,
        (Language::Norwegian, Component::Wind) => "Vind"@,
        (Language::Norwegian, Component::Precipitation) => "Nedbør"@,
        (Language::Norwegian, Component::PrecipProbability) => "Sannsynlighet"@,
        (Language::Norwegian, Component::Ground) => "Bakke"@,
        (Language::Norwegian, Component::HardCap) => "Advarsel"@,
        (Language::Norwegian, Component::NoData) => "Ingen data"@,
        (Language::Swedish, Component::Temperature) => "Temperatur"@,
        (Language::Swedish, Component::Wind) => "Vind"@,
        (Language::Swedish, Component::Precipitation) => "Nederbörd"@,
        (Language::Swedish, Component::PrecipProbability) => "Sannolikhet"@,
        (Language::Swedish, Component::Ground) => "Mark"@,
        (Language::Swedish, Component::HardCap) => "Varning"@,
        (Language::Swedish, Component::NoData) => "Inga data"@,
    }
}

/// Norwegian label prefix for a component, used on penalty rows.
pub fn component_label_no(c: Component) -> (label: &'static str)
    ensures
        label@ == component_text(c, Language::Norwegian),
{
    match c {
        Component::Temperature => "Temperatur",
        Component::Wind => "Vind",
        Component::Precipitation => "Nedbør",
        Component::PrecipProbability => "Sannsynlighet",
        Component::Ground => "Bakke",
        Component::HardCap => "Advarsel",
        Component::NoData => "Ingen data",
    }
}

/// Label prefix for a component in the requested language.
pub fn component_label(c: Component, lang: Language) -> (label: &'static str)
    ensures
        label@ == component_text(c, lang),
{
    match lang {
        Language::Norwegian => component_label_no(c),
        Language::Swedish => match c {
            Component::Temperature => "Temperatur",
            Component::Wind => "Vind",
            Component::Precipitation => "Nederbörd",
            Component::PrecipProbability => "Sannolikhet",
            Component::Ground => "Mark",
            Component::HardCap => "Varning",
            Component::NoData => "Inga data",
        },
    }
}

/// Long-range days have low confidence — render them dimmer so the eye
/// naturally lands on the trustworthy near-term days first.
pub fn dim_for_confidence(confidence: Confidence) -> (dim: bool)
    ensures
        dim == (confidence == Confidence::Lav),
{
    matches!(confidence, Confidence::Lav)
}

// ---- Escape sequences ----

/// Red, green and blue in decimal, with semicolons between them.
pub open spec fn rgb_text(parts: (u8, u8, u8)) -> Seq<char> {
    decimal(parts.0 as nat) + seq![';'] + decimal(parts.1 as nat) + seq![';'] + decimal(
        parts.2 as nat,
    )
}

/// The escape sequence that switches the style on.
pub open spec fn style_start(fg: (u8, u8, u8), bg: Option<(u8, u8, u8)>, bold: bool) -> Seq<char> {
    seq!['\u{1b}', '[', '3', '8', ';', '2', ';'] + rgb_text(fg) + (match bg {
        Some(c) => seq![';', '4', '8', ';', '2', ';'] + rgb_text(c),
        None => Seq::empty(),
    }) + (if bold {
        seq![';', '1']
    } else {
        Seq::empty()
    }) + seq!['m']
}

/// The escape sequence that switches every style off.
pub open spec fn style_end() -> Seq<char> {
    seq!['\u{1b}', '[', '0', 'm']
}

/// `text` between the sequences that switch its style on and off.
pub open spec fn styled(
    text: Seq<char>,
    fg: (u8, u8, u8),
    bg: Option<(u8, u8, u8)>,
    bold: bool,
) -> Seq<char> {
    style_start(fg, bg, bold) + text + style_end()
}

/// `owo_colors::Style` with a foreground colour, displayed around a text: the
/// escape sequence of the colour, the text, and the sequence that resets.
#[verifier::external_body]
fn style_foreground(text: &str, fg: (u8, u8, u8)) -> (out: String)
    ensures
        out@ == styled(text@, fg, None, false),
{
    let style = Style::new().color(owo_colors::Rgb(fg.0, fg.1, fg.2));
    format!("{}", style.style(text))
}

/// `owo_colors::Style` with a foreground colour and `bold`, displayed around a
/// text: one escape sequence for both, the text, and the sequence that resets.
#[verifier::external_body]
fn style_bold(text: &str, fg: (u8, u8, u8)) -> (out: String)
    ensures
        out@ == styled(text@, fg, None, true),
{
    let style = Style::new().color(owo_colors::Rgb(fg.0, fg.1, fg.2)).bold();
    format!("{}", style.style(text))
}

/// `owo_colors::Style` with foreground and background colour, displayed around
/// a text: one escape sequence for both, the text, and the sequence that
/// resets.
#[verifier::external_body]
fn style_on(text: &str, fg: (u8, u8, u8), bg: (u8, u8, u8)) -> (out: String)
    ensures
        out@ == styled(text@, fg, Some(bg), false),
{
    let style = Style::new().color(owo_colors::Rgb(fg.0, fg.1, fg.2)).on_color(
        owo_colors::Rgb(bg.0, bg.1, bg.2),
    );
    format!("{}", style.style(text))
}

// ---- Style helpers ----

/// `text` in a style where the terminal takes colour, plain otherwise.
pub open spec fn painted(
    text: Seq<char>,
    fg: Rgb,
    bg: Option<Rgb>,
    bold: bool,
    color: bool,
) -> Seq<char> {
    if color {
        styled(
            text,
            fg.spec_parts(),
            match bg {
                Some(c) => Some(c.spec_parts()),
                None => None,
            },
            bold,
        )
    } else {
        text
    }
}

pub open spec fn in_score_color(text: Seq<char>, total: int, bold: bool, color: bool) -> Seq<char> {
    painted(text, color_of_score(total), None, bold, color)
}

pub open spec fn dimmed(text: Seq<char>, color: bool) -> Seq<char> {
    painted(text, GRAY, None, false, color)
}

pub open spec fn in_severity_color(text: Seq<char>, s: Severity, color: bool) -> Seq<char> {
    painted(text, color_of_severity(s), None, false, color)
}

fn paint(text: &str, fg: Rgb, color: bool) -> (out: String)
    ensures
        out@ == painted(text@, fg, None, false, color),
{
    if color {
        style_foreground(text, fg.parts())
    } else {
        text.to_owned()
    }
}

fn paint_bold(text: &str, fg: Rgb, color: bool) -> (out: String)
    ensures
        out@ == painted(text@, fg, None, true, color),
{
    if color {
        style_bold(text, fg.parts())
    } else {
        text.to_owned()
    }
}

/// A total in its colour.
pub fn paint_score(total: u8, color: bool) -> (out: String)
    ensures
        out@ == in_score_color(decimal(total as nat), total as int, true, color),
{
    paint_bold(decimal_text(total as u64).as_str(), score_color(total), color)
}

/// Like [`paint_score`], but takes a pre-formatted string.
pub fn paint_score_str(text: &str, total: u8, color: bool) -> (out: String)
    ensures
        out@ == in_score_color(text@, total as int, true, color),
{
    paint_bold(text, score_color(total), color)
}

pub fn paint_label(label: &str, total: u8, color: bool) -> (out: String)
    ensures
        out@ == in_score_color(label@, total as int, false, color),
{
    paint(label, score_color(total), color)
}

pub fn paint_bar_filled(text: &str, total: u8, color: bool) -> (out: String)
    ensures
        out@ == in_score_color(text@, total as int, false, color),
{
    paint(text, score_color(total), color)
}

/// The cell between the filled and the empty part of a bar: score colour on
/// gray, so that the bar reads as continuous.
pub fn paint_bar_partial(text: &str, total: u8, color: bool) -> (out: String)
    ensures
        out@ == painted(text@, color_of_score(total as int), Some(GRAY), false, color),
{
    if color {
        style_on(text, score_color(total).parts(), GRAY.parts())
    } else {
        text.to_owned()
    }
}

pub fn paint_bar_empty(text: &str, color: bool) -> (out: String)
    ensures
        out@ == dimmed(text@, color),
{
    paint(text, GRAY, color)
}

/// The score colour without emphasis.
pub fn paint_score_soft(text: &str, total: u8, color: bool) -> (out: String)
    ensures
        out@ == in_score_color(text@, total as int, false, color),
{
    paint(text, score_color(total), color)
}

pub fn paint_dim(text: &str, color: bool) -> (out: String)
    ensures
        out@ == dimmed(text@, color),
{
    paint(text, GRAY, color)
}

pub fn paint_fg(text: &str, color: bool) -> (out: String)
    ensures
        out@ == painted(text@, FG, None, false, color),
{
    paint(text, FG, color)
}

pub fn paint_accent(text: &str, color: bool) -> (out: String)
    ensures
        out@ == painted(text@, PURPLE, None, true, color),
{
    paint_bold(text, PURPLE, color)
}

pub fn paint_severity(text: &str, severity: Severity, color: bool) -> (out: String)
    ensures
        out@ == in_severity_color(text@, severity, color),
{
    paint(text, severity_color(severity), color)
}

pub fn paint_component_label(c: Component, lang: Language, color: bool) -> (out: String)
    ensures
        out@ == painted(component_text(c, lang), color_of_component(c), None, true, color),
{
    paint_bold(component_label(c, lang), component_color(c), color)
}

/// Totals with the same label have the same colour, and totals with different
/// labels different ones.
pub proof fn colour_and_label_agree(a: int, b: int, lang: Language)
    ensures
        color_of_score(a) == color_of_score(b) <==> crate::score::label_text(a, lang)
            == crate::score::label_text(b, lang),
{
    reveal_strlit("Dårlig");
    reveal_strlit("Marginalt");
    reveal_strlit("OK");
    reveal_strlit("Bra");
    reveal_strlit("Strålende");
    reveal_strlit("Dåligt");
    reveal_strlit("Marginellt");
    reveal_strlit("Strålande");
    assert("Dårlig"@[0] == 'D' && "Marginalt"@[0] == 'M' && "OK"@[0] == 'O' && "Bra"@[0] == 'B'
        && "Strålende"@[0] == 'S');
    assert("Dåligt"@[0] == 'D' && "Marginellt"@[0] == 'M' && "Strålande"@[0] == 'S');
}

/// Without colour every helper hands its text back as it is.
pub proof fn plain_terminals_get_plain_text(text: Seq<char>, fg: Rgb, bg: Option<Rgb>, bold: bool)
    ensures
        painted(text, fg, bg, bold, false) == text,
{
}

} // verus!
