//! Words and dates of the human renderer.
use vstd::prelude::*;
use vstd::string::StringExecFns;

use crate::aggregate::Axis;
use crate::lang::Language;
use crate::score::thresholds::{W_PRECIP, W_PROB};
use crate::text::{decimal, push_decimal};
use crate::time::{truncated_div, weekday_index, Date, Weekday, MINUTE};

verus! {

// ---- Dates ----

/// The two letters of a weekday, counted from Monday.
pub open spec fn weekday_text(index: int, lang: Language) -> Seq<char> {
    match lang {
        Language::Norwegian => if index == 0 {
            "ma"@
        } else if index == 1 {
            "ti"@
        } else if index == 2 {
            "on"@
        } else if index == 3 {
            "to"@
        } else if index == 4 {
            "fr"@
        } else if index == 5 {
            "lø"@
        } else {
            "sø"@
        },
        Language::Swedish => if index == 0 {
            "må"@
        } else if index == 1 {
            "ti"@
        } else if index == 2 {
            "on"@
        } else if index == 3 {
            "to"@
        } else if index == 4 {
            "fr"@
        } else if index == 5 {
            "lö"@
        } else {
            "sö"@
        },
    }
}

/// Two-letter weekday abbreviation in the requested language.
pub fn weekday(date: Date, lang: Language) -> (text: &'static str)
    requires
        date.valid(),
    ensures
        text@ == weekday_text(weekday_index(date.day_number as int), lang),
{
    match (lang, date.weekday()) {
        (Language::Norwegian, Weekday::Mon) => "ma",
        (Language::Norwegian, Weekday::Tue) => "ti",
        (Language::Norwegian, Weekday::Wed) => "on",
        (Language::Norwegian, Weekday::Thu) => "to",
        (Language::Norwegian, Weekday::Fri) => "fr",
        (Language::Norwegian, Weekday::Sat) => "lø",
        (Language::Norwegian, Weekday::Sun) => "sø",
        (Language::Swedish, Weekday::Mon) => "må",
        (Language::Swedish, Weekday::Tue) => "ti",
        (Language::Swedish, Weekday::Wed) => "on",
        (Language::Swedish, Weekday::Thu) => "to",
        (Language::Swedish, Weekday::Fri) => "fr",
        (Language::Swedish, Weekday::Sat) => "lö",
        (Language::Swedish, Weekday::Sun) => "sö",
    }
}

/// The three letters of a month, January being 1.
pub open spec fn month_text(month: int, lang: Language) -> Seq<char> {
    if month == 1 {
        "jan"@
    } else if month == 2 {
        "feb"@
    } else if month == 3 {
        "mar"@
    } else if month == 4 {
        "apr"@
    } else if month == 5 {
        match lang {
            Language::Norwegian => "mai"@,
            Language::Swedish => "maj"@,
        }
    } else if month == 6 {
        "jun"@
    } else if month == 7 {
        "jul"@
    } else if month == 8 {
        "aug"@
    } else if month == 9 {
        "sep"@
    } else if month == 10 {
        "okt"@
    } else if month == 11 {
        "nov"@
    } else if month == 12 {
        match lang {
            Language::Norwegian => "des"@,
            Language::Swedish => "dec"@,
        }
    } else {
        "?"@
    }
}

/// Three-letter month abbreviation in the requested language.
pub fn month(number: u32, lang: Language) -> (text: &'static str)
    ensures
        text@ == month_text(number as int, lang),
{
    if number == 1 {
        "jan"
    } else if number == 2 {
        "feb"
    } else if number == 3 {
        "mar"
    } else if number == 4 {
        "apr"
    } else if number == 5 {
        match lang {
            Language::Norwegian => "mai",
            Language::Swedish => "maj",
        }
    } else if number == 6 {
        "jun"
    } else if number == 7 {
        "jul"
    } else if number == 8 {
        "aug"
    } else if number == 9 {
        "sep"
    } else if number == 10 {
        "okt"
    } else if number == 11 {
        "nov"
    } else if number == 12 {
        match lang {
            Language::Norwegian => "des",
            Language::Swedish => "dec",
        }
    } else {
        "?"
    }
}

/// Day of the month and month.
pub open spec fn short_date_text(date: Date, lang: Language) -> Seq<char> {
    decimal(date.spec_civil().2 as nat) + ". "@ + month_text(date.spec_civil().1, lang)
}

/// Day of the month and month, as in `26. apr`.
pub fn push_short_date(out: &mut String, date: Date, lang: Language)
    requires
        date.valid(),
    ensures
        final(out)@ == old(out)@ + short_date_text(date, lang),
{
    let ghost start = out@;
    let (_, m, d) = date.civil();
    push_decimal(out, d as u64);
    out.append(". ");
    out.append(month(m, lang));
    proof {
        assert(out@ =~= start + short_date_text(date, lang));
    }
}

/// Today and tomorrow in words, every other day by weekday and date.
pub open spec fn day_text(date: Date, today: Date, lang: Language) -> Seq<char> {
    if date.day_number == today.day_number {
        match lang {
            Language::Norwegian => "i dag"@,
            Language::Swedish => "idag"@,
        }
    } else if date.day_number == today.day_number + 1 {
        match lang {
            Language::Norwegian => "i morgen"@,
            Language::Swedish => "imorgon"@,
        }
    } else {
        weekday_text(weekday_index(date.day_number as int), lang) + " "@ + short_date_text(
            date,
            lang,
        )
    }
}

/// Day label in the requested language.
pub fn day_label(date: Date, today: Date, lang: Language) -> (text: String)
    requires
        date.valid(),
    ensures
        text@ == day_text(date, today, lang),
{
    let delta: i64 = date.day_number as i64 - today.day_number as i64;
    let (today_word, tomorrow_word) = match lang {
        Language::Norwegian => ("i dag", "i morgen"),
        Language::Swedish => ("idag", "imorgon"),
    };
    if delta == 0 {
        return today_word.to_owned();
    }
    if delta == 1 {
        return tomorrow_word.to_owned();
    }
    let mut text = weekday(date, lang).to_owned();
    text.append(" ");
    push_short_date(&mut text, date, lang);
    text
}

/// The word for that many days.
pub open spec fn days_word(n: nat, lang: Language) -> Seq<char> {
    if n == 1 {
        "dag"@
    } else {
        match lang {
            Language::Norwegian => "dager"@,
            Language::Swedish => "dagar"@,
        }
    }
}

pub fn day_word(n: usize, lang: Language) -> (word: &'static str)
    ensures
        word@ == days_word(n as nat, lang),
{
    if n == 1 {
        "dag"
    } else {
        match lang {
            Language::Norwegian => "dager",
            Language::Swedish => "dagar",
        }
    }
}

// ---- Time spans ----

/// How long until something happens, in words.
pub open spec fn time_until_text(delta: int, lang: Language) -> Seq<char> {
    let minutes = truncated_div(delta, MINUTE as int);
    if minutes <= 0 {
        match lang {
            Language::Norwegian => "nå"@,
            Language::Swedish => "nu"@,
        }
    } else if minutes < 60 {
        "om "@ + decimal(minutes as nat) + " min"@
    } else if minutes % 60 == 0 {
        "om "@ + decimal((minutes / 60) as nat) + "t"@
    } else {
        "om "@ + decimal((minutes / 60) as nat) + "t "@ + decimal((minutes % 60) as nat) + " min"@
    }
}

/// Format a span as "om N min", "om Xt Ym" or "nå".
pub fn format_time_until(delta: i128, lang: Language) -> (text: String)
    requires
        delta / (MINUTE as i128) <= u64::MAX,
    ensures
        text@ == time_until_text(delta as int, lang),
{
    let minutes: i128 = if delta < 0 {
        0
    } else {
        delta / MINUTE
    };
    if minutes <= 0 {
        return match lang {
            Language::Norwegian => "nå".to_owned(),
            Language::Swedish => "nu".to_owned(),
        };
    }
    let mut text = "om ".to_owned();
    if minutes < 60 {
        push_decimal(&mut text, minutes as u64);
        text.append(" min");
        return text;
    }
    push_decimal(&mut text, (minutes / 60) as u64);
    if minutes % 60 == 0 {
        text.append("t");
    } else {
        text.append("t ");
        push_decimal(&mut text, (minutes % 60) as u64);
        text.append(" min");
    }
    text
}

// ---- Axes ----

/// An axis as the report on one window names it. The probability has no row of
/// its own.
pub open spec fn axis_text(axis: Axis, lang: Language) -> Seq<char> {
    match (lang, axis) {
        (_, Axis::Temperature) => "Temperatur"@,
        (_, Axis::Wind) => "Vind"@,
        (Language::Norwegian, Axis::Precipitation) => "Nedbør"@,
        (Language::Swedish, Axis::Precipitation) => "Nederbörd"@,
        (Language::Norwegian, Axis::Ground) => "Bakke"@,
        (Language::Swedish, Axis::Ground) => "Mark"@,
        (_, Axis::PrecipProbability) => "?"@,
    }
}

/// Long-form axis label.
pub fn axis_label_long(axis: Axis, lang: Language) -> (label: &'static str)
    ensures
        label@ == axis_text(axis, lang),
{
    match (lang, axis) {
        (_, Axis::Temperature) => "Temperatur",
        (_, Axis::Wind) => "Vind",
        (Language::Norwegian, Axis::Precipitation) => "Nedbør",
        (Language::Swedish, Axis::Precipitation) => "Nederbörd",
        (Language::Norwegian, Axis::Ground) => "Bakke",
        (Language::Swedish, Axis::Ground) => "Mark",
        (_, Axis::PrecipProbability) => "?",
    }
}

/// An axis as the breakdown tree names it.
pub open spec fn short_axis_text(axis: Axis, lang: Language) -> Seq<char> {
    match axis {
        Axis::Temperature => "Temp"@,
        _ => axis_text(axis, lang),
    }
}

/// Short axis label of the breakdown tree.
pub fn axis_label_short(axis: Axis, lang: Language) -> (label: &'static str)
    ensures
        label@ == short_axis_text(axis, lang),
{
    match axis {
        Axis::Temperature => "Temp",
        _ => axis_label_long(axis, lang),
    }
}

/// Precipitation amount and probability as one score, by their weights.
pub open spec fn combined(amount: int, probability: int) -> int {
    (amount * 25 + probability * 10) / 35
}

/// Combine the precipitation amount and probability sub-scores into a single
/// number using their scoring weights.
pub fn combined_precip(amount: u8, probability: u8, _lang: Language) -> (score: u8)
    ensures
        score == combined(amount as int, probability as int),
{
    let amount_weight: u32 = W_PRECIP as u32;
    let probability_weight: u32 = W_PROB as u32;
    let sum: u32 = amount_weight + probability_weight;
    proof {
        assert(amount_weight == 25 && probability_weight == 10);
    }
    ((amount as u32 * amount_weight + probability as u32 * probability_weight) / sum) as u8
}

// ---- Chip labels ----

pub open spec fn rain_history_label(lang: Language) -> Seq<char> {
    "Regn 7d"@
}

pub fn rain_history_chip_label(lang: Language) -> (label: &'static str)
    ensures
        label@ == rain_history_label(lang),
{
    "Regn 7d"
}

pub open spec fn window_stats_label(lang: Language) -> Seq<char> {
    match lang {
        Language::Norwegian => "Tall"@,
        Language::Swedish => "Tal"@,
    }
}

pub fn window_stats_chip_label(lang: Language) -> (label: &'static str)
    ensures
        label@ == window_stats_label(lang),
{
    match lang {
        Language::Norwegian => "Tall",
        Language::Swedish => "Tal",
    }
}

} // verus!
