//! Instants, ride windows, calendar dates and the local clock.
//!
//! An instant is a count of nanoseconds since 1970-01-01T00:00:00Z. A date is
//! its day number in the proleptic Gregorian calendar, January 1 of year 1
//! being day 1.
use vstd::prelude::*;

use chrono::{DateTime, Datelike, NaiveDate, Utc};

use crate::text::{push_two_digits, two_digits, zero_padded};
use vstd::string::StringExecFns;

verus! {

pub const SECOND: i128 = 1_000_000_000;

pub const MINUTE: i128 = 60_000_000_000;

pub const HOUR: i128 = 3_600_000_000_000;

pub const DAY: i128 = 86_400_000_000_000;

/// The first instant that a calendar can name.
pub const FIRST_INSTANT: i128 = -8_334_601_228_800_000_000_000;

/// The last instant that a calendar can name.
pub const LAST_INSTANT: i128 = 8_210_266_876_799_999_999_999;

/// `t` is an instant that a calendar can name.
pub open spec fn is_instant(t: int) -> bool {
    FIRST_INSTANT <= t <= LAST_INSTANT
}

/// The time span of a ride: from `start` up to but without `end`.
#[derive(Debug, Clone, Copy, PartialEq, Eq, Structural)]
pub struct RideWindow {
    pub start: i128,
    pub end: i128,
}

/// The part of `x / unit` before the decimal point.
pub open spec fn truncated_div(x: int, unit: int) -> int
    recommends
        unit > 0,
{
    if x >= 0 {
        x / unit
    } else {
        -((-x) / unit)
    }
}

impl RideWindow {
    /// Both ends are instants.
    pub open spec fn valid(self) -> bool {
        is_instant(self.start as int) && is_instant(self.end as int)
    }

    pub open spec fn has(self, t: int) -> bool {
        self.start <= t < self.end
    }

    pub open spec fn hours(self) -> int {
        truncated_div(self.end - self.start, HOUR as int)
    }

    /// The window of `hours` hours that starts at `start`.
    pub fn from_hours(start: i128, hours: i64) -> (window: RideWindow)
        requires
            is_instant(start as int),
            0 < hours,
            is_instant(start + hours * HOUR),
        ensures
            window.start == start,
            window.end == start + hours * HOUR,
    {
        RideWindow { start, end: start + (hours as i128) * HOUR }
    }

    /// Whether `t` lies in the window. The end is not part of it.
    pub fn contains(&self, t: i128) -> (inside: bool)
        ensures
            inside == self.has(t as int),
    {
        self.start <= t && t < self.end
    }

    /// Length in whole hours; a fraction of an hour is dropped.
    pub fn duration_hours(&self) -> (hours: i64)
        requires
            self.valid(),
        ensures
            hours == self.hours(),
    {
        let length: i128 = self.end - self.start;
        if length >= 0 {
            (length / HOUR) as i64
        } else {
            -(((-length) / HOUR) as i64)
        }
    }
}

/// A calendar date, by its day number.
#[derive(Debug, Clone, Copy, PartialEq, Eq, Structural)]
pub struct Date {
    pub day_number: i32,
}

/// Day number of January 1, 262144 BCE.
pub const FIRST_DATE: i32 = -95_746_129;

/// Day number of December 31, 262142.
pub const LAST_DATE: i32 = 95_745_399;

/// Day number of January 1, 1970.
pub const EPOCH_DATE: i32 = 719_163;

pub open spec fn is_leap_year(year: int) -> bool {
    year % 4 == 0 && (year % 100 != 0 || year % 400 == 0)
}

pub open spec fn month_length(year: int, month: int) -> int {
    if month == 2 {
        if is_leap_year(year) {
            29
        } else {
            28
        }
    } else if month == 4 || month == 6 || month == 9 || month == 11 {
        30
    } else {
        31
    }
}

/// Days of the year before the first of `month`.
pub open spec fn days_before_month(year: int, month: int) -> int
    decreases month,
{
    if month <= 1 {
        0
    } else {
        days_before_month(year, month - 1) + month_length(year, month - 1)
    }
}

/// Days from the start of the calendar to the first day of `year`.
pub open spec fn days_before_year(year: int) -> int {
    let past = year - 1;
    365 * past + past / 4 - past / 100 + past / 400
}

/// The day number of a date given by year, month and day.
pub open spec fn day_number(year: int, month: int, day: int) -> int {
    days_before_year(year) + days_before_month(year, month) + day
}

/// `year`, `month` and `day` name the date with that day number.
pub open spec fn names_date(number: int, year: int, month: int, day: int) -> bool {
    &&& 1 <= month <= 12
    &&& 1 <= day <= month_length(year, month)
    &&& day_number(year, month, day) == number
}

/// Year, month and day of the date with that day number.
pub open spec fn civil_fields(number: int) -> (int, int, int) {
    choose|fields: (int, int, int)| names_date(number, fields.0, fields.1, fields.2)
}

/// Days from Monday: 0 for a Monday up to 6 for a Sunday.
pub open spec fn weekday_index(number: int) -> int {
    (number - 1) % 7
}

/// `chrono::NaiveDate::from_num_days_from_ce_opt`, then `Datelike::year`,
/// `month` and `day` of the date: the year, month and day of the proleptic
/// Gregorian calendar that the day number stands for, January 1 of year 1
/// being day 1. The bounds are those of `NaiveDate::MIN` and `NaiveDate::MAX`.
#[verifier::external_body]
fn calendar_fields(number: i32) -> (fields: (i32, u32, u32))
    requires
        FIRST_DATE <= number <= LAST_DATE,
    ensures
        names_date(number as int, fields.0 as int, fields.1 as int, fields.2 as int),
{
    let date = NaiveDate::from_num_days_from_ce_opt(number).expect("date in range");
    (date.year(), date.month(), date.day())
}

/// `chrono::Datelike::weekday` of the date with that day number, as days from
/// Monday. Day 1 is a Monday.
#[verifier::external_body]
fn days_from_monday(number: i32) -> (index: u32)
    requires
        FIRST_DATE <= number <= LAST_DATE,
    ensures
        index == weekday_index(number as int),
{
    let date = NaiveDate::from_num_days_from_ce_opt(number).expect("date in range");
    date.weekday().num_days_from_monday()
}

#[derive(Debug, Clone, Copy, PartialEq, Eq, Hash, Structural)]
pub enum Weekday {
    Mon,
    Tue,
    Wed,
    Thu,
    Fri,
    Sat,
    Sun,
}

impl Weekday {
    /// Days from Monday.
    pub open spec fn index(self) -> int {
        match self {
            Weekday::Mon => 0,
            Weekday::Tue => 1,
            Weekday::Wed => 2,
            Weekday::Thu => 3,
            Weekday::Fri => 4,
            Weekday::Sat => 5,
            Weekday::Sun => 6,
        }
    }
}

impl Date {
    pub open spec fn valid(self) -> bool {
        FIRST_DATE <= self.day_number <= LAST_DATE
    }

    /// Year, month (1 to 12) and day of the month.
    pub open spec fn spec_civil(self) -> (int, int, int) {
        civil_fields(self.day_number as int)
    }

    /// Year, month (1 to 12) and day of the month of the date.
    pub fn civil(&self) -> (fields: (i32, u32, u32))
        requires
            self.valid(),
        ensures
            (fields.0 as int, fields.1 as int, fields.2 as int) == self.spec_civil(),
            names_date(
                self.day_number as int,
                fields.0 as int,
                fields.1 as int,
                fields.2 as int,
            ),
    {
        let fields = calendar_fields(self.day_number);
        proof {
            let number = self.day_number as int;
            let found = (fields.0 as int, fields.1 as int, fields.2 as int);
            assert(names_date(number, found.0, found.1, found.2));
            let chosen = civil_fields(number);
            assert(names_date(number, chosen.0, chosen.1, chosen.2));
            date_names_are_unique(
                number,
                found.0,
                found.1,
                found.2,
                chosen.0,
                chosen.1,
                chosen.2,
            );
        }
        fields
    }

    pub fn weekday(&self) -> (day: Weekday)
        requires
            self.valid(),
        ensures
            day.index() == weekday_index(self.day_number as int),
    {
        let index: u32 = days_from_monday(self.day_number);
        if index == 0 {
            Weekday::Mon
        } else if index == 1 {
            Weekday::Tue
        } else if index == 2 {
            Weekday::Wed
        } else if index == 3 {
            Weekday::Thu
        } else if index == 4 {
            Weekday::Fri
        } else if index == 5 {
            Weekday::Sat
        } else {
            Weekday::Sun
        }
    }
}

proof fn lemma_days_before_month(year: int, month: int)
    requires
        1 <= month <= 12,
    ensures
        days_before_month(year, month) >= 0,
        days_before_month(year, month) + month_length(year, month) <= days_before_month(year, 12)
            + 31,
        forall|earlier: int|
            1 <= earlier < month ==> #[trigger] days_before_month(year, earlier) + month_length(
                year,
                earlier,
            ) <= days_before_month(year, month),
    decreases month,
{
    reveal_with_fuel(days_before_month, 13);
    if month > 1 {
        lemma_days_before_month(year, month - 1);
    }
}

proof fn lemma_year_length(year: int)
    ensures
        days_before_month(year, 12) + 31 == if is_leap_year(year) {
            366int
        } else {
            365int
        },
        days_before_year(year + 1) == days_before_year(year) + days_before_month(year, 12) + 31,
{
    reveal_with_fuel(days_before_month, 13);
}

proof fn lemma_years_in_order(year: int, later: int)
    requires
        year < later,
    ensures
        days_before_year(year) + days_before_month(year, 12) + 31 <= days_before_year(later),
    decreases later - year,
{
    lemma_year_length(year);
    if year + 1 < later {
        lemma_years_in_order(year + 1, later);
        lemma_year_length(year + 1);
    }
}

/// A day number names one date only.
pub proof fn date_names_are_unique(
    number: int,
    year: int,
    month: int,
    day: int,
    other_year: int,
    other_month: int,
    other_day: int,
)
    requires
        names_date(number, year, month, day),
        names_date(number, other_year, other_month, other_day),
    ensures
        year == other_year,
        month == other_month,
        day == other_day,
{
    lemma_days_before_month(year, month);
    lemma_days_before_month(other_year, other_month);
    if year < other_year {
        lemma_years_in_order(year, other_year);
    } else if other_year < year {
        lemma_years_in_order(other_year, year);
    } else if month < other_month {
        assert(days_before_month(year, month) + month_length(year, month) <= days_before_month(
            year,
            other_month,
        ));
    } else if other_month < month {
        assert(days_before_month(year, other_month) + month_length(year, other_month)
            <= days_before_month(year, month));
    }
}

/// Year, month and day as `2026-04-26`. A year outside 0 to 9999 carries its
/// sign.
pub open spec fn iso_date_text(year: int, month: int, day: int) -> Seq<char> {
    let year_text = if 0 <= year < 10_000 {
        zero_padded(year as nat, 4)
    } else if year < 0 {
        seq!['-'] + zero_padded((-year) as nat, 4)
    } else {
        seq!['+'] + zero_padded(year as nat, 4)
    };
    year_text + seq!['-'] + two_digits(month as nat) + seq!['-'] + two_digits(day as nat)
}

/// `chrono::NaiveDate::format` with `%Y-%m-%d`: four-digit year (with its sign
/// outside 0 to 9999), two-digit month and two-digit day, joined by hyphens.
#[verifier::external_body]
fn format_iso_date(number: i32) -> (text: String)
    requires
        FIRST_DATE <= number <= LAST_DATE,
    ensures
        text@ == ({
            let fields = civil_fields(number as int);
            iso_date_text(fields.0, fields.1, fields.2)
        }),
{
    let date = NaiveDate::from_num_days_from_ce_opt(number).expect("date in range");
    date.format("%Y-%m-%d").to_string()
}

/// The fraction of a second, in thousandths, millionths or billionths,
/// whichever is enough; nothing for a whole second.
pub open spec fn fraction_text(nanos: int) -> Seq<char> {
    if nanos == 0 {
        Seq::empty()
    } else if nanos % 1_000_000 == 0 {
        seq!['.'] + zero_padded((nanos / 1_000_000) as nat, 3)
    } else if nanos % 1_000 == 0 {
        seq!['.'] + zero_padded((nanos / 1_000) as nat, 6)
    } else {
        seq!['.'] + zero_padded(nanos as nat, 9)
    }
}

/// The UTC time `secs` seconds and `nanos` nanoseconds after
/// 1970-01-01T00:00:00Z, as `2026-04-26T14:05:00+00:00`.
pub open spec fn rfc3339_text(secs: int, nanos: int) -> Seq<char> {
    let fields = civil_fields(secs / 86_400 + EPOCH_DATE);
    let of_day = secs % 86_400;
    iso_date_text(fields.0, fields.1, fields.2) + seq!['T'] + two_digits((of_day / 3_600) as nat)
        + seq![':'] + two_digits((of_day % 3_600 / 60) as nat) + seq![':'] + two_digits(
        (of_day % 60) as nat,
    ) + fraction_text(nanos) + seq!['+', '0', '0', ':', '0', '0']
}

/// `chrono::DateTime::from_timestamp`, then `to_rfc3339`: the date and time of
/// day in UTC, with as many decimals of a second as are needed, and the offset
/// `+00:00`.
#[verifier::external_body]
fn format_rfc3339(secs: i64, nanos: u32) -> (text: String)
    requires
        is_instant(secs * SECOND),
        nanos < 1_000_000_000,
    ensures
        text@ == rfc3339_text(secs as int, nanos as int),
{
    DateTime::<Utc>::from_timestamp(secs, nanos).expect("instant in range").to_rfc3339()
}

/// The instant `t` in RFC 3339 form.
pub open spec fn instant_text(t: int) -> Seq<char> {
    rfc3339_text(t / (SECOND as int), t % (SECOND as int))
}

/// The instant `t` in RFC 3339 form.
pub fn rfc3339(t: i128) -> (text: String)
    requires
        is_instant(t as int),
    ensures
        text@ == instant_text(t as int),
{
    let secs: i128 = t.checked_div_euclid(SECOND).unwrap();
    let nanos: i128 = t.checked_rem_euclid(SECOND).unwrap();
    format_rfc3339(secs as i64, nanos as u32)
}

/// From `from` on, local time is ahead of UTC by `offset_secs`.
#[derive(Debug, Clone, Copy, PartialEq, Eq, Structural)]
pub struct OffsetChange {
    pub from: i128,
    pub offset_secs: i32,
}

/// How far local time is ahead of UTC, and when that changes. The changes
/// stand in the order in which they happen.
#[derive(Debug)]
pub struct LocalClock {
    pub offset_secs: i32,
    pub changes: Vec<OffsetChange>,
}

/// The offset in force at `t`: that of the last change that is not after `t`,
/// or `base` where every change is.
pub open spec fn offset_in_force(base: int, changes: Seq<OffsetChange>, t: int) -> int
    decreases changes.len(),
{
    if changes.len() == 0 {
        base
    } else if changes.last().from <= t {
        changes.last().offset_secs as int
    } else {
        offset_in_force(base, changes.drop_last(), t)
    }
}

impl LocalClock {
    /// No offset reaches a whole day.
    pub open spec fn valid(self) -> bool {
        &&& -86_400 < self.offset_secs < 86_400
        &&& forall|i: int|
            0 <= i < self.changes@.len() ==> -86_400 < (#[trigger] self.changes@[i]).offset_secs
                < 86_400
    }

    /// Seconds of local time since 1970-01-01T00:00:00 on the local clock.
    pub open spec fn local_seconds(self, t: int) -> int {
        t / (SECOND as int) + offset_in_force(self.offset_secs as int, self.changes@, t)
    }

    /// Day number of the local date at `t`.
    pub open spec fn local_day(self, t: int) -> int {
        self.local_seconds(t) / 86_400 + EPOCH_DATE
    }

    /// Hour of the local time at `t`.
    pub open spec fn spec_hour(self, t: int) -> int {
        (self.local_seconds(t) % 86_400) / 3_600
    }

    /// Minute of the local time at `t`.
    pub open spec fn spec_minute(self, t: int) -> int {
        (self.local_seconds(t) % 3_600) / 60
    }

    /// The local time at `t` as `14:05`.
    pub open spec fn hm_text(self, t: int) -> Seq<char> {
        two_digits(self.spec_hour(t) as nat) + seq![':'] + two_digits(self.spec_minute(t) as nat)
    }

    /// The local date at `t` as `2026-04-26`.
    pub open spec fn date_text(self, t: int) -> Seq<char> {
        let fields = civil_fields(self.local_day(t));
        iso_date_text(fields.0, fields.1, fields.2)
    }

    fn seconds(&self, t: i128) -> (secs: i128)
        requires
            self.valid(),
            is_instant(t as int),
        ensures
            secs == self.local_seconds(t as int),
            -8_334_601_228_800 - 86_400 < secs < 8_210_266_876_800 + 86_400,
    {
        let mut i: usize = self.changes.len();
        let mut offset: i32 = self.offset_secs;
        proof {
            assert(self.changes@.take(i as int) =~= self.changes@);
        }
        while i > 0
            invariant_except_break
                offset == self.offset_secs,
                offset_in_force(self.offset_secs as int, self.changes@, t as int)
                    == offset_in_force(
                    self.offset_secs as int,
                    self.changes@.take(i as int),
                    t as int,
                ),
            invariant
                i <= self.changes.len(),
                self.valid(),
            ensures
                -86_400 < offset < 86_400,
                offset == offset_in_force(self.offset_secs as int, self.changes@, t as int),
            decreases i,
        {
            proof {
                assert(self.changes@.take(i as int).last() == self.changes@[i - 1]);
                assert(self.changes@.take(i as int).drop_last() =~= self.changes@.take(i - 1));
            }
            if self.changes[i - 1].from <= t {
                offset = self.changes[i - 1].offset_secs;
                break ;
            }
            i = i - 1;
        }
        let whole: i128 = t.checked_div_euclid(SECOND).unwrap();
        whole + offset as i128
    }

    /// The local date at `t`.
    pub fn date_of(&self, t: i128) -> (date: Date)
        requires
            self.valid(),
            is_instant(t as int),
        ensures
            date.day_number == self.local_day(t as int),
    {
        let day: i128 = self.seconds(t).checked_div_euclid(86_400).unwrap();
        Date { day_number: (day + EPOCH_DATE as i128) as i32 }
    }

    /// The hour of the local time at `t`.
    pub fn hour_of(&self, t: i128) -> (hour: u8)
        requires
            self.valid(),
            is_instant(t as int),
        ensures
            hour == self.spec_hour(t as int),
            hour < 24,
    {
        let of_day: i128 = self.seconds(t).checked_rem_euclid(86_400).unwrap();
        (of_day / 3_600) as u8
    }

    /// The local time at `t` as `14:05`.
    pub fn hm(&self, t: i128) -> (text: String)
        requires
            self.valid(),
            is_instant(t as int),
        ensures
            text@ == self.hm_text(t as int),
    {
        let secs: i128 = self.seconds(t);
        let of_day: i128 = secs.checked_rem_euclid(86_400).unwrap();
        let of_hour: i128 = secs.checked_rem_euclid(3_600).unwrap();
        let mut text = String::new();
        push_two_digits(&mut text, (of_day / 3_600) as u64);
        text.append(":");
        push_two_digits(&mut text, (of_hour / 60) as u64);
        proof {
            reveal_strlit(":");
            assert(text@ =~= self.hm_text(t as int));
        }
        text
    }

    /// The local date at `t` as `2026-04-26`.
    pub fn date_string(&self, t: i128) -> (text: String)
        requires
            self.valid(),
            is_instant(t as int),
            FIRST_DATE <= self.local_day(t as int) <= LAST_DATE,
        ensures
            text@ == self.date_text(t as int),
    {
        format_iso_date(self.date_of(t).day_number)
    }
}

// ---- Laws ----

/// The local clock is ahead of UTC by the offset of the last change that has
/// happened, and by its first offset before any has.
pub proof fn the_last_change_is_in_force(clock: LocalClock, t: int, i: int)
    ensures
        0 <= i < clock.changes@.len() && clock.changes@[i].from <= t && (forall|j: int|
            i < j < clock.changes@.len() ==> (#[trigger] clock.changes@[j]).from > t)
            ==> clock.local_seconds(t) == t / 1_000_000_000 + clock.changes@[i].offset_secs,
        (forall|j: int| 0 <= j < clock.changes@.len() ==> (#[trigger] clock.changes@[j]).from > t)
            ==> clock.local_seconds(t) == t / 1_000_000_000 + clock.offset_secs,
{
    lemma_in_force(clock.offset_secs as int, clock.changes@, t, i);
}

proof fn lemma_in_force(base: int, changes: Seq<OffsetChange>, t: int, i: int)
    ensures
        0 <= i < changes.len() && changes[i].from <= t && (forall|j: int|
            i < j < changes.len() ==> (#[trigger] changes[j]).from > t) ==> offset_in_force(
            base,
            changes,
            t,
        ) == changes[i].offset_secs,
        (forall|j: int| 0 <= j < changes.len() ==> (#[trigger] changes[j]).from > t)
            ==> offset_in_force(base, changes, t) == base,
    decreases changes.len(),
{
    if changes.len() > 0 {
        let rest = changes.drop_last();
        assert(changes.last() == changes[changes.len() - 1]);
        assert forall|j: int| 0 <= j < rest.len() implies #[trigger] rest[j] == changes[j] by {}
        lemma_in_force(base, rest, t, i);
    }
}

/// Date, hour and minute of the local clock say the same as its seconds, to the
/// minute.
pub proof fn the_local_clock_counts_days_hours_and_minutes(clock: LocalClock, t: int)
    ensures
        0 <= clock.spec_hour(t) < 24,
        0 <= clock.spec_minute(t) < 60,
        ({
            let counted = (clock.local_day(t) - 719_163) * 86_400 + clock.spec_hour(t) * 3_600
                + clock.spec_minute(t) * 60;
            counted <= clock.local_seconds(t) < counted + 60
        }),
{
    let s = clock.local_seconds(t);
    assert(s % 86_400 == (s % 86_400) / 3_600 * 3_600 + (s % 86_400) % 3_600);
    assert((s % 86_400) % 3_600 == s % 3_600);
}

/// Weekdays follow each other, and the first day of 1970 was a Thursday.
pub proof fn weekdays_follow_each_other(number: int)
    ensures
        0 <= weekday_index(number) < 7,
        weekday_index(number + 1) == if weekday_index(number) == 6 {
            0
        } else {
            weekday_index(number) + 1
        },
        weekday_index(719_163) == 3,
{
}

} // verus!
