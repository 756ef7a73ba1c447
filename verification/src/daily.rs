//! Day-level rollup of the Grusindeks for the multi-day forecast view.
//!
//! Where [`crate::score::score`] evaluates one ride window, this module takes
//! a whole day, looks for the sub-window that scores best (a "luke", an
//! opening), and assigns a [`Confidence`] based on data resolution and
//! forecast horizon.
use vstd::prelude::*;

use crate::conditions::{hours_in_window, in_window, HourlyConditions, Resolution};
use crate::lang::Language;
use crate::reading::{Reading, ZERO};
use crate::score::thresholds::{W_PRECIP, W_PROB, W_TEMP, W_WIND};
use crate::score::{Grusindeks, ScoreBreakdown};
use crate::time::{is_instant, RideWindow, DAY, HOUR};

pub mod laws;

verus! {

/// How much the user should trust a forecast. Drops as the horizon grows and
/// as the proportion of 6-hourly data overtakes hourly data.
#[derive(Debug, Clone, Copy, PartialEq, Eq, Structural)]
pub enum Confidence {
    Hoy,
    Middels,
    Lav,
}

impl Confidence {
    pub open spec fn label_text(self, lang: Language) -> Seq<char> {
        match (lang, self) {
            (Language::Norwegian, Confidence::Hoy) => "høy"@,
            (Language::Norwegian, Confidence::Middels) => "middels"@,
            (Language::Norwegian, Confidence::Lav) => "lav"@,
            (Language::Swedish, Confidence::Hoy) => "hög"@,
            (Language::Swedish, Confidence::Middels) => "medel"@,
            (Language::Swedish, Confidence::Lav) => "låg"@,
        }
    }

    /// Localized label for the human renderer.
    pub fn label(self, lang: Language) -> (label: &'static str)
        ensures
            label@ == self.label_text(lang),
    {
        match (lang, self) {
            (Language::Norwegian, Confidence::Hoy) => "høy",
            (Language::Norwegian, Confidence::Middels) => "middels",
            (Language::Norwegian, Confidence::Lav) => "lav",
            (Language::Swedish, Confidence::Hoy) => "hög",
            (Language::Swedish, Confidence::Middels) => "medel",
            (Language::Swedish, Confidence::Lav) => "låg",
        }
    }

    pub open spec fn spec_rank(self) -> int {
        match self {
            Confidence::Hoy => 2,
            Confidence::Middels => 1,
            Confidence::Lav => 0,
        }
    }

    /// Sortable rank where higher = more trustworthy.
    pub fn rank(self) -> (rank: u8)
        ensures
            rank == self.spec_rank(),
    {
        match self {
            Confidence::Hoy => 2,
            Confidence::Middels => 1,
            Confidence::Lav => 0,
        }
    }
}

/// Why a sub-window scored highest: the axis where the window beats the day
/// mean by the largest weighted margin.
#[derive(Debug, Clone, Copy, PartialEq, Eq, Structural)]
pub enum BestWindowReason {
    /// Warmer (or milder) than the day, with a perfect temperature score.
    Mildest,
    /// Beats the day on temperature, yet short of a perfect score.
    MinstKald,
    /// The window has the lowest wind / gusts.
    Vind,
    /// The window is the driest stretch.
    Nedbor,
}

impl BestWindowReason {
    pub open spec fn label_text(self, lang: Language) -> Seq<char> {
        match (lang, self) {
            (Language::Norwegian, BestWindowReason::Mildest) => "mildest"@,
            (Language::Norwegian, BestWindowReason::MinstKald) => "minst kald"@,
            (Language::Norwegian, BestWindowReason::Vind) => "minst vind"@,
            (Language::Norwegian, BestWindowReason::Nedbor) => "tørrest"@,
            (Language::Swedish, BestWindowReason::Mildest) => "mildast"@,
            (Language::Swedish, BestWindowReason::MinstKald) => "minst kall"@,
            (Language::Swedish, BestWindowReason::Vind) => "minst vind"@,
            (Language::Swedish, BestWindowReason::Nedbor) => "torrast"@,
        }
    }

    /// Short comparative phrase suitable for trailing the "Beste vindu" line.
    pub fn label(self, lang: Language) -> (label: &'static str)
        ensures
            label@ == self.label_text(lang),
    {
        match (lang, self) {
            (Language::Norwegian, BestWindowReason::Mildest) => "mildest",
            (Language::Norwegian, BestWindowReason::MinstKald) => "minst kald",
            (Language::Norwegian, BestWindowReason::Vind) => "minst vind",
            (Language::Norwegian, BestWindowReason::Nedbor) => "tørrest",
            (Language::Swedish, BestWindowReason::Mildest) => "mildast",
            (Language::Swedish, BestWindowReason::MinstKald) => "minst kall",
            (Language::Swedish, BestWindowReason::Vind) => "minst vind",
            (Language::Swedish, BestWindowReason::Nedbor) => "torrast",
        }
    }
}

/// A sub-window of the day that scores best — the "go ride now" suggestion.
#[derive(Debug, PartialEq, Eq)]
pub struct OptimalWindow {
    pub window: RideWindow,
    pub score: Grusindeks,
    /// How far the window's total lies above the day's.
    pub improvement: u8,
    /// `None` where no single axis carries the improvement.
    pub reason: Option<BestWindowReason>,
}

/// One day's worth of summary data.
#[derive(Debug, PartialEq, Eq)]
pub struct DayScore {
    /// The full day window.
    pub window: RideWindow,
    /// Score over the whole day window.
    pub score: Grusindeks,
    pub confidence: Confidence,
    /// Number of forecast hours inside the window.
    pub hours_with_data: usize,
    /// The best sub-window, where it clears the wanted improvement.
    pub optimal_window: Option<OptimalWindow>,
    /// Single-glyph weather summary for the day.
    pub weather_icon: &'static str,
}

/// Default minimum point-improvement before a "best window" surfaces in the
/// multi-day view.
pub const DEFAULT_OPTIMAL_IMPROVEMENT: u8 = 10;

/// Default sub-window length when looking for an optimal "luke".
pub const DEFAULT_OPTIMAL_WINDOW_HOURS: i64 = 3;

/// How [`compute_day`] looks for the per-day "best sub-window".
#[derive(Debug, PartialEq, Eq)]
pub struct BestWindowConfig {
    pub length_hours: i64,
    pub min_improvement: u8,
    /// Windows that a candidate must not overlap, such as work hours.
    pub excluded_windows: Vec<RideWindow>,
}

impl Default for BestWindowConfig {
    fn default() -> (config: Self)
        ensures
            config.length_hours == DEFAULT_OPTIMAL_WINDOW_HOURS,
            config.min_improvement == DEFAULT_OPTIMAL_IMPROVEMENT,
            config.excluded_windows@.len() == 0,
    {
        BestWindowConfig {
            length_hours: DEFAULT_OPTIMAL_WINDOW_HOURS,
            min_improvement: DEFAULT_OPTIMAL_IMPROVEMENT,
            excluded_windows: Vec::new(),
        }
    }
}

// ---- Reason ----

/// How far `window` lies above `day` on an axis, times the axis weight.
pub open spec fn weighted_edge(window: u8, day: u8, weight: u8) -> int {
    (window - day) * weight
}

pub open spec fn temp_edge(window: ScoreBreakdown, day: ScoreBreakdown) -> int {
    weighted_edge(window.temperature, day.temperature, W_TEMP)
}

pub open spec fn wind_edge(window: ScoreBreakdown, day: ScoreBreakdown) -> int {
    weighted_edge(window.wind, day.wind, W_WIND)
}

/// Amount and probability of rain count as one axis.
pub open spec fn precip_edge(window: ScoreBreakdown, day: ScoreBreakdown) -> int {
    weighted_edge(window.precipitation, day.precipitation, W_PRECIP) + weighted_edge(
        window.precip_probability,
        day.precip_probability,
        W_PROB,
    )
}

/// The axis with the largest positive edge; rain goes before wind and wind
/// before temperature where they tie. The ground is the same for every
/// sub-window of a day, so it never is the reason.
pub open spec fn reason_of(window: ScoreBreakdown, day: ScoreBreakdown) -> Option<
    BestWindowReason,
> {
    let temp = temp_edge(window, day);
    let wind = wind_edge(window, day);
    let precip = precip_edge(window, day);
    if temp <= 0 && wind <= 0 && precip <= 0 {
        None
    } else if precip >= wind && precip >= temp {
        Some(BestWindowReason::Nedbor)
    } else if wind >= temp {
        Some(BestWindowReason::Vind)
    } else if window.temperature >= 100 {
        Some(BestWindowReason::Mildest)
    } else {
        Some(BestWindowReason::MinstKald)
    }
}

fn edge(window: u8, day: u8, weight: u8) -> (e: i32)
    ensures
        e == weighted_edge(window, day, weight),
        -65_025 <= e <= 65_025,
{
    proof {
        assert(-65_025 <= (window - day) * weight <= 65_025) by (nonlinear_arith)
            requires
                0 <= window <= 255,
                0 <= day <= 255,
                0 <= weight <= 255,
        ;
    }
    (window as i32 - day as i32) * weight as i32
}

/// The single axis where the window beats the day by the largest weighted
/// margin.
pub fn reason_for(window: &ScoreBreakdown, day: &ScoreBreakdown) -> (reason: Option<
    BestWindowReason,
>)
    ensures
        reason == reason_of(*window, *day),
{
    let temp: i32 = edge(window.temperature, day.temperature, W_TEMP);
    let wind: i32 = edge(window.wind, day.wind, W_WIND);
    let precip: i32 = edge(window.precipitation, day.precipitation, W_PRECIP) + edge(
        window.precip_probability,
        day.precip_probability,
        W_PROB,
    );
    if temp <= 0 && wind <= 0 && precip <= 0 {
        return None;
    }
    if precip >= wind && precip >= temp {
        Some(BestWindowReason::Nedbor)
    } else if wind >= temp {
        Some(BestWindowReason::Vind)
    } else if window.temperature >= 100 {
        Some(BestWindowReason::Mildest)
    } else {
        Some(BestWindowReason::MinstKald)
    }
}

// ---- Weather icon ----

/// 10.0 m/s
pub const ICON_WIND_MS: Reading = 0x4024_0000_0000_0000;

/// 0.5 mm/h
pub const ICON_HOURLY_PRECIP_MM: Reading = 0x3FE0_0000_0000_0000;

/// 3.0 mm
pub const ICON_TOTAL_PRECIP_MM: Reading = 0x4008_0000_0000_0000;

/// 80.0 %
pub const ICON_OVERCAST_PCT: Reading = 0x4054_0000_0000_0000;

/// 40.0 %
pub const ICON_PARTLY_CLOUDY_PCT: Reading = 0x4044_0000_0000_0000;

/// Means and sums over the hours of a day.
#[derive(Debug, Clone, Copy, PartialEq, Eq, Structural)]
pub struct SkySummary {
    pub mean_temp: Reading,
    pub total_precip: Reading,
    /// Nothing where no hour carries cloud cover.
    pub mean_cloud: Option<Reading>,
}

pub open spec fn any_windier_than(hours: Seq<HourlyConditions>, limit: Reading) -> bool {
    exists|i: int| 0 <= i < hours.len() && (#[trigger] hours[i]).wind_speed_ms > limit
}

pub open spec fn any_wetter_than(hours: Seq<HourlyConditions>, limit: Reading) -> bool {
    exists|i: int| 0 <= i < hours.len() && (#[trigger] hours[i]).precipitation_mm > limit
}

/// Storm wind first, then snow or rain, then cloud cover. Rain counts when one
/// hour or the whole day brings enough of it to make the ride wet. Without
/// cloud data the icon does not promise sunshine.
pub open spec fn icon_text(hours: Seq<HourlyConditions>, sky: SkySummary) -> Seq<char> {
    if hours.len() == 0 {
        "·"@
    } else if any_windier_than(hours, ICON_WIND_MS) {
        "🌬"@
    } else if any_wetter_than(hours, ICON_HOURLY_PRECIP_MM) || sky.total_precip
        > ICON_TOTAL_PRECIP_MM {
        if sky.mean_temp <= ZERO {
            "🌨"@
        } else {
            "🌧"@
        }
    } else {
        match sky.mean_cloud {
            Some(c) => if c >= ICON_OVERCAST_PCT {
                "☁"@
            } else if c >= ICON_PARTLY_CLOUDY_PCT {
                "⛅"@
            } else {
                "☀"@
            },
            None => "⛅"@,
        }
    }
}

fn windier_than(hours: &Vec<HourlyConditions>, limit: Reading) -> (b: bool)
    ensures
        b == any_windier_than(hours@, limit),
{
    let mut i: usize = 0;
    while i < hours.len()
        invariant
            i <= hours.len(),
            forall|k: int| 0 <= k < i ==> (#[trigger] hours@[k]).wind_speed_ms <= limit,
        decreases hours.len() - i,
    {
        if hours[i].wind_speed_ms > limit {
            return true;
        }
        i = i + 1;
    }
    false
}

fn wetter_than(hours: &Vec<HourlyConditions>, limit: Reading) -> (b: bool)
    ensures
        b == any_wetter_than(hours@, limit),
{
    let mut i: usize = 0;
    while i < hours.len()
        invariant
            i <= hours.len(),
            forall|k: int| 0 <= k < i ==> (#[trigger] hours@[k]).precipitation_mm <= limit,
        decreases hours.len() - i,
    {
        if hours[i].precipitation_mm > limit {
            return true;
        }
        i = i + 1;
    }
    false
}

/// Pick a single weather emoji that best summarises the day.
pub fn weather_icon_for(hours: &Vec<HourlyConditions>, sky: &SkySummary) -> (icon: &'static str)
    ensures
        icon@ == icon_text(hours@, *sky),
{
    if hours.len() == 0 {
        return "·";
    }
    if windier_than(hours, ICON_WIND_MS) {
        return "🌬";
    }
    if wetter_than(hours, ICON_HOURLY_PRECIP_MM) || sky.total_precip > ICON_TOTAL_PRECIP_MM {
        return if sky.mean_temp <= ZERO {
            "🌨"
        } else {
            "🌧"
        };
    }
    match sky.mean_cloud {
        Some(c) => if c >= ICON_OVERCAST_PCT {
            "☁"
        } else if c >= ICON_PARTLY_CLOUDY_PCT {
            "⛅"
        } else {
            "☀"
        },
        None => "⛅",
    }
}

// ---- Confidence ----

/// How many hours come from a six-hour bucket.
pub open spec fn six_hourly_count(hours: Seq<HourlyConditions>) -> nat {
    hours.filter(|h: HourlyConditions| h.resolution == Resolution::SixHourly).len()
}

/// `Lav` without data, more than five days out, or when more than half of the
/// hours come from a six-hour bucket; `Hoy` within a day and without any such
/// hour; `Middels` otherwise.
pub open spec fn confidence_of(hours: Seq<HourlyConditions>, start: int, now: int) -> Confidence {
    if hours.len() == 0 || start - now > 5 * DAY || 2 * six_hourly_count(hours) > hours.len() {
        Confidence::Lav
    } else if start - now < DAY && six_hourly_count(hours) == 0 {
        Confidence::Hoy
    } else {
        Confidence::Middels
    }
}

fn count_six_hourly(hours: &Vec<HourlyConditions>) -> (count: usize)
    ensures
        count == six_hourly_count(hours@),
        count <= hours.len(),
{
    let ghost six = |h: HourlyConditions| h.resolution == Resolution::SixHourly;
    let mut count: usize = 0;
    let mut i: usize = 0;
    proof {
        reveal(Seq::filter);
        assert(hours@.take(0).filter(six).len() == 0);
    }
    while i < hours.len()
        invariant
            i <= hours.len(),
            six == (|h: HourlyConditions| h.resolution == Resolution::SixHourly),
            count == hours@.take(i as int).filter(six).len(),
            count <= i,
        decreases hours.len() - i,
    {
        proof {
            reveal(Seq::filter);
            assert(hours@.take(i + 1).drop_last() =~= hours@.take(i as int));
        }
        if hours[i].resolution == Resolution::SixHourly {
            count = count + 1;
        }
        i = i + 1;
    }
    proof {
        assert(hours@.take(hours.len() as int) =~= hours@);
    }
    count
}

/// Heuristic confidence for a day whose window holds `hours`.
pub fn confidence_for(hours: &Vec<HourlyConditions>, day_window: RideWindow, now: i128) -> (c:
    Confidence)
    requires
        is_instant(day_window.start as int),
        is_instant(now as int),
    ensures
        c == confidence_of(hours@, day_window.start as int, now as int),
{
    if hours.len() == 0 {
        return Confidence::Lav;
    }
    let horizon: i128 = day_window.start - now;
    let six_hourly: usize = count_six_hourly(hours);
    if horizon > 5 * DAY || six_hourly > hours.len() - six_hourly {
        return Confidence::Lav;
    }
    if horizon < DAY && six_hourly == 0 {
        return Confidence::Hoy;
    }
    Confidence::Middels
}

// ---- Best sub-window ----

/// Two windows share some time.
pub open spec fn overlapping(a: RideWindow, b: RideWindow) -> bool {
    a.start < b.end && b.start < a.end
}

pub fn windows_overlap(a: RideWindow, b: RideWindow) -> (b2: bool)
    ensures
        b2 == overlapping(a, b),
{
    a.start < b.end && b.start < a.end
}

/// The sub-window of `length` hours that starts `k` hours into the day.
pub open spec fn sub_window(day: RideWindow, length: int, k: int) -> RideWindow {
    RideWindow {
        start: (day.start + k * HOUR) as i128,
        end: (day.start + k * HOUR + length * HOUR) as i128,
    }
}

/// How many sub-windows of `length` hours, an hour apart, fit into the day.
pub open spec fn sub_window_count(day: RideWindow, length: int) -> nat {
    if length <= 0 || day.hours() < length {
        0
    } else {
        ((day.end - day.start - length * HOUR) / HOUR as int + 1) as nat
    }
}

pub open spec fn holds_data(hours: Seq<HourlyConditions>, window: RideWindow) -> bool {
    exists|i: int| 0 <= i < hours.len() && window.has((#[trigger] hours[i]).time as int)
}

pub open spec fn overlaps_any(window: RideWindow, blocked: Seq<RideWindow>) -> bool {
    exists|i: int| 0 <= i < blocked.len() && overlapping(window, #[trigger] blocked[i])
}

/// A sub-window is worth scoring when it holds a forecast hour and overlaps no
/// excluded window.
pub open spec fn eligible(
    hours: Seq<HourlyConditions>,
    excluded: Seq<RideWindow>,
    window: RideWindow,
) -> bool {
    !overlaps_any(window, excluded) && holds_data(hours, window)
}

/// The sub-windows of the day that are worth scoring, earliest first.
pub open spec fn candidates(
    hours: Seq<HourlyConditions>,
    day: RideWindow,
    length: int,
    excluded: Seq<RideWindow>,
) -> Seq<RideWindow> {
    Seq::new(sub_window_count(day, length), |k: int| sub_window(day, length, k)).filter(
        |w: RideWindow| eligible(hours, excluded, w),
    )
}

fn has_data(hours: &Vec<HourlyConditions>, window: RideWindow) -> (b: bool)
    ensures
        b == holds_data(hours@, window),
{
    let mut i: usize = 0;
    while i < hours.len()
        invariant
            i <= hours.len(),
            forall|k: int| 0 <= k < i ==> !window.has((#[trigger] hours@[k]).time as int),
        decreases hours.len() - i,
    {
        if window.contains(hours[i].time) {
            return true;
        }
        i = i + 1;
    }
    false
}

fn is_blocked(window: RideWindow, blocked: &Vec<RideWindow>) -> (b: bool)
    ensures
        b == overlaps_any(window, blocked@),
{
    let mut i: usize = 0;
    while i < blocked.len()
        invariant
            i <= blocked.len(),
            forall|k: int| 0 <= k < i ==> !overlapping(window, #[trigger] blocked@[k]),
        decreases blocked.len() - i,
    {
        if windows_overlap(window, blocked[i]) {
            return true;
        }
        i = i + 1;
    }
    false
}

/// The sub-windows of `length_hours` hours, an hour apart, that hold forecast
/// data and overlap no excluded window.
pub fn best_window_candidates(
    hours: &Vec<HourlyConditions>,
    day_window: RideWindow,
    length_hours: i64,
    excluded_windows: &Vec<RideWindow>,
) -> (windows: Vec<RideWindow>)
    requires
        day_window.valid(),
    ensures
        windows@ == candidates(hours@, day_window, length_hours as int, excluded_windows@),
{
    let mut windows: Vec<RideWindow> = Vec::new();
    let ghost all = Seq::new(
        sub_window_count(day_window, length_hours as int),
        |k: int| sub_window(day_window, length_hours as int, k),
    );
    let ghost keep = |w: RideWindow| eligible(hours@, excluded_windows@, w);
    proof {
        reveal(Seq::filter);
        assert(all.take(0).filter(keep) =~= Seq::empty());
    }
    if length_hours <= 0 || day_window.duration_hours() < length_hours {
        proof {
            assert(all =~= all.take(0));
        }
        return windows;
    }
    let len: i128 = length_hours as i128 * HOUR;
    let mut start: i128 = day_window.start;
    let ghost mut k: int = 0;
    while start + len <= day_window.end
        invariant
            day_window.valid(),
            0 < length_hours <= day_window.hours(),
            len == length_hours * HOUR,
            len <= day_window.end - day_window.start,
            0 <= k <= all.len(),
            start == day_window.start + k * HOUR,
            start <= day_window.end + HOUR,
            all == Seq::new(
                sub_window_count(day_window, length_hours as int),
                |k: int| sub_window(day_window, length_hours as int, k),
            ),
            keep == (|w: RideWindow| eligible(hours@, excluded_windows@, w)),
            windows@ == all.take(k).filter(keep),
        ensures
            k == all.len(),
        decreases day_window.end - start,
    {
        let candidate = RideWindow { start, end: start + len };
        proof {
            reveal(Seq::filter);
            assert(k < all.len());
            assert(all[k] == candidate);
            assert(all.take(k + 1).drop_last() =~= all.take(k));
            assert(all.take(k + 1).last() == candidate);
        }
        if !is_blocked(candidate, excluded_windows) && has_data(hours, candidate) {
            windows.push(candidate);
        }
        start = start + HOUR;
        proof {
            k = k + 1;
        }
    }
    proof {
        assert(all.take(k) =~= all);
    }
    windows
}

/// Position `i` holds the highest total, and the first of that height.
pub open spec fn is_first_best(scores: Seq<Grusindeks>, i: int) -> bool {
    &&& 0 <= i < scores.len()
    &&& forall|j: int| 0 <= j < scores.len() ==> (#[trigger] scores[j]).total <= scores[i].total
    &&& forall|j: int| 0 <= j < i ==> (#[trigger] scores[j]).total < scores[i].total
}

/// `best` is the first best of the candidates, set against the day.
pub open spec fn is_best_window(
    best: OptimalWindow,
    windows: Seq<RideWindow>,
    scores: Seq<Grusindeks>,
    day_score: Grusindeks,
) -> bool {
    exists|i: int|
        #![trigger scores[i]]
        {
            &&& is_first_best(scores, i)
            &&& best.window == windows[i]
            &&& best.score == scores[i]
            &&& best.improvement == if scores[i].total > day_score.total {
                scores[i].total - day_score.total
            } else {
                0
            }
            &&& best.reason == reason_of(scores[i].breakdown, day_score.breakdown)
        }
}

/// The highest-scoring sub-window that overlaps no excluded window.
/// `candidate_scores` are the scores of [`best_window_candidates`], in their
/// order, and `day_score` is that of the whole day.
pub fn find_best_window_excluding(
    hours: &Vec<HourlyConditions>,
    day_window: RideWindow,
    length_hours: i64,
    excluded_windows: &Vec<RideWindow>,
    day_score: &Grusindeks,
    candidate_scores: Vec<Grusindeks>,
) -> (best: Option<OptimalWindow>)
    requires
        day_window.valid(),
        candidate_scores@.len() == candidates(
            hours@,
            day_window,
            length_hours as int,
            excluded_windows@,
        ).len(),
    ensures
        best is None <==> candidates(hours@, day_window, length_hours as int, excluded_windows@).len()
            == 0,
        best is Some ==> is_best_window(
            best->0,
            candidates(hours@, day_window, length_hours as int, excluded_windows@),
            candidate_scores@,
            *day_score,
        ),
{
    let windows = best_window_candidates(hours, day_window, length_hours, excluded_windows);
    if windows.len() == 0 {
        return None;
    }
    let mut best: usize = 0;
    let mut i: usize = 1;
    while i < windows.len()
        invariant
            windows.len() == candidate_scores.len(),
            best < i <= windows.len(),
            forall|j: int|
                0 <= j < i ==> (#[trigger] candidate_scores@[j]).total
                    <= candidate_scores@[best as int].total,
            forall|j: int|
                0 <= j < best ==> (#[trigger] candidate_scores@[j]).total
                    < candidate_scores@[best as int].total,
        decreases windows.len() - i,
    {
        if candidate_scores[i].total > candidate_scores[best].total {
            best = i;
        }
        i = i + 1;
    }
    let ghost scores = candidate_scores@;
    let mut candidate_scores = candidate_scores;
    let score = candidate_scores.swap_remove(best);
    let improvement: u8 = score.total.saturating_sub(day_score.total);
    let reason = reason_for(&score.breakdown, &day_score.breakdown);
    proof {
        assert(is_first_best(scores, best as int));
        assert(score == scores[best as int]);
    }
    Some(OptimalWindow { window: windows[best], score, improvement, reason })
}

/// [`find_best_window_excluding`] with nothing excluded.
pub fn find_best_window(
    hours: &Vec<HourlyConditions>,
    day_window: RideWindow,
    length_hours: i64,
    day_score: &Grusindeks,
    candidate_scores: Vec<Grusindeks>,
) -> (best: Option<OptimalWindow>)
    requires
        day_window.valid(),
        candidate_scores@.len() == candidates(
            hours@,
            day_window,
            length_hours as int,
            Seq::empty(),
        ).len(),
    ensures
        best is None <==> candidates(hours@, day_window, length_hours as int, Seq::empty()).len()
            == 0,
        best is Some ==> is_best_window(
            best->0,
            candidates(hours@, day_window, length_hours as int, Seq::empty()),
            candidate_scores@,
            *day_score,
        ),
{
    let nothing: Vec<RideWindow> = Vec::new();
    find_best_window_excluding(
        hours,
        day_window,
        length_hours,
        &nothing,
        day_score,
        candidate_scores,
    )
}

// ---- The day ----

/// `day` is the rollup of `hours` over `day_window`.
pub open spec fn is_day_score(
    day: DayScore,
    hours: Seq<HourlyConditions>,
    day_window: RideWindow,
    now: int,
    best_window: BestWindowConfig,
    sky: SkySummary,
    day_score: Grusindeks,
    candidate_scores: Seq<Grusindeks>,
) -> bool {
    let inside = in_window(hours, day_window);
    let windows = candidates(
        hours,
        day_window,
        best_window.length_hours as int,
        best_window.excluded_windows@,
    );
    &&& day.window == day_window
    &&& day.score == day_score
    &&& day.confidence == confidence_of(inside, day_window.start as int, now)
    &&& day.hours_with_data == inside.len()
    &&& day.weather_icon@ == icon_text(inside, sky)
    &&& match day.optimal_window {
        Some(best) => windows.len() > 0 && is_best_window(
            best,
            windows,
            candidate_scores,
            day_score,
        ) && best.improvement >= best_window.min_improvement,
        None => windows.len() == 0 || forall|best: OptimalWindow| #[trigger]
            is_best_window(best, windows, candidate_scores, day_score) ==> best.improvement
                < best_window.min_improvement,
    }
}

/// Compute the [`DayScore`] for the given `day_window`. `day_score` is the
/// score over the whole window and `candidate_scores` those of the candidates
/// for the best sub-window.
pub fn compute_day(
    hours: &Vec<HourlyConditions>,
    day_window: RideWindow,
    now: i128,
    best_window: &BestWindowConfig,
    sky: &SkySummary,
    day_score: Grusindeks,
    candidate_scores: Vec<Grusindeks>,
) -> (day: DayScore)
    requires
        day_window.valid(),
        is_instant(now as int),
        candidate_scores@.len() == candidates(
            hours@,
            day_window,
            best_window.length_hours as int,
            best_window.excluded_windows@,
        ).len(),
    ensures
        is_day_score(
            day,
            hours@,
            day_window,
            now as int,
            *best_window,
            *sky,
            day_score,
            candidate_scores@,
        ),
{
    let inside = hours_in_window(hours, day_window);
    let confidence = confidence_for(&inside, day_window, now);
    let found = find_best_window_excluding(
        hours,
        day_window,
        best_window.length_hours,
        &best_window.excluded_windows,
        &day_score,
        candidate_scores,
    );
    let ghost first = found;
    let optimal_window = match found {
        Some(best) => if best.improvement >= best_window.min_improvement {
            Some(best)
        } else {
            None
        },
        None => None,
    };
    proof {
        let windows = candidates(
            hours@,
            day_window,
            best_window.length_hours as int,
            best_window.excluded_windows@,
        );
        if optimal_window is None && windows.len() > 0 {
            assert forall|best: OptimalWindow| #[trigger]
                is_best_window(best, windows, candidate_scores@, day_score) implies best.improvement
                < best_window.min_improvement by {
                crate::daily::laws::the_best_window_is_unique(
                    best,
                    first->0,
                    windows,
                    candidate_scores@,
                    day_score,
                );
            }
        }
    }
    let weather_icon = weather_icon_for(&inside, sky);
    DayScore {
        window: day_window,
        score: day_score,
        confidence,
        hours_with_data: inside.len(),
        optimal_window,
        weather_icon,
    }
}

} // verus!
