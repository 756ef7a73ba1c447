//! Multi-point score aggregation: what the scores of the sample points around
//! a location add up to.
use vstd::prelude::*;

use crate::aggregate::laws::{
    added_up, the_mean_drops_fractions_of_the_sum, the_mean_is_nearest_to_the_sum,
};
use crate::config::Point;
use crate::daily::{reason_for, reason_of, BestWindowReason, Confidence, DayScore};
use crate::lang::Language;
use crate::nowcast::NowcastAlert;
use crate::reading::Measured;
use crate::score::{same_stats, Grusindeks, ScoreBreakdown, WindowFigures, WindowStats};
use crate::time::{Date, RideWindow};

pub mod laws;

verus! {

// ---- Means ----

/// The sum of scores.
pub open spec fn sum_of(xs: Seq<u8>) -> int
    decreases xs.len(),
{
    if xs.len() == 0 {
        0
    } else {
        sum_of(xs.drop_last()) + xs.last()
    }
}

/// The mean, rounded to the nearest whole point.
pub open spec fn rounded_mean(xs: Seq<u8>) -> int {
    (sum_of(xs) + xs.len() as int / 2) / (xs.len() as int)
}

/// The mean, fractions dropped; 0 of nothing.
pub open spec fn floored_mean(xs: Seq<u8>) -> int {
    if xs.len() == 0 {
        0
    } else {
        sum_of(xs) / (xs.len() as int)
    }
}

pub(crate) proof fn lemma_sum_bounds(xs: Seq<u8>)
    ensures
        0 <= sum_of(xs) <= 255 * xs.len(),
    decreases xs.len(),
{
    if xs.len() > 0 {
        lemma_sum_bounds(xs.drop_last());
    }
}

proof fn lemma_mean_fits(sum: int, n: int)
    requires
        0 < n,
        0 <= sum <= 255 * n,
    ensures
        0 <= (sum + n / 2) / n <= 255,
        0 <= sum / n <= 255,
{
    assert(0 <= (sum + n / 2) / n <= 255) by (nonlinear_arith)
        requires
            0 < n,
            0 <= sum <= 255 * n,
            0 <= n / 2 < n,
    ;
    assert(0 <= sum / n <= 255) by (nonlinear_arith)
        requires
            0 < n,
            0 <= sum <= 255 * n,
    ;
}

fn sum(xs: &Vec<u8>) -> (total: u128)
    ensures
        total == sum_of(xs@),
{
    let mut total: u128 = 0;
    let mut i: usize = 0;
    proof {
        assert(xs@.take(0) =~= Seq::empty());
    }
    while i < xs.len()
        invariant
            i <= xs.len(),
            total == sum_of(xs@.take(i as int)),
            total <= 255 * i,
        decreases xs.len() - i,
    {
        proof {
            assert(xs@.take(i + 1).drop_last() =~= xs@.take(i as int));
        }
        total = total + xs[i] as u128;
        i = i + 1;
    }
    proof {
        assert(xs@.take(xs.len() as int) =~= xs@);
    }
    total
}

/// Round-to-nearest mean of scores.
pub fn mean_round(xs: &Vec<u8>) -> (mean: u8)
    requires
        xs@.len() > 0,
    ensures
        mean == rounded_mean(xs@),
        2 * mean * xs@.len() <= 2 * added_up(xs@) + xs@.len(),
        2 * added_up(xs@) < 2 * mean * xs@.len() + xs@.len(),
{
    let n: u128 = xs.len() as u128;
    let total: u128 = sum(xs);
    proof {
        the_mean_is_nearest_to_the_sum(xs@);
        lemma_sum_bounds(xs@);
        lemma_mean_fits(total as int, n as int);
    }
    ((total + n / 2) / n) as u8
}

/// Mean of scores, fractions dropped; 0 of nothing.
pub fn mean_floor(xs: &Vec<u8>) -> (mean: u8)
    ensures
        mean == floored_mean(xs@),
        xs@.len() == 0 ==> mean == 0,
        xs@.len() > 0 ==> mean * xs@.len() <= added_up(xs@) < (mean + 1) * xs@.len(),
{
    if xs.len() == 0 {
        return 0;
    }
    let n: u128 = xs.len() as u128;
    let total: u128 = sum(xs);
    proof {
        the_mean_drops_fractions_of_the_sum(xs@);
        lemma_sum_bounds(xs@);
        lemma_mean_fits(total as int, n as int);
    }
    (total / n) as u8
}

/// `m` is the lowest score.
pub open spec fn is_lowest(xs: Seq<u8>, m: u8) -> bool {
    xs.contains(m) && forall|i: int| 0 <= i < xs.len() ==> m <= #[trigger] xs[i]
}

/// `m` is the highest score.
pub open spec fn is_highest(xs: Seq<u8>, m: u8) -> bool {
    xs.contains(m) && forall|i: int| 0 <= i < xs.len() ==> #[trigger] xs[i] <= m
}

pub fn lowest(xs: &Vec<u8>) -> (m: u8)
    requires
        xs@.len() > 0,
    ensures
        is_lowest(xs@, m),
{
    let mut m: u8 = xs[0];
    let mut i: usize = 1;
    while i < xs.len()
        invariant
            1 <= i <= xs.len(),
            xs@.contains(m),
            forall|k: int| 0 <= k < i ==> m <= #[trigger] xs@[k],
        decreases xs.len() - i,
    {
        if xs[i] < m {
            m = xs[i];
        }
        i = i + 1;
    }
    m
}

pub fn highest(xs: &Vec<u8>) -> (m: u8)
    requires
        xs@.len() > 0,
    ensures
        is_highest(xs@, m),
{
    let mut m: u8 = xs[0];
    let mut i: usize = 1;
    while i < xs.len()
        invariant
            1 <= i <= xs.len(),
            xs@.contains(m),
            forall|k: int| 0 <= k < i ==> #[trigger] xs@[k] <= m,
        decreases xs.len() - i,
    {
        if xs[i] > m {
            m = xs[i];
        }
        i = i + 1;
    }
    m
}

// ---- Axes ----

/// One of the axes of a breakdown.
#[derive(Debug, Clone, Copy, PartialEq, Eq, Structural)]
pub enum Axis {
    Temperature,
    Wind,
    Precipitation,
    PrecipProbability,
    Ground,
}

impl Axis {
    pub open spec fn spec_of(self, b: ScoreBreakdown) -> u8 {
        match self {
            Axis::Temperature => b.temperature,
            Axis::Wind => b.wind,
            Axis::Precipitation => b.precipitation,
            Axis::PrecipProbability => b.precip_probability,
            Axis::Ground => b.ground,
        }
    }

    /// The sub-score on the axis.
    pub fn of(self, b: &ScoreBreakdown) -> (score: u8)
        ensures
            score == self.spec_of(*b),
    {
        match self {
            Axis::Temperature => b.temperature,
            Axis::Wind => b.wind,
            Axis::Precipitation => b.precipitation,
            Axis::PrecipProbability => b.precip_probability,
            Axis::Ground => b.ground,
        }
    }
}

/// The sub-scores of breakdowns on one axis.
pub open spec fn axis_scores(breakdowns: Seq<ScoreBreakdown>, axis: Axis) -> Seq<u8> {
    breakdowns.map_values(|b: ScoreBreakdown| axis.spec_of(b))
}

fn scores_on(breakdowns: &Vec<ScoreBreakdown>, axis: Axis) -> (scores: Vec<u8>)
    ensures
        scores@ == axis_scores(breakdowns@, axis),
{
    let mut scores: Vec<u8> = Vec::new();
    let mut i: usize = 0;
    while i < breakdowns.len()
        invariant
            i <= breakdowns.len(),
            scores@ == axis_scores(breakdowns@, axis).take(i as int),
        decreases breakdowns.len() - i,
    {
        scores.push(axis.of(&breakdowns[i]));
        proof {
            let all = axis_scores(breakdowns@, axis);
            assert(all.take(i + 1) =~= all.take(i as int).push(all[i as int]));
        }
        i = i + 1;
    }
    proof {
        assert(scores@ =~= axis_scores(breakdowns@, axis));
    }
    scores
}

/// The mean of breakdowns on one axis, fractions dropped.
pub fn mean_on(breakdowns: &Vec<ScoreBreakdown>, axis: Axis) -> (mean: u8)
    ensures
        mean == floored_mean(axis_scores(breakdowns@, axis)),
{
    mean_floor(&scores_on(breakdowns, axis))
}

/// The breakdown whose axes are the rounded means.
pub open spec fn mean_breakdown_of(breakdowns: Seq<ScoreBreakdown>) -> ScoreBreakdown {
    ScoreBreakdown {
        temperature: rounded_mean(axis_scores(breakdowns, Axis::Temperature)) as u8,
        wind: rounded_mean(axis_scores(breakdowns, Axis::Wind)) as u8,
        precipitation: rounded_mean(axis_scores(breakdowns, Axis::Precipitation)) as u8,
        precip_probability: rounded_mean(axis_scores(breakdowns, Axis::PrecipProbability)) as u8,
        ground: rounded_mean(axis_scores(breakdowns, Axis::Ground)) as u8,
    }
}

/// The breakdown whose axes are the rounded means.
pub fn mean_breakdown(breakdowns: &Vec<ScoreBreakdown>) -> (mean: ScoreBreakdown)
    requires
        breakdowns@.len() > 0,
    ensures
        mean == mean_breakdown_of(breakdowns@),
{
    ScoreBreakdown {
        temperature: mean_round(&scores_on(breakdowns, Axis::Temperature)),
        wind: mean_round(&scores_on(breakdowns, Axis::Wind)),
        precipitation: mean_round(&scores_on(breakdowns, Axis::Precipitation)),
        precip_probability: mean_round(&scores_on(breakdowns, Axis::PrecipProbability)),
        ground: mean_round(&scores_on(breakdowns, Axis::Ground)),
    }
}

// ---- One window ----

/// The past week's rain.
#[derive(Debug, PartialEq, Eq)]
pub struct RainHistory {
    pub total_mm: Measured,
    pub wettest_day_mm: Measured,
    pub wettest_day: Date,
    pub rain_days: u32,
    pub lookback_hours: i64,
}

/// The score of one sample point.
#[derive(Debug, PartialEq, Eq)]
pub struct PointScore {
    pub point: Point,
    /// Where the point lies from the centre, in words.
    pub bearing_label: String,
    pub is_center: bool,
    pub score: Grusindeks,
}

/// The scores of all sample points for one window.
#[derive(Debug, PartialEq, Eq)]
pub struct AggregateScore {
    pub min: u8,
    pub mean: u8,
    pub max: u8,
    pub points: Vec<PointScore>,
    pub rain_history: Option<RainHistory>,
    pub nowcast_alert: Option<NowcastAlert>,
}

/// The totals of the points.
pub open spec fn point_totals(points: Seq<PointScore>) -> Seq<u8> {
    points.map_values(|p: PointScore| p.score.total)
}

/// The breakdowns of the points.
pub open spec fn point_breakdowns(points: Seq<PointScore>) -> Seq<ScoreBreakdown> {
    points.map_values(|p: PointScore| p.score.breakdown)
}

fn totals_of(points: &Vec<PointScore>) -> (totals: Vec<u8>)
    ensures
        totals@ == point_totals(points@),
{
    let mut totals: Vec<u8> = Vec::new();
    let mut i: usize = 0;
    while i < points.len()
        invariant
            i <= points.len(),
            totals@ == point_totals(points@).take(i as int),
        decreases points.len() - i,
    {
        totals.push(points[i].score.total);
        proof {
            let all = point_totals(points@);
            assert(all.take(i + 1) =~= all.take(i as int).push(all[i as int]));
        }
        i = i + 1;
    }
    proof {
        assert(totals@ =~= point_totals(points@));
    }
    totals
}

/// The breakdowns of the points.
pub fn breakdowns_of(points: &Vec<PointScore>) -> (out: Vec<ScoreBreakdown>)
    ensures
        out@ == point_breakdowns(points@),
{
    let mut out: Vec<ScoreBreakdown> = Vec::new();
    let mut i: usize = 0;
    while i < points.len()
        invariant
            i <= points.len(),
            out@ == point_breakdowns(points@).take(i as int),
        decreases points.len() - i,
    {
        out.push(points[i].score.breakdown);
        proof {
            let all = point_breakdowns(points@);
            assert(all.take(i + 1) =~= all.take(i as int).push(all[i as int]));
        }
        i = i + 1;
    }
    proof {
        assert(out@ =~= point_breakdowns(points@));
    }
    out
}

/// Position `i` is the centre: the first point marked so, else the first.
pub open spec fn is_center_position(points: Seq<PointScore>, i: int) -> bool {
    ||| (0 <= i < points.len() && points[i].is_center && forall|j: int|
        0 <= j < i ==> !(#[trigger] points[j]).is_center)
    ||| (i == 0 && points.len() > 0 && forall|j: int|
        0 <= j < points.len() ==> !(#[trigger] points[j]).is_center)
}

/// Position `i` has the lowest total, and is the first of that height.
pub open spec fn is_worst_position(points: Seq<PointScore>, i: int) -> bool {
    &&& 0 <= i < points.len()
    &&& forall|j: int| 0 <= j < points.len() ==> points[i].score.total <= (#[trigger] points[j]).score.total
    &&& forall|j: int| 0 <= j < i ==> points[i].score.total < (#[trigger] points[j]).score.total
}

/// Position `i` has the highest total, and is the last of that height.
pub open spec fn is_best_position(points: Seq<PointScore>, i: int) -> bool {
    &&& 0 <= i < points.len()
    &&& forall|j: int| 0 <= j < points.len() ==> (#[trigger] points[j]).score.total <= points[i].score.total
    &&& forall|j: int| i < j < points.len() ==> (#[trigger] points[j]).score.total < points[i].score.total
}

impl AggregateScore {
    /// Lowest, mean and highest total of the points.
    pub open spec fn is_rolled_up(self) -> bool {
        let totals = point_totals(self.points@);
        &&& self.points@.len() > 0
        &&& is_lowest(totals, self.min)
        &&& is_highest(totals, self.max)
        &&& self.mean == rounded_mean(totals)
    }

    /// Roll up the scores of the sample points.
    pub fn from_points(points: Vec<PointScore>) -> (agg: AggregateScore)
        requires
            points@.len() > 0,
        ensures
            agg.is_rolled_up(),
            agg.points == points,
            agg.rain_history is None,
            agg.nowcast_alert is None,
    {
        let totals = totals_of(&points);
        AggregateScore {
            min: lowest(&totals),
            mean: mean_round(&totals),
            max: highest(&totals),
            points,
            rain_history: None,
            nowcast_alert: None,
        }
    }

    /// Position of the centre point.
    pub fn center_position(&self) -> (at: usize)
        requires
            self.points@.len() > 0,
        ensures
            at < self.points@.len(),
            is_center_position(self.points@, at as int),
    {
        let mut i: usize = 0;
        while i < self.points.len()
            invariant
                i <= self.points.len(),
                forall|j: int| 0 <= j < i ==> !(#[trigger] self.points@[j]).is_center,
            decreases self.points.len() - i,
        {
            if self.points[i].is_center {
                return i;
            }
            i = i + 1;
        }
        0
    }

    /// The point with the lowest total; the first of several.
    pub fn worst(&self) -> (point: &PointScore)
        requires
            self.points@.len() > 0,
        ensures
            exists|i: int|
                #![trigger self.points@[i]]
                is_worst_position(self.points@, i) && *point == self.points@[i],
    {
        let mut at: usize = 0;
        let mut i: usize = 1;
        while i < self.points.len()
            invariant
                at < i <= self.points.len(),
                forall|j: int|
                    0 <= j < i ==> self.points@[at as int].score.total <= (
                    #[trigger] self.points@[j]).score.total,
                forall|j: int|
                    0 <= j < at ==> self.points@[at as int].score.total < (
                    #[trigger] self.points@[j]).score.total,
            decreases self.points.len() - i,
        {
            if self.points[i].score.total < self.points[at].score.total {
                at = i;
            }
            i = i + 1;
        }
        proof {
            assert(is_worst_position(self.points@, at as int));
        }
        &self.points[at]
    }

    /// The point with the highest total; the last of several.
    pub fn best(&self) -> (point: &PointScore)
        requires
            self.points@.len() > 0,
        ensures
            exists|i: int|
                #![trigger self.points@[i]]
                is_best_position(self.points@, i) && *point == self.points@[i],
    {
        let mut at: usize = 0;
        let mut i: usize = 1;
        while i < self.points.len()
            invariant
                at < i <= self.points.len(),
                forall|j: int|
                    0 <= j < i ==> (#[trigger] self.points@[j]).score.total
                        <= self.points@[at as int].score.total,
                forall|j: int|
                    at < j < i ==> (#[trigger] self.points@[j]).score.total
                        < self.points@[at as int].score.total,
            decreases self.points.len() - i,
        {
            if self.points[i].score.total >= self.points[at].score.total {
                at = i;
            }
            i = i + 1;
        }
        proof {
            assert(is_best_position(self.points@, at as int));
        }
        &self.points[at]
    }
}

// ---- One day ----

/// The day score of one sample point.
#[derive(Debug, PartialEq, Eq)]
pub struct DayPointScore {
    pub point: Point,
    /// Where the point lies from the centre, in words.
    pub bearing_label: String,
    pub is_center: bool,
    pub day_score: DayScore,
}

/// The best sub-window of a day, set against all its sample points.
#[derive(Debug, PartialEq, Eq)]
pub struct DayOptimum {
    pub window: RideWindow,
    pub total: u8,
    pub stats: WindowStats,
    /// How far the window's total lies above the day's mean.
    pub improvement: u8,
    pub reason: Option<BestWindowReason>,
}

/// The scores of all sample points for one day.
#[derive(Debug, PartialEq, Eq)]
pub struct DayAggregate {
    pub date: Date,
    pub window: RideWindow,
    pub min: u8,
    pub mean: u8,
    pub max: u8,
    pub confidence: Confidence,
    pub optimal_window: Option<DayOptimum>,
    pub points: Vec<DayPointScore>,
}

/// The totals of the points of a day.
pub open spec fn day_totals(points: Seq<DayPointScore>) -> Seq<u8> {
    points.map_values(|p: DayPointScore| p.day_score.score.total)
}

/// The breakdowns of the points of a day.
pub open spec fn day_breakdowns(points: Seq<DayPointScore>) -> Seq<ScoreBreakdown> {
    points.map_values(|p: DayPointScore| p.day_score.score.breakdown)
}

fn day_totals_of(points: &Vec<DayPointScore>) -> (totals: Vec<u8>)
    ensures
        totals@ == day_totals(points@),
{
    let mut totals: Vec<u8> = Vec::new();
    let mut i: usize = 0;
    while i < points.len()
        invariant
            i <= points.len(),
            totals@ == day_totals(points@).take(i as int),
        decreases points.len() - i,
    {
        totals.push(points[i].day_score.score.total);
        proof {
            let all = day_totals(points@);
            assert(all.take(i + 1) =~= all.take(i as int).push(all[i as int]));
        }
        i = i + 1;
    }
    proof {
        assert(totals@ =~= day_totals(points@));
    }
    totals
}

/// The breakdowns of the points of a day.
pub fn day_breakdowns_of(points: &Vec<DayPointScore>) -> (out: Vec<ScoreBreakdown>)
    ensures
        out@ == day_breakdowns(points@),
{
    let mut out: Vec<ScoreBreakdown> = Vec::new();
    let mut i: usize = 0;
    while i < points.len()
        invariant
            i <= points.len(),
            out@ == day_breakdowns(points@).take(i as int),
        decreases points.len() - i,
    {
        out.push(points[i].day_score.score.breakdown);
        proof {
            let all = day_breakdowns(points@);
            assert(all.take(i + 1) =~= all.take(i as int).push(all[i as int]));
        }
        i = i + 1;
    }
    proof {
        assert(out@ =~= day_breakdowns(points@));
    }
    out
}

/// The position of the centre: the first point marked so, else the first.
pub open spec fn day_center(points: Seq<DayPointScore>) -> int
    decreases points.len(),
{
    first_center(points, 0)
}

/// The first centre from `from` on, or 0 where there is none.
pub open spec fn first_center(points: Seq<DayPointScore>, from: int) -> int
    decreases points.len() - from,
{
    if from < 0 || from >= points.len() {
        0
    } else if points[from].is_center {
        from
    } else {
        first_center(points, from + 1)
    }
}

/// The breakdown that the day shows: the mean on each axis, fractions dropped.
pub open spec fn shown_breakdown(breakdowns: Seq<ScoreBreakdown>) -> ScoreBreakdown {
    ScoreBreakdown {
        temperature: floored_mean(axis_scores(breakdowns, Axis::Temperature)) as u8,
        wind: floored_mean(axis_scores(breakdowns, Axis::Wind)) as u8,
        precipitation: floored_mean(axis_scores(breakdowns, Axis::Precipitation)) as u8,
        precip_probability: floored_mean(axis_scores(breakdowns, Axis::PrecipProbability)) as u8,
        ground: floored_mean(axis_scores(breakdowns, Axis::Ground)) as u8,
    }
}

fn shown(breakdowns: &Vec<ScoreBreakdown>) -> (b: ScoreBreakdown)
    ensures
        b == shown_breakdown(breakdowns@),
{
    ScoreBreakdown {
        temperature: mean_on(breakdowns, Axis::Temperature),
        wind: mean_on(breakdowns, Axis::Wind),
        precipitation: mean_on(breakdowns, Axis::Precipitation),
        precip_probability: mean_on(breakdowns, Axis::PrecipProbability),
        ground: mean_on(breakdowns, Axis::Ground),
    }
}

/// The best sub-window of the centre, its improvement and reason taken against
/// the mean of all points, which is what the day shows.
pub open spec fn is_day_optimum(
    optimum: Option<DayOptimum>,
    points: Seq<DayPointScore>,
    mean: int,
) -> bool {
    match points[day_center(points)].day_score.optimal_window {
        Some(best) => {
            &&& optimum is Some
            &&& optimum->0.window == best.window
            &&& optimum->0.total == best.score.total
            &&& same_stats(optimum->0.stats, best.score.stats)
            &&& optimum->0.improvement == if best.score.total > mean {
                best.score.total - mean
            } else {
                0
            }
            &&& optimum->0.reason == reason_of(
                best.score.breakdown,
                shown_breakdown(day_breakdowns(points)),
            )
        },
        None => optimum is None,
    }
}

impl DayAggregate {
    /// Lowest, mean and highest total of the points; confidence and best
    /// window of the centre.
    pub open spec fn is_rolled_up(self) -> bool {
        let totals = day_totals(self.points@);
        &&& self.points@.len() > 0
        &&& is_lowest(totals, self.min)
        &&& is_highest(totals, self.max)
        &&& self.mean == rounded_mean(totals)
        &&& self.confidence == self.points@[day_center(self.points@)].day_score.confidence
        &&& is_day_optimum(self.optimal_window, self.points@, self.mean as int)
    }

    /// Roll up the day scores of the sample points.
    pub fn from_points(date: Date, window: RideWindow, points: Vec<DayPointScore>) -> (day:
        DayAggregate)
        requires
            points@.len() > 0,
        ensures
            day.is_rolled_up(),
            day.date == date,
            day.window == window,
            day.points == points,
    {
        let totals = day_totals_of(&points);
        let mean: u8 = mean_round(&totals);
        let at: usize = center_of(&points);
        let confidence = points[at].day_score.confidence;
        let optimal_window = match &points[at].day_score.optimal_window {
            Some(best) => Some(
                DayOptimum {
                    window: best.window,
                    total: best.score.total,
                    stats: best.score.stats.copied(),
                    improvement: best.score.total.saturating_sub(mean),
                    reason: reason_for(&best.score.breakdown, &shown(&day_breakdowns_of(&points))),
                },
            ),
            None => None,
        };
        DayAggregate {
            date,
            window,
            min: lowest(&totals),
            mean,
            max: highest(&totals),
            confidence,
            optimal_window,
            points,
        }
    }

    /// The day score of the centre.
    pub fn center(&self) -> (day_score: &DayScore)
        requires
            self.points@.len() > 0,
        ensures
            *day_score == self.points@[day_center(self.points@)].day_score,
    {
        let at: usize = center_of(&self.points);
        &self.points[at].day_score
    }
}

fn center_of(points: &Vec<DayPointScore>) -> (at: usize)
    requires
        points@.len() > 0,
    ensures
        at == day_center(points@),
        at < points@.len(),
{
    let mut i: usize = 0;
    while i < points.len()
        invariant
            i <= points.len(),
            day_center(points@) == first_center(points@, i as int),
        decreases points.len() - i,
    {
        if points[i].is_center {
            return i;
        }
        i = i + 1;
    }
    0
}

/// The forecast of several days.
#[derive(Debug, PartialEq, Eq)]
pub struct MultiDayForecast {
    pub days: Vec<DayAggregate>,
    pub rain_history: Option<RainHistory>,
    pub nowcast_alert: Option<NowcastAlert>,
}

// ---- One hour ----

/// The scores of all sample points for one hour.
#[derive(Debug, Clone, Copy, PartialEq, Eq, Structural)]
pub struct HourScore {
    pub time: i128,
    pub mean: u8,
    pub min: u8,
    pub max: u8,
    pub breakdown: ScoreBreakdown,
    pub confidence: Confidence,
}

/// The hours of one day.
#[derive(Debug, PartialEq, Eq)]
pub struct HourlyDayAggregate {
    pub date: Date,
    pub daytime_window: RideWindow,
    pub hours: Vec<HourScore>,
    /// The figures of the centre over the whole day, where anything was scored.
    pub stats: Option<WindowFigures>,
}

/// The forecast of several days, hour by hour.
#[derive(Debug, PartialEq, Eq)]
pub struct HourlyForecast {
    /// Local-clock hours that label the columns.
    pub header_hours: Vec<u8>,
    pub days: Vec<HourlyDayAggregate>,
    pub rain_history: Option<RainHistory>,
    pub nowcast_alert: Option<NowcastAlert>,
}

// ---- Compass ----

/// Which of eight compass directions a bearing in degrees is closest to.
pub open spec fn compass_text(bearing_deg: int, lang: Language) -> Seq<char> {
    let eighth = ((bearing_deg * 2 + 45) / 90) % 8;
    match lang {
        Language::Norwegian => if eighth == 0 {
            "N"@
        } else if eighth == 1 {
            "NØ"@
        } else if eighth == 2 {
            "Ø"@
        } else if eighth == 3 {
            "SØ"@
        } else if eighth == 4 {
            "S"@
        } else if eighth == 5 {
            "SV"@
        } else if eighth == 6 {
            "V"@
        } else {
            "NV"@
        },
        Language::Swedish => if eighth == 0 {
            "N"@
        } else if eighth == 1 {
            "NÖ"@
        } else if eighth == 2 {
            "Ö"@
        } else if eighth == 3 {
            "SÖ"@
        } else if eighth == 4 {
            "S"@
        } else if eighth == 5 {
            "SV"@
        } else if eighth == 6 {
            "V"@
        } else {
            "NV"@
        },
    }
}

/// Compass abbreviation of a bearing in whole degrees.
pub fn compass_label(bearing_deg: u16, lang: Language) -> (label: &'static str)
    ensures
        label@ == compass_text(bearing_deg as int, lang),
{
    let eighth: u32 = ((bearing_deg as u32 * 2 + 45) / 90) % 8;
    match lang {
        Language::Norwegian => if eighth == 0 {
            "N"
        } else if eighth == 1 {
            "NØ"
        } else if eighth == 2 {
            "Ø"
        } else if eighth == 3 {
            "SØ"
        } else if eighth == 4 {
            "S"
        } else if eighth == 5 {
            "SV"
        } else if eighth == 6 {
            "V"
        } else {
            "NV"
        },
        Language::Swedish => if eighth == 0 {
            "N"
        } else if eighth == 1 {
            "NÖ"
        } else if eighth == 2 {
            "Ö"
        } else if eighth == 3 {
            "SÖ"
        } else if eighth == 4 {
            "S"
        } else if eighth == 5 {
            "SV"
        } else if eighth == 6 {
            "V"
        } else {
            "NV"
        },
    }
}

/// The word for the centre itself.
pub fn center_label(lang: Language) -> (label: &'static str)
    ensures
        label@ == (match lang {
            Language::Norwegian => "senter"@,
            Language::Swedish => "centrum"@,
        }),
{
    match lang {
        Language::Norwegian => "senter",
        Language::Swedish => "centrum",
    }
}

} // verus!
