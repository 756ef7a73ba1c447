//! What holds of every aggregation.
use vstd::prelude::*;

use crate::aggregate::{
    axis_scores, compass_text, day_breakdowns, first_center, floored_mean, is_best_position,
    is_highest, is_lowest, is_worst_position, mean_breakdown_of, rounded_mean, shown_breakdown,
    sum_of, AggregateScore, Axis, DayAggregate, DayPointScore, PointScore,
};
use crate::daily::reason_of;
use crate::lang::Language;
use crate::score::ScoreBreakdown;

verus! {

proof fn lemma_sum_between(xs: Seq<u8>, low: int, high: int)
    requires
        forall|i: int| 0 <= i < xs.len() ==> low <= #[trigger] xs[i] <= high,
    ensures
        low * xs.len() <= sum_of(xs) <= high * xs.len(),
    decreases xs.len(),
{
    if xs.len() > 0 {
        let rest = xs.drop_last();
        assert forall|i: int| 0 <= i < rest.len() implies low <= #[trigger] rest[i] <= high by {
            assert(rest[i] == xs[i]);
        }
        lemma_sum_between(rest, low, high);
        let n = rest.len() as int;
        assert(low <= xs[xs.len() - 1] <= high);
        assert(low * (n + 1) == low * n + low) by (nonlinear_arith);
        assert(high * (n + 1) == high * n + high) by (nonlinear_arith);
    }
}

/// A mean lies between the lowest and the highest score, rounded or not.
pub proof fn a_mean_lies_between_the_extremes(xs: Seq<u8>, low: u8, high: u8)
    requires
        is_lowest(xs, low),
        is_highest(xs, high),
    ensures
        low <= floored_mean(xs) <= rounded_mean(xs) <= high,
{
    lemma_sum_between(xs, low as int, high as int);
    let n = xs.len() as int;
    let total = sum_of(xs);
    let l = low as int;
    let h = high as int;
    assert(l <= total / n) by (nonlinear_arith)
        requires
            0 < n,
            l * n <= total,
    ;
    assert((total + n / 2) / n <= h) by (nonlinear_arith)
        requires
            0 < n,
            total <= h * n,
            0 <= n / 2 < n,
    ;
    assert(total / n <= (total + n / 2) / n) by (nonlinear_arith)
        requires
            0 < n,
            0 <= n / 2,
    ;
}

/// The mean of a rolled-up window lies between its extremes.
pub proof fn a_window_is_between_its_points(agg: AggregateScore)
    requires
        agg.is_rolled_up(),
    ensures
        agg.min <= agg.mean <= agg.max,
{
    a_mean_lies_between_the_extremes(
        crate::aggregate::point_totals(agg.points@),
        agg.min,
        agg.max,
    );
}

/// The mean of a rolled-up day lies between its extremes, and a day whose
/// points all score alike has that score as its mean.
pub proof fn a_day_is_between_its_points(day: DayAggregate)
    requires
        day.is_rolled_up(),
    ensures
        day.min <= day.mean <= day.max,
        day.min == day.max ==> day.mean == day.min,
{
    a_mean_lies_between_the_extremes(crate::aggregate::day_totals(day.points@), day.min, day.max);
}

// ---- Means and sums ----

/// All scores added up, one after the other.
pub open spec fn added_up(xs: Seq<u8>) -> int {
    xs.fold_left(0, |sum: int, x: u8| sum + x)
}

proof fn lemma_added_up(xs: Seq<u8>)
    ensures
        sum_of(xs) == added_up(xs),
    decreases xs.len(),
{
    if xs.len() > 0 {
        lemma_added_up(xs.drop_last());
    }
}

/// The rounded mean of any scores is the whole number nearest to their sum
/// divided by their number; halves go up.
pub proof fn the_mean_is_nearest_to_the_sum(xs: Seq<u8>)
    requires
        xs.len() > 0,
    ensures
        2 * rounded_mean(xs) * xs.len() <= 2 * added_up(xs) + xs.len(),
        2 * added_up(xs) < 2 * rounded_mean(xs) * xs.len() + xs.len(),
{
    lemma_added_up(xs);
    let n = xs.len() as int;
    let s = added_up(xs);
    let m = (s + n / 2) / n;
    assert(m * n <= s + n / 2 < m * n + n) by (nonlinear_arith)
        requires
            n > 0,
            m == (s + n / 2) / n,
    ;
    assert(2 * m * n == 2 * (m * n)) by (nonlinear_arith);
}

/// The mean that drops fractions is the largest whole number whose product with
/// the number of scores does not exceed their sum; of no scores it is zero.
pub proof fn the_mean_drops_fractions_of_the_sum(xs: Seq<u8>)
    ensures
        xs.len() == 0 ==> floored_mean(xs) == 0,
        xs.len() > 0 ==> floored_mean(xs) * xs.len() <= added_up(xs) < (floored_mean(xs) + 1)
            * xs.len(),
{
    lemma_added_up(xs);
    if xs.len() > 0 {
        let n = xs.len() as int;
        let s = added_up(xs);
        let m = s / n;
        assert(m * n <= s < (m + 1) * n) by (nonlinear_arith)
            requires
                n > 0,
                m == s / n,
        ;
    }
}

proof fn lemma_sum_by_count(xs: Seq<u8>, ys: Seq<u8>)
    requires
        xs.to_multiset() == ys.to_multiset(),
    ensures
        sum_of(xs) == sum_of(ys),
        xs.len() == ys.len(),
    decreases xs.len(),
{
    broadcast use vstd::seq_lib::group_to_multiset_ensures;

    assert(xs.len() == xs.to_multiset().len() && ys.len() == ys.to_multiset().len());
    if xs.len() > 0 {
        let x = xs.last();
        assert(xs.contains(xs[xs.len() - 1]));
        assert(ys.to_multiset().count(x) > 0);
        assert(ys.contains(x));
        let k = choose|k: int| 0 <= k < ys.len() && ys[k] == x;
        let rest = ys.remove(k);
        vstd::seq_lib::to_multiset_remove(ys, k);
        assert(xs =~= xs.drop_last().push(x));
        assert(xs.drop_last().to_multiset() =~= xs.to_multiset().remove(x));
        lemma_sum_by_count(xs.drop_last(), rest);
        lemma_sum_without(ys, k);
    }
}

proof fn lemma_sum_without(ys: Seq<u8>, k: int)
    requires
        0 <= k < ys.len(),
    ensures
        sum_of(ys) == sum_of(ys.remove(k)) + ys[k],
    decreases ys.len(),
{
    if k == ys.len() - 1 {
        assert(ys.remove(k) =~= ys.drop_last());
    } else {
        lemma_sum_without(ys.drop_last(), k);
        assert(ys.remove(k).drop_last() =~= ys.drop_last().remove(k));
        assert(ys.remove(k).last() == ys.last());
    }
}

/// The order of the points makes no difference to the mean.
pub proof fn the_mean_does_not_depend_on_the_order(xs: Seq<u8>, ys: Seq<u8>)
    requires
        xs.to_multiset() == ys.to_multiset(),
    ensures
        rounded_mean(xs) == rounded_mean(ys),
        floored_mean(xs) == floored_mean(ys),
{
    lemma_sum_by_count(xs, ys);
}

/// Every point has the same say: raising any one of several scores by as many
/// points as there are scores raises the mean by one.
pub proof fn every_point_counts_alike(xs: Seq<u8>, k: int, raised: u8)
    requires
        0 <= k < xs.len(),
        raised == xs[k] + xs.len(),
    ensures
        rounded_mean(xs.update(k, raised)) == rounded_mean(xs) + 1,
        floored_mean(xs.update(k, raised)) == floored_mean(xs) + 1,
{
    let ys = xs.update(k, raised);
    lemma_sum_without(xs, k);
    lemma_sum_without(ys, k);
    assert(xs.remove(k) =~= ys.remove(k));
    let n = xs.len() as int;
    let s = sum_of(xs);
    assert((s + n + n / 2) / n == (s + n / 2) / n + 1) by (nonlinear_arith)
        requires
            n > 0,
    ;
    assert((s + n) / n == s / n + 1) by (nonlinear_arith)
        requires
            n > 0,
    ;
}

// ---- Rollups ----

/// What several scores add up to in a rollup: the lowest, the highest, and the
/// whole number nearest to their mean.
pub open spec fn sums_up(scores: Seq<u8>, low: u8, mean: u8, high: u8) -> bool {
    &&& forall|i: int| 0 <= i < scores.len() ==> low <= #[trigger] scores[i] <= high
    &&& exists|i: int| 0 <= i < scores.len() && #[trigger] scores[i] == low
    &&& exists|i: int| 0 <= i < scores.len() && #[trigger] scores[i] == high
    &&& 2 * mean * scores.len() <= 2 * added_up(scores) + scores.len()
    &&& 2 * added_up(scores) < 2 * mean * scores.len() + scores.len()
}

/// A window rolls up the totals of all its points: the worst, the mean and the
/// best of them.
pub proof fn a_window_sums_up_the_totals_of_its_points(agg: AggregateScore)
    requires
        agg.is_rolled_up(),
    ensures
        sums_up(
            Seq::new(agg.points@.len(), |i: int| agg.points@[i].score.total),
            agg.min,
            agg.mean,
            agg.max,
        ),
{
    let totals = crate::aggregate::point_totals(agg.points@);
    assert(totals =~= Seq::new(agg.points@.len(), |i: int| agg.points@[i].score.total));
    the_mean_is_nearest_to_the_sum(totals);
}

/// A day rolls up the totals of all its points, and takes its confidence from
/// the centre: the first point marked so, else the first.
pub proof fn a_day_sums_up_the_totals_of_its_points(day: DayAggregate, c: int)
    requires
        day.is_rolled_up(),
        0 <= c < day.points@.len(),
        forall|j: int| 0 <= j < c ==> !(#[trigger] day.points@[j]).is_center,
        day.points@[c].is_center || (c == 0 && forall|j: int|
            0 <= j < day.points@.len() ==> !(#[trigger] day.points@[j]).is_center),
    ensures
        sums_up(
            Seq::new(day.points@.len(), |i: int| day.points@[i].day_score.score.total),
            day.min,
            day.mean,
            day.max,
        ),
        day.confidence == day.points@[c].day_score.confidence,
        day.optimal_window is Some <==> day.points@[c].day_score.optimal_window is Some,
        day.points@[c].day_score.optimal_window matches Some(best) ==> {
            &&& day.optimal_window->0.window == best.window
            &&& day.optimal_window->0.total == best.score.total
            &&& best.score.total > day.mean ==> day.optimal_window->0.improvement
                == best.score.total - day.mean
            &&& best.score.total <= day.mean ==> day.optimal_window->0.improvement == 0
        },
{
    let totals = crate::aggregate::day_totals(day.points@);
    assert(totals =~= Seq::new(day.points@.len(), |i: int| day.points@[i].day_score.score.total));
    the_mean_is_nearest_to_the_sum(totals);
    lemma_center(day.points@, 0, c);
}

pub(crate) proof fn lemma_center(points: Seq<DayPointScore>, from: int, c: int)
    requires
        0 <= from <= points.len(),
        0 <= c < points.len(),
        from <= c || !points[c].is_center,
        forall|j: int| 0 <= j < c ==> !(#[trigger] points[j]).is_center,
        points[c].is_center || (c == 0 && forall|j: int|
            0 <= j < points.len() ==> !(#[trigger] points[j]).is_center),
    ensures
        first_center(points, from) == c,
    decreases points.len() - from,
{
    if from < points.len() && !(points[from].is_center) {
        lemma_center(points, from + 1, c);
    }
}

/// A rolled-up breakdown has on every axis the whole number nearest to the mean
/// of the points there.
pub proof fn a_breakdown_is_the_mean_on_every_axis(breakdowns: Seq<ScoreBreakdown>)
    requires
        breakdowns.len() > 0,
    ensures
        ({
            let n = breakdowns.len();
            let mean = mean_breakdown_of(breakdowns);
            &&& is_nearest(mean.temperature, Seq::new(n, |i: int| breakdowns[i].temperature))
            &&& is_nearest(mean.wind, Seq::new(n, |i: int| breakdowns[i].wind))
            &&& is_nearest(mean.precipitation, Seq::new(n, |i: int| breakdowns[i].precipitation))
            &&& is_nearest(
                mean.precip_probability,
                Seq::new(n, |i: int| breakdowns[i].precip_probability),
            )
            &&& is_nearest(mean.ground, Seq::new(n, |i: int| breakdowns[i].ground))
        }),
{
    let n = breakdowns.len();
    assert(axis_scores(breakdowns, Axis::Temperature) =~= Seq::new(
        n,
        |i: int| breakdowns[i].temperature,
    ));
    assert(axis_scores(breakdowns, Axis::Wind) =~= Seq::new(n, |i: int| breakdowns[i].wind));
    assert(axis_scores(breakdowns, Axis::Precipitation) =~= Seq::new(
        n,
        |i: int| breakdowns[i].precipitation,
    ));
    assert(axis_scores(breakdowns, Axis::PrecipProbability) =~= Seq::new(
        n,
        |i: int| breakdowns[i].precip_probability,
    ));
    assert(axis_scores(breakdowns, Axis::Ground) =~= Seq::new(n, |i: int| breakdowns[i].ground));
    lemma_nearest(axis_scores(breakdowns, Axis::Temperature));
    lemma_nearest(axis_scores(breakdowns, Axis::Wind));
    lemma_nearest(axis_scores(breakdowns, Axis::Precipitation));
    lemma_nearest(axis_scores(breakdowns, Axis::PrecipProbability));
    lemma_nearest(axis_scores(breakdowns, Axis::Ground));
}

/// `mean` is the whole number nearest to the mean of the scores.
pub open spec fn is_nearest(mean: u8, scores: Seq<u8>) -> bool {
    &&& 2 * mean * scores.len() <= 2 * added_up(scores) + scores.len()
    &&& 2 * added_up(scores) < 2 * mean * scores.len() + scores.len()
}

proof fn lemma_nearest(xs: Seq<u8>)
    requires
        xs.len() > 0,
    ensures
        0 <= rounded_mean(xs) <= 255,
        is_nearest(rounded_mean(xs) as u8, xs),
{
    the_mean_is_nearest_to_the_sum(xs);
    lemma_sum_between(xs, 0, 255);
    let n = xs.len() as int;
    let s = sum_of(xs);
    assert(0 <= (s + n / 2) / n <= 255) by (nonlinear_arith)
        requires
            0 < n,
            0 <= s <= 255 * n,
            0 <= n / 2 < n,
    ;
}

/// The worst point is one that no other falls below, and the best one that none
/// exceeds.
pub proof fn worst_and_best_are_the_extremes(points: Seq<PointScore>, w: int, b: int, j: int)
    requires
        is_worst_position(points, w),
        is_best_position(points, b),
        0 <= j < points.len(),
    ensures
        points[w].score.total <= points[j].score.total <= points[b].score.total,
        j < w ==> points[w].score.total < points[j].score.total,
        b < j ==> points[j].score.total < points[b].score.total,
{
}

/// A bearing is named after the nearest of the eight directions, an eighth of a
/// turn apart; a full turn makes no difference.
pub proof fn a_bearing_is_named_after_the_nearest_direction(
    bearing: int,
    eighth: int,
    lang: Language,
)
    requires
        0 <= bearing,
        0 <= eighth < 8,
        45 * eighth * 2 - 45 <= 2 * bearing < 45 * eighth * 2 + 45,
    ensures
        compass_text(bearing, lang) == compass_text(45 * eighth, lang),
        compass_text(bearing + 360, lang) == compass_text(bearing, lang),
        compass_text(0, lang) == "N"@,
        compass_text(180, lang) == "S"@,
        compass_text(270, lang) == "V"@,
        compass_text(90, lang) == (match lang {
            Language::Norwegian => "Ø"@,
            Language::Swedish => "Ö"@,
        }),
{
}

/// The best window of a day is explained by where it gains on the means that the
/// day shows: those of all points, fractions dropped.
pub proof fn a_best_window_is_explained_against_all_points(
    day: DayAggregate,
    c: int,
    shown: ScoreBreakdown,
)
    requires
        day.is_rolled_up(),
        0 <= c < day.points@.len(),
        forall|j: int| 0 <= j < c ==> !(#[trigger] day.points@[j]).is_center,
        day.points@[c].is_center || (c == 0 && forall|j: int|
            0 <= j < day.points@.len() ==> !(#[trigger] day.points@[j]).is_center),
        day.points@[c].day_score.optimal_window is Some,
        ({
            let n = day.points@.len();
            let each = |i: int| day.points@[i].day_score.score.breakdown;
            &&& drops_to(shown.temperature, Seq::new(n, |i: int| each(i).temperature))
            &&& drops_to(shown.wind, Seq::new(n, |i: int| each(i).wind))
            &&& drops_to(shown.precipitation, Seq::new(n, |i: int| each(i).precipitation))
            &&& drops_to(shown.precip_probability, Seq::new(n, |i: int| each(i).precip_probability))
            &&& drops_to(shown.ground, Seq::new(n, |i: int| each(i).ground))
        }),
    ensures
        day.optimal_window is Some,
        day.optimal_window->0.reason == reason_of(
            day.points@[c].day_score.optimal_window->0.score.breakdown,
            shown,
        ),
{
    lemma_center(day.points@, 0, c);
    let each = day_breakdowns(day.points@);
    let n = day.points@.len();
    assert(axis_scores(each, Axis::Temperature) =~= Seq::new(
        n,
        |i: int| day.points@[i].day_score.score.breakdown.temperature,
    ));
    assert(axis_scores(each, Axis::Wind) =~= Seq::new(
        n,
        |i: int| day.points@[i].day_score.score.breakdown.wind,
    ));
    assert(axis_scores(each, Axis::Precipitation) =~= Seq::new(
        n,
        |i: int| day.points@[i].day_score.score.breakdown.precipitation,
    ));
    assert(axis_scores(each, Axis::PrecipProbability) =~= Seq::new(
        n,
        |i: int| day.points@[i].day_score.score.breakdown.precip_probability,
    ));
    assert(axis_scores(each, Axis::Ground) =~= Seq::new(
        n,
        |i: int| day.points@[i].day_score.score.breakdown.ground,
    ));
    let f = |i: int| day.points@[i].day_score.score.breakdown;
    assert(Seq::new(n, |i: int| f(i).temperature) =~= axis_scores(each, Axis::Temperature));
    assert(Seq::new(n, |i: int| f(i).wind) =~= axis_scores(each, Axis::Wind));
    assert(Seq::new(n, |i: int| f(i).precipitation) =~= axis_scores(each, Axis::Precipitation));
    assert(Seq::new(n, |i: int| f(i).precip_probability) =~= axis_scores(
        each,
        Axis::PrecipProbability,
    ));
    assert(Seq::new(n, |i: int| f(i).ground) =~= axis_scores(each, Axis::Ground));
    lemma_drops_to(shown.temperature, axis_scores(each, Axis::Temperature));
    lemma_drops_to(shown.wind, axis_scores(each, Axis::Wind));
    lemma_drops_to(shown.precipitation, axis_scores(each, Axis::Precipitation));
    lemma_drops_to(shown.precip_probability, axis_scores(each, Axis::PrecipProbability));
    lemma_drops_to(shown.ground, axis_scores(each, Axis::Ground));
    assert(shown == shown_breakdown(each));
}

/// `mean` is the mean of the scores, fractions dropped.
pub open spec fn drops_to(mean: u8, scores: Seq<u8>) -> bool {
    mean * scores.len() <= added_up(scores) < (mean + 1) * scores.len()
}

proof fn lemma_drops_to(mean: u8, scores: Seq<u8>)
    requires
        scores.len() > 0,
        drops_to(mean, scores),
    ensures
        floored_mean(scores) == mean,
{
    the_mean_drops_fractions_of_the_sum(scores);
    let n = scores.len() as int;
    let a = floored_mean(scores);
    let b = mean as int;
    let s = added_up(scores);
    assert(a == b) by (nonlinear_arith)
        requires
            n > 0,
            a * n <= s < (a + 1) * n,
            b * n <= s < (b + 1) * n,
    ;
}

} // verus!
