//! What holds of every run.
use vstd::prelude::*;

use crate::aggregate::laws::{
    a_breakdown_is_the_mean_on_every_axis, a_mean_lies_between_the_extremes, is_nearest, sums_up,
    the_mean_is_nearest_to_the_sum,
};
use crate::aggregate::{DayAggregate, HourScore, HourlyDayAggregate, PointScore};
use crate::conditions::{HourlyConditions, Resolution};
use crate::config::Point;
use crate::daily::{BestWindowConfig, Confidence};
use crate::drying::laws::lemma_walk;
use crate::drying::{hours_walked, surfaces_at, walked, SurfaceOutlook, SurfaceState};
use crate::lang::Language;
use crate::nowcast::{alert_is_due, is_alert, Nowcast, NowcastAlert};
use crate::run::{
    all_bucket_starts, any_six_hourly, are_point_scores, bucket_starts, by_point, center_hours_of,
    day_surfaces, first_at, fits_window, hour_confidence_of, hour_from, is_day_point,
    is_forecast_day, is_hour_rollup, is_hour_score, is_hourly_day, is_point_score, is_run_alert,
    point_before, score_breakdowns, score_totals, six_hourly_at, surface_for, tail_after,
    window_starts, DaySignals, HourlySignals, PointForecast,
};
use crate::score::{scores_window, Grusindeks, WindowSignals};
use crate::time::{RideWindow, HOUR};
use crate::windows::DayWindow;

verus! {

/// Some forecast hour starts at `t`.
pub open spec fn is_start_of_some_hour(hours: Seq<HourlyConditions>, t: i128) -> bool {
    exists|i: int| 0 <= i < hours.len() && (#[trigger] hours[i]).time == t
}

/// Every bucket starts with a forecast hour and lies fully inside the window.
pub proof fn buckets_lie_in_the_window(window: RideWindow, hours: Seq<HourlyConditions>)
    ensures
        forall|k: int|
            0 <= k < bucket_starts(window, hours).len() ==> is_start_of_some_hour(
                hours,
                #[trigger] bucket_starts(window, hours)[k],
            ) && window.start <= bucket_starts(window, hours)[k] && bucket_starts(window, hours)[k]
                + HOUR <= window.end,
{
    let keep = |h: HourlyConditions| fits_window(h, window);
    let kept = hours.filter(keep);
    assert forall|k: int| 0 <= k < bucket_starts(window, hours).len() implies is_start_of_some_hour(
        hours,
        #[trigger] bucket_starts(window, hours)[k],
    ) && window.start <= bucket_starts(window, hours)[k] && bucket_starts(window, hours)[k] + HOUR
        <= window.end by {
        hours.lemma_filter_pred(keep, k);
        assert(kept.contains(kept[k]));
        hours.lemma_filter_contains_rev(keep, kept[k]);
        let i = choose|i: int| 0 <= i < hours.len() && hours[i] == kept[k];
        assert(hours[i].time == bucket_starts(window, hours)[k]);
    }
}

proof fn lemma_tail_after(forecasts: Seq<PointForecast>, p: Point)
    ensures
        tail_after(forecasts, p) <= forecasts.len(),
        forall|k: int|
            forecasts.len() - tail_after(forecasts, p) <= k < forecasts.len() ==> point_before(
                p,
                (#[trigger] forecasts[k]).point,
            ),
        tail_after(forecasts, p) < forecasts.len() ==> !point_before(
            p,
            forecasts[forecasts.len() - 1 - tail_after(forecasts, p)].point,
        ),
    decreases forecasts.len(),
{
    if forecasts.len() > 0 && point_before(p, forecasts.last().point) {
        let earlier = forecasts.drop_last();
        lemma_tail_after(earlier, p);
        assert forall|k: int|
            forecasts.len() - tail_after(forecasts, p) <= k < forecasts.len() implies point_before(
            p,
            (#[trigger] forecasts[k]).point,
        ) by {
            if k < earlier.len() {
                assert(earlier[k] == forecasts[k]);
            }
        }
    }
}

/// A run reports the points by latitude, then longitude, and none is lost or
/// made up, in whatever order their forecasts came in.
pub proof fn points_come_in_order(forecasts: Seq<PointForecast>)
    ensures
        by_point(forecasts).to_multiset() == forecasts.to_multiset(),
        forall|i: int, j: int|
            0 <= i < j < by_point(forecasts).len() ==> !point_before(
                (#[trigger] by_point(forecasts)[j]).point,
                (#[trigger] by_point(forecasts)[i]).point,
            ),
    decreases forecasts.len(),
{
    broadcast use vstd::seq_lib::group_to_multiset_ensures;

    if forecasts.len() > 0 {
        let earlier = by_point(forecasts.drop_last());
        let f = forecasts.last();
        let at = earlier.len() - tail_after(earlier, f.point);
        points_come_in_order(forecasts.drop_last());
        lemma_tail_after(earlier, f.point);
        let sorted = by_point(forecasts);
        assert(sorted == earlier.insert(at, f));
        vstd::seq_lib::to_multiset_insert(earlier, at, f);
        assert(forecasts =~= forecasts.drop_last().push(f));
        assert forall|i: int, j: int| 0 <= i < j < sorted.len() implies !point_before(
            (#[trigger] sorted[j]).point,
            (#[trigger] sorted[i]).point,
        ) by {
            if i == at {
                assert(sorted[j] == earlier[j - 1]);
            } else if j == at {
                assert(sorted[i] == earlier[i]);
                if i < at - 1 {
                    assert(!point_before(earlier[at - 1].point, earlier[i].point));
                }
            } else {
                let a = if i < at {
                    i
                } else {
                    i - 1
                };
                let b = if j < at {
                    j
                } else {
                    j - 1
                };
                assert(sorted[i] == earlier[a] && sorted[j] == earlier[b]);
            }
        }
    }
}

/// No two forecasts are for the same point.
pub open spec fn distinct_points(forecasts: Seq<PointForecast>) -> bool {
    forall|i: int, j: int|
        0 <= i < j < forecasts.len() ==> (#[trigger] forecasts[i]).point != (
        #[trigger] forecasts[j]).point
}

/// The forecasts stand by latitude, then longitude, with no point twice.
spec fn ascending(forecasts: Seq<PointForecast>) -> bool {
    forall|i: int, j: int|
        0 <= i < j < forecasts.len() ==> point_before(
            (#[trigger] forecasts[i]).point,
            (#[trigger] forecasts[j]).point,
        )
}

proof fn lemma_distinct_kept(a: Seq<PointForecast>, b: Seq<PointForecast>)
    requires
        a.to_multiset() == b.to_multiset(),
        distinct_points(a),
    ensures
        distinct_points(b),
{
    broadcast use vstd::seq_lib::group_to_multiset_ensures;

    assert forall|i: int, j: int| 0 <= i < j < b.len() implies (#[trigger] b[i]).point != (
    #[trigger] b[j]).point by {
        if b[i].point == b[j].point {
            assert(b.contains(b[i]) && b.contains(b[j]));
            assert(a.to_multiset().count(b[i]) > 0 && a.to_multiset().count(b[j]) > 0);
            assert(a.contains(b[i]) && a.contains(b[j]));
            let k = choose|k: int| 0 <= k < a.len() && a[k] == b[i];
            let l = choose|l: int| 0 <= l < a.len() && a[l] == b[j];
            if k != l {
                if k < l {
                    assert(a[k].point != a[l].point);
                } else {
                    assert(a[l].point != a[k].point);
                }
            }
            assert(b[i] == b[j]);
            // Twice the same forecast would count twice on both sides.
            let rest = b.remove(j);
            assert(rest[i] == b[i]);
            assert(rest.contains(b[i]));
            assert(rest.to_multiset().count(b[i]) > 0);
            vstd::seq_lib::to_multiset_remove(b, j);
            assert(b.to_multiset().count(b[i]) >= 2);
            let others = a.remove(k);
            vstd::seq_lib::to_multiset_remove(a, k);
            assert(others.to_multiset().count(b[i]) > 0);
            assert(others.contains(b[i]));
            let m = choose|m: int| 0 <= m < others.len() && others[m] == b[i];
            if m < k {
                assert(a[m].point != a[k].point);
            } else {
                assert(others[m] == a[m + 1]);
                assert(a[k].point != a[m + 1].point);
            }
        }
    }
}

proof fn lemma_ascending_is_unique(a: Seq<PointForecast>, b: Seq<PointForecast>)
    requires
        a.to_multiset() == b.to_multiset(),
        ascending(a),
        ascending(b),
    ensures
        a == b,
    decreases a.len(),
{
    broadcast use vstd::seq_lib::group_to_multiset_ensures;

    assert(a.len() == a.to_multiset().len() && b.len() == b.to_multiset().len());
    if a.len() == 0 {
        assert(a =~= b);
    } else {
        let n = a.len() - 1;
        assert(a.contains(a[n]) && b.contains(b[n]));
        assert(b.to_multiset().count(a[n]) > 0 && a.to_multiset().count(b[n]) > 0);
        assert(b.contains(a[n]) && a.contains(b[n]));
        let k = choose|k: int| 0 <= k < b.len() && b[k] == a[n];
        let l = choose|l: int| 0 <= l < a.len() && a[l] == b[n];
        if k < n && l < n {
            assert(point_before(b[k].point, b[n].point));
            assert(point_before(a[l].point, a[n].point));
        }
        assert(a[n] == b[n]);
        let shorter_a = a.drop_last();
        let shorter_b = b.drop_last();
        assert(a =~= shorter_a.push(a[n]));
        assert(b =~= shorter_b.push(b[n]));
        assert(shorter_a.to_multiset() =~= a.to_multiset().remove(a[n]));
        assert(shorter_b.to_multiset() =~= b.to_multiset().remove(b[n]));
        lemma_ascending_is_unique(shorter_a, shorter_b);
    }
}

/// The same forecasts give the same report in whatever order they came in.
pub proof fn arrival_order_does_not_matter(a: Seq<PointForecast>, b: Seq<PointForecast>)
    requires
        a.to_multiset() == b.to_multiset(),
        distinct_points(a),
    ensures
        by_point(a) == by_point(b),
{
    points_come_in_order(a);
    points_come_in_order(b);
    lemma_distinct_kept(a, by_point(a));
    lemma_distinct_kept(a, by_point(b));
    assert forall|i: int, j: int| 0 <= i < j < by_point(a).len() implies point_before(
        (#[trigger] by_point(a)[i]).point,
        (#[trigger] by_point(a)[j]).point,
    ) by {
        assert(!point_before(by_point(a)[j].point, by_point(a)[i].point));
    }
    assert forall|i: int, j: int| 0 <= i < j < by_point(b).len() implies point_before(
        (#[trigger] by_point(b)[i]).point,
        (#[trigger] by_point(b)[j]).point,
    ) by {
        assert(!point_before(by_point(b)[j].point, by_point(b)[i].point));
    }
    lemma_ascending_is_unique(by_point(a), by_point(b));
}

/// The mean of an hour lies between its lowest and highest point.
pub proof fn an_hour_is_between_its_points(
    hour: HourScore,
    start: int,
    now: int,
    six_hourly: bool,
    scores: Seq<Grusindeks>,
)
    requires
        is_hour_score(hour, start, now, six_hourly, scores),
        scores.len() > 0,
    ensures
        hour.min <= hour.mean <= hour.max,
{
    a_mean_lies_between_the_extremes(score_totals(scores), hour.min, hour.max);
}

/// An hour out of a six-hour bucket is never trusted, nor is one more than five
/// days out; and an hour is never trusted more for lying further out.
pub proof fn confidence_fades(a: int, b: int, now: int, six_hourly: bool)
    requires
        a <= b,
    ensures
        hour_confidence_of(a, now, true) == Confidence::Lav,
        hour_confidence_of(b, now, six_hourly).spec_rank() <= hour_confidence_of(
            a,
            now,
            six_hourly,
        ).spec_rank(),
{
}

/// Along a chronological forecast, a window starts on the surface that exactly
/// the hours before its start have left, whichever of several windows it is; and
/// where nothing is known of the surface now, nothing is known of it then.
pub proof fn a_window_starts_on_the_projected_surface(
    outlook: Option<SurfaceOutlook>,
    hours: Seq<HourlyConditions>,
    starts: Seq<i128>,
    j: int,
    n: int,
)
    requires
        forall|a: int, b: int|
            0 <= a <= b < hours.len() ==> (#[trigger] hours[a]).time <= (#[trigger] hours[b]).time,
        forall|a: int, b: int|
            0 <= a <= b < starts.len() ==> #[trigger] starts[a] <= #[trigger] starts[b],
        0 <= j < starts.len(),
        0 <= n <= hours.len(),
        forall|k: int|
            0 <= k < hours.len() ==> ((#[trigger] hours[k]).time < starts[j] <==> k < n),
    ensures
        surfaces_at(outlook, hours, starts)[j] == (match outlook {
            Some(o) => Some(walked(o.initial, o.water@.take(n))),
            None => None,
        }),
        surface_for(starts, surfaces_at(outlook, hours, starts), starts[j] as int) == surfaces_at(
            outlook,
            hours,
            starts,
        )[j],
{
    let surfaces = surfaces_at(outlook, hours, starts);
    lemma_walks_to(hours, starts, j, n);
    let last = lemma_last_start(starts, surfaces, starts[j] as int, starts.len() as int, j);
    assert(starts.take(starts.len() as int) =~= starts);
    lemma_walks_to(hours, starts, last, n);
}

proof fn lemma_walks_to(hours: Seq<HourlyConditions>, starts: Seq<i128>, j: int, n: int)
    requires
        forall|a: int, b: int|
            0 <= a <= b < hours.len() ==> (#[trigger] hours[a]).time <= (#[trigger] hours[b]).time,
        forall|a: int, b: int|
            0 <= a <= b < starts.len() ==> #[trigger] starts[a] <= #[trigger] starts[b],
        0 <= j < starts.len(),
        0 <= n <= hours.len(),
        forall|k: int|
            0 <= k < hours.len() ==> ((#[trigger] hours[k]).time < starts[j] <==> k < n),
    ensures
        hours_walked(hours, starts, j) == n,
{
    let m = hours_walked(hours, starts, j);
    lemma_walk(hours, starts, j);
    if m < n {
        assert(hours[m].time < starts[j]);
    } else if n < m {
        assert(hours[n].time < starts[j]);
    }
}

/// Where the last of the first `m` starts that equal `t` stands.
proof fn lemma_last_start(
    starts: Seq<i128>,
    surfaces: Seq<Option<SurfaceState>>,
    t: int,
    m: int,
    j: int,
) -> (last: int)
    requires
        0 <= j < m <= starts.len(),
        starts[j] == t,
    ensures
        j <= last < m,
        starts[last] == t,
        surface_for(starts.take(m), surfaces, t) == surfaces[last],
    decreases m,
{
    let shown = starts.take(m);
    assert(shown.last() == starts[m - 1]);
    if starts[m - 1] == t {
        m - 1
    } else {
        assert(shown.drop_last() =~= starts.take(m - 1));
        lemma_last_start(starts, surfaces, t, m - 1, j)
    }
}

// ---- Hours and points of a run ----

/// An hour is a bucket of a window exactly when it is a forecast hour that lies
/// fully inside.
pub proof fn buckets_are_the_whole_hours_of_a_window(
    window: RideWindow,
    hours: Seq<HourlyConditions>,
    t: i128,
)
    ensures
        bucket_starts(window, hours).contains(t) <==> exists|i: int|
            0 <= i < hours.len() && (#[trigger] hours[i]).time == t && window.start <= t && t
                + 3_600_000_000_000 <= window.end,
{
    let keep = |h: HourlyConditions| fits_window(h, window);
    let kept = hours.filter(keep);
    let starts = bucket_starts(window, hours);
    if starts.contains(t) {
        let k = choose|k: int| 0 <= k < starts.len() && starts[k] == t;
        buckets_lie_in_the_window(window, hours);
        assert(is_start_of_some_hour(hours, starts[k]));
    }
    if exists|i: int|
        0 <= i < hours.len() && (#[trigger] hours[i]).time == t && window.start <= t && t
            + 3_600_000_000_000 <= window.end {
        let i = choose|i: int|
            0 <= i < hours.len() && (#[trigger] hours[i]).time == t && window.start <= t && t
                + 3_600_000_000_000 <= window.end;
        hours.lemma_filter_contains(keep, i);
        let k = choose|k: int| 0 <= k < kept.len() && kept[k] == hours[i];
        assert(starts[k] == t);
    }
}

/// One more forecast hour adds a bucket at the end where it lies fully inside
/// the window, and none otherwise.
pub proof fn one_more_hour_adds_its_bucket(
    window: RideWindow,
    hours: Seq<HourlyConditions>,
    h: HourlyConditions,
)
    ensures
        bucket_starts(window, hours.push(h)) == if window.start <= h.time && h.time
            + 3_600_000_000_000 <= window.end {
            bucket_starts(window, hours).push(h.time)
        } else {
            bucket_starts(window, hours)
        },
{
    reveal(Seq::filter);
    assert(hours.push(h).drop_last() =~= hours);
    assert(bucket_starts(window, hours.push(h)) =~= if window.start <= h.time && h.time
        + 3_600_000_000_000 <= window.end {
        bucket_starts(window, hours).push(h.time)
    } else {
        bucket_starts(window, hours)
    });
}

/// An hour is trusted least out of a six-hour bucket or more than five days
/// ahead, most less than a day ahead, and halfway in between.
pub proof fn an_hour_is_trusted_by_its_horizon(start: int, now: int, six_hourly: bool)
    ensures
        hour_confidence_of(start, now, six_hourly) == Confidence::Lav <==> six_hourly || start - now
            > 432_000_000_000_000,
        hour_confidence_of(start, now, six_hourly) == Confidence::Hoy <==> !six_hourly && start
            - now < 86_400_000_000_000,
{
}

/// An hour counts as coarse exactly when at some point the first forecast hour
/// of that start comes from a six-hour bucket.
pub proof fn an_hour_is_coarse_where_some_point_has_it_so(
    forecasts: Seq<PointForecast>,
    t: int,
    p: int,
    i: int,
)
    requires
        0 <= p < forecasts.len(),
        0 <= i < forecasts[p].hours@.len(),
        forecasts[p].hours@[i].time == t,
        forall|j: int| 0 <= j < i ==> (#[trigger] forecasts[p].hours@[j]).time != t,
    ensures
        forecasts[p].hours@[i].resolution == Resolution::SixHourly ==> any_six_hourly(forecasts, t),
        forecasts.len() == 1 && forecasts[p].hours@[i].resolution == Resolution::Hourly
            ==> !any_six_hourly(forecasts, t),
{
    lemma_six_hourly(forecasts[p].hours@, t, i);
}

proof fn lemma_six_hourly(hours: Seq<HourlyConditions>, t: int, i: int)
    requires
        0 <= i < hours.len(),
        hours[i].time == t,
        forall|j: int| 0 <= j < i ==> (#[trigger] hours[j]).time != t,
    ensures
        six_hourly_at(hours, t) == (hours[i].resolution == Resolution::SixHourly),
    decreases i,
{
    if i > 0 {
        let rest = hours.drop_first();
        assert(hours[0].time != t);
        assert forall|j: int| 0 <= j < i - 1 implies (#[trigger] rest[j]).time != t by {
            assert(rest[j] == hours[j + 1]);
        }
        lemma_six_hourly(rest, t, i - 1);
    }
}

/// The hours that stand for the region are those of the first forecast at the
/// centre, or of the first of all where none is.
pub proof fn the_centre_stands_for_the_region(
    forecasts: Seq<PointForecast>,
    center: Point,
    c: int,
)
    requires
        0 <= c < forecasts.len(),
        forall|j: int| 0 <= j < c ==> (#[trigger] forecasts[j]).point != center,
        forecasts[c].point == center || (c == 0 && forall|j: int|
            0 <= j < forecasts.len() ==> (#[trigger] forecasts[j]).point != center),
    ensures
        center_hours_of(forecasts, center) == forecasts[c].hours@,
{
    lemma_first_at(forecasts, center, 0, c);
}

proof fn lemma_first_at(forecasts: Seq<PointForecast>, center: Point, from: int, c: int)
    requires
        0 <= from <= forecasts.len(),
        0 <= c < forecasts.len(),
        from <= c || forecasts[c].point != center,
        forall|j: int| 0 <= j < c ==> (#[trigger] forecasts[j]).point != center,
        forecasts[c].point == center || (c == 0 && forall|j: int|
            0 <= j < forecasts.len() ==> (#[trigger] forecasts[j]).point != center),
    ensures
        first_at(forecasts, center, from) == c,
    decreases forecasts.len() - from,
{
    if from < forecasts.len() && forecasts[from].point != center {
        lemma_first_at(forecasts, center, from + 1, c);
    }
}

/// Points are reported from south to north, and those of one latitude from west
/// to east.
pub proof fn points_go_from_south_to_north(forecasts: Seq<PointForecast>, i: int, j: int)
    requires
        0 <= i < j < by_point(forecasts).len(),
    ensures
        by_point(forecasts)[i].point.lat <= by_point(forecasts)[j].point.lat,
        by_point(forecasts)[i].point.lat == by_point(forecasts)[j].point.lat ==> by_point(
            forecasts,
        )[i].point.lon <= by_point(forecasts)[j].point.lon,
{
    points_come_in_order(forecasts);
    let sorted = by_point(forecasts);
    assert(!point_before(sorted[j].point, sorted[i].point));
}

/// An hour rolls up the scores of all points in it: its time, the worst, the
/// mean and the best total, and the mean on every axis.
pub proof fn an_hour_sums_up_its_points(
    hour: HourScore,
    start: int,
    now: int,
    six_hourly: bool,
    scores: Seq<Grusindeks>,
)
    requires
        is_hour_score(hour, start, now, six_hourly, scores),
        scores.len() > 0,
    ensures
        hour.time == start,
        sums_up(Seq::new(scores.len(), |i: int| scores[i].total), hour.min, hour.mean, hour.max),
        is_nearest(
            hour.breakdown.temperature,
            Seq::new(scores.len(), |i: int| scores[i].breakdown.temperature),
        ),
        is_nearest(
            hour.breakdown.wind,
            Seq::new(scores.len(), |i: int| scores[i].breakdown.wind),
        ),
        is_nearest(
            hour.breakdown.precipitation,
            Seq::new(scores.len(), |i: int| scores[i].breakdown.precipitation),
        ),
        is_nearest(
            hour.breakdown.precip_probability,
            Seq::new(scores.len(), |i: int| scores[i].breakdown.precip_probability),
        ),
        is_nearest(
            hour.breakdown.ground,
            Seq::new(scores.len(), |i: int| scores[i].breakdown.ground),
        ),
{
    let totals = score_totals(scores);
    let each = score_breakdowns(scores);
    let n = scores.len();
    assert(totals =~= Seq::new(n, |i: int| scores[i].total));
    the_mean_is_nearest_to_the_sum(totals);
    a_breakdown_is_the_mean_on_every_axis(each);
    assert(Seq::new(n, |i: int| each[i].temperature) =~= Seq::new(
        n,
        |i: int| scores[i].breakdown.temperature,
    ));
    assert(Seq::new(n, |i: int| each[i].wind) =~= Seq::new(n, |i: int| scores[i].breakdown.wind));
    assert(Seq::new(n, |i: int| each[i].precipitation) =~= Seq::new(
        n,
        |i: int| scores[i].breakdown.precipitation,
    ));
    assert(Seq::new(n, |i: int| each[i].precip_probability) =~= Seq::new(
        n,
        |i: int| scores[i].breakdown.precip_probability,
    ));
    assert(Seq::new(n, |i: int| each[i].ground) =~= Seq::new(
        n,
        |i: int| scores[i].breakdown.ground,
    ));
}

// ---- Runs ----

/// A run scores every point for itself: its own forecast hours, in the window
/// asked for, on the surface and by the signals handed in for it. The centre is
/// the point with the coordinates of the centre.
pub proof fn a_point_is_scored_on_its_own_hours(
    p: PointScore,
    f: PointForecast,
    center: Point,
    window: RideWindow,
    surface: Option<SurfaceState>,
    signals: WindowSignals,
    lang: Language,
)
    requires
        is_point_score(p, f, center, window, surface, signals, lang),
    ensures
        p.point.lat == f.point.lat && p.point.lon == f.point.lon,
        p.bearing_label@ == f.bearing_label@,
        p.is_center <==> f.point.lat == center.lat && f.point.lon == center.lon,
        scores_window(p.score, f.hours@, window, surface, signals, lang),
{
}

/// A day of a run has the date and window asked for, and every point in it is
/// scored for itself: over the whole day, on the day's surface.
pub proof fn a_day_is_scored_at_every_point(
    day: DayAggregate,
    dw: DayWindow,
    forecasts: Seq<PointForecast>,
    center: Point,
    now: int,
    best_window: BestWindowConfig,
    surface: Option<SurfaceState>,
    signals: Seq<DaySignals>,
    lang: Language,
    i: int,
)
    requires
        is_forecast_day(day, dw, forecasts, center, now, best_window, surface, signals, lang),
        0 <= i < forecasts.len(),
    ensures
        day.date == dw.date,
        day.window == dw.window,
        day.points@.len() == forecasts.len(),
        day.points@[i].point == forecasts[i].point,
        day.points@[i].bearing_label@ == forecasts[i].bearing_label@,
        day.points@[i].is_center <==> forecasts[i].point == center,
        scores_window(
            day.points@[i].day_score.score,
            forecasts[i].hours@,
            dw.window,
            surface,
            signals[i].day,
            lang,
        ),
        day.is_rolled_up(),
{
    assert(is_day_point(
        day.points@[i],
        forecasts[i],
        center,
        dw,
        now,
        best_window,
        surface,
        signals[i],
        lang,
    ));
}

/// The hours of a day are its whole forecast hours at the centre, in order, each
/// scored at every point over just that hour; and the day has the figures of the
/// centre where it has hours at all.
pub proof fn an_hourly_day_has_its_whole_hours(
    day: HourlyDayAggregate,
    dw: DayWindow,
    forecasts: Seq<PointForecast>,
    center_hours: Seq<HourlyConditions>,
    now: int,
    all_starts: Seq<i128>,
    surfaces: Seq<Option<SurfaceState>>,
    signals: HourlySignals,
    lang: Language,
    i: int,
    t: i128,
)
    requires
        is_hourly_day(
            day,
            dw,
            forecasts,
            center_hours,
            now,
            all_starts,
            surfaces,
            signals,
            lang,
        ),
        0 <= i < day.hours@.len(),
        t == bucket_starts(dw.window, center_hours)[i],
    ensures
        day.date == dw.date,
        day.daytime_window == dw.window,
        day.hours@.len() == bucket_starts(dw.window, center_hours).len(),
        day.hours@[i].time == t,
        day.stats == signals.center_day.stats.figures,
        exists|scores: Seq<Grusindeks>|
            {
                &&& scores.len() == forecasts.len()
                &&& forall|p: int|
                    0 <= p < scores.len() ==> scores_window(
                        #[trigger] scores[p],
                        forecasts[p].hours@,
                        RideWindow { start: t, end: (t + 3_600_000_000_000) as i128 },
                        surface_for(all_starts, surfaces, t as int),
                        signals.buckets@[i]@[p],
                        lang,
                    )
                &&& #[trigger] is_hour_score(
                    day.hours@[i],
                    t as int,
                    now,
                    any_six_hourly(forecasts, t as int),
                    scores,
                )
            },
{
    assert(is_hour_rollup(
        day.hours@[i],
        t,
        forecasts,
        now,
        surface_for(all_starts, surfaces, t as int),
        signals.buckets@[i]@,
        lang,
    ));
    let scores = choose|scores: Seq<Grusindeks>|
        {
            &&& #[trigger] are_point_scores(
                scores,
                forecasts,
                hour_from(t),
                surface_for(all_starts, surfaces, t as int),
                signals.buckets@[i]@,
                lang,
            )
            &&& is_hour_score(
                day.hours@[i],
                t as int,
                now,
                any_six_hourly(forecasts, t as int),
                scores,
            )
        };
    assert(is_hour_score(
        day.hours@[i],
        t as int,
        now,
        any_six_hourly(forecasts, t as int),
        scores,
    ));
}

/// The surfaces of a run over days are taken at the starts of its days, and
/// those of a run by the hour at the starts of its hours, one day after the
/// other.
pub proof fn surfaces_are_taken_at_the_starts(
    days: Seq<DayWindow>,
    dw: DayWindow,
    hours: Seq<HourlyConditions>,
    outlook: Option<SurfaceOutlook>,
)
    ensures
        day_surfaces(outlook, hours, days) == surfaces_at(
            outlook,
            hours,
            Seq::new(days.len(), |d: int| days[d].window.start),
        ),
        all_bucket_starts(Seq::empty(), hours).len() == 0,
        all_bucket_starts(days.push(dw), hours) == all_bucket_starts(days, hours) + bucket_starts(
            dw.window,
            hours,
        ),
{
    assert(window_starts(days) =~= Seq::new(days.len(), |d: int| days[d].window.start));
    assert(days.push(dw).drop_last() =~= days);
}

/// A run warns of rain where its radar does: with an alert exactly when one is
/// due, and never without a radar.
pub proof fn a_run_warns_as_its_radar_does(
    alert: Option<NowcastAlert>,
    nowcast: Option<Nowcast>,
    now: int,
)
    requires
        is_run_alert(alert, nowcast, now),
    ensures
        nowcast is None ==> alert is None,
        nowcast is Some ==> (alert is Some <==> alert_is_due(nowcast->0, now)),
        alert is Some ==> is_alert(alert->0, nowcast->0.steps@),
{
}

} // verus!
