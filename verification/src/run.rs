//! From fetched data and point scores to reports: which hours are scored, and
//! what the scores of the sample points add up to.
use vstd::prelude::*;

use crate::aggregate::{
    highest, is_highest, is_lowest, lowest, mean_breakdown, mean_breakdown_of, mean_round,
    rounded_mean, AggregateScore, DayAggregate, DayPointScore, HourScore, HourlyDayAggregate,
    HourlyForecast, MultiDayForecast, PointScore, RainHistory,
};
use crate::conditions::{HourlyConditions, Resolution};
use crate::config::Point;
use crate::daily::{
    best_window_candidates, candidates, compute_day, is_day_score, BestWindowConfig, Confidence,
    SkySummary,
};
use crate::drying::{outlook_fits, surfaces_at, surfaces_for, SurfaceOutlook, SurfaceState};
use crate::lang::Language;
use crate::nowcast::{alert_is_due, build_nowcast_alert, is_alert, Nowcast, NowcastAlert};
use crate::run::laws::{buckets_lie_in_the_window, is_start_of_some_hour};
use crate::score::{score, scores_window, Grusindeks, ScoreBreakdown, WindowSignals};
use crate::time::{is_instant, RideWindow, DAY, HOUR};
use crate::windows::DayWindow;

pub mod laws;

verus! {

/// How many hours of past observations feed the drying model.
pub const HISTORY_HOURS: i64 = 168;

/// Callbacks fired along the fetch/score pipeline. A renderer binds these to a
/// progress display; all methods do nothing by default, so that only the
/// events of interest need a body.
pub trait ProgressSink: Send + Sync {
    /// Frost is about to be asked for historical precipitation.
    fn ground_started(&self) {
    }

    /// Frost answered. `found = false` means that dry ground is assumed.
    fn ground_finished(&self, _found: bool) {
    }

    /// `total` forecast fetches are about to start.
    fn forecast_started(&self, _total: usize) {
    }

    /// One forecast fetch completed.
    fn forecast_point_done(&self) {
    }

    /// All forecast fetches finished, scoring is starting.
    fn forecast_finished(&self) {
    }

    /// The radar nowcast is about to be fetched.
    fn nowcast_started(&self) {
    }

    /// The nowcast came. `found = false` means that the run goes on without.
    fn nowcast_finished(&self, _found: bool) {
    }
}

// ---- Sample points ----

/// The forecast of one sample point.
#[derive(Debug, PartialEq, Eq)]
pub struct PointForecast {
    pub point: Point,
    /// Where the point lies from the centre, in words.
    pub bearing_label: String,
    pub hours: Vec<HourlyConditions>,
}

/// Point `a` comes before point `b`: by latitude, then by longitude.
pub open spec fn point_before(a: Point, b: Point) -> bool {
    a.lat < b.lat || (a.lat == b.lat && a.lon < b.lon)
}

/// How many of the forecasts at the end belong to points that come after `p`.
pub open spec fn tail_after(forecasts: Seq<PointForecast>, p: Point) -> nat
    decreases forecasts.len(),
{
    if forecasts.len() > 0 && point_before(p, forecasts.last().point) {
        tail_after(forecasts.drop_last(), p) + 1
    } else {
        0
    }
}

/// The forecasts by latitude, then longitude; those of one point keep their
/// order.
pub open spec fn by_point(forecasts: Seq<PointForecast>) -> Seq<PointForecast>
    decreases forecasts.len(),
{
    if forecasts.len() == 0 {
        Seq::empty()
    } else {
        let earlier = by_point(forecasts.drop_last());
        let f = forecasts.last();
        earlier.insert(earlier.len() - tail_after(earlier, f.point), f)
    }
}

/// Put forecasts into the order of their points, so that a run gives the same
/// report in whatever order the forecasts came in.
pub fn sort_by_point(forecasts: Vec<PointForecast>) -> (sorted: Vec<PointForecast>)
    ensures
        sorted@ == by_point(forecasts@),
{
    let ghost all = forecasts@;
    let mut rest = forecasts;
    let mut sorted: Vec<PointForecast> = Vec::new();
    let ghost mut n: int = 0;
    proof {
        assert(all.skip(0) =~= all);
        assert(all.take(0) =~= Seq::empty());
    }
    while rest.len() > 0
        invariant
            0 <= n <= all.len(),
            rest@ == all.skip(n),
            sorted@ == by_point(all.take(n)),
        decreases rest.len(),
    {
        let f = rest.remove(0);
        let mut at: usize = sorted.len();
        proof {
            assert(f == all[n]);
            assert(all.skip(n).remove(0) =~= all.skip(n + 1));
            assert(sorted@.take(at as int) =~= sorted@);
        }
        while at > 0 && (f.point.lat < sorted[at - 1].point.lat || (f.point.lat == sorted[at
            - 1].point.lat && f.point.lon < sorted[at - 1].point.lon))
            invariant
                at <= sorted.len(),
                at - tail_after(sorted@.take(at as int), f.point) == sorted.len() - tail_after(
                    sorted@,
                    f.point,
                ),
            decreases at,
        {
            proof {
                assert(sorted@.take(at as int).drop_last() =~= sorted@.take(at - 1));
            }
            at = at - 1;
        }
        proof {
            assert(all.take(n + 1).drop_last() =~= all.take(n));
            assert(all.take(n + 1).last() == f);
        }
        sorted.insert(at, f);
        proof {
            n = n + 1;
        }
    }
    proof {
        assert(all.take(n) =~= all);
    }
    sorted
}

/// Position of the first forecast at `center`, else 0.
pub open spec fn center_of(forecasts: Seq<PointForecast>, center: Point) -> int {
    first_at(forecasts, center, 0)
}

/// The first forecast at `center` from `from` on, or 0 where there is none.
pub open spec fn first_at(forecasts: Seq<PointForecast>, center: Point, from: int) -> int
    decreases forecasts.len() - from,
{
    if from < 0 || from >= forecasts.len() {
        0
    } else if forecasts[from].point == center {
        from
    } else {
        first_at(forecasts, center, from + 1)
    }
}

/// The forecast hours that stand for the region: those of the centre, else
/// those of the first point, else none.
pub open spec fn center_hours_of(forecasts: Seq<PointForecast>, center: Point) -> Seq<
    HourlyConditions,
> {
    if forecasts.len() == 0 {
        Seq::empty()
    } else {
        forecasts[center_of(forecasts, center)].hours@
    }
}

/// The forecast hours that stand for the region.
pub fn center_hours(forecasts: &Vec<PointForecast>, center: Point) -> (hours: Vec<HourlyConditions>)
    ensures
        hours@ == center_hours_of(forecasts@, center),
{
    if forecasts.len() == 0 {
        return Vec::new();
    }
    let mut at: usize = 0;
    let mut i: usize = 0;
    while i < forecasts.len()
        invariant_except_break
            at == 0,
            center_of(forecasts@, center) == first_at(forecasts@, center, i as int),
        invariant
            i <= forecasts.len(),
            forecasts.len() > 0,
        ensures
            at < forecasts.len(),
            at == center_of(forecasts@, center),
        decreases forecasts.len() - i,
    {
        if forecasts[i].point == center {
            at = i;
            break ;
        }
        i = i + 1;
    }
    copy_hours(&forecasts[at].hours)
}

fn copy_hours(hours: &Vec<HourlyConditions>) -> (copy: Vec<HourlyConditions>)
    ensures
        copy@ == hours@,
{
    let mut copy: Vec<HourlyConditions> = Vec::new();
    let mut i: usize = 0;
    while i < hours.len()
        invariant
            i <= hours.len(),
            copy@ == hours@.take(i as int),
        decreases hours.len() - i,
    {
        copy.push(hours[i]);
        proof {
            assert(hours@.take(i + 1) =~= hours@.take(i as int).push(hours@[i as int]));
        }
        i = i + 1;
    }
    proof {
        assert(hours@.take(i as int) =~= hours@);
    }
    copy
}

// ---- Hours to score ----

/// The hour lies fully inside the window.
pub open spec fn fits_window(h: HourlyConditions, window: RideWindow) -> bool {
    window.start <= h.time && h.time + HOUR <= window.end
}

/// The starts of the forecast hours that lie fully inside the window.
pub open spec fn bucket_starts(window: RideWindow, hours: Seq<HourlyConditions>) -> Seq<i128> {
    hours.filter(|h: HourlyConditions| fits_window(h, window)).map_values(
        |h: HourlyConditions| h.time,
    )
}

/// Every hour starts at an instant.
pub open spec fn timed_hours(hours: Seq<HourlyConditions>) -> bool {
    forall|i: int| 0 <= i < hours.len() ==> is_instant((#[trigger] hours[i]).time as int)
}

/// The starts of the forecast hours that lie fully inside the window. A
/// partial leading hour is dropped.
pub fn hour_bucket_starts(window: RideWindow, hours: &Vec<HourlyConditions>) -> (starts: Vec<i128>)
    requires
        timed_hours(hours@),
    ensures
        starts@ == bucket_starts(window, hours@),
{
    let ghost keep = |h: HourlyConditions| fits_window(h, window);
    let ghost pick = |h: HourlyConditions| h.time;
    let mut starts: Vec<i128> = Vec::new();
    let mut i: usize = 0;
    proof {
        reveal(Seq::filter);
        assert(hours@.take(0).filter(keep).map_values(pick) =~= Seq::empty());
    }
    while i < hours.len()
        invariant
            i <= hours.len(),
            timed_hours(hours@),
            keep == (|h: HourlyConditions| fits_window(h, window)),
            pick == (|h: HourlyConditions| h.time),
            starts@ == hours@.take(i as int).filter(keep).map_values(pick),
        decreases hours.len() - i,
    {
        let ghost before = hours@.take(i as int).filter(keep);
        let ghost after = hours@.take(i + 1).filter(keep);
        proof {
            reveal(Seq::filter);
            assert(hours@.take(i + 1).drop_last() =~= hours@.take(i as int));
            assert(hours@.take(i + 1).last() == hours@[i as int]);
        }
        let t: i128 = hours[i].time;
        if window.start <= t && t + HOUR <= window.end {
            starts.push(t);
            proof {
                assert(starts@ =~= after.map_values(pick));
            }
        }
        i = i + 1;
    }
    proof {
        assert(hours@.take(hours.len() as int) =~= hours@);
    }
    starts
}

/// The surface that stands for `t`: that of the last start equal to it, or
/// nothing where `t` is no start.
pub open spec fn surface_for(
    starts: Seq<i128>,
    surfaces: Seq<Option<SurfaceState>>,
    t: int,
) -> Option<SurfaceState>
    decreases starts.len(),
{
    if starts.len() == 0 {
        None
    } else if starts.last() == t {
        surfaces[starts.len() - 1]
    } else {
        surface_for(starts.drop_last(), surfaces, t)
    }
}

/// The projected surface at `t`, if `t` is one of the starts.
pub fn surface_at(starts: &Vec<i128>, surfaces: &Vec<Option<SurfaceState>>, t: i128) -> (surface:
    Option<SurfaceState>)
    requires
        starts@.len() == surfaces@.len(),
    ensures
        surface == surface_for(starts@, surfaces@, t as int),
{
    let mut i: usize = starts.len();
    proof {
        assert(starts@.take(i as int) =~= starts@);
    }
    while i > 0
        invariant
            i <= starts.len(),
            starts@.len() == surfaces@.len(),
            surface_for(starts@, surfaces@, t as int) == surface_for(
                starts@.take(i as int),
                surfaces@,
                t as int,
            ),
        decreases i,
    {
        proof {
            assert(starts@.take(i as int).last() == starts@[i - 1]);
            assert(starts@.take(i as int).drop_last() =~= starts@.take(i - 1));
        }
        if starts[i - 1] == t {
            return surfaces[i - 1];
        }
        i = i - 1;
    }
    None
}

// ---- One hour ----

/// `Lav` for an hour out of a six-hour bucket or more than five days out, `Hoy`
/// within a day, `Middels` otherwise.
pub open spec fn hour_confidence_of(start: int, now: int, six_hourly: bool) -> Confidence {
    if six_hourly || start - now > 5 * DAY {
        Confidence::Lav
    } else if start - now < DAY {
        Confidence::Hoy
    } else {
        Confidence::Middels
    }
}

/// Confidence for a single hour bucket.
pub fn hour_confidence(start: i128, now: i128, six_hourly: bool) -> (c: Confidence)
    requires
        is_instant(start as int),
        is_instant(now as int),
    ensures
        c == hour_confidence_of(start as int, now as int, six_hourly),
{
    let horizon: i128 = start - now;
    if six_hourly || horizon > 5 * DAY {
        return Confidence::Lav;
    }
    if horizon < DAY {
        Confidence::Hoy
    } else {
        Confidence::Middels
    }
}

/// The first hour that starts at `t` comes from a six-hour bucket.
pub open spec fn six_hourly_at(hours: Seq<HourlyConditions>, t: int) -> bool
    decreases hours.len(),
{
    if hours.len() == 0 {
        false
    } else if hours[0].time == t {
        hours[0].resolution == Resolution::SixHourly
    } else {
        six_hourly_at(hours.drop_first(), t)
    }
}

/// Some point has the hour from a six-hour bucket only.
pub open spec fn any_six_hourly(forecasts: Seq<PointForecast>, t: int) -> bool {
    exists|p: int| 0 <= p < forecasts.len() && six_hourly_at((#[trigger] forecasts[p]).hours@, t)
}

fn point_is_six_hourly(hours: &Vec<HourlyConditions>, t: i128) -> (b: bool)
    ensures
        b == six_hourly_at(hours@, t as int),
{
    let mut i: usize = 0;
    proof {
        assert(hours@.skip(0) =~= hours@);
    }
    while i < hours.len()
        invariant
            i <= hours.len(),
            six_hourly_at(hours@, t as int) == six_hourly_at(hours@.skip(i as int), t as int),
        decreases hours.len() - i,
    {
        proof {
            assert(hours@.skip(i as int)[0] == hours@[i as int]);
            assert(hours@.skip(i as int).drop_first() =~= hours@.skip(i + 1));
        }
        if hours[i].time == t {
            return hours[i].resolution == Resolution::SixHourly;
        }
        i = i + 1;
    }
    false
}

/// Whether some point has the hour at `t` from a six-hour bucket only.
pub fn is_six_hourly(forecasts: &Vec<PointForecast>, t: i128) -> (b: bool)
    ensures
        b == any_six_hourly(forecasts@, t as int),
{
    let mut p: usize = 0;
    while p < forecasts.len()
        invariant
            p <= forecasts.len(),
            forall|q: int|
                0 <= q < p ==> !six_hourly_at((#[trigger] forecasts@[q]).hours@, t as int),
        decreases forecasts.len() - p,
    {
        if point_is_six_hourly(&forecasts[p].hours, t) {
            return true;
        }
        p = p + 1;
    }
    false
}

/// The totals of scores.
pub open spec fn score_totals(scores: Seq<Grusindeks>) -> Seq<u8> {
    scores.map_values(|s: Grusindeks| s.total)
}

/// The breakdowns of scores.
pub open spec fn score_breakdowns(scores: Seq<Grusindeks>) -> Seq<ScoreBreakdown> {
    scores.map_values(|s: Grusindeks| s.breakdown)
}

/// `hour` is what the point scores of the hour at `start` add up to.
pub open spec fn is_hour_score(
    hour: HourScore,
    start: int,
    now: int,
    six_hourly: bool,
    scores: Seq<Grusindeks>,
) -> bool {
    &&& hour.time == start
    &&& hour.mean == rounded_mean(score_totals(scores))
    &&& is_lowest(score_totals(scores), hour.min)
    &&& is_highest(score_totals(scores), hour.max)
    &&& hour.breakdown == mean_breakdown_of(score_breakdowns(scores))
    &&& hour.confidence == hour_confidence_of(start, now, six_hourly)
}

/// What the point scores of the hour at `start` add up to.
pub fn hour_score(start: i128, now: i128, six_hourly: bool, scores: &Vec<Grusindeks>) -> (hour:
    HourScore)
    requires
        is_instant(start as int),
        is_instant(now as int),
        scores@.len() > 0,
    ensures
        is_hour_score(hour, start as int, now as int, six_hourly, scores@),
{
    let mut totals: Vec<u8> = Vec::new();
    let mut breakdowns: Vec<ScoreBreakdown> = Vec::new();
    let mut i: usize = 0;
    while i < scores.len()
        invariant
            i <= scores.len(),
            totals@ == score_totals(scores@).take(i as int),
            breakdowns@ == score_breakdowns(scores@).take(i as int),
        decreases scores.len() - i,
    {
        totals.push(scores[i].total);
        breakdowns.push(scores[i].breakdown);
        proof {
            let all = score_totals(scores@);
            let each = score_breakdowns(scores@);
            assert(all.take(i + 1) =~= all.take(i as int).push(all[i as int]));
            assert(each.take(i + 1) =~= each.take(i as int).push(each[i as int]));
        }
        i = i + 1;
    }
    proof {
        assert(totals@ =~= score_totals(scores@));
        assert(breakdowns@ =~= score_breakdowns(scores@));
    }
    HourScore {
        time: start,
        mean: mean_round(&totals),
        min: lowest(&totals),
        max: highest(&totals),
        breakdown: mean_breakdown(&breakdowns),
        confidence: hour_confidence(start, now, six_hourly),
    }
}

// ---- A run over one window ----

/// `p` is the score of the point of `f` in `window`, which starts on `surface`.
pub open spec fn is_point_score(
    p: PointScore,
    f: PointForecast,
    center: Point,
    window: RideWindow,
    surface: Option<SurfaceState>,
    signals: WindowSignals,
    lang: Language,
) -> bool {
    &&& p.point == f.point
    &&& p.bearing_label@ == f.bearing_label@
    &&& p.is_center == (f.point == center)
    &&& scores_window(p.score, f.hours@, window, surface, signals, lang)
}

/// The alert that a nowcast gives at `now`.
pub open spec fn is_run_alert(
    alert: Option<NowcastAlert>,
    nowcast: Option<Nowcast>,
    now: int,
) -> bool {
    match nowcast {
        Some(n) => {
            &&& alert is Some <==> alert_is_due(n, now)
            &&& alert matches Some(a) ==> is_alert(a, n.steps@)
        },
        None => alert is None,
    }
}

fn run_alert(nowcast: &Option<Nowcast>, now: i128) -> (alert: Option<NowcastAlert>)
    ensures
        is_run_alert(alert, *nowcast, now as int),
{
    match nowcast {
        Some(n) => build_nowcast_alert(n, now),
        None => None,
    }
}

/// The nowcast that a run goes on with: one without radar coverage is dropped.
pub fn usable_nowcast(fetched: Option<Nowcast>) -> (kept: Option<Nowcast>)
    ensures
        kept == (match fetched {
            Some(n) => if n.radar_coverage_ok {
                Some(n)
            } else {
                None
            },
            None => None,
        }),
{
    match fetched {
        Some(n) => if n.radar_coverage_ok {
            Some(n)
        } else {
            None
        },
        None => None,
    }
}

/// Score every sample point in `window`, all of them on the same `surface`, and
/// roll the scores up. `signals` holds, for each point, what its hours in the
/// window amount to.
pub fn run_score(
    forecasts: &Vec<PointForecast>,
    center: Point,
    window: RideWindow,
    surface: Option<SurfaceState>,
    signals: Vec<WindowSignals>,
    lang: Language,
    rain_history: Option<RainHistory>,
    nowcast: &Option<Nowcast>,
    now: i128,
) -> (agg: AggregateScore)
    requires
        forecasts@.len() > 0,
        signals@.len() == forecasts@.len(),
    ensures
        agg.is_rolled_up(),
        agg.points@.len() == forecasts@.len(),
        forall|i: int|
            0 <= i < forecasts@.len() ==> is_point_score(
                #[trigger] agg.points@[i],
                forecasts@[i],
                center,
                window,
                surface,
                signals@[i],
                lang,
            ),
        agg.rain_history == rain_history,
        is_run_alert(agg.nowcast_alert, *nowcast, now as int),
{
    let ghost all = signals@;
    let mut signals = signals;
    let mut points: Vec<PointScore> = Vec::new();
    let mut i: usize = 0;
    proof {
        assert(all.skip(0) =~= all);
    }
    while i < forecasts.len()
        invariant
            i <= forecasts.len(),
            all.len() == forecasts@.len(),
            signals@ == all.skip(i as int),
            points@.len() == i,
            forall|k: int|
                0 <= k < i ==> is_point_score(
                    #[trigger] points@[k],
                    forecasts@[k],
                    center,
                    window,
                    surface,
                    all[k],
                    lang,
                ),
        decreases forecasts.len() - i,
    {
        let f = &forecasts[i];
        let own = signals.remove(0);
        proof {
            assert(own == all[i as int]);
            assert(all.skip(i as int).remove(0) =~= all.skip(i + 1));
        }
        points.push(
            PointScore {
                point: f.point,
                bearing_label: f.bearing_label.clone(),
                is_center: f.point == center,
                score: score(&f.hours, window, surface, own, lang),
            },
        );
        i = i + 1;
    }
    let mut agg = AggregateScore::from_points(points);
    agg.rain_history = rain_history;
    agg.nowcast_alert = run_alert(nowcast, now);
    agg
}

// ---- A run over several days ----

/// What the hours of one point amount to on one day: over the whole day, and
/// over each candidate for the best sub-window.
#[derive(Debug)]
pub struct DaySignals {
    pub day: WindowSignals,
    pub sky: SkySummary,
    pub candidates: Vec<WindowSignals>,
}

/// The candidates for the best sub-window of a day at one point.
pub open spec fn day_candidates(
    f: PointForecast,
    dw: DayWindow,
    best_window: BestWindowConfig,
) -> Seq<RideWindow> {
    candidates(
        f.hours@,
        dw.window,
        best_window.length_hours as int,
        best_window.excluded_windows@,
    )
}

/// `scores` are the scores of the candidates, on the surface of their day.
pub open spec fn score_candidates(
    scores: Seq<Grusindeks>,
    f: PointForecast,
    windows: Seq<RideWindow>,
    surface: Option<SurfaceState>,
    signals: Seq<WindowSignals>,
    lang: Language,
) -> bool {
    &&& scores.len() == windows.len()
    &&& forall|k: int|
        0 <= k < scores.len() ==> scores_window(
            #[trigger] scores[k],
            f.hours@,
            windows[k],
            surface,
            signals[k],
            lang,
        )
}

/// `p` is the day score of the point of `f`, on a day that starts on `surface`.
pub open spec fn is_day_point(
    p: DayPointScore,
    f: PointForecast,
    center: Point,
    dw: DayWindow,
    now: int,
    best_window: BestWindowConfig,
    surface: Option<SurfaceState>,
    signals: DaySignals,
    lang: Language,
) -> bool {
    &&& p.point == f.point
    &&& p.bearing_label@ == f.bearing_label@
    &&& p.is_center == (f.point == center)
    &&& scores_window(p.day_score.score, f.hours@, dw.window, surface, signals.day, lang)
    &&& exists|scores: Seq<Grusindeks>|
        {
            &&& #[trigger] score_candidates(
                scores,
                f,
                day_candidates(f, dw, best_window),
                surface,
                signals.candidates@,
                lang,
            )
            &&& is_day_score(
                p.day_score,
                f.hours@,
                dw.window,
                now,
                best_window,
                signals.sky,
                p.day_score.score,
                scores,
            )
        }
}

/// There are signals for every point, and in them for every candidate.
pub open spec fn day_signals_fit(
    signals: Seq<DaySignals>,
    forecasts: Seq<PointForecast>,
    dw: DayWindow,
    best_window: BestWindowConfig,
) -> bool {
    &&& signals.len() == forecasts.len()
    &&& forall|p: int|
        0 <= p < forecasts.len() ==> (#[trigger] signals[p]).candidates@.len() == day_candidates(
            forecasts[p],
            dw,
            best_window,
        ).len()
}

fn candidate_scores(
    f: &PointForecast,
    dw: DayWindow,
    best_window: &BestWindowConfig,
    surface: Option<SurfaceState>,
    signals: Vec<WindowSignals>,
    lang: Language,
) -> (scores: Vec<Grusindeks>)
    requires
        dw.window.valid(),
        signals@.len() == day_candidates(*f, dw, *best_window).len(),
    ensures
        score_candidates(
            scores@,
            *f,
            day_candidates(*f, dw, *best_window),
            surface,
            signals@,
            lang,
        ),
{
    let windows = best_window_candidates(
        &f.hours,
        dw.window,
        best_window.length_hours,
        &best_window.excluded_windows,
    );
    let ghost all = signals@;
    let mut signals = signals;
    let mut scores: Vec<Grusindeks> = Vec::new();
    let mut i: usize = 0;
    proof {
        assert(all.skip(0) =~= all);
    }
    while i < windows.len()
        invariant
            i <= windows.len(),
            windows@ == day_candidates(*f, dw, *best_window),
            all.len() == windows@.len(),
            signals@ == all.skip(i as int),
            scores@.len() == i,
            forall|k: int|
                0 <= k < i ==> scores_window(
                    #[trigger] scores@[k],
                    f.hours@,
                    windows@[k],
                    surface,
                    all[k],
                    lang,
                ),
        decreases windows.len() - i,
    {
        let own = signals.remove(0);
        proof {
            assert(own == all[i as int]);
            assert(all.skip(i as int).remove(0) =~= all.skip(i + 1));
        }
        scores.push(score(&f.hours, windows[i], surface, own, lang));
        i = i + 1;
    }
    scores
}

/// Score every sample point on one day, all of them on the same `surface`, and
/// roll the scores up.
pub fn day_rollup(
    dw: DayWindow,
    forecasts: &Vec<PointForecast>,
    center: Point,
    now: i128,
    best_window: &BestWindowConfig,
    surface: Option<SurfaceState>,
    signals: Vec<DaySignals>,
    lang: Language,
) -> (day: DayAggregate)
    requires
        dw.window.valid(),
        is_instant(now as int),
        forecasts@.len() > 0,
        day_signals_fit(signals@, forecasts@, dw, *best_window),
    ensures
        is_forecast_day(
            day,
            dw,
            forecasts@,
            center,
            now as int,
            *best_window,
            surface,
            signals@,
            lang,
        ),
{
    let ghost all = signals@;
    let mut signals = signals;
    let mut points: Vec<DayPointScore> = Vec::new();
    let mut i: usize = 0;
    proof {
        assert(all.skip(0) =~= all);
    }
    while i < forecasts.len()
        invariant
            i <= forecasts.len(),
            dw.window.valid(),
            is_instant(now as int),
            day_signals_fit(all, forecasts@, dw, *best_window),
            signals@ == all.skip(i as int),
            points@.len() == i,
            forall|k: int|
                0 <= k < i ==> is_day_point(
                    #[trigger] points@[k],
                    forecasts@[k],
                    center,
                    dw,
                    now as int,
                    *best_window,
                    surface,
                    all[k],
                    lang,
                ),
        decreases forecasts.len() - i,
    {
        let f = &forecasts[i];
        let own = signals.remove(0);
        proof {
            assert(own == all[i as int]);
            assert(all.skip(i as int).remove(0) =~= all.skip(i + 1));
        }
        let day_score = score(&f.hours, dw.window, surface, own.day, lang);
        let scores = candidate_scores(f, dw, best_window, surface, own.candidates, lang);
        let day_score = compute_day(
            &f.hours,
            dw.window,
            now,
            best_window,
            &own.sky,
            day_score,
            scores,
        );
        points.push(
            DayPointScore {
                point: f.point,
                bearing_label: f.bearing_label.clone(),
                is_center: f.point == center,
                day_score,
            },
        );
        i = i + 1;
    }
    DayAggregate::from_points(dw.date, dw.window, points)
}

/// `day` is the rollup of the points on the day of `dw`, which starts on
/// `surface`.
pub open spec fn is_forecast_day(
    day: DayAggregate,
    dw: DayWindow,
    forecasts: Seq<PointForecast>,
    center: Point,
    now: int,
    best_window: BestWindowConfig,
    surface: Option<SurfaceState>,
    signals: Seq<DaySignals>,
    lang: Language,
) -> bool {
    &&& day.is_rolled_up()
    &&& day.date == dw.date
    &&& day.window == dw.window
    &&& day.points@.len() == forecasts.len()
    &&& forall|i: int|
        0 <= i < forecasts.len() ==> is_day_point(
            #[trigger] day.points@[i],
            forecasts[i],
            center,
            dw,
            now,
            best_window,
            surface,
            signals[i],
            lang,
        )
}

/// When each day's window starts.
pub open spec fn window_starts(days: Seq<DayWindow>) -> Seq<i128> {
    days.map_values(|dw: DayWindow| dw.window.start)
}

fn starts_of(days: &Vec<DayWindow>) -> (starts: Vec<i128>)
    ensures
        starts@ == window_starts(days@),
{
    let mut starts: Vec<i128> = Vec::new();
    let mut d: usize = 0;
    while d < days.len()
        invariant
            d <= days.len(),
            starts@ == window_starts(days@).take(d as int),
        decreases days.len() - d,
    {
        starts.push(days[d].window.start);
        proof {
            let all = window_starts(days@);
            assert(all.take(d + 1) =~= all.take(d as int).push(all[d as int]));
        }
        d = d + 1;
    }
    proof {
        assert(starts@ =~= window_starts(days@));
    }
    starts
}

/// The surface on which each day's window starts: that of the outlook, carried
/// along the hours that stand for the region.
pub open spec fn day_surfaces(
    outlook: Option<SurfaceOutlook>,
    center_hours: Seq<HourlyConditions>,
    days: Seq<DayWindow>,
) -> Seq<Option<SurfaceState>> {
    surfaces_at(outlook, center_hours, window_starts(days))
}

/// Score every sample point on every day, each day on the surface projected to
/// its start. `signals` holds, for each day and point, what the hours amount to.
pub fn run_forecast(
    days: &Vec<DayWindow>,
    forecasts: &Vec<PointForecast>,
    center: Point,
    now: i128,
    best_window: &BestWindowConfig,
    outlook: &Option<SurfaceOutlook>,
    signals: Vec<Vec<DaySignals>>,
    lang: Language,
    rain_history: Option<RainHistory>,
    nowcast: &Option<Nowcast>,
) -> (forecast: MultiDayForecast)
    requires
        is_instant(now as int),
        forecasts@.len() > 0,
        forall|d: int| 0 <= d < days@.len() ==> (#[trigger] days@[d]).window.valid(),
        outlook_fits(*outlook, center_hours_of(forecasts@, center)),
        signals@.len() == days@.len(),
        forall|d: int|
            0 <= d < days@.len() ==> day_signals_fit(
                (#[trigger] signals@[d])@,
                forecasts@,
                days@[d],
                *best_window,
            ),
    ensures
        forecast.days@.len() == days@.len(),
        forall|d: int|
            0 <= d < days@.len() ==> is_forecast_day(
                #[trigger] forecast.days@[d],
                days@[d],
                forecasts@,
                center,
                now as int,
                *best_window,
                day_surfaces(*outlook, center_hours_of(forecasts@, center), days@)[d],
                signals@[d]@,
                lang,
            ),
        forecast.rain_history == rain_history,
        is_run_alert(forecast.nowcast_alert, *nowcast, now as int),
{
    let regional = center_hours(forecasts, center);
    let surfaces = surfaces_for(outlook, &regional, &starts_of(days));
    let ghost all = signals@;
    let mut signals = signals;
    let mut out: Vec<DayAggregate> = Vec::new();
    let mut d: usize = 0;
    proof {
        assert(all.skip(0) =~= all);
    }
    while d < days.len()
        invariant
            d <= days.len(),
            is_instant(now as int),
            forecasts@.len() > 0,
            forall|k: int| 0 <= k < days@.len() ==> (#[trigger] days@[k]).window.valid(),
            surfaces@.len() == days@.len(),
            all.len() == days@.len(),
            forall|k: int|
                0 <= k < days@.len() ==> day_signals_fit(
                    (#[trigger] all[k])@,
                    forecasts@,
                    days@[k],
                    *best_window,
                ),
            signals@ == all.skip(d as int),
            out@.len() == d,
            forall|k: int|
                0 <= k < d ==> is_forecast_day(
                    #[trigger] out@[k],
                    days@[k],
                    forecasts@,
                    center,
                    now as int,
                    *best_window,
                    surfaces@[k],
                    all[k]@,
                    lang,
                ),
        decreases days.len() - d,
    {
        let own = signals.remove(0);
        proof {
            assert(own == all[d as int]);
            assert(all.skip(d as int).remove(0) =~= all.skip(d + 1));
        }
        out.push(day_rollup(days[d], forecasts, center, now, best_window, surfaces[d], own, lang));
        d = d + 1;
    }
    MultiDayForecast { days: out, rain_history, nowcast_alert: run_alert(nowcast, now) }
}

// ---- A run hour by hour ----

/// The hour that starts at `start`.
pub open spec fn hour_from(start: i128) -> RideWindow {
    RideWindow { start, end: (start + HOUR) as i128 }
}

/// `scores` are the scores of the points in `window`.
pub open spec fn are_point_scores(
    scores: Seq<Grusindeks>,
    forecasts: Seq<PointForecast>,
    window: RideWindow,
    surface: Option<SurfaceState>,
    signals: Seq<WindowSignals>,
    lang: Language,
) -> bool {
    &&& scores.len() == forecasts.len()
    &&& forall|p: int|
        0 <= p < scores.len() ==> scores_window(
            #[trigger] scores[p],
            forecasts[p].hours@,
            window,
            surface,
            signals[p],
            lang,
        )
}

fn point_scores(
    forecasts: &Vec<PointForecast>,
    window: RideWindow,
    surface: Option<SurfaceState>,
    signals: Vec<WindowSignals>,
    lang: Language,
) -> (scores: Vec<Grusindeks>)
    requires
        signals@.len() == forecasts@.len(),
    ensures
        are_point_scores(scores@, forecasts@, window, surface, signals@, lang),
{
    let ghost all = signals@;
    let mut signals = signals;
    let mut scores: Vec<Grusindeks> = Vec::new();
    let mut i: usize = 0;
    proof {
        assert(all.skip(0) =~= all);
    }
    while i < forecasts.len()
        invariant
            i <= forecasts.len(),
            all.len() == forecasts@.len(),
            signals@ == all.skip(i as int),
            scores@.len() == i,
            forall|k: int|
                0 <= k < i ==> scores_window(
                    #[trigger] scores@[k],
                    forecasts@[k].hours@,
                    window,
                    surface,
                    all[k],
                    lang,
                ),
        decreases forecasts.len() - i,
    {
        let own = signals.remove(0);
        proof {
            assert(own == all[i as int]);
            assert(all.skip(i as int).remove(0) =~= all.skip(i + 1));
        }
        scores.push(score(&forecasts[i].hours, window, surface, own, lang));
        i = i + 1;
    }
    scores
}

/// `hour` rolls up the points in the hour that starts at `start` on `surface`.
pub open spec fn is_hour_rollup(
    hour: HourScore,
    start: i128,
    forecasts: Seq<PointForecast>,
    now: int,
    surface: Option<SurfaceState>,
    signals: Seq<WindowSignals>,
    lang: Language,
) -> bool {
    exists|scores: Seq<Grusindeks>|
        {
            &&& #[trigger] are_point_scores(
                scores,
                forecasts,
                hour_from(start),
                surface,
                signals,
                lang,
            )
            &&& is_hour_score(
                hour,
                start as int,
                now,
                any_six_hourly(forecasts, start as int),
                scores,
            )
        }
}

/// What the hours of one day amount to: for each bucket at each point, and for
/// the centre over the whole day.
#[derive(Debug)]
pub struct HourlySignals {
    pub buckets: Vec<Vec<WindowSignals>>,
    pub center_day: WindowSignals,
}

/// There are signals for every point in every bucket of the day.
pub open spec fn hourly_signals_fit(
    signals: HourlySignals,
    forecasts: Seq<PointForecast>,
    center_hours: Seq<HourlyConditions>,
    dw: DayWindow,
) -> bool {
    &&& signals.buckets@.len() == bucket_starts(dw.window, center_hours).len()
    &&& forall|i: int|
        0 <= i < signals.buckets@.len() ==> (#[trigger] signals.buckets@[i])@.len()
            == forecasts.len()
}

/// `day` rolls up every bucket of the day of `dw`, each on the surface that
/// `surfaces` gives for its start among `all_starts`. Its stats are those of the
/// centre over the whole day, left out where nothing was scored.
pub open spec fn is_hourly_day(
    day: HourlyDayAggregate,
    dw: DayWindow,
    forecasts: Seq<PointForecast>,
    center_hours: Seq<HourlyConditions>,
    now: int,
    all_starts: Seq<i128>,
    surfaces: Seq<Option<SurfaceState>>,
    signals: HourlySignals,
    lang: Language,
) -> bool {
    let starts = bucket_starts(dw.window, center_hours);
    &&& day.date == dw.date
    &&& day.daytime_window == dw.window
    &&& day.hours@.len() == starts.len()
    &&& forall|i: int|
        0 <= i < starts.len() ==> is_hour_rollup(
            #[trigger] day.hours@[i],
            starts[i],
            forecasts,
            now,
            surface_for(all_starts, surfaces, starts[i] as int),
            signals.buckets@[i]@,
            lang,
        )
    &&& day.stats == if starts.len() == 0 {
        None
    } else {
        signals.center_day.stats.figures
    }
}

/// Score every bucket of one day on the surface at its start, and roll the points
/// up.
pub fn hourly_day(
    dw: DayWindow,
    forecasts: &Vec<PointForecast>,
    center_hours: &Vec<HourlyConditions>,
    now: i128,
    all_starts: &Vec<i128>,
    surfaces: &Vec<Option<SurfaceState>>,
    signals: HourlySignals,
    lang: Language,
) -> (day: HourlyDayAggregate)
    requires
        timed_hours(center_hours@),
        is_instant(now as int),
        forecasts@.len() > 0,
        all_starts@.len() == surfaces@.len(),
        hourly_signals_fit(signals, forecasts@, center_hours@, dw),
    ensures
        is_hourly_day(
            day,
            dw,
            forecasts@,
            center_hours@,
            now as int,
            all_starts@,
            surfaces@,
            signals,
            lang,
        ),
{
    let starts = hour_bucket_starts(dw.window, center_hours);
    let ghost all = signals.buckets@;
    let mut buckets = signals.buckets;
    let mut hours: Vec<HourScore> = Vec::new();
    let mut i: usize = 0;
    proof {
        buckets_lie_in_the_window(dw.window, center_hours@);
        assert(all.skip(0) =~= all);
    }
    while i < starts.len()
        invariant
            i <= starts.len(),
            timed_hours(center_hours@),
            is_instant(now as int),
            forecasts@.len() > 0,
            all_starts@.len() == surfaces@.len(),
            all.len() == starts@.len(),
            forall|k: int| 0 <= k < all.len() ==> (#[trigger] all[k])@.len() == forecasts@.len(),
            forall|k: int|
                0 <= k < starts@.len() ==> is_start_of_some_hour(
                    center_hours@,
                    #[trigger] starts@[k],
                ),
            buckets@ == all.skip(i as int),
            hours@.len() == i,
            forall|k: int|
                0 <= k < i ==> is_hour_rollup(
                    #[trigger] hours@[k],
                    starts@[k],
                    forecasts@,
                    now as int,
                    surface_for(all_starts@, surfaces@, starts@[k] as int),
                    all[k]@,
                    lang,
                ),
        decreases starts.len() - i,
    {
        let start: i128 = starts[i];
        let own = buckets.remove(0);
        proof {
            assert(own == all[i as int]);
            assert(all.skip(i as int).remove(0) =~= all.skip(i + 1));
            assert(is_start_of_some_hour(center_hours@, starts@[i as int]));
        }
        let hour_window = RideWindow { start, end: start + HOUR };
        let surface = surface_at(all_starts, surfaces, start);
        let scores = point_scores(forecasts, hour_window, surface, own, lang);
        let six_hourly = is_six_hourly(forecasts, start);
        let hour = hour_score(start, now, six_hourly, &scores);
        proof {
            assert(are_point_scores(
                scores@,
                forecasts@,
                hour_from(start),
                surface,
                all[i as int]@,
                lang,
            ));
        }
        hours.push(hour);
        i = i + 1;
    }
    let stats = if hours.len() == 0 {
        None
    } else {
        signals.center_day.stats.figures
    };
    HourlyDayAggregate { date: dw.date, daytime_window: dw.window, hours, stats }
}

/// The starts of the buckets of all days, one day after the other.
pub open spec fn all_bucket_starts(
    days: Seq<DayWindow>,
    center_hours: Seq<HourlyConditions>,
) -> Seq<i128>
    decreases days.len(),
{
    if days.len() == 0 {
        Seq::empty()
    } else {
        all_bucket_starts(days.drop_last(), center_hours) + bucket_starts(
            days.last().window,
            center_hours,
        )
    }
}

/// The starts of the buckets of all days, one day after the other.
pub fn every_bucket_start(days: &Vec<DayWindow>, center_hours: &Vec<HourlyConditions>) -> (starts:
    Vec<i128>)
    requires
        timed_hours(center_hours@),
    ensures
        starts@ == all_bucket_starts(days@, center_hours@),
{
    let mut starts: Vec<i128> = Vec::new();
    let mut d: usize = 0;
    proof {
        assert(days@.take(0) =~= Seq::empty());
    }
    while d < days.len()
        invariant
            d <= days.len(),
            timed_hours(center_hours@),
            starts@ == all_bucket_starts(days@.take(d as int), center_hours@),
        decreases days.len() - d,
    {
        let mut own = hour_bucket_starts(days[d].window, center_hours);
        starts.append(&mut own);
        proof {
            assert(days@.take(d + 1).drop_last() =~= days@.take(d as int));
            assert(days@.take(d + 1).last() == days@[d as int]);
        }
        d = d + 1;
    }
    proof {
        assert(days@.take(days.len() as int) =~= days@);
    }
    starts
}

/// Score every hour of every day, each on the surface projected to its start.
/// `signals` holds, for each day, what the hours amount to.
pub fn run_hourly(
    days: &Vec<DayWindow>,
    forecasts: &Vec<PointForecast>,
    center: Point,
    now: i128,
    outlook: &Option<SurfaceOutlook>,
    signals: Vec<HourlySignals>,
    lang: Language,
    header_hours: Vec<u8>,
    rain_history: Option<RainHistory>,
    nowcast: &Option<Nowcast>,
) -> (forecast: HourlyForecast)
    requires
        is_instant(now as int),
        forecasts@.len() > 0,
        timed_hours(center_hours_of(forecasts@, center)),
        outlook_fits(*outlook, center_hours_of(forecasts@, center)),
        signals@.len() == days@.len(),
        forall|d: int|
            0 <= d < days@.len() ==> hourly_signals_fit(
                #[trigger] signals@[d],
                forecasts@,
                center_hours_of(forecasts@, center),
                days@[d],
            ),
    ensures
        forecast.header_hours == header_hours,
        forecast.days@.len() == days@.len(),
        forall|d: int|
            0 <= d < days@.len() ==> is_hourly_day(
                #[trigger] forecast.days@[d],
                days@[d],
                forecasts@,
                center_hours_of(forecasts@, center),
                now as int,
                all_bucket_starts(days@, center_hours_of(forecasts@, center)),
                surfaces_at(
                    *outlook,
                    center_hours_of(forecasts@, center),
                    all_bucket_starts(days@, center_hours_of(forecasts@, center)),
                ),
                signals@[d],
                lang,
            ),
        forecast.rain_history == rain_history,
        is_run_alert(forecast.nowcast_alert, *nowcast, now as int),
{
    let regional = center_hours(forecasts, center);
    let starts = every_bucket_start(days, &regional);
    let surfaces = surfaces_for(outlook, &regional, &starts);
    let ghost all = signals@;
    let mut signals = signals;
    let mut out: Vec<HourlyDayAggregate> = Vec::new();
    let mut d: usize = 0;
    proof {
        assert(all.skip(0) =~= all);
    }
    while d < days.len()
        invariant
            d <= days.len(),
            is_instant(now as int),
            forecasts@.len() > 0,
            timed_hours(regional@),
            starts@.len() == surfaces@.len(),
            all.len() == days@.len(),
            forall|k: int|
                0 <= k < days@.len() ==> hourly_signals_fit(
                    #[trigger] all[k],
                    forecasts@,
                    regional@,
                    days@[k],
                ),
            signals@ == all.skip(d as int),
            out@.len() == d,
            forall|k: int|
                0 <= k < d ==> is_hourly_day(
                    #[trigger] out@[k],
                    days@[k],
                    forecasts@,
                    regional@,
                    now as int,
                    starts@,
                    surfaces@,
                    all[k],
                    lang,
                ),
        decreases days.len() - d,
    {
        let own = signals.remove(0);
        proof {
            assert(own == all[d as int]);
            assert(all.skip(d as int).remove(0) =~= all.skip(d + 1));
        }
        out.push(
            hourly_day(days[d], forecasts, &regional, now, &starts, &surfaces, own, lang),
        );
        d = d + 1;
    }
    HourlyForecast {
        header_hours,
        days: out,
        rain_history,
        nowcast_alert: run_alert(nowcast, now),
    }
}

} // verus!
