//! What holds of every day rollup.
use vstd::prelude::*;

use crate::conditions::{in_window, HourlyConditions, Resolution};
use crate::daily::{
    candidates, eligible, holds_data, is_best_window, is_day_score, is_first_best, overlapping,
    precip_edge, reason_of, sub_window, sub_window_count, temp_edge, wind_edge, BestWindowConfig,
    BestWindowReason, Confidence, DayScore, OptimalWindow, SkySummary, ICON_HOURLY_PRECIP_MM,
    ICON_OVERCAST_PCT, ICON_PARTLY_CLOUDY_PCT, ICON_TOTAL_PRECIP_MM, ICON_WIND_MS,
};
use crate::reading::ZERO;
use crate::score::{Grusindeks, ScoreBreakdown};
use crate::time::{RideWindow, HOUR};

verus! {

/// There is one best window at most: equal totals go to the earliest.
pub proof fn the_best_window_is_unique(
    a: OptimalWindow,
    b: OptimalWindow,
    windows: Seq<RideWindow>,
    scores: Seq<Grusindeks>,
    day_score: Grusindeks,
)
    requires
        is_best_window(a, windows, scores, day_score),
        is_best_window(b, windows, scores, day_score),
    ensures
        a.window == b.window,
        a.score == b.score,
        a.improvement == b.improvement,
        a.reason == b.reason,
{
    let i = choose|i: int|
        #![trigger scores[i]]
        is_first_best(scores, i) && a.window == windows[i] && a.score == scores[i] && a.improvement
            == (if scores[i].total > day_score.total {
            scores[i].total - day_score.total
        } else {
            0
        }) && a.reason == reason_of(scores[i].breakdown, day_score.breakdown);
    let j = choose|j: int|
        #![trigger scores[j]]
        is_first_best(scores, j) && b.window == windows[j] && b.score == scores[j] && b.improvement
            == (if scores[j].total > day_score.total {
            scores[j].total - day_score.total
        } else {
            0
        }) && b.reason == reason_of(scores[j].breakdown, day_score.breakdown);
    if i < j {
        assert(scores[i].total < scores[j].total);
    } else if j < i {
        assert(scores[j].total < scores[i].total);
    }
}

/// Two windows overlap exactly when some instant lies in both, and overlapping
/// does not depend on which of them is named first.
pub proof fn overlapping_windows_share_time(a: RideWindow, b: RideWindow)
    requires
        a.start < a.end,
        b.start < b.end,
    ensures
        overlapping(a, b) == overlapping(b, a),
        overlapping(a, b) <==> exists|t: int| #![trigger a.has(t)] a.has(t) && b.has(t),
{
    let t = if a.start < b.start {
        b.start as int
    } else {
        a.start as int
    };
    if overlapping(a, b) {
        assert(a.has(t) && b.has(t));
    }
}

/// A candidate lies inside the day, has the wanted length, starts a whole
/// number of hours into the day, holds forecast data and overlaps nothing that
/// is excluded.
pub proof fn candidates_are_eligible(
    hours: Seq<HourlyConditions>,
    day: RideWindow,
    length: int,
    excluded: Seq<RideWindow>,
    i: int,
)
    requires
        day.valid(),
        0 <= i < candidates(hours, day, length, excluded).len(),
    ensures
        ({
            let w = candidates(hours, day, length, excluded)[i];
            &&& day.start <= w.start
            &&& w.end <= day.end
            &&& w.end - w.start == length * HOUR
            &&& (w.start - day.start) % HOUR as int == 0
            &&& holds_data(hours, w)
            &&& forall|b: int| 0 <= b < excluded.len() ==> !overlapping(w, #[trigger] excluded[b])
        }),
{
    let all = Seq::new(sub_window_count(day, length), |k: int| sub_window(day, length, k));
    let keep = |w: RideWindow| eligible(hours, excluded, w);
    let w = candidates(hours, day, length, excluded)[i];
    all.lemma_filter_pred(keep, i);
    assert(all.filter(keep).contains(w));
    all.lemma_filter_contains_rev(keep, w);
    let k = choose|k: int| 0 <= k < all.len() && all[k] == w;
    lemma_sub_window_fits(day, length, k);
}

proof fn lemma_sub_window_fits(day: RideWindow, length: int, k: int)
    requires
        day.valid(),
        0 <= k < sub_window_count(day, length),
    ensures
        ({
            let w = sub_window(day, length, k);
            &&& w.start == day.start + k * HOUR
            &&& w.end == w.start + length * HOUR
            &&& day.start <= w.start
            &&& w.end <= day.end
            &&& (w.start - day.start) % HOUR as int == 0
        }),
{
    assert((k * 3_600_000_000_000int) % 3_600_000_000_000int == 0);
}

/// Every sub-window that starts a whole number of hours into the day, ends
/// inside it, holds forecast data and overlaps nothing excluded is a
/// candidate: none is passed over.
pub proof fn every_eligible_window_is_a_candidate(
    hours: Seq<HourlyConditions>,
    day: RideWindow,
    length: int,
    excluded: Seq<RideWindow>,
    k: int,
)
    requires
        day.valid(),
        0 < length,
        0 <= k,
        day.start + k * HOUR + length * HOUR <= day.end,
        eligible(hours, excluded, sub_window(day, length, k)),
    ensures
        candidates(hours, day, length, excluded).contains(sub_window(day, length, k)),
{
    let all = Seq::new(sub_window_count(day, length), |k: int| sub_window(day, length, k));
    let keep = |w: RideWindow| eligible(hours, excluded, w);
    assert(k < sub_window_count(day, length));
    assert(all[k] == sub_window(day, length, k));
    all.lemma_filter_contains(keep, k);
}

/// The best window scores at least as high as every candidate, and no
/// candidate before it scores as high.
pub proof fn the_best_window_beats_every_candidate(
    best: OptimalWindow,
    windows: Seq<RideWindow>,
    scores: Seq<Grusindeks>,
    day_score: Grusindeks,
    j: int,
)
    requires
        windows.len() == scores.len(),
        is_best_window(best, windows, scores, day_score),
        0 <= j < scores.len(),
    ensures
        scores[j].total <= best.score.total,
        windows.contains(best.window),
        best.improvement + day_score.total >= best.score.total,
        best.improvement > 0 ==> best.score.total == day_score.total + best.improvement,
{
}

/// With no minimum improvement a day shows its best window whenever it has a
/// candidate at all.
pub proof fn no_threshold_always_shows_a_window(
    day: DayScore,
    hours: Seq<HourlyConditions>,
    day_window: RideWindow,
    now: int,
    best_window: BestWindowConfig,
    sky: SkySummary,
    day_score: Grusindeks,
    scores: Seq<Grusindeks>,
)
    requires
        is_day_score(day, hours, day_window, now, best_window, sky, day_score, scores),
        best_window.min_improvement == 0,
        scores.len() == candidates(
            hours,
            day_window,
            best_window.length_hours as int,
            best_window.excluded_windows@,
        ).len(),
        scores.len() > 0,
    ensures
        day.optimal_window is Some,
{
    let windows = candidates(
        hours,
        day_window,
        best_window.length_hours as int,
        best_window.excluded_windows@,
    );
    let i = lemma_some_first_best(scores);
    let best = OptimalWindow {
        window: windows[i],
        score: scores[i],
        improvement: (if scores[i].total > day_score.total {
            scores[i].total - day_score.total
        } else {
            0
        }) as u8,
        reason: reason_of(scores[i].breakdown, day_score.breakdown),
    };
    assert(is_best_window(best, windows, scores, day_score));
}

proof fn lemma_some_first_best(scores: Seq<Grusindeks>) -> (i: int)
    requires
        scores.len() > 0,
    ensures
        is_first_best(scores, i),
    decreases scores.len(),
{
    if scores.len() == 1 {
        0
    } else {
        let rest = scores.drop_last();
        let i = lemma_some_first_best(rest);
        assert forall|j: int| 0 <= j < rest.len() implies (#[trigger] scores[j]).total
            <= rest[i].total by {
            assert(rest[j] == scores[j]);
        }
        assert forall|j: int| 0 <= j < i implies (#[trigger] scores[j]).total < rest[i].total by {
            assert(rest[j] == scores[j]);
        }
        if scores.last().total > scores[i].total {
            scores.len() - 1
        } else {
            i
        }
    }
}

/// A reason is given exactly when some axis has a positive edge, and the axis
/// that it names has the largest.
pub proof fn the_reason_names_the_largest_edge(window: ScoreBreakdown, day: ScoreBreakdown)
    ensures
        reason_of(window, day) is None <==> temp_edge(window, day) <= 0 && wind_edge(window, day)
            <= 0 && precip_edge(window, day) <= 0,
        match reason_of(window, day) {
            Some(BestWindowReason::Nedbor) => precip_edge(window, day) >= wind_edge(window, day)
                && precip_edge(window, day) >= temp_edge(window, day) && precip_edge(window, day)
                > 0,
            Some(BestWindowReason::Vind) => wind_edge(window, day) > precip_edge(window, day)
                && wind_edge(window, day) >= temp_edge(window, day) && wind_edge(window, day) > 0,
            Some(BestWindowReason::Mildest) => temp_edge(window, day) > precip_edge(window, day)
                && temp_edge(window, day) > wind_edge(window, day) && temp_edge(window, day) > 0
                && window.temperature >= 100,
            Some(BestWindowReason::MinstKald) => temp_edge(window, day) > precip_edge(window, day)
                && temp_edge(window, day) > wind_edge(window, day) && temp_edge(window, day) > 0
                && window.temperature < 100,
            None => true,
        },
{
}

/// A day measured against itself has no reason.
pub proof fn a_uniform_day_has_no_reason(day: ScoreBreakdown)
    ensures
        reason_of(day, day) is None,
{
    assert((day.temperature - day.temperature) * 18 == 0);
}

// ---- What a day says ----

/// A window is a candidate for the best sub-window of a day exactly when it has
/// the wanted length, starts a whole number of hours into the day, ends by the
/// end of the day, some forecast hour starts in it, and it shares no time with
/// anything excluded.
pub proof fn candidates_are_the_free_windows_with_data(
    hours: Seq<HourlyConditions>,
    day: RideWindow,
    length: int,
    excluded: Seq<RideWindow>,
    w: RideWindow,
)
    requires
        day.valid(),
        0 < length,
    ensures
        candidates(hours, day, length, excluded).contains(w) <==> {
            &&& day.start <= w.start
            &&& (w.start - day.start) % 3_600_000_000_000 == 0
            &&& w.end == w.start + length * 3_600_000_000_000
            &&& w.end <= day.end
            &&& exists|i: int|
                0 <= i < hours.len() && w.start <= (#[trigger] hours[i]).time < w.end
            &&& forall|b: int|
                0 <= b < excluded.len() ==> w.end <= (#[trigger] excluded[b]).start
                    || excluded[b].end <= w.start
        },
{
    let all = Seq::new(sub_window_count(day, length), |k: int| sub_window(day, length, k));
    let list = candidates(hours, day, length, excluded);
    if list.contains(w) {
        let i = choose|i: int| 0 <= i < list.len() && list[i] == w;
        candidates_are_eligible(hours, day, length, excluded, i);
        let h = choose|h: int| 0 <= h < hours.len() && w.has((#[trigger] hours[h]).time as int);
        assert(w.start <= hours[h].time < w.end);
        assert forall|b: int| 0 <= b < excluded.len() implies w.end <= (
        #[trigger] excluded[b]).start || excluded[b].end <= w.start by {
            assert(!overlapping(w, excluded[b]));
        }
    }
    if day.start <= w.start && (w.start - day.start) % 3_600_000_000_000 == 0 && w.end == w.start
        + length * 3_600_000_000_000 && w.end <= day.end && (exists|i: int|
        0 <= i < hours.len() && w.start <= (#[trigger] hours[i]).time < w.end) && (forall|b: int|
        0 <= b < excluded.len() ==> w.end <= (#[trigger] excluded[b]).start || excluded[b].end
            <= w.start) {
        let k = (w.start - day.start) / 3_600_000_000_000;
        assert(w.start == day.start + k * 3_600_000_000_000);
        assert(sub_window(day, length, k) == w);
        let h = choose|h: int| 0 <= h < hours.len() && w.start <= (#[trigger] hours[h]).time < w.end;
        assert(w.has(hours[h].time as int));
        assert(eligible(hours, excluded, w));
        every_eligible_window_is_a_candidate(hours, day, length, excluded, k);
    }
}

/// A day shows the candidate with the highest total, the first of several, where
/// it beats the whole day by the wanted number of points; the improvement is by
/// how many it does. Where no window is shown, no candidate beats the day by as
/// many.
pub proof fn a_day_shows_its_highest_candidate(
    day: DayScore,
    hours: Seq<HourlyConditions>,
    day_window: RideWindow,
    now: int,
    best_window: BestWindowConfig,
    sky: SkySummary,
    day_score: Grusindeks,
    scores: Seq<Grusindeks>,
    j: int,
)
    requires
        is_day_score(day, hours, day_window, now, best_window, sky, day_score, scores),
        scores.len() == candidates(
            hours,
            day_window,
            best_window.length_hours as int,
            best_window.excluded_windows@,
        ).len(),
        0 <= j < scores.len(),
    ensures
        day.window == day_window,
        day.score == day_score,
        day.optimal_window matches Some(best) ==> {
            &&& scores[j].total <= best.score.total
            &&& best.score.total > day_score.total ==> best.improvement == best.score.total
                - day_score.total
            &&& best.score.total <= day_score.total ==> best.improvement == 0
            &&& best.improvement >= best_window.min_improvement
            &&& exists|i: int|
                {
                    &&& 0 <= i < scores.len()
                    &&& best.score == #[trigger] scores[i]
                    &&& best.window == candidates(
                        hours,
                        day_window,
                        best_window.length_hours as int,
                        best_window.excluded_windows@,
                    )[i]
                    &&& j < i ==> scores[j].total < best.score.total
                }
        },
        day.optimal_window is None ==> best_window.min_improvement > 0 && scores[j].total
            - day_score.total < best_window.min_improvement,
{
    let windows = candidates(
        hours,
        day_window,
        best_window.length_hours as int,
        best_window.excluded_windows@,
    );
    if day.optimal_window is None {
        let i = lemma_some_first_best(scores);
        let best = OptimalWindow {
            window: windows[i],
            score: scores[i],
            improvement: (if scores[i].total > day_score.total {
                scores[i].total - day_score.total
            } else {
                0
            }) as u8,
            reason: reason_of(scores[i].breakdown, day_score.breakdown),
        };
        assert(is_best_window(best, windows, scores, day_score));
        assert(scores[j].total <= scores[i].total);
    }
}

/// The reason for a window is the axis on which it gains most on the day, each
/// sub-score counting with its share of the total: 18 for temperature, 17 for
/// wind, 25 and 10 for amount and probability of rain together. Rain is named
/// before wind and wind before temperature where they tie, and nothing where no
/// axis gains. A gain in temperature is called mild only at the full sub-score.
pub proof fn the_reason_is_the_largest_gain(window: ScoreBreakdown, day: ScoreBreakdown)
    ensures
        ({
            let temp = 18 * (window.temperature - day.temperature);
            let wind = 17 * (window.wind - day.wind);
            let rain = 25 * (window.precipitation - day.precipitation) + 10 * (
            window.precip_probability - day.precip_probability);
            match reason_of(window, day) {
                None => temp <= 0 && wind <= 0 && rain <= 0,
                Some(BestWindowReason::Nedbor) => rain > 0 && rain >= wind && rain >= temp,
                Some(BestWindowReason::Vind) => wind > 0 && wind > rain && wind >= temp,
                Some(BestWindowReason::Mildest) => temp > 0 && temp > rain && temp > wind
                    && window.temperature >= 100,
                Some(BestWindowReason::MinstKald) => temp > 0 && temp > rain && temp > wind
                    && window.temperature < 100,
            }
        }),
{
}

/// A day is trusted least without forecast hours, more than five days out, or
/// when most of its hours come from six-hour buckets; it is trusted most within
/// a day of now when none of them does, and halfway otherwise.
pub proof fn a_day_is_trusted_by_its_horizon_and_detail(
    day: DayScore,
    hours: Seq<HourlyConditions>,
    day_window: RideWindow,
    now: int,
    best_window: BestWindowConfig,
    sky: SkySummary,
    day_score: Grusindeks,
    scores: Seq<Grusindeks>,
)
    requires
        is_day_score(day, hours, day_window, now, best_window, sky, day_score, scores),
    ensures
        ({
            let inside = in_window(hours, day_window);
            let coarse = inside.filter(
                |h: HourlyConditions| h.resolution == Resolution::SixHourly,
            ).len();
            let ahead = day_window.start - now;
            &&& day.hours_with_data == inside.len()
            &&& day.confidence == Confidence::Lav <==> inside.len() == 0 || ahead
                > 432_000_000_000_000 || 2 * coarse > inside.len()
            &&& day.confidence == Confidence::Hoy <==> inside.len() > 0 && ahead
                < 86_400_000_000_000 && coarse == 0
        }),
{
}

/// The icon of a day is that of storm where some hour has more than 10 m/s of
/// wind, else of rain, or of snow at or below freezing, where an hour or the
/// whole day is wet enough, else of the cloud cover: sunshine only where the
/// cover is known and low.
pub proof fn the_icon_shows_the_worst_of_the_day(
    day: DayScore,
    hours: Seq<HourlyConditions>,
    day_window: RideWindow,
    now: int,
    best_window: BestWindowConfig,
    sky: SkySummary,
    day_score: Grusindeks,
    scores: Seq<Grusindeks>,
)
    requires
        is_day_score(day, hours, day_window, now, best_window, sky, day_score, scores),
    ensures
        ({
            let inside = in_window(hours, day_window);
            let storm = exists|i: int|
                0 <= i < inside.len() && (#[trigger] inside[i]).wind_speed_ms > ICON_WIND_MS;
            let wet = sky.total_precip > ICON_TOTAL_PRECIP_MM || exists|i: int|
                0 <= i < inside.len() && (#[trigger] inside[i]).precipitation_mm
                    > ICON_HOURLY_PRECIP_MM;
            let cloud = sky.mean_cloud;
            &&& inside.len() == 0 ==> day.weather_icon@ == "·"@
            &&& inside.len() > 0 && storm ==> day.weather_icon@ == "🌬"@
            &&& inside.len() > 0 && !storm && wet && sky.mean_temp <= ZERO ==> day.weather_icon@
                == "🌨"@
            &&& inside.len() > 0 && !storm && wet && sky.mean_temp > ZERO ==> day.weather_icon@
                == "🌧"@
            &&& inside.len() > 0 && !storm && !wet ==> {
                &&& cloud is None ==> day.weather_icon@ == "⛅"@
                &&& cloud is Some && cloud->0 >= ICON_OVERCAST_PCT ==> day.weather_icon@ == "☁"@
                &&& cloud is Some && ICON_PARTLY_CLOUDY_PCT <= cloud->0 < ICON_OVERCAST_PCT
                    ==> day.weather_icon@ == "⛅"@
                &&& cloud is Some && cloud->0 < ICON_PARTLY_CLOUDY_PCT ==> day.weather_icon@
                    == "☀"@
            }
        }),
{
}

} // verus!
