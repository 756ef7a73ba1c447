//! What holds of every radar override and alert.
use vstd::prelude::*;

use crate::conditions::HourlyConditions;
use crate::nowcast::{
    alert_is_due, bucket_of, has_rate, in_bucket, is_alert, is_covered, is_first_rainy,
    is_last_rainy, is_peak, is_summary, overridden, rainy, steps_match, Nowcast, NowcastAlert,
    NowcastEntry, NowcastStep, NowcastSummary, NOWCAST_ALERT_THRESHOLD_MM_H,
    NOWCAST_OVERRIDE_PROBABILITY_PCT,
};
use crate::reading::Reading;
use crate::time::HOUR;

verus! {

/// The steps stand in the order of their times.
pub open spec fn chronological(steps: Seq<NowcastStep>) -> bool {
    forall|i: int, j: int|
        0 <= i <= j < steps.len() ==> (#[trigger] steps[i]).time <= (#[trigger] steps[j]).time
}

/// The radar never makes an hour look drier or rain less likely.
pub proof fn the_radar_is_pessimistic(h: HourlyConditions, nowcast: Nowcast, radar_mm: Reading)
    ensures
        overridden(h, nowcast, radar_mm).precipitation_mm >= h.precipitation_mm,
        h.probability_of_precip matches Some(p) ==> overridden(
            h,
            nowcast,
            radar_mm,
        ).probability_of_precip is Some && overridden(
            h,
            nowcast,
            radar_mm,
        ).probability_of_precip->0 >= p,
{
}

/// The radar changes amount and probability of precipitation and nothing else.
pub proof fn the_radar_changes_rain_only(h: HourlyConditions, nowcast: Nowcast, radar_mm: Reading)
    ensures
        overridden(h, nowcast, radar_mm) == (HourlyConditions {
            precipitation_mm: overridden(h, nowcast, radar_mm).precipitation_mm,
            probability_of_precip: overridden(h, nowcast, radar_mm).probability_of_precip,
            ..h
        }),
{
}

/// Without coverage, without steps, or without a step in the hour, the hour
/// stays as it was.
pub proof fn uncovered_hours_stay(h: HourlyConditions, nowcast: Nowcast, radar_mm: Reading)
    requires
        !nowcast.radar_coverage_ok || forall|i: int|
            0 <= i < nowcast.steps@.len() ==> !in_bucket(
                #[trigger] nowcast.steps@[i],
                h.time as int,
            ),
    ensures
        overridden(h, nowcast, radar_mm) == h,
{
}

/// Applying the same radar twice is the same as applying it once.
pub proof fn overriding_twice_changes_nothing(
    h: HourlyConditions,
    nowcast: Nowcast,
    radar_mm: Reading,
)
    ensures
        overridden(overridden(h, nowcast, radar_mm), nowcast, radar_mm) == overridden(
            h,
            nowcast,
            radar_mm,
        ),
{
}

/// In a chronological series every step in an hour is heard: looking at the
/// ends of the series first saves work and drops nothing.
pub proof fn no_radar_step_is_passed_over(nowcast: Nowcast, hour: int, i: int)
    requires
        nowcast.radar_coverage_ok,
        chronological(nowcast.steps@),
        0 <= i < nowcast.steps@.len(),
        in_bucket(nowcast.steps@[i], hour),
    ensures
        is_covered(nowcast, hour),
{
    let steps = nowcast.steps@;
    assert(steps[0].time <= steps[i].time);
    assert(steps[i].time <= steps[steps.len() - 1].time);
}

/// In a chronological series the peak lies between the first and the last
/// rainy step.
pub proof fn the_peak_lies_within_the_rain(
    s: NowcastSummary,
    steps: Seq<NowcastStep>,
    threshold: Reading,
)
    requires
        chronological(steps),
        is_summary(s, steps, threshold),
    ensures
        s.first_rain_at <= s.peak_at <= s.last_rain_at,
        s.peak_mm_h.reading >= threshold,
{
    let f = choose|i: int|
        #![trigger steps[i]]
        is_first_rainy(steps, threshold, i) && s.first_rain_at == steps[i].time;
    let l = choose|i: int|
        #![trigger steps[i]]
        is_last_rainy(steps, threshold, i) && s.last_rain_at == steps[i].time;
    let p = choose|i: int|
        #![trigger steps[i]]
        is_peak(steps, threshold, i) && s.peak_at == steps[i].time && s.peak_mm_h.reading
            == steps[i].precipitation_rate_mm_h.reading && s.peak_mm_h.text@
            == steps[i].precipitation_rate_mm_h.text@;
    assert(f <= p && p <= l);
    assert(steps[f].time <= steps[p].time);
    assert(steps[p].time <= steps[l].time);
}

/// An alert is due only while some rain on radar is still to come.
pub proof fn an_alert_is_not_about_the_past(nowcast: Nowcast, now: int)
    requires
        forall|i: int|
            0 <= i < nowcast.steps@.len() && (#[trigger] nowcast.steps@[i]).time >= now
                ==> nowcast.steps@[i].precipitation_rate_mm_h.reading
                < NOWCAST_ALERT_THRESHOLD_MM_H,
    ensures
        !alert_is_due(nowcast, now),
{
}

/// Where there is rain on radar, the hour ends up with a probability of at
/// least 95 %.
pub proof fn radar_rain_is_near_certain(h: HourlyConditions, nowcast: Nowcast, radar_mm: Reading)
    requires
        is_covered(nowcast, h.time as int),
        crate::nowcast::has_radar_rain(nowcast, h.time as int),
    ensures
        overridden(h, nowcast, radar_mm).probability_of_precip matches Some(p) && p
            >= NOWCAST_OVERRIDE_PROBABILITY_PCT,
{
}

// ---- What an hour becomes ----

/// An hour with a radar step in it ends up with at least the rain of the radar
/// and at least that of its forecast, and with one of the two.
pub proof fn a_covered_hour_gets_the_larger_amount(
    h: HourlyConditions,
    nowcast: Nowcast,
    radar_mm: Reading,
    i: int,
)
    requires
        nowcast.radar_coverage_ok,
        chronological(nowcast.steps@),
        0 <= i < nowcast.steps@.len(),
        h.time <= nowcast.steps@[i].time < h.time + HOUR,
    ensures
        overridden(h, nowcast, radar_mm).precipitation_mm >= radar_mm,
        overridden(h, nowcast, radar_mm).precipitation_mm >= h.precipitation_mm,
        overridden(h, nowcast, radar_mm).precipitation_mm == radar_mm || overridden(
            h,
            nowcast,
            radar_mm,
        ).precipitation_mm == h.precipitation_mm,
{
    no_radar_step_is_passed_over(nowcast, h.time as int, i);
}

/// A radar step with at least 0.1 mm/h in the hour raises its probability of
/// precipitation to 95 %, or leaves it where it is higher; an hour without such
/// a step keeps its probability, and none of its other signals ever changes.
pub proof fn radar_rain_raises_the_probability(
    h: HourlyConditions,
    nowcast: Nowcast,
    radar_mm: Reading,
)
    requires
        nowcast.radar_coverage_ok,
        chronological(nowcast.steps@),
    ensures
        ({
            let after = overridden(h, nowcast, radar_mm);
            let rain = exists|i: int|
                0 <= i < nowcast.steps@.len() && h.time <= (#[trigger] nowcast.steps@[i]).time
                    < h.time + HOUR && nowcast.steps@[i].precipitation_rate_mm_h.reading
                    >= NOWCAST_ALERT_THRESHOLD_MM_H;
            &&& rain ==> after.probability_of_precip is Some
            &&& rain ==> after.probability_of_precip->0 >= NOWCAST_OVERRIDE_PROBABILITY_PCT
            &&& rain && after.probability_of_precip->0 > NOWCAST_OVERRIDE_PROBABILITY_PCT
                ==> after.probability_of_precip == h.probability_of_precip
            &&& rain && h.probability_of_precip is Some ==> after.probability_of_precip->0
                >= h.probability_of_precip->0
            &&& !rain ==> after.probability_of_precip == h.probability_of_precip
            &&& after.time == h.time
            &&& after.temperature_c == h.temperature_c
            &&& after.wind_speed_ms == h.wind_speed_ms
            &&& after.wind_gust_ms == h.wind_gust_ms
            &&& after.wind_from_deg == h.wind_from_deg
            &&& after.relative_humidity == h.relative_humidity
            &&& after.cloud_area_fraction == h.cloud_area_fraction
            &&& after.uv_index_clear_sky == h.uv_index_clear_sky
            &&& after.resolution == h.resolution
        }),
{
    let steps = nowcast.steps@;
    let rain = exists|i: int|
        0 <= i < steps.len() && h.time <= (#[trigger] steps[i]).time < h.time + HOUR
            && steps[i].precipitation_rate_mm_h.reading >= NOWCAST_ALERT_THRESHOLD_MM_H;
    if rain {
        let i = choose|i: int|
            0 <= i < steps.len() && h.time <= (#[trigger] steps[i]).time < h.time + HOUR
                && steps[i].precipitation_rate_mm_h.reading >= NOWCAST_ALERT_THRESHOLD_MM_H;
        no_radar_step_is_passed_over(nowcast, h.time as int, i);
        assert(in_bucket(steps[i], h.time as int) && rainy(steps[i], NOWCAST_ALERT_THRESHOLD_MM_H));
    } else {
        assert(forall|i: int|
            0 <= i < steps.len() && in_bucket(#[trigger] steps[i], h.time as int) ==> !rainy(
                steps[i],
                NOWCAST_ALERT_THRESHOLD_MM_H,
            ));
    }
}

/// An hour without any radar step in it, or without coverage, stays as it was.
pub proof fn an_hour_off_the_radar_is_the_forecast(
    h: HourlyConditions,
    nowcast: Nowcast,
    radar_mm: Reading,
)
    requires
        !nowcast.radar_coverage_ok || forall|i: int|
            0 <= i < nowcast.steps@.len() ==> (#[trigger] nowcast.steps@[i]).time < h.time
                || nowcast.steps@[i].time >= h.time + HOUR,
    ensures
        overridden(h, nowcast, radar_mm) == h,
{
}

/// The positions whose rates add up to the rain of an hour are those of all
/// steps in it, and of no others.
pub proof fn an_hour_is_made_of_its_steps(steps: Seq<NowcastStep>, hour: int, i: int)
    requires
        0 <= i < steps.len() <= usize::MAX,
    ensures
        bucket_of(steps, hour).contains(i as usize) <==> hour <= steps[i].time < hour + HOUR,
        forall|j: int, k: int|
            0 <= j < k < bucket_of(steps, hour).len() ==> (#[trigger] bucket_of(steps, hour)[j]) < (
            #[trigger] bucket_of(steps, hour)[k]),
{
    let all = Seq::new(steps.len(), |i: int| i as usize);
    let keep = |i: usize| in_bucket(steps[i as int], hour);
    assert(all[i] == i as usize);
    lemma_ascending(all, keep, steps.len() as int);
    assert(all.take(steps.len() as int) =~= all);
    if hour <= steps[i].time < hour + HOUR {
        all.lemma_filter_contains(keep, i);
    } else if bucket_of(steps, hour).contains(i as usize) {
        let k = choose|k: int|
            0 <= k < bucket_of(steps, hour).len() && bucket_of(steps, hour)[k] == i as usize;
        all.lemma_filter_pred(keep, k);
    }
}

proof fn lemma_ascending(all: Seq<usize>, keep: spec_fn(usize) -> bool, n: int)
    requires
        0 <= n <= all.len(),
        forall|i: int| 0 <= i < all.len() ==> #[trigger] all[i] == i,
    ensures
        forall|k: int|
            0 <= k < all.take(n).filter(keep).len() ==> #[trigger] all.take(n).filter(keep)[k] < n,
        forall|j: int, k: int|
            0 <= j < k < all.take(n).filter(keep).len() ==> (#[trigger] all.take(n).filter(keep)[j])
                < (#[trigger] all.take(n).filter(keep)[k]),
    decreases n,
{
    reveal(Seq::filter);
    if n > 0 {
        lemma_ascending(all, keep, n - 1);
        assert(all.take(n).drop_last() =~= all.take(n - 1));
        assert(all.take(n).last() == all[n - 1]);
        let before = all.take(n - 1).filter(keep);
        let after = all.take(n).filter(keep);
        assert(after == if keep(all[n - 1]) {
            before.push(all[n - 1])
        } else {
            before
        });
        assert forall|k: int| 0 <= k < after.len() implies #[trigger] after[k] < n by {
            if k < before.len() {
                assert(after[k] == before[k]);
            }
        }
        assert forall|j: int, k: int| 0 <= j < k < after.len() implies (#[trigger] after[j]) < (
        #[trigger] after[k]) by {
            assert(after[j] == before[j]);
            if k < before.len() {
                assert(after[k] == before[k]);
            }
        }
    }
}

// ---- Alerts ----

/// An alert brackets all the rain on radar and names the strongest: every step
/// with at least 0.1 mm/h lies between its first and last instant and is no
/// stronger than its peak, and each of the three is that of such a step.
pub proof fn an_alert_brackets_all_rain(a: NowcastAlert, steps: Seq<NowcastStep>)
    requires
        chronological(steps),
        is_alert(a, steps),
    ensures
        forall|j: int|
            0 <= j < steps.len() && (#[trigger] steps[j]).precipitation_rate_mm_h.reading
                >= NOWCAST_ALERT_THRESHOLD_MM_H ==> a.first_rain_at <= steps[j].time
                <= a.last_rain_at,
        forall|j: int|
            0 <= j < steps.len() ==> (#[trigger] steps[j]).precipitation_rate_mm_h.reading
                <= a.peak_mm_h.reading,
        exists|j: int|
            0 <= j < steps.len() && (#[trigger] steps[j]).precipitation_rate_mm_h.reading
                >= NOWCAST_ALERT_THRESHOLD_MM_H && steps[j].time == a.first_rain_at,
        exists|j: int|
            0 <= j < steps.len() && (#[trigger] steps[j]).precipitation_rate_mm_h.reading
                >= NOWCAST_ALERT_THRESHOLD_MM_H && steps[j].time == a.last_rain_at,
        exists|j: int|
            0 <= j < steps.len() && (#[trigger] steps[j]).precipitation_rate_mm_h.reading
                == a.peak_mm_h.reading && steps[j].precipitation_rate_mm_h.text@
                == a.peak_mm_h.text@ && steps[j].time == a.peak_at,
        a.peak_mm_h.reading >= NOWCAST_ALERT_THRESHOLD_MM_H,
{
    let t = NOWCAST_ALERT_THRESHOLD_MM_H;
    let f = choose|i: int|
        #![trigger steps[i]]
        is_first_rainy(steps, t, i) && a.first_rain_at == steps[i].time;
    let l = choose|i: int|
        #![trigger steps[i]]
        is_last_rainy(steps, t, i) && a.last_rain_at == steps[i].time;
    let p = choose|i: int|
        #![trigger steps[i]]
        is_peak(steps, t, i) && a.peak_at == steps[i].time && a.peak_mm_h.reading
            == steps[i].precipitation_rate_mm_h.reading && a.peak_mm_h.text@
            == steps[i].precipitation_rate_mm_h.text@;
    assert(steps[f].precipitation_rate_mm_h.reading >= t);
    assert(steps[l].precipitation_rate_mm_h.reading >= t);
    assert(steps[p].precipitation_rate_mm_h.reading == a.peak_mm_h.reading);
    assert forall|j: int|
        0 <= j < steps.len() && (#[trigger] steps[j]).precipitation_rate_mm_h.reading
            >= t implies a.first_rain_at <= steps[j].time <= a.last_rain_at by {
        assert(rainy(steps[j], t));
        assert(f <= j && j <= l);
        assert(steps[f].time <= steps[j].time && steps[j].time <= steps[l].time);
    }
}

proof fn lemma_last_rainy(steps: Seq<NowcastStep>, threshold: Reading, j: int) -> (last: int)
    requires
        0 <= j < steps.len(),
        rainy(steps[j], threshold),
    ensures
        j <= last,
        is_last_rainy(steps, threshold, last),
    decreases steps.len() - j,
{
    if exists|k: int| j < k < steps.len() && rainy(#[trigger] steps[k], threshold) {
        let k = choose|k: int| j < k < steps.len() && rainy(#[trigger] steps[k], threshold);
        lemma_last_rainy(steps, threshold, k)
    } else {
        j
    }
}

/// An alert is due exactly while some step with at least 0.1 mm/h on radar does
/// not lie in the past.
pub proof fn an_alert_is_due_while_rain_is_ahead(nowcast: Nowcast, now: int)
    requires
        chronological(nowcast.steps@),
    ensures
        alert_is_due(nowcast, now) <==> nowcast.radar_coverage_ok && exists|j: int|
            0 <= j < nowcast.steps@.len() && (
            #[trigger] nowcast.steps@[j]).precipitation_rate_mm_h.reading
                >= NOWCAST_ALERT_THRESHOLD_MM_H && nowcast.steps@[j].time >= now,
{
    let steps = nowcast.steps@;
    if exists|j: int|
        0 <= j < steps.len() && (#[trigger] steps[j]).precipitation_rate_mm_h.reading
            >= NOWCAST_ALERT_THRESHOLD_MM_H && steps[j].time >= now {
        let j = choose|j: int|
            0 <= j < steps.len() && (#[trigger] steps[j]).precipitation_rate_mm_h.reading
                >= NOWCAST_ALERT_THRESHOLD_MM_H && steps[j].time >= now;
        assert(rainy(steps[j], NOWCAST_ALERT_THRESHOLD_MM_H));
        let l = lemma_last_rainy(steps, NOWCAST_ALERT_THRESHOLD_MM_H, j);
        assert(steps[j].time <= steps[l].time);
    }
}

/// Every entry of the series that carries a rate is a step with its time and
/// rate.
pub proof fn every_rated_entry_is_a_step(
    steps: Seq<NowcastStep>,
    entries: Seq<NowcastEntry>,
    e: int,
)
    requires
        steps_match(steps, entries),
        0 <= e < entries.len(),
        entries[e].precipitation_rate is Some,
    ensures
        exists|i: int|
            0 <= i < steps.len() && (#[trigger] steps[i]).time == entries[e].time
                && steps[i].precipitation_rate_mm_h.reading
                == entries[e].precipitation_rate->0.reading,
{
    let keep = |e: NowcastEntry| has_rate(e);
    let rated = entries.filter(keep);
    entries.lemma_filter_contains(keep, e);
    let i = choose|i: int| 0 <= i < rated.len() && rated[i] == entries[e];
    assert(steps[i].time == rated[i].time);
}

/// Every step is an entry of the series that carries a rate, with its time and
/// rate.
pub proof fn every_step_is_a_rated_entry(
    steps: Seq<NowcastStep>,
    entries: Seq<NowcastEntry>,
    i: int,
)
    requires
        steps_match(steps, entries),
        0 <= i < steps.len(),
    ensures
        exists|e: int|
            0 <= e < entries.len() && (#[trigger] entries[e]).precipitation_rate is Some
                && steps[i].time == entries[e].time && steps[i].precipitation_rate_mm_h.reading
                == entries[e].precipitation_rate->0.reading,
{
    let keep = |e: NowcastEntry| has_rate(e);
    let rated = entries.filter(keep);
    entries.lemma_filter_pred(keep, i);
    assert(rated.contains(rated[i]));
    entries.lemma_filter_contains_rev(keep, rated[i]);
    let e = choose|e: int| 0 <= e < entries.len() && entries[e] == rated[i];
    assert(steps[i].time == entries[e].time);
}

} // verus!
