//! `api.met.no/weatherapi/nowcast/2.0/complete` — 5-minute radar nowcast.
//!
//! Coverage is Norden only. The radar surfaces a "next rain in N minutes?"
//! signal and overrides the forecast of the hours that it covers.
use vstd::prelude::*;

use crate::client::{
    is_url_outcome, url_join, url_with_query, without_leading_slashes, ClientError, MetClient,
};
use crate::conditions::HourlyConditions;
use crate::reading::{larger, Measured, Reading};
use crate::text::same_text;
use crate::time::{is_instant, HOUR, MINUTE};

pub mod laws;

verus! {

pub const PATH: &'static str = "/weatherapi/nowcast/2.0/complete";

/// The URL of the radar nowcast at a point, its coordinates given with
/// four decimals.
pub fn request_url(client: &MetClient, lat: &str, lon: &str) -> (result: Result<
    String,
    ClientError,
>)
    ensures
        match url_join(client.spec_config().api_base@, without_leading_slashes(PATH@)) {
            Ok(url) => is_url_outcome(
                result,
                url_with_query(url, seq![("lat"@, lat@), ("lon"@, lon@)]),
            ),
            Err(why) => is_url_outcome(result, Err(why)),
        },
{
    client.point_url(PATH, lat, lon)
}

/// 0.1 mm/h: from here on an hour got rain on radar.
pub const NOWCAST_ALERT_THRESHOLD_MM_H: Reading = 0x3FB9_9999_9999_999A;

/// 95.0 %: the probability of precipitation of an hour with rain on radar.
pub const NOWCAST_OVERRIDE_PROBABILITY_PCT: Reading = 0x4057_C000_0000_0000;

/// A 5-minute step of the radar series.
#[derive(Debug, PartialEq, Eq)]
pub struct NowcastStep {
    pub time: i128,
    pub precipitation_rate_mm_h: Measured,
}

#[derive(Debug, PartialEq, Eq)]
pub struct Nowcast {
    pub radar_coverage_ok: bool,
    /// Empty when out of radar coverage.
    pub steps: Vec<NowcastStep>,
}

/// Roll-up of the rainy steps of a [`Nowcast`].
#[derive(Debug, PartialEq, Eq)]
pub struct NowcastSummary {
    pub first_rain_at: i128,
    pub last_rain_at: i128,
    pub peak_mm_h: Measured,
    pub peak_at: i128,
}

/// A rain alert, ready to present.
#[derive(Debug, PartialEq, Eq)]
pub struct NowcastAlert {
    pub first_rain_at: i128,
    pub last_rain_at: i128,
    pub peak_at: i128,
    pub peak_mm_h: Measured,
}

/// An entry of the upstream series. Not every entry carries a rate.
#[derive(Debug, PartialEq, Eq)]
pub struct NowcastEntry {
    pub time: i128,
    pub precipitation_rate: Option<Measured>,
}

pub open spec fn has_rate(entry: NowcastEntry) -> bool {
    entry.precipitation_rate is Some
}

/// The steps are the entries that carry a rate, in their order.
pub open spec fn steps_match(steps: Seq<NowcastStep>, entries: Seq<NowcastEntry>) -> bool {
    let rated = entries.filter(|e: NowcastEntry| has_rate(e));
    &&& steps.len() == rated.len()
    &&& forall|i: int|
        0 <= i < steps.len() ==> (#[trigger] steps[i]).time == rated[i].time
            && steps[i].precipitation_rate_mm_h.reading == rated[i].precipitation_rate->0.reading
            && steps[i].precipitation_rate_mm_h.text@ == rated[i].precipitation_rate->0.text@
}

impl Nowcast {
    /// The nowcast of an upstream response. Radar covers the point when the
    /// response says `ok`.
    pub fn from_series(radar_coverage: Option<&str>, entries: &Vec<NowcastEntry>) -> (nowcast:
        Nowcast)
        ensures
            nowcast.radar_coverage_ok == (radar_coverage is Some && radar_coverage->0@ == "ok"@),
            steps_match(nowcast.steps@, entries@),
    {
        let radar_coverage_ok = match radar_coverage {
            Some(text) => same_text(text, "ok"),
            None => false,
        };
        let ghost keep = |e: NowcastEntry| has_rate(e);
        let mut steps: Vec<NowcastStep> = Vec::new();
        let mut i: usize = 0;
        proof {
            reveal(Seq::filter);
            assert(entries@.take(0).filter(keep) =~= Seq::empty());
        }
        while i < entries.len()
            invariant
                i <= entries.len(),
                keep == (|e: NowcastEntry| has_rate(e)),
                steps_match(steps@, entries@.take(i as int)),
            decreases entries.len() - i,
        {
            proof {
                reveal(Seq::filter);
                assert(entries@.take(i + 1).drop_last() =~= entries@.take(i as int));
                assert(entries@.take(i + 1).last() == entries@[i as int]);
            }
            let ghost before = steps@;
            match &entries[i].precipitation_rate {
                Some(rate) => {
                    steps.push(
                        NowcastStep {
                            time: entries[i].time,
                            precipitation_rate_mm_h: rate.copied(),
                        },
                    );
                },
                None => {},
            }
            proof {
                let rated = entries@.take(i + 1).filter(keep);
                assert forall|k: int| 0 <= k < steps@.len() implies (#[trigger] steps@[k]).time
                    == rated[k].time && steps@[k].precipitation_rate_mm_h.reading
                    == rated[k].precipitation_rate->0.reading
                    && steps@[k].precipitation_rate_mm_h.text@
                    == rated[k].precipitation_rate->0.text@ by {
                    if k < before.len() {
                        assert(steps@[k] == before[k]);
                    }
                }
            }
            i = i + 1;
        }
        proof {
            assert(entries@.take(entries.len() as int) =~= entries@);
        }
        Nowcast { radar_coverage_ok, steps }
    }
}

/// A step is rainy when its rate reaches `threshold`.
pub open spec fn rainy(step: NowcastStep, threshold: Reading) -> bool {
    step.precipitation_rate_mm_h.reading >= threshold
}

/// Position `i` is the first rainy step.
pub open spec fn is_first_rainy(steps: Seq<NowcastStep>, threshold: Reading, i: int) -> bool {
    &&& 0 <= i < steps.len()
    &&& rainy(steps[i], threshold)
    &&& forall|j: int| 0 <= j < i ==> !rainy(#[trigger] steps[j], threshold)
}

/// Position `i` is the last rainy step.
pub open spec fn is_last_rainy(steps: Seq<NowcastStep>, threshold: Reading, i: int) -> bool {
    &&& 0 <= i < steps.len()
    &&& rainy(steps[i], threshold)
    &&& forall|j: int| i < j < steps.len() ==> !rainy(#[trigger] steps[j], threshold)
}

/// Position `i` has the highest rate of all, and the first of that height; it
/// is rainy.
pub open spec fn is_peak(steps: Seq<NowcastStep>, threshold: Reading, i: int) -> bool {
    &&& 0 <= i < steps.len()
    &&& rainy(steps[i], threshold)
    &&& forall|j: int|
        0 <= j < steps.len() ==> (#[trigger] steps[j]).precipitation_rate_mm_h.reading
            <= steps[i].precipitation_rate_mm_h.reading
    &&& forall|j: int|
        0 <= j < i ==> (#[trigger] steps[j]).precipitation_rate_mm_h.reading
            < steps[i].precipitation_rate_mm_h.reading
}

pub open spec fn any_rainy(steps: Seq<NowcastStep>, threshold: Reading) -> bool {
    exists|i: int| 0 <= i < steps.len() && rainy(#[trigger] steps[i], threshold)
}

/// `s` brackets the rainy steps and names the peak among them.
pub open spec fn is_summary(
    s: NowcastSummary,
    steps: Seq<NowcastStep>,
    threshold: Reading,
) -> bool {
    &&& exists|i: int|
        #![trigger steps[i]]
        is_first_rainy(steps, threshold, i) && s.first_rain_at == steps[i].time
    &&& exists|i: int|
        #![trigger steps[i]]
        is_last_rainy(steps, threshold, i) && s.last_rain_at == steps[i].time
    &&& exists|i: int|
        #![trigger steps[i]]
        is_peak(steps, threshold, i) && s.peak_at == steps[i].time && s.peak_mm_h.reading
            == steps[i].precipitation_rate_mm_h.reading && s.peak_mm_h.text@
            == steps[i].precipitation_rate_mm_h.text@
}

impl Nowcast {
    /// First step at or above `threshold_mm_h`, if any.
    pub fn next_rain_at(&self, threshold_mm_h: Reading) -> (at: Option<i128>)
        ensures
            at is None <==> !any_rainy(self.steps@, threshold_mm_h),
            at matches Some(t) ==> exists|i: int|
                #![trigger self.steps@[i]]
                is_first_rainy(self.steps@, threshold_mm_h, i) && t == self.steps@[i].time,
    {
        let mut i: usize = 0;
        while i < self.steps.len()
            invariant
                i <= self.steps.len(),
                forall|j: int| 0 <= j < i ==> !rainy(#[trigger] self.steps@[j], threshold_mm_h),
            decreases self.steps.len() - i,
        {
            if self.steps[i].precipitation_rate_mm_h.reading >= threshold_mm_h {
                proof {
                    assert(is_first_rainy(self.steps@, threshold_mm_h, i as int));
                }
                return Some(self.steps[i].time);
            }
            i = i + 1;
        }
        None
    }

    /// Roll-up of every step at or above `threshold_mm_h`. `None` when the
    /// series is dry.
    pub fn summary(&self, threshold_mm_h: Reading) -> (summary: Option<NowcastSummary>)
        ensures
            summary is None <==> !any_rainy(self.steps@, threshold_mm_h),
            summary matches Some(s) ==> is_summary(s, self.steps@, threshold_mm_h),
    {
        let n: usize = self.steps.len();
        let mut first: usize = 0;
        while first < n && self.steps[first].precipitation_rate_mm_h.reading < threshold_mm_h
            invariant
                n == self.steps.len(),
                first <= n,
                forall|j: int| 0 <= j < first ==> !rainy(#[trigger] self.steps@[j], threshold_mm_h),
            decreases n - first,
        {
            first = first + 1;
        }
        if first == n {
            return None;
        }
        let mut last: usize = first;
        let mut peak: usize = first;
        let mut i: usize = first + 1;
        while i < n
            invariant
                n == self.steps.len(),
                first <= last < i <= n,
                first <= peak < i,
                is_first_rainy(self.steps@, threshold_mm_h, first as int),
                rainy(self.steps@[last as int], threshold_mm_h),
                forall|j: int|
                    last < j < i ==> !rainy(#[trigger] self.steps@[j], threshold_mm_h),
                rainy(self.steps@[peak as int], threshold_mm_h),
                forall|j: int|
                    0 <= j < i ==> (#[trigger] self.steps@[j]).precipitation_rate_mm_h.reading
                        <= self.steps@[peak as int].precipitation_rate_mm_h.reading,
                forall|j: int|
                    0 <= j < peak ==> (#[trigger] self.steps@[j]).precipitation_rate_mm_h.reading
                        < self.steps@[peak as int].precipitation_rate_mm_h.reading,
            decreases n - i,
        {
            if self.steps[i].precipitation_rate_mm_h.reading >= threshold_mm_h {
                last = i;
                if self.steps[i].precipitation_rate_mm_h.reading
                    > self.steps[peak].precipitation_rate_mm_h.reading {
                    peak = i;
                }
            }
            i = i + 1;
        }
        proof {
            assert(is_last_rainy(self.steps@, threshold_mm_h, last as int));
            assert(is_peak(self.steps@, threshold_mm_h, peak as int));
        }
        Some(
            NowcastSummary {
                first_rain_at: self.steps[first].time,
                last_rain_at: self.steps[last].time,
                peak_mm_h: self.steps[peak].precipitation_rate_mm_h.copied(),
                peak_at: self.steps[peak].time,
            },
        )
    }
}

/// `a` is the alert that the nowcast gives at `now`.
pub open spec fn is_alert(a: NowcastAlert, steps: Seq<NowcastStep>) -> bool {
    is_summary(
        NowcastSummary {
            first_rain_at: a.first_rain_at,
            last_rain_at: a.last_rain_at,
            peak_mm_h: a.peak_mm_h,
            peak_at: a.peak_at,
        },
        steps,
        NOWCAST_ALERT_THRESHOLD_MM_H,
    )
}

/// There is coverage, and some rainy step does not lie in the past.
pub open spec fn alert_is_due(nowcast: Nowcast, now: int) -> bool {
    nowcast.radar_coverage_ok && exists|i: int|
        #![trigger nowcast.steps@[i]]
        is_last_rainy(nowcast.steps@, NOWCAST_ALERT_THRESHOLD_MM_H, i) && nowcast.steps@[i].time
            >= now
}

/// Build a presentation-ready alert. `None` when the series is dry, has no
/// radar coverage, or ends in the past.
pub fn build_nowcast_alert(nowcast: &Nowcast, now: i128) -> (alert: Option<NowcastAlert>)
    ensures
        alert is Some <==> alert_is_due(*nowcast, now as int),
        alert matches Some(a) ==> is_alert(a, nowcast.steps@),
{
    if !nowcast.radar_coverage_ok {
        return None;
    }
    match nowcast.summary(NOWCAST_ALERT_THRESHOLD_MM_H) {
        Some(s) => if s.last_rain_at < now {
            None
        } else {
            Some(
                NowcastAlert {
                    first_rain_at: s.first_rain_at,
                    last_rain_at: s.last_rain_at,
                    peak_at: s.peak_at,
                    peak_mm_h: s.peak_mm_h,
                },
            )
        },
        None => None,
    }
}

// ---- Overrides ----

/// A step lies in the hour that starts at `hour`.
pub open spec fn in_bucket(step: NowcastStep, hour: int) -> bool {
    hour <= step.time < hour + HOUR
}

/// The radar says something about the hour that starts at `hour`: the series
/// reaches into it and has a step in it.
pub open spec fn is_covered(nowcast: Nowcast, hour: int) -> bool {
    let steps = nowcast.steps@;
    &&& nowcast.radar_coverage_ok
    &&& steps.len() > 0
    &&& hour + HOUR > steps[0].time
    &&& hour < steps.last().time + 5 * MINUTE
    &&& exists|i: int| 0 <= i < steps.len() && in_bucket(#[trigger] steps[i], hour)
}

/// Some step of the hour has rain on radar.
pub open spec fn has_radar_rain(nowcast: Nowcast, hour: int) -> bool {
    exists|i: int|
        0 <= i < nowcast.steps@.len() && in_bucket(#[trigger] nowcast.steps@[i], hour) && rainy(
            nowcast.steps@[i],
            NOWCAST_ALERT_THRESHOLD_MM_H,
        )
}

/// The hour as the more pessimistic of forecast and radar sees it: the larger
/// amount of rain, and a probability of at least 95 % where there is rain on
/// radar. `radar_mm` is the rain that the steps of the hour add up to.
pub open spec fn overridden(h: HourlyConditions, nowcast: Nowcast, radar_mm: Reading) -> HourlyConditions {
    if !is_covered(nowcast, h.time as int) {
        h
    } else {
        HourlyConditions {
            precipitation_mm: larger(h.precipitation_mm, radar_mm),
            probability_of_precip: if has_radar_rain(nowcast, h.time as int) {
                Some(
                    match h.probability_of_precip {
                        Some(p) => larger(p, NOWCAST_OVERRIDE_PROBABILITY_PCT),
                        None => NOWCAST_OVERRIDE_PROBABILITY_PCT,
                    },
                )
            } else {
                h.probability_of_precip
            },
            ..h
        }
    }
}

/// The steps that lie in the hour starting at `hour`, by their positions.
pub open spec fn bucket_of(steps: Seq<NowcastStep>, hour: int) -> Seq<usize> {
    Seq::new(steps.len(), |i: int| i as usize).filter(
        |i: usize| in_bucket(steps[i as int], hour),
    )
}

/// Positions of the steps that lie in the hour starting at `hour`. Their rates
/// add up, at a twelfth of an hour each, to the rain of that hour.
pub fn bucket_steps(nowcast: &Nowcast, hour: i128) -> (positions: Vec<usize>)
    requires
        is_instant(hour as int),
    ensures
        positions@ == bucket_of(nowcast.steps@, hour as int),
{
    let ghost all = Seq::new(nowcast.steps@.len(), |i: int| i as usize);
    let ghost keep = |i: usize| in_bucket(nowcast.steps@[i as int], hour as int);
    let mut positions: Vec<usize> = Vec::new();
    let mut i: usize = 0;
    let end: i128 = hour + HOUR;
    proof {
        reveal(Seq::filter);
        assert(all.take(0).filter(keep) =~= Seq::empty());
    }
    while i < nowcast.steps.len()
        invariant
            i <= nowcast.steps.len(),
            end == hour + HOUR,
            all == Seq::new(nowcast.steps@.len(), |i: int| i as usize),
            keep == (|i: usize| in_bucket(nowcast.steps@[i as int], hour as int)),
            positions@ == all.take(i as int).filter(keep),
        decreases nowcast.steps.len() - i,
    {
        proof {
            reveal(Seq::filter);
            assert(all.take(i + 1).drop_last() =~= all.take(i as int));
            assert(all.take(i + 1).last() == i);
        }
        if hour <= nowcast.steps[i].time && nowcast.steps[i].time < end {
            positions.push(i);
        }
        i = i + 1;
    }
    proof {
        assert(all.take(nowcast.steps.len() as int) =~= all);
    }
    positions
}

fn override_hour(h: &HourlyConditions, nowcast: &Nowcast, radar_mm: Reading) -> (out:
    HourlyConditions)
    requires
        is_instant(h.time as int),
        forall|i: int|
            0 <= i < nowcast.steps@.len() ==> is_instant((#[trigger] nowcast.steps@[i]).time as int),
    ensures
        out == overridden(*h, *nowcast, radar_mm),
{
    let n: usize = nowcast.steps.len();
    if !nowcast.radar_coverage_ok || n == 0 {
        return *h;
    }
    let end: i128 = h.time + HOUR;
    if end <= nowcast.steps[0].time || h.time >= nowcast.steps[n - 1].time + 5 * MINUTE {
        return *h;
    }
    let mut covered = false;
    let mut rain = false;
    let mut i: usize = 0;
    while i < n
        invariant
            i <= n,
            n == nowcast.steps.len(),
            end == h.time + HOUR,
            covered == exists|k: int|
                0 <= k < i && in_bucket(#[trigger] nowcast.steps@[k], h.time as int),
            rain == exists|k: int|
                0 <= k < i && in_bucket(#[trigger] nowcast.steps@[k], h.time as int) && rainy(
                    nowcast.steps@[k],
                    NOWCAST_ALERT_THRESHOLD_MM_H,
                ),
        decreases n - i,
    {
        let ghost step = nowcast.steps@[i as int];
        if h.time <= nowcast.steps[i].time && nowcast.steps[i].time < end {
            proof {
                assert(in_bucket(step, h.time as int));
            }
            covered = true;
            if nowcast.steps[i].precipitation_rate_mm_h.reading >= NOWCAST_ALERT_THRESHOLD_MM_H {
                rain = true;
            }
        }
        i = i + 1;
    }
    if !covered {
        return *h;
    }
    let mut out = *h;
    if radar_mm > h.precipitation_mm {
        out.precipitation_mm = radar_mm;
    }
    if rain {
        out.probability_of_precip = Some(
            match h.probability_of_precip {
                Some(p) => if p > NOWCAST_OVERRIDE_PROBABILITY_PCT {
                    p
                } else {
                    NOWCAST_OVERRIDE_PROBABILITY_PCT
                },
                None => NOWCAST_OVERRIDE_PROBABILITY_PCT,
            },
        );
    }
    out
}

fn override_hours(hours: &mut Vec<HourlyConditions>, nowcast: &Nowcast, radar_mm: &Vec<Reading>)
    requires
        radar_mm@.len() == old(hours)@.len(),
        forall|i: int|
            0 <= i < old(hours)@.len() ==> is_instant((#[trigger] old(hours)@[i]).time as int),
        forall|i: int|
            0 <= i < nowcast.steps@.len() ==> is_instant((#[trigger] nowcast.steps@[i]).time as int),
    ensures
        final(hours)@.len() == old(hours)@.len(),
        forall|i: int|
            0 <= i < final(hours)@.len() ==> #[trigger] final(hours)@[i] == overridden(
                old(hours)@[i],
                *nowcast,
                radar_mm@[i],
            ),
{
    let ghost start = hours@;
    let mut i: usize = 0;
    while i < hours.len()
        invariant
            i <= hours.len(),
            hours@.len() == start.len(),
            radar_mm@.len() == start.len(),
            forall|k: int| 0 <= k < start.len() ==> is_instant((#[trigger] start[k]).time as int),
            forall|k: int|
                0 <= k < nowcast.steps@.len() ==> is_instant(
                    (#[trigger] nowcast.steps@[k]).time as int,
                ),
            forall|k: int|
                0 <= k < i ==> #[trigger] hours@[k] == overridden(start[k], *nowcast, radar_mm@[k]),
            forall|k: int| i <= k < start.len() ==> #[trigger] hours@[k] == start[k],
        decreases hours.len() - i,
    {
        let out = override_hour(&hours[i], nowcast, radar_mm[i]);
        hours.set(i, out);
        i = i + 1;
    }
}

/// Apply the radar to the forecast of every sample point: the same nowcast
/// covers them all. `radar_mm` holds, for each hour of each point, the rain
/// that its [`bucket_steps`] add up to.
pub fn apply_nowcast_overrides(
    per_point_hours: &mut Vec<Vec<HourlyConditions>>,
    nowcast: &Nowcast,
    radar_mm: &Vec<Vec<Reading>>,
)
    requires
        radar_mm@.len() == old(per_point_hours)@.len(),
        forall|p: int|
            0 <= p < radar_mm@.len() ==> (#[trigger] radar_mm@[p])@.len()
                == old(per_point_hours)@[p]@.len(),
        forall|p: int, i: int|
            0 <= p < old(per_point_hours)@.len() && 0 <= i < old(per_point_hours)@[p]@.len()
                ==> is_instant((#[trigger] old(per_point_hours)@[p]@[i]).time as int),
        forall|i: int|
            0 <= i < nowcast.steps@.len() ==> is_instant((#[trigger] nowcast.steps@[i]).time as int),
    ensures
        final(per_point_hours)@.len() == old(per_point_hours)@.len(),
        forall|p: int|
            0 <= p < final(per_point_hours)@.len()
                ==> (#[trigger] final(per_point_hours)@[p])@.len()
                == old(per_point_hours)@[p]@.len(),
        forall|p: int, i: int|
            0 <= p < final(per_point_hours)@.len() && 0 <= i < final(per_point_hours)@[p]@.len()
                ==> #[trigger] final(per_point_hours)@[p]@[i] == overridden(
                old(per_point_hours)@[p]@[i],
                *nowcast,
                radar_mm@[p]@[i],
            ),
        forall|p: int, i: int|
            0 <= p < final(per_point_hours)@.len() && 0 <= i < final(per_point_hours)@[p]@.len()
                ==> {
                let before = old(per_point_hours)@[p]@[i];
                let after = #[trigger] final(per_point_hours)@[p]@[i];
                &&& after.time == before.time
                &&& after.temperature_c == before.temperature_c
                &&& after.wind_speed_ms == before.wind_speed_ms
                &&& after.precipitation_mm >= before.precipitation_mm
                &&& after.precipitation_mm == before.precipitation_mm || after.precipitation_mm
                    == radar_mm@[p]@[i]
                &&& is_covered(*nowcast, before.time as int) ==> after.precipitation_mm
                    >= radar_mm@[p]@[i]
                &&& !is_covered(*nowcast, before.time as int) ==> after == before
            },
{
    let ghost start = per_point_hours@;
    let mut p: usize = 0;
    while p < per_point_hours.len()
        invariant
            p <= per_point_hours.len(),
            per_point_hours@.len() == start.len(),
            radar_mm@.len() == start.len(),
            forall|q: int|
                0 <= q < radar_mm@.len() ==> (#[trigger] radar_mm@[q])@.len() == start[q]@.len(),
            forall|q: int, i: int|
                0 <= q < start.len() && 0 <= i < start[q]@.len() ==> is_instant(
                    (#[trigger] start[q]@[i]).time as int,
                ),
            forall|k: int|
                0 <= k < nowcast.steps@.len() ==> is_instant(
                    (#[trigger] nowcast.steps@[k]).time as int,
                ),
            forall|q: int|
                0 <= q < start.len() ==> (#[trigger] per_point_hours@[q])@.len() == start[q]@.len(),
            forall|q: int, i: int|
                0 <= q < p && 0 <= i < start[q]@.len() ==> #[trigger] per_point_hours@[q]@[i]
                    == overridden(start[q]@[i], *nowcast, radar_mm@[q]@[i]),
            forall|q: int| p <= q < start.len() ==> #[trigger] per_point_hours@[q] == start[q],
        decreases per_point_hours.len() - p,
    {
        proof {
            assert(radar_mm@[p as int]@.len() == start[p as int]@.len());
            assert(per_point_hours@[p as int] == start[p as int]);
        }
        override_hours(&mut per_point_hours[p], nowcast, &radar_mm[p]);
        p = p + 1;
    }
}

} // verus!
