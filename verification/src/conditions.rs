//! One hour of forecast, as the score reads it.
use vstd::prelude::*;

use crate::reading::{larger, Reading};
use crate::time::RideWindow;

verus! {

/// How finely the forecast resolved an hour.
#[derive(Debug, Clone, Copy, PartialEq, Eq, Hash, Structural)]
pub enum Resolution {
    /// Published for that hour.
    Hourly,
    /// Spread out from a six-hour bucket.
    SixHourly,
}

#[derive(Debug, Clone, Copy, PartialEq, Eq, Structural)]
pub struct HourlyConditions {
    pub time: i128,
    pub temperature_c: Reading,
    pub wind_speed_ms: Reading,
    pub precipitation_mm: Reading,
    pub wind_gust_ms: Option<Reading>,
    pub wind_from_deg: Option<Reading>,
    pub probability_of_precip: Option<Reading>,
    pub relative_humidity: Option<Reading>,
    pub cloud_area_fraction: Option<Reading>,
    pub uv_index_clear_sky: Option<Reading>,
    pub resolution: Resolution,
}

impl HourlyConditions {
    /// An hour with the three mandatory signals and nothing else.
    pub fn minimal(
        time: i128,
        temperature_c: Reading,
        wind_speed_ms: Reading,
        precipitation_mm: Reading,
    ) -> (hour: Self)
        ensures
            hour.time == time,
            hour.temperature_c == temperature_c,
            hour.wind_speed_ms == wind_speed_ms,
            hour.precipitation_mm == precipitation_mm,
            hour.wind_gust_ms is None,
            hour.wind_from_deg is None,
            hour.probability_of_precip is None,
            hour.relative_humidity is None,
            hour.cloud_area_fraction is None,
            hour.uv_index_clear_sky is None,
            hour.resolution == Resolution::Hourly,
    {
        HourlyConditions {
            time,
            temperature_c,
            wind_speed_ms,
            precipitation_mm,
            wind_gust_ms: None,
            wind_from_deg: None,
            probability_of_precip: None,
            relative_humidity: None,
            cloud_area_fraction: None,
            uv_index_clear_sky: None,
            resolution: Resolution::Hourly,
        }
    }
}

/// The hours that lie in `window`, in their order.
pub open spec fn in_window(hours: Seq<HourlyConditions>, window: RideWindow) -> Seq<
    HourlyConditions,
> {
    hours.filter(|h: HourlyConditions| window.has(h.time as int))
}

/// The hours that lie in `window`, in their order.
pub fn hours_in_window(hours: &Vec<HourlyConditions>, window: RideWindow) -> (inside: Vec<
    HourlyConditions,
>)
    ensures
        inside@ == in_window(hours@, window),
{
    let mut inside: Vec<HourlyConditions> = Vec::new();
    let mut i: usize = 0;
    let ghost keep = |h: HourlyConditions| window.has(h.time as int);
    proof {
        reveal(Seq::filter);
        assert(hours@.take(0).filter(keep) =~= Seq::empty());
    }
    while i < hours.len()
        invariant
            i <= hours.len(),
            keep == (|h: HourlyConditions| window.has(h.time as int)),
            inside@ == hours@.take(i as int).filter(keep),
        decreases hours.len() - i,
    {
        proof {
            reveal(Seq::filter);
            let next = hours@.take(i + 1);
            assert(next.drop_last() =~= hours@.take(i as int));
        }
        if window.contains(hours[i].time) {
            inside.push(hours[i]);
        }
        i = i + 1;
    }
    proof {
        assert(hours@.take(hours.len() as int) =~= hours@);
    }
    inside
}

// ---- Extremes ----

/// The largest of several readings.
pub open spec fn largest_of(readings: Seq<Reading>) -> Option<Reading>
    decreases readings.len(),
{
    if readings.len() == 0 {
        None
    } else {
        match largest_of(readings.drop_last()) {
            Some(m) => Some(larger(m, readings.last())),
            None => Some(readings.last()),
        }
    }
}

/// The largest of several readings.
pub fn largest(readings: &Vec<Reading>) -> (m: Option<Reading>)
    ensures
        m == largest_of(readings@),
{
    let mut m: Option<Reading> = None;
    let mut i: usize = 0;
    proof {
        assert(readings@.take(0) =~= Seq::empty());
    }
    while i < readings.len()
        invariant
            i <= readings.len(),
            m == largest_of(readings@.take(i as int)),
        decreases readings.len() - i,
    {
        proof {
            assert(readings@.take(i + 1).drop_last() =~= readings@.take(i as int));
            assert(readings@.take(i + 1).last() == readings@[i as int]);
        }
        m = match m {
            Some(seen) => if seen < readings[i] {
                Some(readings[i])
            } else {
                Some(seen)
            },
            None => Some(readings[i]),
        };
        i = i + 1;
    }
    proof {
        assert(readings@.take(readings.len() as int) =~= readings@);
    }
    m
}

/// A signal of an hour that its extremes are taken of.
#[derive(Debug, Clone, Copy, PartialEq, Eq, Structural)]
pub enum Signal {
    Wind,
    Gust,
    Precipitation,
    Probability,
}

/// What an hour carries of a signal.
pub open spec fn signal_of(h: HourlyConditions, signal: Signal) -> Option<Reading> {
    match signal {
        Signal::Wind => Some(h.wind_speed_ms),
        Signal::Gust => h.wind_gust_ms,
        Signal::Precipitation => Some(h.precipitation_mm),
        Signal::Probability => h.probability_of_precip,
    }
}

/// The readings of a signal, of the hours that carry it.
pub open spec fn readings_of(hours: Seq<HourlyConditions>, signal: Signal) -> Seq<Reading> {
    hours.filter(|h: HourlyConditions| signal_of(h, signal) is Some).map_values(
        |h: HourlyConditions| signal_of(h, signal)->0,
    )
}

fn collect(hours: &Vec<HourlyConditions>, signal: Signal) -> (readings: Vec<Reading>)
    ensures
        readings@ == readings_of(hours@, signal),
{
    let ghost keep = |h: HourlyConditions| signal_of(h, signal) is Some;
    let ghost pick = |h: HourlyConditions| signal_of(h, signal)->0;
    let mut readings: Vec<Reading> = Vec::new();
    let mut i: usize = 0;
    proof {
        reveal(Seq::filter);
        assert(hours@.take(0).filter(keep).map_values(pick) =~= Seq::empty());
    }
    while i < hours.len()
        invariant
            i <= hours.len(),
            keep == (|h: HourlyConditions| signal_of(h, signal) is Some),
            pick == (|h: HourlyConditions| signal_of(h, signal)->0),
            readings@ == hours@.take(i as int).filter(keep).map_values(pick),
        decreases hours.len() - i,
    {
        let ghost after = hours@.take(i + 1).filter(keep);
        proof {
            reveal(Seq::filter);
            assert(hours@.take(i + 1).drop_last() =~= hours@.take(i as int));
            assert(hours@.take(i + 1).last() == hours@[i as int]);
        }
        let carried: Option<Reading> = match signal {
            Signal::Wind => Some(hours[i].wind_speed_ms),
            Signal::Gust => hours[i].wind_gust_ms,
            Signal::Precipitation => Some(hours[i].precipitation_mm),
            Signal::Probability => hours[i].probability_of_precip,
        };
        match carried {
            Some(reading) => {
                readings.push(reading);
                proof {
                    assert(readings@ =~= after.map_values(pick));
                }
            },
            None => {},
        }
        i = i + 1;
    }
    proof {
        assert(hours@.take(hours.len() as int) =~= hours@);
    }
    readings
}

/// The peak of a signal; nothing where no hour carries it.
pub fn peak(hours: &Vec<HourlyConditions>, signal: Signal) -> (peak: Option<Reading>)
    ensures
        peak == largest_of(readings_of(hours@, signal)),
{
    largest(&collect(hours, signal))
}

/// The peak of a signal over the hours that lie in `window`; nothing where no
/// hour carries it.
pub fn peak_in_window(hours: &Vec<HourlyConditions>, window: RideWindow, signal: Signal) -> (peak:
    Option<Reading>)
    ensures
        peak == largest_of(readings_of(in_window(hours@, window), signal)),
{
    peak(&hours_in_window(hours, window), signal)
}

/// The largest reading is one of them, and none exceeds it.
pub proof fn the_largest_is_a_reading(readings: Seq<Reading>)
    ensures
        largest_of(readings) is None <==> readings.len() == 0,
        largest_of(readings) matches Some(m) ==> readings.contains(m) && forall|i: int|
            0 <= i < readings.len() ==> #[trigger] readings[i] <= m,
    decreases readings.len(),
{
    if readings.len() > 0 {
        let earlier = readings.drop_last();
        the_largest_is_a_reading(earlier);
        let m = largest_of(readings)->0;
        assert(readings[readings.len() - 1] == readings.last());
        if earlier.len() > 0 && m != readings.last() {
            let k = choose|k: int| 0 <= k < earlier.len() && earlier[k] == m;
            assert(readings[k] == m);
        }
        assert forall|i: int| 0 <= i < readings.len() implies #[trigger] readings[i] <= m by {
            if i < earlier.len() {
                assert(earlier[i] == readings[i]);
            }
        }
    }
}

/// An hour counts for a window exactly when it starts in it: from the start of
/// the window on and before its end. One more hour adds itself at the end, or
/// nothing.
pub proof fn a_window_holds_the_hours_that_start_in_it(
    hours: Seq<HourlyConditions>,
    h: HourlyConditions,
    window: RideWindow,
)
    ensures
        in_window(Seq::empty(), window).len() == 0,
        window.start <= h.time < window.end ==> in_window(hours.push(h), window) == in_window(
            hours,
            window,
        ).push(h),
        !(window.start <= h.time < window.end) ==> in_window(hours.push(h), window) == in_window(
            hours,
            window,
        ),
{
    reveal(Seq::filter);
    assert(hours.push(h).drop_last() =~= hours);
}

/// Every hour that starts in the window is among its hours, and only such.
pub proof fn hours_in_a_window_start_in_it(
    hours: Seq<HourlyConditions>,
    window: RideWindow,
    i: int,
)
    ensures
        0 <= i < hours.len() && window.start <= hours[i].time < window.end ==> in_window(
            hours,
            window,
        ).contains(hours[i]),
        0 <= i < in_window(hours, window).len() ==> window.start <= in_window(
            hours,
            window,
        )[i].time < window.end && hours.contains(in_window(hours, window)[i]),
{
    let keep = |h: HourlyConditions| window.has(h.time as int);
    if 0 <= i < hours.len() && keep(hours[i]) {
        hours.lemma_filter_contains(keep, i);
    }
    if 0 <= i < in_window(hours, window).len() {
        hours.lemma_filter_pred(keep, i);
        assert(hours.filter(keep).contains(hours.filter(keep)[i]));
        hours.lemma_filter_contains_rev(keep, hours.filter(keep)[i]);
    }
}

/// The peak of a signal is carried by some hour, and no hour carries more; there
/// is none exactly where no hour carries the signal.
pub proof fn a_peak_is_carried_and_not_exceeded(
    hours: Seq<HourlyConditions>,
    signal: Signal,
    i: int,
)
    requires
        0 <= i < hours.len(),
    ensures
        ({
            let peak = largest_of(readings_of(hours, signal));
            let carried = match signal {
                Signal::Wind => Some(hours[i].wind_speed_ms),
                Signal::Gust => hours[i].wind_gust_ms,
                Signal::Precipitation => Some(hours[i].precipitation_mm),
                Signal::Probability => hours[i].probability_of_precip,
            };
            &&& carried is Some ==> peak is Some && carried->0 <= peak->0
            &&& peak is Some ==> exists|j: int|
                0 <= j < hours.len() && (match signal {
                    Signal::Wind => Some((#[trigger] hours[j]).wind_speed_ms),
                    Signal::Gust => hours[j].wind_gust_ms,
                    Signal::Precipitation => Some(hours[j].precipitation_mm),
                    Signal::Probability => hours[j].probability_of_precip,
                }) == peak
        }),
{
    let keep = |h: HourlyConditions| signal_of(h, signal) is Some;
    let kept = hours.filter(keep);
    let readings = readings_of(hours, signal);
    the_largest_is_a_reading(readings);
    if signal_of(hours[i], signal) is Some {
        hours.lemma_filter_contains(keep, i);
        let k = choose|k: int| 0 <= k < kept.len() && kept[k] == hours[i];
        assert(readings[k] == signal_of(hours[i], signal)->0);
    }
    if let Some(m) = largest_of(readings) {
        let k = choose|k: int| 0 <= k < readings.len() && readings[k] == m;
        hours.lemma_filter_pred(keep, k);
        assert(kept.contains(kept[k]));
        hours.lemma_filter_contains_rev(keep, kept[k]);
        let j = choose|j: int| 0 <= j < hours.len() && hours[j] == kept[k];
        assert(signal_of(hours[j], signal) == Some(m));
    }
}

} // verus!
