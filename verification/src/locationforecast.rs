//! `api.met.no/weatherapi/locationforecast/2.0/complete` — 9-day forecast.
//!
//! `api.met.no` publishes per-hour data for the first ~60 hours and only
//! 6-hour buckets beyond that. A per-hour block yields one hour, a 6-hour
//! block six; where the two overlap the per-hour block wins.
use vstd::prelude::*;

use crate::client::{
    is_url_outcome, url_join, url_with_query, without_leading_slashes, ClientError, MetClient,
};
use crate::conditions::{HourlyConditions, Resolution};
use crate::locationforecast::laws::an_hour_holds_the_values_of_its_entry;
use crate::reading::{Reading, ZERO};
use crate::time::{is_instant, HOUR};

pub mod laws;

verus! {

pub const PATH: &'static str = "/weatherapi/locationforecast/2.0/complete";

/// The URL of the nine-day forecast at a point, its coordinates given with
/// four decimals.
pub fn request_url(client: &MetClient, lat: &str, lon: &str) -> (result: Result<
    String,
    ClientError,
>)
    ensures
        match url_join(client.spec_config().api_base@, without_leading_slashes(PATH@)) {
            Ok(url) => is_url_outcome(
                result,
                url_with_query(url, seq![("lat"@, lat@), ("lon"@, lon@)]),
            ),
            Err(why) => is_url_outcome(result, Err(why)),
        },
{
    client.point_url(PATH, lat, lon)
}

/// What the forecast says of the hour after an entry.
#[derive(Debug, Clone, Copy, PartialEq, Eq, Structural)]
pub struct NextHour {
    pub precipitation_amount: Option<Reading>,
    pub probability_of_precipitation: Option<Reading>,
}

/// What the forecast says of the six hours after an entry.
#[derive(Debug, Clone, Copy, PartialEq, Eq, Structural)]
pub struct NextSixHours {
    /// A sixth of the precipitation amount.
    pub hourly_share: Option<Reading>,
    pub probability_of_precipitation: Option<Reading>,
}

/// One entry of the upstream timeseries.
#[derive(Debug, Clone, Copy, PartialEq, Eq, Structural)]
pub struct SeriesEntry {
    pub time: i128,
    pub air_temperature: Option<Reading>,
    pub wind_speed: Option<Reading>,
    pub wind_speed_of_gust: Option<Reading>,
    pub wind_from_direction: Option<Reading>,
    pub relative_humidity: Option<Reading>,
    pub cloud_area_fraction: Option<Reading>,
    pub ultraviolet_index_clear_sky: Option<Reading>,
    pub next_1_hours: Option<NextHour>,
    pub next_6_hours: Option<NextSixHours>,
}

pub open spec fn or_zero(value: Option<Reading>) -> Reading {
    match value {
        Some(v) => v,
        None => ZERO,
    }
}

/// The hour that starts at `time`, with the instant values of the entry.
pub open spec fn entry_hour(
    s: SeriesEntry,
    time: i128,
    precipitation_mm: Reading,
    probability: Option<Reading>,
    resolution: Resolution,
) -> HourlyConditions {
    HourlyConditions {
        time,
        temperature_c: s.air_temperature->0,
        wind_speed_ms: s.wind_speed->0,
        precipitation_mm,
        wind_gust_ms: s.wind_speed_of_gust,
        wind_from_deg: s.wind_from_direction,
        probability_of_precip: probability,
        relative_humidity: s.relative_humidity,
        cloud_area_fraction: s.cloud_area_fraction,
        uv_index_clear_sky: s.ultraviolet_index_clear_sky,
        resolution,
    }
}

/// The hour of an entry with a per-hour block.
pub open spec fn hourly_of(s: SeriesEntry) -> HourlyConditions {
    entry_hour(
        s,
        s.time,
        or_zero(s.next_1_hours->0.precipitation_amount),
        s.next_1_hours->0.probability_of_precipitation,
        Resolution::Hourly,
    )
}

/// An hour of an entry with a 6-hour block only.
pub open spec fn six_hourly_of(s: SeriesEntry, time: int) -> HourlyConditions {
    entry_hour(
        s,
        time as i128,
        or_zero(s.next_6_hours->0.hourly_share),
        s.next_6_hours->0.probability_of_precipitation,
        Resolution::SixHourly,
    )
}

/// The six hours that start with `time`.
pub open spec fn in_six_hours(time: int, t: int) -> bool {
    0 <= t - time < 6 * HOUR && (t - time) % (HOUR as int) == 0
}

/// The hours known after an entry, by their start. An entry without
/// temperature or wind adds nothing; a per-hour block sets its hour; a 6-hour
/// block fills those of its hours that are not known yet.
pub open spec fn with_entry(known: Map<int, HourlyConditions>, s: SeriesEntry) -> Map<
    int,
    HourlyConditions,
> {
    if s.air_temperature is None || s.wind_speed is None {
        known
    } else if s.next_1_hours is Some {
        known.insert(s.time as int, hourly_of(s))
    } else if s.next_6_hours is Some {
        Map::new(|t: int| in_six_hours(s.time as int, t), |t: int| six_hourly_of(s, t))
            .union_prefer_right(known)
    } else {
        known
    }
}

/// The hours that a series yields, by their start.
pub open spec fn hours_by_start(series: Seq<SeriesEntry>) -> Map<int, HourlyConditions>
    decreases series.len(),
{
    if series.len() == 0 {
        Map::empty()
    } else {
        with_entry(hours_by_start(series.drop_last()), series.last())
    }
}

/// Each hour starts after the one before.
pub open spec fn strictly_chronological(hours: Seq<HourlyConditions>) -> bool {
    forall|i: int, j: int|
        0 <= i < j < hours.len() ==> (#[trigger] hours[i]).time < (#[trigger] hours[j]).time
}

/// `hours` holds the hours of `known`, each once, in chronological order.
pub open spec fn lists(hours: Seq<HourlyConditions>, known: Map<int, HourlyConditions>) -> bool {
    &&& strictly_chronological(hours)
    &&& forall|i: int|
        0 <= i < hours.len() ==> known.contains_key((#[trigger] hours[i]).time as int)
            && known[hours[i].time as int] == hours[i]
    &&& forall|t: int| #[trigger]
        known.contains_key(t) ==> exists|i: int| 0 <= i < hours.len() && (#[trigger] hours[i]).time == t
}

fn slot_for(hours: &Vec<HourlyConditions>, t: i128) -> (at: usize)
    requires
        strictly_chronological(hours@),
    ensures
        at <= hours.len(),
        forall|i: int| 0 <= i < at ==> (#[trigger] hours@[i]).time < t,
        forall|i: int| at <= i < hours.len() ==> (#[trigger] hours@[i]).time >= t,
        forall|i: int| at < i < hours.len() ==> (#[trigger] hours@[i]).time > t,
{
    let mut at: usize = 0;
    while at < hours.len() && hours[at].time < t
        invariant
            at <= hours.len(),
            forall|i: int| 0 <= i < at ==> (#[trigger] hours@[i]).time < t,
        decreases hours.len() - at,
    {
        at = at + 1;
    }
    proof {
        assert forall|i: int| at < i < hours.len() implies (#[trigger] hours@[i]).time > t by {
            assert(hours@[at as int].time < hours@[i].time);
        }
    }
    at
}

fn put(hours: &mut Vec<HourlyConditions>, hour: HourlyConditions, Ghost(known): Ghost<
    Map<int, HourlyConditions>,
>)
    requires
        lists(old(hours)@, known),
    ensures
        lists(final(hours)@, known.insert(hour.time as int, hour)),
{
    let ghost before = hours@;
    let at: usize = slot_for(hours, hour.time);
    let ghost after = known.insert(hour.time as int, hour);
    if at < hours.len() && hours[at].time == hour.time {
        hours.set(at, hour);
        proof {
            assert forall|t: int| #[trigger] after.contains_key(t) implies exists|i: int|
                0 <= i < hours@.len() && (#[trigger] hours@[i]).time == t by {
                if t == hour.time {
                    assert(hours@[at as int].time == t);
                } else {
                    assert(known.contains_key(t));
                    let i = choose|i: int| 0 <= i < before.len() && (#[trigger] before[i]).time == t;
                    assert(hours@[i].time == t);
                }
            }
        }
    } else {
        hours.insert(at, hour);
        proof {
            assert forall|i: int, j: int| 0 <= i < j < hours@.len() implies (
            #[trigger] hours@[i]).time < (#[trigger] hours@[j]).time by {
                if i < at && j < at {
                    assert(hours@[i] == before[i] && hours@[j] == before[j]);
                } else if i < at && j == at {
                    assert(hours@[i] == before[i]);
                } else if i < at && j > at {
                    assert(hours@[i] == before[i] && hours@[j] == before[j - 1]);
                } else if i == at {
                    assert(hours@[j] == before[j - 1]);
                } else {
                    assert(hours@[i] == before[i - 1] && hours@[j] == before[j - 1]);
                }
            }
            assert forall|i: int| 0 <= i < hours@.len() implies after.contains_key(
                (#[trigger] hours@[i]).time as int,
            ) && after[hours@[i].time as int] == hours@[i] by {
                if i < at {
                    assert(hours@[i] == before[i]);
                } else if i > at {
                    assert(hours@[i] == before[i - 1]);
                }
            }
            assert forall|t: int| #[trigger] after.contains_key(t) implies exists|i: int|
                0 <= i < hours@.len() && (#[trigger] hours@[i]).time == t by {
                if t == hour.time {
                    assert(hours@[at as int].time == t);
                } else {
                    assert(known.contains_key(t));
                    let i = choose|i: int| 0 <= i < before.len() && (#[trigger] before[i]).time == t;
                    if i < at {
                        assert(hours@[i] == before[i]);
                    } else {
                        assert(hours@[i + 1] == before[i]);
                    }
                }
            }
        }
    }
}

fn is_known(hours: &Vec<HourlyConditions>, t: i128, Ghost(known): Ghost<
    Map<int, HourlyConditions>,
>) -> (b: bool)
    requires
        lists(hours@, known),
    ensures
        b == known.contains_key(t as int),
{
    let at: usize = slot_for(hours, t);
    at < hours.len() && hours[at].time == t
}

fn amount_or_zero(value: Option<Reading>) -> (v: Reading)
    ensures
        v == or_zero(value),
{
    match value {
        Some(v) => v,
        None => ZERO,
    }
}

fn hour_of_entry(
    s: &SeriesEntry,
    time: i128,
    precipitation_mm: Reading,
    probability: Option<Reading>,
    resolution: Resolution,
) -> (hour: HourlyConditions)
    requires
        s.air_temperature is Some,
        s.wind_speed is Some,
    ensures
        hour == entry_hour(*s, time, precipitation_mm, probability, resolution),
{
    HourlyConditions {
        time,
        temperature_c: s.air_temperature.unwrap(),
        wind_speed_ms: s.wind_speed.unwrap(),
        precipitation_mm,
        wind_gust_ms: s.wind_speed_of_gust,
        wind_from_deg: s.wind_from_direction,
        probability_of_precip: probability,
        relative_humidity: s.relative_humidity,
        cloud_area_fraction: s.cloud_area_fraction,
        uv_index_clear_sky: s.ultraviolet_index_clear_sky,
        resolution,
    }
}

/// The first `k` of the six hours, added to `known`.
spec fn with_some_hours(known: Map<int, HourlyConditions>, s: SeriesEntry, k: int) -> Map<
    int,
    HourlyConditions,
> {
    Map::new(
        |t: int| in_six_hours(s.time as int, t) && t - s.time < k * HOUR,
        |t: int| six_hourly_of(s, t),
    ).union_prefer_right(known)
}

fn put_six_hours(hours: &mut Vec<HourlyConditions>, s: &SeriesEntry, Ghost(known): Ghost<
    Map<int, HourlyConditions>,
>)
    requires
        lists(old(hours)@, known),
        is_instant(s.time as int),
        s.air_temperature is Some,
        s.wind_speed is Some,
        s.next_1_hours is None,
        s.next_6_hours is Some,
    ensures
        lists(final(hours)@, with_entry(known, *s)),
{
    let next6 = s.next_6_hours.unwrap();
    let share: Reading = amount_or_zero(next6.hourly_share);
    let mut k: i128 = 0;
    proof {
        assert(with_some_hours(known, *s, 0) =~= known);
    }
    while k < 6
        invariant
            0 <= k <= 6,
            is_instant(s.time as int),
            s.air_temperature is Some,
            s.wind_speed is Some,
            s.next_6_hours == Some(next6),
            share == or_zero(next6.hourly_share),
            lists(hours@, with_some_hours(known, *s, k as int)),
        decreases 6 - k,
    {
        let t: i128 = s.time + k * HOUR;
        let ghost so_far = with_some_hours(known, *s, k as int);
        let ghost next = with_some_hours(known, *s, k + 1);
        proof {
            lemma_next_hour(known, *s, k as int);
        }
        if !is_known(hours, t, Ghost(so_far)) {
            put(
                hours,
                hour_of_entry(
                    s,
                    t,
                    share,
                    next6.probability_of_precipitation,
                    Resolution::SixHourly,
                ),
                Ghost(so_far),
            );
        }
        k = k + 1;
    }
    proof {
        assert(with_some_hours(known, *s, 6) =~= with_entry(known, *s));
    }
}

proof fn lemma_next_hour(known: Map<int, HourlyConditions>, s: SeriesEntry, k: int)
    requires
        0 <= k < 6,
    ensures
        ({
            let t = s.time + k * HOUR;
            let so_far = with_some_hours(known, s, k);
            with_some_hours(known, s, k + 1) == if so_far.contains_key(t) {
                so_far
            } else {
                so_far.insert(t, six_hourly_of(s, t))
            }
        }),
{
    let t = s.time + k * HOUR;
    let so_far = with_some_hours(known, s, k);
    let next = with_some_hours(known, s, k + 1);
    assert(in_six_hours(s.time as int, t)) by {
        assert((k * 3_600_000_000_000int) % 3_600_000_000_000int == 0);
    }
    assert forall|u: int|
        in_six_hours(s.time as int, u) && k * HOUR <= u - s.time < (k + 1) * HOUR implies u == t by {
        let d = u - s.time;
        assert(d % 3_600_000_000_000int == 0);
    }
    if so_far.contains_key(t) {
        assert(next =~= so_far);
    } else {
        assert(next =~= so_far.insert(t, six_hourly_of(s, t)));
    }
}

/// The hours of an upstream timeseries, in chronological order.
pub fn into_forecast(series: &Vec<SeriesEntry>) -> (hours: Vec<HourlyConditions>)
    requires
        forall|i: int| 0 <= i < series@.len() ==> is_instant((#[trigger] series@[i]).time as int),
    ensures
        lists(hours@, hours_by_start(series@)),
        forall|i: int, j: int|
            0 <= i < j < hours@.len() ==> (#[trigger] hours@[i]).time < (#[trigger] hours@[j]).time,
        forall|k: int|
            #![trigger hours@[k]]
            0 <= k < hours@.len() ==> exists|i: int|
                {
                    &&& 0 <= i < series@.len()
                    &&& (#[trigger] series@[i]).air_temperature == Some(hours@[k].temperature_c)
                    &&& series@[i].wind_speed == Some(hours@[k].wind_speed_ms)
                    &&& series@[i].wind_speed_of_gust == hours@[k].wind_gust_ms
                    &&& series@[i].wind_from_direction == hours@[k].wind_from_deg
                    &&& series@[i].relative_humidity == hours@[k].relative_humidity
                    &&& series@[i].cloud_area_fraction == hours@[k].cloud_area_fraction
                    &&& series@[i].ultraviolet_index_clear_sky == hours@[k].uv_index_clear_sky
                },
{
    let mut hours: Vec<HourlyConditions> = Vec::new();
    let mut i: usize = 0;
    proof {
        assert(series@.take(0) =~= Seq::empty());
    }
    while i < series.len()
        invariant
            i <= series.len(),
            forall|k: int|
                0 <= k < series@.len() ==> is_instant((#[trigger] series@[k]).time as int),
            lists(hours@, hours_by_start(series@.take(i as int))),
        decreases series.len() - i,
    {
        let s = series[i];
        let ghost known = hours_by_start(series@.take(i as int));
        proof {
            let next = series@.take(i + 1);
            assert(next.drop_last() =~= series@.take(i as int));
            assert(next.last() == series@[i as int]);
        }
        if s.air_temperature.is_some() && s.wind_speed.is_some() {
            match s.next_1_hours {
                Some(next1) => {
                    let hour = hour_of_entry(
                        &s,
                        s.time,
                        amount_or_zero(next1.precipitation_amount),
                        next1.probability_of_precipitation,
                        Resolution::Hourly,
                    );
                    put(&mut hours, hour, Ghost(known));
                },
                None => {
                    if s.next_6_hours.is_some() {
                        put_six_hours(&mut hours, &s, Ghost(known));
                    }
                },
            }
        }
        i = i + 1;
    }
    proof {
        assert(series@.take(series.len() as int) =~= series@);
        assert forall|k: int| #![trigger hours@[k]] 0 <= k < hours@.len() implies exists|i: int|
            {
                &&& 0 <= i < series@.len()
                &&& (#[trigger] series@[i]).air_temperature == Some(hours@[k].temperature_c)
                &&& series@[i].wind_speed == Some(hours@[k].wind_speed_ms)
                &&& series@[i].wind_speed_of_gust == hours@[k].wind_gust_ms
                &&& series@[i].wind_from_direction == hours@[k].wind_from_deg
                &&& series@[i].relative_humidity == hours@[k].relative_humidity
                &&& series@[i].cloud_area_fraction == hours@[k].cloud_area_fraction
                &&& series@[i].ultraviolet_index_clear_sky == hours@[k].uv_index_clear_sky
            } by {
            an_hour_holds_the_values_of_its_entry(hours@, series@, k);
        }
    }
    hours
}

} // verus!
