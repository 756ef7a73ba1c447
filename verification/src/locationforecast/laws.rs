//! What holds of every expanded forecast.
use vstd::prelude::*;

use crate::conditions::{HourlyConditions, Resolution};
use crate::locationforecast::{
    hourly_of, hours_by_start, in_six_hours, lists, six_hourly_of, SeriesEntry,
};
use crate::reading::ZERO;
use crate::time::HOUR;

verus! {

/// The entry carries temperature and wind.
pub open spec fn is_usable(s: SeriesEntry) -> bool {
    s.air_temperature is Some && s.wind_speed is Some
}

/// An hour with a per-hour block is never served from a 6-hour bucket,
/// wherever in the series the two stand.
pub proof fn per_hour_blocks_win(series: Seq<SeriesEntry>, i: int)
    requires
        0 <= i < series.len(),
        is_usable(series[i]),
        series[i].next_1_hours is Some,
    ensures
        hours_by_start(series).contains_key(series[i].time as int),
        hours_by_start(series)[series[i].time as int].resolution == Resolution::Hourly,
    decreases series.len(),
{
    let earlier = series.drop_last();
    if i < earlier.len() {
        per_hour_blocks_win(earlier, i);
    }
}

/// Each of the six hours of a usable 6-hour block is in the forecast.
pub proof fn six_hour_blocks_are_spread_out(series: Seq<SeriesEntry>, i: int, t: int)
    requires
        0 <= i < series.len(),
        is_usable(series[i]),
        series[i].next_1_hours is None,
        series[i].next_6_hours is Some,
        in_six_hours(series[i].time as int, t),
    ensures
        hours_by_start(series).contains_key(t),
    decreases series.len(),
{
    let earlier = series.drop_last();
    if i < earlier.len() {
        six_hour_blocks_are_spread_out(earlier, i, t);
    }
}

/// Every hour of the forecast comes from some usable entry of the series: its
/// per-hour block, or one of the six hours of its 6-hour block.
pub proof fn every_hour_has_a_source(series: Seq<SeriesEntry>, t: int)
    requires
        hours_by_start(series).contains_key(t),
    ensures
        exists|i: int|
            0 <= i < series.len() && is_usable(#[trigger] series[i]) && ((series[i].next_1_hours is Some
                && series[i].time == t && hours_by_start(series)[t] == hourly_of(series[i])) || (
            series[i].next_1_hours is None && series[i].next_6_hours is Some && in_six_hours(
                series[i].time as int,
                t,
            ) && hours_by_start(series)[t] == six_hourly_of(series[i], t))),
    decreases series.len(),
{
    let earlier = series.drop_last();
    let known = hours_by_start(earlier);
    let s = series.last();
    assert(series[series.len() - 1] == s);
    let from_last = is_usable(s) && ((s.next_1_hours is Some && s.time == t) || (s.next_1_hours is None
        && s.next_6_hours is Some && in_six_hours(s.time as int, t) && !known.contains_key(t)));
    if !from_last {
        assert(known.contains_key(t));
        every_hour_has_a_source(earlier, t);
        let i = choose|i: int|
            0 <= i < earlier.len() && is_usable(#[trigger] earlier[i]) && ((
            earlier[i].next_1_hours is Some && earlier[i].time == t && known[t] == hourly_of(
                earlier[i],
            )) || (earlier[i].next_1_hours is None && earlier[i].next_6_hours is Some
                && in_six_hours(earlier[i].time as int, t) && known[t] == six_hourly_of(
                earlier[i],
                t,
            )));
        assert(series[i] == earlier[i]);
    }
}

/// A series has one forecast: two listings of the same hours are the same.
pub proof fn a_forecast_is_determined_by_its_hours(
    a: Seq<HourlyConditions>,
    b: Seq<HourlyConditions>,
    known: Map<int, HourlyConditions>,
)
    requires
        lists(a, known),
        lists(b, known),
    ensures
        a == b,
    decreases a.len(),
{
    if a.len() == 0 {
        if b.len() > 0 {
            assert(known.contains_key(b[0].time as int));
        }
        assert(a =~= b);
    } else {
        let last = a.last();
        let t = last.time as int;
        assert(known.contains_key(t));
        let j = choose|j: int| 0 <= j < b.len() && (#[trigger] b[j]).time == t;
        if j < b.len() - 1 {
            let u = b[b.len() - 1].time as int;
            assert(b[j].time < b[b.len() - 1].time);
            assert(known.contains_key(u));
            let k = choose|k: int| 0 <= k < a.len() && (#[trigger] a[k]).time == u;
            if k < a.len() - 1 {
                assert(a[k].time < a[a.len() - 1].time);
            }
        }
        assert(b.last() == last);
        let rest = known.remove(t);
        lemma_drop_last(a, known);
        lemma_drop_last(b, known);
        a_forecast_is_determined_by_its_hours(a.drop_last(), b.drop_last(), rest);
        assert(a =~= a.drop_last().push(last));
        assert(b =~= b.drop_last().push(last));
    }
}

proof fn lemma_drop_last(a: Seq<HourlyConditions>, known: Map<int, HourlyConditions>)
    requires
        lists(a, known),
        a.len() > 0,
    ensures
        lists(a.drop_last(), known.remove(a.last().time as int)),
{
    let rest = known.remove(a.last().time as int);
    let short = a.drop_last();
    assert forall|i: int| 0 <= i < short.len() implies rest.contains_key(
        (#[trigger] short[i]).time as int,
    ) && rest[short[i].time as int] == short[i] by {
        assert(short[i] == a[i]);
        assert(a[i].time < a[a.len() - 1].time);
    }
    assert forall|t: int| #[trigger] rest.contains_key(t) implies exists|i: int|
        0 <= i < short.len() && (#[trigger] short[i]).time == t by {
        assert(known.contains_key(t));
        let i = choose|i: int| 0 <= i < a.len() && (#[trigger] a[i]).time == t;
        assert(short[i] == a[i]);
    }
    assert forall|i: int, j: int| 0 <= i < j < short.len() implies (#[trigger] short[i]).time < (
    #[trigger] short[j]).time by {
        assert(a[i].time < a[j].time);
    }
}

// ---- What an hour holds ----

/// Every hour of a forecast holds the values of one usable entry of the series:
/// its temperature, wind, gust, wind direction, humidity, cloud cover and UV
/// index, each under its own name, and the rain of the entry's per-hour block,
/// or a sixth of that of its 6-hour block where it has no other.
pub proof fn an_hour_holds_the_values_of_its_entry(
    hours: Seq<HourlyConditions>,
    series: Seq<SeriesEntry>,
    k: int,
)
    requires
        lists(hours, hours_by_start(series)),
        0 <= k < hours.len(),
    ensures
        exists|i: int|
            {
                &&& 0 <= i < series.len()
                &&& (#[trigger] series[i]).air_temperature == Some(hours[k].temperature_c)
                &&& series[i].wind_speed == Some(hours[k].wind_speed_ms)
                &&& series[i].wind_speed_of_gust == hours[k].wind_gust_ms
                &&& series[i].wind_from_direction == hours[k].wind_from_deg
                &&& series[i].relative_humidity == hours[k].relative_humidity
                &&& series[i].cloud_area_fraction == hours[k].cloud_area_fraction
                &&& series[i].ultraviolet_index_clear_sky == hours[k].uv_index_clear_sky
                &&& series[i].next_1_hours is Some ==> {
                    &&& hours[k].time == series[i].time
                    &&& hours[k].resolution == Resolution::Hourly
                    &&& hours[k].precipitation_mm
                        == series[i].next_1_hours->0.precipitation_amount.unwrap_or(ZERO)
                    &&& hours[k].probability_of_precip
                        == series[i].next_1_hours->0.probability_of_precipitation
                }
                &&& series[i].next_1_hours is None ==> {
                    &&& series[i].next_6_hours is Some
                    &&& series[i].time <= hours[k].time < series[i].time + 6 * HOUR
                    &&& hours[k].resolution == Resolution::SixHourly
                    &&& hours[k].precipitation_mm
                        == series[i].next_6_hours->0.hourly_share.unwrap_or(ZERO)
                    &&& hours[k].probability_of_precip
                        == series[i].next_6_hours->0.probability_of_precipitation
                }
            },
{
    let t = hours[k].time as int;
    every_hour_has_a_source(series, t);
    let i = choose|i: int|
        0 <= i < series.len() && is_usable(#[trigger] series[i]) && ((series[i].next_1_hours is Some
            && series[i].time == t && hours_by_start(series)[t] == hourly_of(series[i])) || (
        series[i].next_1_hours is None && series[i].next_6_hours is Some && in_six_hours(
            series[i].time as int,
            t,
        ) && hours_by_start(series)[t] == six_hourly_of(series[i], t)));
    assert(hours[k] == hours_by_start(series)[t]);
}

/// The last usable per-hour block for an hour is what the forecast says of it.
pub proof fn the_last_per_hour_block_counts(
    hours: Seq<HourlyConditions>,
    series: Seq<SeriesEntry>,
    i: int,
)
    requires
        lists(hours, hours_by_start(series)),
        0 <= i < series.len(),
        series[i].air_temperature is Some,
        series[i].wind_speed is Some,
        series[i].next_1_hours is Some,
        forall|j: int|
            i < j < series.len() ==> (#[trigger] series[j]).air_temperature is None
                || series[j].wind_speed is None || series[j].next_1_hours is None || series[j].time
                != series[i].time,
    ensures
        exists|k: int|
            {
                &&& 0 <= k < hours.len()
                &&& (#[trigger] hours[k]).time == series[i].time
                &&& Some(hours[k].temperature_c) == series[i].air_temperature
                &&& Some(hours[k].wind_speed_ms) == series[i].wind_speed
                &&& hours[k].wind_gust_ms == series[i].wind_speed_of_gust
                &&& hours[k].wind_from_deg == series[i].wind_from_direction
                &&& hours[k].relative_humidity == series[i].relative_humidity
                &&& hours[k].cloud_area_fraction == series[i].cloud_area_fraction
                &&& hours[k].uv_index_clear_sky == series[i].ultraviolet_index_clear_sky
                &&& hours[k].precipitation_mm
                    == series[i].next_1_hours->0.precipitation_amount.unwrap_or(ZERO)
                &&& hours[k].probability_of_precip
                    == series[i].next_1_hours->0.probability_of_precipitation
                &&& hours[k].resolution == Resolution::Hourly
            },
{
    let t = series[i].time as int;
    lemma_last_block(series, i);
    let k = choose|k: int| 0 <= k < hours.len() && (#[trigger] hours[k]).time == t;
    assert(hours[k] == hourly_of(series[i]));
}

proof fn lemma_last_block(series: Seq<SeriesEntry>, i: int)
    requires
        0 <= i < series.len(),
        is_usable(series[i]),
        series[i].next_1_hours is Some,
        forall|j: int|
            i < j < series.len() ==> !is_usable(#[trigger] series[j])
                || series[j].next_1_hours is None || series[j].time != series[i].time,
    ensures
        hours_by_start(series).contains_key(series[i].time as int),
        hours_by_start(series)[series[i].time as int] == hourly_of(series[i]),
    decreases series.len(),
{
    let earlier = series.drop_last();
    if i < earlier.len() {
        assert(earlier[i] == series[i]);
        assert forall|j: int| i < j < earlier.len() implies !is_usable(#[trigger] earlier[j])
            || earlier[j].next_1_hours is None || earlier[j].time != earlier[i].time by {
            assert(earlier[j] == series[j]);
        }
        lemma_last_block(earlier, i);
        assert(series[series.len() - 1] == series.last());
    }
}

/// Each of the six hours of a usable 6-hour block is in the forecast, and where
/// no per-hour block and no earlier 6-hour block speaks of the hour, it holds
/// the values of this one: a sixth of its rain and its probability.
pub proof fn the_first_six_hour_block_counts(
    hours: Seq<HourlyConditions>,
    series: Seq<SeriesEntry>,
    i: int,
    n: int,
)
    requires
        lists(hours, hours_by_start(series)),
        0 <= i < series.len(),
        0 <= n < 6,
        series[i].air_temperature is Some,
        series[i].wind_speed is Some,
        series[i].next_1_hours is None,
        series[i].next_6_hours is Some,
        forall|j: int|
            0 <= j < series.len() ==> (#[trigger] series[j]).next_1_hours is None || series[j].time
                != series[i].time + n * HOUR,
        forall|j: int|
            0 <= j < i ==> (#[trigger] series[j]).next_6_hours is None || series[j].time
                > series[i].time + n * HOUR || series[j].time + 6 * HOUR <= series[i].time + n * HOUR,
    ensures
        exists|k: int|
            {
                &&& 0 <= k < hours.len()
                &&& (#[trigger] hours[k]).time == series[i].time + n * HOUR
                &&& Some(hours[k].temperature_c) == series[i].air_temperature
                &&& Some(hours[k].wind_speed_ms) == series[i].wind_speed
                &&& hours[k].wind_gust_ms == series[i].wind_speed_of_gust
                &&& hours[k].wind_from_deg == series[i].wind_from_direction
                &&& hours[k].relative_humidity == series[i].relative_humidity
                &&& hours[k].cloud_area_fraction == series[i].cloud_area_fraction
                &&& hours[k].uv_index_clear_sky == series[i].ultraviolet_index_clear_sky
                &&& hours[k].precipitation_mm == series[i].next_6_hours->0.hourly_share.unwrap_or(
                    ZERO,
                )
                &&& hours[k].probability_of_precip
                    == series[i].next_6_hours->0.probability_of_precipitation
                &&& hours[k].resolution == Resolution::SixHourly
            },
{
    let t = series[i].time + n * HOUR;
    assert(in_six_hours(series[i].time as int, t)) by {
        assert((n * 3_600_000_000_000int) % 3_600_000_000_000int == 0);
    }
    lemma_first_block(series, i, t);
    let k = choose|k: int| 0 <= k < hours.len() && (#[trigger] hours[k]).time == t;
    assert(hours[k] == six_hourly_of(series[i], t));
}

proof fn lemma_first_block(series: Seq<SeriesEntry>, i: int, t: int)
    requires
        0 <= i < series.len(),
        is_usable(series[i]),
        series[i].next_1_hours is None,
        series[i].next_6_hours is Some,
        in_six_hours(series[i].time as int, t),
        forall|j: int|
            0 <= j < series.len() ==> (#[trigger] series[j]).next_1_hours is None || series[j].time
                != t,
        forall|j: int|
            0 <= j < i ==> (#[trigger] series[j]).next_6_hours is None || !in_six_hours(
                series[j].time as int,
                t,
            ),
    ensures
        hours_by_start(series).contains_key(t),
        hours_by_start(series)[t] == six_hourly_of(series[i], t),
    decreases series.len(),
{
    let earlier = series.drop_last();
    assert(series[series.len() - 1] == series.last());
    assert forall|j: int| 0 <= j < earlier.len() implies (
    #[trigger] earlier[j]).next_1_hours is None || earlier[j].time != t by {
        assert(earlier[j] == series[j]);
    }
    if i < earlier.len() {
        assert(earlier[i] == series[i]);
        assert forall|j: int| 0 <= j < i implies (#[trigger] earlier[j]).next_6_hours is None
            || !in_six_hours(earlier[j].time as int, t) by {
            assert(earlier[j] == series[j]);
        }
        lemma_first_block(earlier, i, t);
    } else if hours_by_start(earlier).contains_key(t) {
        every_hour_has_a_source(earlier, t);
        let j = choose|j: int|
            0 <= j < earlier.len() && is_usable(#[trigger] earlier[j]) && ((
            earlier[j].next_1_hours is Some && earlier[j].time == t && hours_by_start(earlier)[t]
                == hourly_of(earlier[j])) || (earlier[j].next_1_hours is None
                && earlier[j].next_6_hours is Some && in_six_hours(earlier[j].time as int, t)
                && hours_by_start(earlier)[t] == six_hourly_of(earlier[j], t)));
        assert(earlier[j] == series[j]);
    }
}

/// A forecast is in chronological order, with no hour twice.
pub proof fn forecast_hours_follow_each_other(
    hours: Seq<HourlyConditions>,
    series: Seq<SeriesEntry>,
    i: int,
    j: int,
)
    requires
        lists(hours, hours_by_start(series)),
        0 <= i < j < hours.len(),
    ensures
        hours[i].time < hours[j].time,
{
}

} // verus!
