//! What holds of every set of observations.
use vstd::prelude::*;

use crate::chronology::{comes_before, is_time_order, lists_position};
use crate::frost::{
    are_observations_of, entry_times, is_chronological_listing, is_hourly_precip, is_percentage,
    last_valid, listed_precip, not_negative, observation_of, precip_of, precip_times,
    HourlyObservation, HourlyPrecip, ObsEntry, ObsValue, FULL_PCT,
};
use crate::reading::Reading;

verus! {

/// An observation keeps to the domain of each of its quantities.
pub open spec fn in_domain(o: HourlyObservation) -> bool {
    &&& o.precip_mm matches Some(v) ==> not_negative(v)
    &&& o.wind_ms matches Some(v) ==> not_negative(v)
    &&& o.humidity_pct matches Some(v) ==> is_percentage(v)
    &&& o.cloud_pct matches Some(v) ==> is_percentage(v)
}

proof fn lemma_last_valid(
    observations: Seq<ObsValue>,
    element: Seq<char>,
    valid: spec_fn(Reading) -> bool,
)
    ensures
        last_valid(observations, element, valid) matches Some(v) ==> valid(v),
    decreases observations.len(),
{
    if observations.len() > 0 {
        lemma_last_valid(observations.drop_last(), element, valid);
    }
}

/// No reading outside its domain reaches the drying model.
pub proof fn observations_keep_to_their_domain(out: Seq<HourlyObservation>, entries: Seq<ObsEntry>, k: int)
    requires
        are_observations_of(out, entries),
        0 <= k < out.len(),
    ensures
        in_domain(out[k]),
{
    let order = choose|order: Seq<usize>| #[trigger]
        is_time_order(entry_times(entries), order, entries.len() as int) && out.len() == order.len()
            && forall|k: int|
            0 <= k < out.len() ==> #[trigger] out[k] == observation_of(
                entries[order[k] as int].reference_time,
                entries[order[k] as int].observations@,
            );
    let obs = entries[order[k] as int].observations@;
    assert(out[k] == observation_of(entries[order[k] as int].reference_time, obs));
    lemma_last_valid(
        obs,
        crate::frost::ELEMENT_HOURLY_PRECIP@,
        |v: Reading| not_negative(v),
    );
    lemma_last_valid(obs, crate::frost::ELEMENT_HOURLY_WIND@, |v: Reading| not_negative(v));
    lemma_last_valid(obs, crate::frost::ELEMENT_HOURLY_HUMIDITY@, |v: Reading| is_percentage(v));
    lemma_last_valid(obs, crate::frost::ELEMENT_HOURLY_CLOUD@, |v: Reading| is_percentage(v));
}

/// Observations come out in chronological order.
pub proof fn observations_are_chronological(
    out: Seq<HourlyObservation>,
    entries: Seq<ObsEntry>,
    k: int,
    l: int,
)
    requires
        are_observations_of(out, entries),
        0 <= k <= l < out.len(),
    ensures
        out[k].time <= out[l].time,
{
    let order = choose|order: Seq<usize>| #[trigger]
        is_time_order(entry_times(entries), order, entries.len() as int) && out.len() == order.len()
            && forall|k: int|
            0 <= k < out.len() ==> #[trigger] out[k] == observation_of(
                entries[order[k] as int].reference_time,
                entries[order[k] as int].observations@,
            );
    assert(order[k] < entries.len() && order[l] < entries.len());
    if k < l {
        assert(comes_before(entry_times(entries), order[k] as int, order[l] as int));
    }
    assert(out[k].time == entries[order[k] as int].reference_time);
    assert(out[l].time == entries[order[l] as int].reference_time);
}

/// Precipitation values come out in chronological order and are never
/// negative.
pub proof fn precipitation_is_chronological_and_not_negative(
    out: Seq<HourlyPrecip>,
    entries: Seq<ObsEntry>,
    k: int,
    l: int,
)
    requires
        is_chronological_listing(out, listed_precip(entries)),
        0 <= k <= l < out.len(),
    ensures
        out[k].time <= out[l].time,
        not_negative(out[k].mm),
{
    let listed = listed_precip(entries);
    let order = choose|order: Seq<usize>| #[trigger]
        is_time_order(precip_times(listed), order, listed.len() as int) && out.len() == order.len()
            && forall|k: int| 0 <= k < out.len() ==> #[trigger] out[k] == listed[order[k] as int];
    assert(order[k] < listed.len() && order[l] < listed.len());
    if k < l {
        assert(comes_before(precip_times(listed), order[k] as int, order[l] as int));
    }
    assert(out[k] == listed[order[k] as int] && out[l] == listed[order[l] as int]);
    lemma_listed_not_negative(entries);
}

proof fn lemma_listed_not_negative(entries: Seq<ObsEntry>)
    ensures
        forall|i: int|
            0 <= i < listed_precip(entries).len() ==> not_negative(
                (#[trigger] listed_precip(entries)[i]).mm,
            ),
    decreases entries.len(),
{
    if entries.len() > 0 {
        lemma_listed_not_negative(entries.drop_last());
        lemma_precip_not_negative(entries.last().reference_time, entries.last().observations@);
        let before = listed_precip(entries.drop_last());
        let more = precip_of(entries.last().reference_time, entries.last().observations@);
        assert forall|i: int| 0 <= i < listed_precip(entries).len() implies not_negative(
            (#[trigger] listed_precip(entries)[i]).mm,
        ) by {
            if i < before.len() {
                assert(listed_precip(entries)[i] == before[i]);
            } else {
                assert(listed_precip(entries)[i] == more[i - before.len()]);
            }
        }
    }
}

proof fn lemma_precip_not_negative(time: i128, observations: Seq<ObsValue>)
    ensures
        forall|i: int|
            0 <= i < precip_of(time, observations).len() ==> not_negative(
                (#[trigger] precip_of(time, observations)[i]).mm,
            ),
    decreases observations.len(),
{
    if observations.len() > 0 {
        lemma_precip_not_negative(time, observations.drop_last());
        let before = precip_of(time, observations.drop_last());
        assert forall|i: int| 0 <= i < precip_of(time, observations).len() implies not_negative(
            (#[trigger] precip_of(time, observations)[i]).mm,
        ) by {
            if i < before.len() {
                assert(precip_of(time, observations)[i] == before[i]);
            }
        }
    }
}

proof fn lemma_last_is_taken(
    observations: Seq<ObsValue>,
    element: Seq<char>,
    valid: spec_fn(Reading) -> bool,
    i: int,
)
    requires
        0 <= i < observations.len(),
        observations[i].element_id@ == element,
        observations[i].value is Some,
        valid(observations[i].value->0),
        forall|j: int| i < j < observations.len() ==> (#[trigger] observations[j]).element_id@ != element,
    ensures
        last_valid(observations, element, valid) == observations[i].value,
    decreases observations.len(),
{
    if i < observations.len() - 1 {
        let rest = observations.drop_last();
        assert(observations.last() == observations[observations.len() - 1]);
        assert(rest[i] == observations[i]);
        assert forall|j: int| i < j < rest.len() implies (#[trigger] rest[j]).element_id@ != element by {
            assert(rest[j] == observations[j]);
        }
        lemma_last_is_taken(rest, element, valid, i);
    }
}

proof fn lemma_taken_is_there(
    observations: Seq<ObsValue>,
    element: Seq<char>,
    valid: spec_fn(Reading) -> bool,
)
    requires
        last_valid(observations, element, valid) is Some,
    ensures
        exists|i: int|
            0 <= i < observations.len() && (#[trigger] observations[i]).element_id@ == element
                && observations[i].value == last_valid(observations, element, valid),
    decreases observations.len(),
{
    let o = observations.last();
    let rest = observations.drop_last();
    if o.element_id@ == element && o.value is Some && valid(o.value->0) {
        assert(observations[observations.len() - 1] == o);
    } else {
        lemma_taken_is_there(rest, element, valid);
        let i = choose|i: int|
            0 <= i < rest.len() && (#[trigger] rest[i]).element_id@ == element && rest[i].value
                == last_valid(rest, element, valid);
        assert(observations[i] == rest[i]);
    }
}

/// What a station measured lands in the field of its quantity, at its time: an
/// hour of rain, temperature, wind, humidity or cloud cover, unless rain or wind
/// is negative or a percentage is none. Of several values the last counts.
pub proof fn a_measurement_lands_in_its_field(
    out: Seq<HourlyObservation>,
    entries: Seq<ObsEntry>,
    e: int,
    i: int,
)
    requires
        are_observations_of(out, entries),
        0 <= e < entries.len(),
        0 <= i < entries[e].observations@.len(),
        entries[e].observations@[i].value is Some,
        forall|j: int|
            i < j < entries[e].observations@.len() ==> (
            #[trigger] entries[e].observations@[j]).element_id@
                != entries[e].observations@[i].element_id@,
    ensures
        exists|k: int|
            {
                let id = entries[e].observations@[i].element_id@;
                let value = entries[e].observations@[i].value;
                &&& 0 <= k < out.len()
                &&& (#[trigger] out[k]).time == entries[e].reference_time
                &&& id == "sum(precipitation_amount PT1H)"@ && value->0 >= 0 ==> out[k].precip_mm
                    == value
                &&& id == "mean(air_temperature PT1H)"@ ==> out[k].temp_c == value
                &&& id == "mean(wind_speed PT1H)"@ && value->0 >= 0 ==> out[k].wind_ms == value
                &&& id == "mean(relative_humidity PT1H)"@ && 0 <= value->0 <= FULL_PCT
                    ==> out[k].humidity_pct == value
                &&& id == "mean(cloud_area_fraction PT1H)"@ && 0 <= value->0 <= FULL_PCT
                    ==> out[k].cloud_pct == value
            },
{
    let order = choose|order: Seq<usize>| #[trigger]
        is_time_order(entry_times(entries), order, entries.len() as int) && out.len() == order.len()
            && forall|k: int|
            0 <= k < out.len() ==> #[trigger] out[k] == observation_of(
                entries[order[k] as int].reference_time,
                entries[order[k] as int].observations@,
            );
    assert(lists_position(order, e));
    let k = choose|k: int| 0 <= k < order.len() && #[trigger] order[k] == e;
    let obs = entries[e].observations@;
    let id = obs[i].element_id@;
    let v = obs[i].value->0;
    assert(out[k] == observation_of(entries[e].reference_time, obs));
    let positive = |v: Reading| not_negative(v);
    let percent = |v: Reading| is_percentage(v);
    if positive(v) {
        lemma_last_is_taken(obs, id, positive, i);
    }
    if percent(v) {
        lemma_last_is_taken(obs, id, percent, i);
    }
    lemma_last_is_taken(obs, id, |v: Reading| true, i);
}

/// Every value of an observation was measured, as that quantity and at that
/// time.
pub proof fn every_observed_value_was_measured(
    out: Seq<HourlyObservation>,
    entries: Seq<ObsEntry>,
    k: int,
)
    requires
        are_observations_of(out, entries),
        0 <= k < out.len(),
    ensures
        exists|e: int|
            {
                &&& 0 <= e < entries.len()
                &&& (#[trigger] entries[e]).reference_time == out[k].time
                &&& out[k].precip_mm is Some ==> measured_as(
                    entries[e],
                    "sum(precipitation_amount PT1H)"@,
                    out[k].precip_mm,
                )
                &&& out[k].temp_c is Some ==> measured_as(
                    entries[e],
                    "mean(air_temperature PT1H)"@,
                    out[k].temp_c,
                )
                &&& out[k].wind_ms is Some ==> measured_as(
                    entries[e],
                    "mean(wind_speed PT1H)"@,
                    out[k].wind_ms,
                )
                &&& out[k].humidity_pct is Some ==> measured_as(
                    entries[e],
                    "mean(relative_humidity PT1H)"@,
                    out[k].humidity_pct,
                )
                &&& out[k].cloud_pct is Some ==> measured_as(
                    entries[e],
                    "mean(cloud_area_fraction PT1H)"@,
                    out[k].cloud_pct,
                )
            },
{
    let order = choose|order: Seq<usize>| #[trigger]
        is_time_order(entry_times(entries), order, entries.len() as int) && out.len() == order.len()
            && forall|k: int|
            0 <= k < out.len() ==> #[trigger] out[k] == observation_of(
                entries[order[k] as int].reference_time,
                entries[order[k] as int].observations@,
            );
    let e = order[k] as int;
    let obs = entries[e].observations@;
    let positive = |v: Reading| not_negative(v);
    let percent = |v: Reading| is_percentage(v);
    let any = |v: Reading| true;
    assert(out[k] == observation_of(entries[e].reference_time, obs));
    if out[k].precip_mm is Some {
        lemma_taken_is_there(obs, "sum(precipitation_amount PT1H)"@, positive);
    }
    if out[k].temp_c is Some {
        lemma_taken_is_there(obs, "mean(air_temperature PT1H)"@, any);
    }
    if out[k].wind_ms is Some {
        lemma_taken_is_there(obs, "mean(wind_speed PT1H)"@, positive);
    }
    if out[k].humidity_pct is Some {
        lemma_taken_is_there(obs, "mean(relative_humidity PT1H)"@, percent);
    }
    if out[k].cloud_pct is Some {
        lemma_taken_is_there(obs, "mean(cloud_area_fraction PT1H)"@, percent);
    }
}

/// The entry holds the value under the name of the quantity.
pub open spec fn measured_as(entry: ObsEntry, name: Seq<char>, value: Option<Reading>) -> bool {
    exists|i: int|
        0 <= i < entry.observations@.len() && (#[trigger] entry.observations@[i]).element_id@ == name
            && entry.observations@[i].value == value
}

/// Every hour of precipitation that is not negative is listed with its time and
/// amount.
pub proof fn every_hour_of_rain_is_listed(
    out: Seq<HourlyPrecip>,
    entries: Seq<ObsEntry>,
    e: int,
    i: int,
)
    requires
        is_chronological_listing(out, listed_precip(entries)),
        0 <= e < entries.len(),
        0 <= i < entries[e].observations@.len(),
        entries[e].observations@[i].element_id@ == "sum(precipitation_amount PT1H)"@,
        entries[e].observations@[i].value is Some,
        entries[e].observations@[i].value->0 >= 0,
    ensures
        exists|k: int|
            0 <= k < out.len() && (#[trigger] out[k]).time == entries[e].reference_time
                && out[k].mm == entries[e].observations@[i].value->0,
{
    let listed = listed_precip(entries);
    let l = lemma_listed(entries, e, i);
    let order = choose|order: Seq<usize>| #[trigger]
        is_time_order(precip_times(listed), order, listed.len() as int) && out.len() == order.len()
            && forall|k: int| 0 <= k < out.len() ==> #[trigger] out[k] == listed[order[k] as int];
    assert(lists_position(order, l));
    let k = choose|k: int| 0 <= k < order.len() && #[trigger] order[k] == l;
    assert(out[k] == listed[l]);
}

proof fn lemma_listed(entries: Seq<ObsEntry>, e: int, i: int) -> (l: int)
    requires
        0 <= e < entries.len(),
        0 <= i < entries[e].observations@.len(),
        is_hourly_precip(entries[e].observations@[i]),
    ensures
        0 <= l < listed_precip(entries).len(),
        listed_precip(entries)[l].time == entries[e].reference_time,
        listed_precip(entries)[l].mm == entries[e].observations@[i].value->0,
    decreases entries.len(),
{
    let before = listed_precip(entries.drop_last());
    if e == entries.len() - 1 {
        let m = lemma_listed_in(entries[e].reference_time, entries[e].observations@, i);
        before.len() + m
    } else {
        assert(entries.drop_last()[e] == entries[e]);
        lemma_listed(entries.drop_last(), e, i)
    }
}

proof fn lemma_listed_in(time: i128, observations: Seq<ObsValue>, i: int) -> (m: int)
    requires
        0 <= i < observations.len(),
        is_hourly_precip(observations[i]),
    ensures
        0 <= m < precip_of(time, observations).len(),
        precip_of(time, observations)[m].time == time,
        precip_of(time, observations)[m].mm == observations[i].value->0,
    decreases observations.len(),
{
    let before = precip_of(time, observations.drop_last());
    if i == observations.len() - 1 {
        before.len() as int
    } else {
        assert(observations.drop_last()[i] == observations[i]);
        lemma_listed_in(time, observations.drop_last(), i)
    }
}

} // verus!
