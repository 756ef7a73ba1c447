//! What holds of every replay and projection.
use vstd::prelude::*;

use crate::conditions::HourlyConditions;
use crate::drying::{
    dry_tail, filler, filler_count, gap_hours, held, hours_walked, is_wet, lemma_first_not_before,
    minutes_between, observed_hour, replay_of, replayed_state, stepped, walked, SurfaceState,
    NEUTRAL_CLOUD_PCT, NEUTRAL_HUMIDITY_PCT, NEUTRAL_TEMP_C, NEUTRAL_WIND_MS, SURFACE_WETTED_MM,
};
use crate::frost::HourlyObservation;
use crate::reading::{Reading, ZERO};
use crate::score::thresholds::GROUND_SATURATED;
use crate::time::{is_instant, HOUR, MINUTE};

verus! {

/// The hours that fill a gap lie strictly between the two observations, and
/// together with the second one they account for the time that passed to
/// within half an hour.
pub proof fn a_gap_passes_in_real_time(prev: int, time: int, i: int)
    requires
        is_instant(prev),
        is_instant(time),
        minutes_between(prev, time) > 90,
        0 <= i < gap_hours(prev, time).len(),
    ensures
        prev < gap_hours(prev, time)[i].time < time,
        minutes_between(prev, time) - 30 < 60 * (gap_hours(prev, time).len() + 1)
            <= minutes_between(prev, time) + 30,
{
    let minutes = minutes_between(prev, time);
    let count = filler_count(prev, time) as int;
    assert(60 * (count + 1) <= minutes + 30);
    assert(60 * count <= minutes - 30);
    assert((i + 1) * 60 <= 60 * count);
    assert((i + 1) * HOUR == (i + 1) * 3_600_000_000_000);
    assert(time - prev >= minutes * 60_000_000_000);
}

/// A replay walks through every observation.
pub proof fn a_replay_covers_every_observation(history: Seq<HourlyObservation>, i: int)
    requires
        0 <= i < history.len(),
    ensures
        replay_of(history).contains(observed_hour(history[i])),
        replay_of(history).len() >= history.len(),
    decreases history.len(),
{
    let earlier = history.drop_last();
    let n = replay_of(history).len() as int;
    assert(replay_of(history)[n - 1] == observed_hour(history.last()));
    if earlier.len() > 0 {
        a_replay_covers_every_observation(earlier, if i < earlier.len() {
            i
        } else {
            0
        });
    }
    if i < earlier.len() {
        let k = choose|k: int|
            0 <= k < replay_of(earlier).len() && replay_of(earlier)[k] == observed_hour(history[i]);
        assert(replay_of(history)[k] == observed_hour(history[i]));
    } else {
        assert(history[i] == history.last());
    }
}

/// The drought counter is the number of hours since the last wet one.
pub proof fn drought_counts_from_the_last_wet_hour(water: Seq<Reading>, wet: int)
    requires
        0 <= wet < water.len() <= u64::MAX,
        is_wet(water[wet]),
        forall|k: int| wet < k < water.len() ==> !is_wet(#[trigger] water[k]),
    ensures
        replayed_state(water).hours_since_meaningful_rain == water.len() - 1 - wet,
        !replayed_state(water).drought_at_lookback_cap,
{
    lemma_tail_after(water, wet);
}

proof fn lemma_tail_after(water: Seq<Reading>, wet: int)
    requires
        -1 <= wet < water.len(),
        wet >= 0 ==> is_wet(water[wet]),
        forall|k: int| wet < k < water.len() ==> !is_wet(#[trigger] water[k]),
    ensures
        dry_tail(water) == water.len() - 1 - wet,
    decreases water.len(),
{
    if wet == water.len() - 1 {
        if water.len() > 0 {
            assert(water.last() == water[wet]);
        }
    } else {
        let rest = water.drop_last();
        assert(!is_wet(water[water.len() - 1]));
        assert forall|k: int| wet < k < rest.len() implies !is_wet(#[trigger] rest[k]) by {
            assert(rest[k] == water[k]);
        }
        lemma_tail_after(rest, wet);
    }
}

/// Where no hour was wet the counter equals the length of the replay, and says
/// that it is only a lower bound.
pub proof fn drought_without_rain_is_a_lower_bound(water: Seq<Reading>)
    requires
        0 < water.len() <= u64::MAX,
        forall|k: int| 0 <= k < water.len() ==> !is_wet(#[trigger] water[k]),
    ensures
        replayed_state(water).hours_since_meaningful_rain == water.len(),
        replayed_state(water).drought_at_lookback_cap,
{
    lemma_tail_after(water, -1);
}

/// Along a chronological forecast, the snapshot for an instant is taken after
/// exactly the hours that start before it.
pub proof fn a_projection_stops_at_its_instant(
    hours: Seq<HourlyConditions>,
    snapshots: Seq<i128>,
    j: int,
    k: int,
)
    requires
        forall|a: int, b: int|
            0 <= a <= b < hours.len() ==> (#[trigger] hours[a]).time <= (#[trigger] hours[b]).time,
        forall|a: int, b: int|
            0 <= a <= b < snapshots.len() ==> #[trigger] snapshots[a] <= #[trigger] snapshots[b],
        0 <= j < snapshots.len(),
        0 <= k < hours.len(),
    ensures
        hours[k].time < snapshots[j] <==> k < hours_walked(hours, snapshots, j),
{
    lemma_walk(hours, snapshots, j);
    let n = hours_walked(hours, snapshots, j);
    if k < n {
        assert(hours[k].time < snapshots[j]);
    } else {
        assert(hours[n].time <= hours[k].time);
    }
}

pub(crate) proof fn lemma_walk(hours: Seq<HourlyConditions>, snapshots: Seq<i128>, j: int)
    requires
        forall|a: int, b: int|
            0 <= a <= b < snapshots.len() ==> #[trigger] snapshots[a] <= #[trigger] snapshots[b],
        0 <= j < snapshots.len(),
    ensures
        0 <= hours_walked(hours, snapshots, j) <= hours.len(),
        forall|k: int|
            0 <= k < hours_walked(hours, snapshots, j) ==> (#[trigger] hours[k]).time
                < snapshots[j],
        hours_walked(hours, snapshots, j) < hours.len() ==> hours[hours_walked(
            hours,
            snapshots,
            j,
        )].time >= snapshots[j],
    decreases j,
{
    let from = if j == 0 {
        0
    } else {
        hours_walked(hours, snapshots, j - 1)
    };
    if j > 0 {
        lemma_walk(hours, snapshots, j - 1);
        assert(snapshots[j - 1] <= snapshots[j]);
    }
    lemma_first_not_before(hours, from, snapshots[j] as int);
}

/// A replay can be broken off and taken up again.
pub proof fn a_replay_can_be_taken_up_again(
    initial: SurfaceState,
    first: Seq<Reading>,
    second: Seq<Reading>,
)
    ensures
        walked(initial, first + second) == walked(walked(initial, first), second),
    decreases second.len(),
{
    if second.len() == 0 {
        assert(first + second =~= first);
    } else {
        a_replay_can_be_taken_up_again(initial, first, second.drop_last());
        assert((first + second).drop_last() =~= first + second.drop_last());
        assert((first + second).last() == second.last());
    }
}

/// The surface never holds less than none nor more than saturates it, however
/// long a replay goes on, and water within those bounds is kept as it is.
pub proof fn the_surface_stays_within_bounds(
    initial: SurfaceState,
    water: Seq<Reading>,
    mm: Option<Reading>,
)
    requires
        ZERO <= initial.accumulated_mm <= GROUND_SATURATED,
    ensures
        ZERO <= walked(initial, water).accumulated_mm <= GROUND_SATURATED,
        ZERO <= replayed_state(water).accumulated_mm <= GROUND_SATURATED,
        ZERO <= held(mm) <= GROUND_SATURATED,
        mm matches Some(m) ==> (ZERO <= m <= GROUND_SATURATED ==> held(mm) == m),
{
}

/// A replay from a fresh surface is the replay of its observations, but for the
/// mark that the drought spans all of it.
pub proof fn a_replay_starts_from_a_fresh_surface(initial: SurfaceState, water: Seq<Reading>)
    requires
        initial.accumulated_mm == ZERO,
        initial.hours_since_meaningful_rain == 0,
        water.len() <= u64::MAX,
    ensures
        walked(initial, water).accumulated_mm == replayed_state(water).accumulated_mm,
        walked(initial, water).hours_since_meaningful_rain == replayed_state(
            water,
        ).hours_since_meaningful_rain,
        dry_tail(water) <= water.len(),
    decreases water.len(),
{
    if water.len() > 0 {
        a_replay_starts_from_a_fresh_surface(initial, water.drop_last());
    }
}

// ---- What is replayed ----

/// For every observation the replay holds an hour at its time with the
/// temperature, wind, precipitation, humidity and cloud cover that the station
/// reported, frost and all; a neutral value stands only where it reported none.
pub proof fn observations_are_replayed_as_reported(history: Seq<HourlyObservation>, i: int)
    requires
        0 <= i < history.len(),
    ensures
        exists|k: int|
            {
                &&& 0 <= k < replay_of(history).len()
                &&& (#[trigger] replay_of(history)[k]).time == history[i].time
                &&& replay_of(history)[k].temperature_c == history[i].temp_c.unwrap_or(
                    NEUTRAL_TEMP_C,
                )
                &&& replay_of(history)[k].wind_speed_ms == history[i].wind_ms.unwrap_or(
                    NEUTRAL_WIND_MS,
                )
                &&& replay_of(history)[k].precipitation_mm == history[i].precip_mm.unwrap_or(ZERO)
                &&& replay_of(history)[k].relative_humidity == Some(
                    history[i].humidity_pct.unwrap_or(NEUTRAL_HUMIDITY_PCT),
                )
                &&& replay_of(history)[k].cloud_area_fraction == Some(
                    history[i].cloud_pct.unwrap_or(NEUTRAL_CLOUD_PCT),
                )
            },
{
    a_replay_covers_every_observation(history, i);
    let k = choose|k: int|
        0 <= k < replay_of(history).len() && replay_of(history)[k] == observed_hour(history[i]);
    assert(replay_of(history)[k].time == history[i].time);
}

/// A replay takes the observations in their order: one more observation adds
/// its own hour at the end, and before it only dry, neutral hours that fill the
/// gap. They start an hour after the observation before and lie an hour apart.
/// There are none where up to an hour and a half passed, and otherwise so many
/// that together with the observation they make up the time that passed, to
/// within half an hour.
pub proof fn one_more_observation_fills_its_gap(history: Seq<HourlyObservation>)
    requires
        history.len() > 1,
        forall|i: int| 0 <= i < history.len() ==> is_instant((#[trigger] history[i]).time as int),
        history[history.len() - 2].time <= history.last().time,
    ensures
        ({
            let m = replay_of(history.drop_last()).len() as int;
            let n = replay_of(history).len() as int;
            let passed = history.last().time - history[history.len() - 2].time;
            &&& m < n
            &&& replay_of(history).take(m) == replay_of(history.drop_last())
            &&& replay_of(history)[n - 1].time == history.last().time
            &&& replay_of(history)[n - 1].temperature_c == history.last().temp_c.unwrap_or(
                NEUTRAL_TEMP_C,
            )
            &&& replay_of(history)[n - 1].precipitation_mm == history.last().precip_mm.unwrap_or(
                ZERO,
            )
            &&& forall|k: int|
                m <= k < n - 1 ==> {
                    let h = #[trigger] replay_of(history)[k];
                    &&& h.time == history[history.len() - 2].time + (k - m + 1) * HOUR
                    &&& h.precipitation_mm == ZERO
                    &&& h.temperature_c == NEUTRAL_TEMP_C
                    &&& h.wind_speed_ms == NEUTRAL_WIND_MS
                    &&& h.relative_humidity == Some(NEUTRAL_HUMIDITY_PCT)
                    &&& h.cloud_area_fraction == Some(NEUTRAL_CLOUD_PCT)
                }
            &&& passed < 91 * MINUTE ==> n == m + 1
            &&& passed >= 91 * MINUTE ==> (n - m) * HOUR - 30 * MINUTE <= passed < (n - m) * HOUR
                + 30 * MINUTE
        }),
{
    let earlier = history.drop_last();
    let prev = history[history.len() - 2].time as int;
    let time = history.last().time as int;
    assert(earlier.last().time == prev);
    assert(is_instant(history[history.len() - 2].time as int));
    assert(is_instant(history[history.len() - 1].time as int));
    let m = replay_of(earlier).len() as int;
    let all = replay_of(history);
    let gap = gap_hours(prev, time);
    assert(all.take(m) =~= replay_of(earlier));
    let passed = time - prev;
    let minutes = minutes_between(prev, time);
    assert(minutes * 60_000_000_000 <= passed < (minutes + 1) * 60_000_000_000);
    if minutes > 90 {
        let count = filler_count(prev, time) as int;
        assert(60 * (count + 1) <= minutes + 30 < 60 * (count + 1) + 60);
        assert((count + 1) * HOUR == (count + 1) * 3_600_000_000_000);
        assert(all.len() - m == count + 1);
    }
    assert forall|k: int| m <= k < all.len() - 1 implies {
        let h = #[trigger] all[k];
        &&& h.time == prev + (k - m + 1) * HOUR
        &&& h.precipitation_mm == ZERO
        &&& h.temperature_c == NEUTRAL_TEMP_C
        &&& h.wind_speed_ms == NEUTRAL_WIND_MS
        &&& h.relative_humidity == Some(NEUTRAL_HUMIDITY_PCT)
        &&& h.cloud_area_fraction == Some(NEUTRAL_CLOUD_PCT)
    } by {
        assert(all[k] == gap[k - m]);
        a_gap_passes_in_real_time(prev, time, k - m);
        assert(all[k] == filler((prev + (k - m + 1) * HOUR) as i128));
    }
}

/// A replay of one observation is that observation.
pub proof fn a_first_observation_has_no_gap(history: Seq<HourlyObservation>)
    requires
        history.len() == 1,
    ensures
        replay_of(history).len() == 1,
{
    assert(replay_of(history.drop_last()) =~= Seq::empty());
}

// ---- One hour ----

/// An hour leaves its water on the surface, as far as the surface can hold it;
/// the drought counter starts again where that is at least 0.3 mm and else goes
/// up by one; and whether the counter is a lower bound stays as it was.
pub proof fn an_hour_moves_the_surface_on(state: SurfaceState, water: Reading)
    requires
        state.hours_since_meaningful_rain < u64::MAX,
    ensures
        ZERO <= water <= GROUND_SATURATED ==> stepped(state, water).accumulated_mm == water,
        water < ZERO ==> stepped(state, water).accumulated_mm == ZERO,
        water > GROUND_SATURATED ==> stepped(state, water).accumulated_mm == GROUND_SATURATED,
        water >= SURFACE_WETTED_MM ==> stepped(state, water).hours_since_meaningful_rain == 0,
        water < SURFACE_WETTED_MM ==> stepped(state, water).hours_since_meaningful_rain
            == state.hours_since_meaningful_rain + 1,
        stepped(state, water).drought_at_lookback_cap == state.drought_at_lookback_cap,
{
}

/// A walk goes hour by hour, the last one last.
pub proof fn a_walk_goes_hour_by_hour(initial: SurfaceState, water: Seq<Reading>, last: Reading)
    ensures
        walked(initial, Seq::empty()) == initial,
        walked(initial, water.push(last)) == stepped(walked(initial, water), last),
{
    assert(water.push(last).drop_last() =~= water);
}

} // verus!
