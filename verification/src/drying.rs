//! How wet is the gravel right now, and how long since it was?
//!
//! The water balance of one hour (rain in, drainage and evaporation out) is a
//! floating-point formula and stays outside; this module keeps what follows
//! from its result: the drought counter, the replay of past observations with
//! their gaps filled, and the projection of the surface along a forecast.
use vstd::prelude::*;

use crate::conditions::{HourlyConditions, Resolution};
use crate::drying::laws::observations_are_replayed_as_reported;
use crate::frost::HourlyObservation;
use crate::reading::{Reading, ZERO};
use crate::score::thresholds::GROUND_SATURATED;
use crate::time::{is_instant, truncated_div, HOUR, MINUTE};

pub mod laws;

verus! {

/// 0.3 mm: accumulated surface water (post-drying) at which the gravel counts
/// as having been wet.
pub const SURFACE_WETTED_MM: Reading = 0x3FD3_3333_3333_3333;

/// Alias for [`SURFACE_WETTED_MM`].
pub const MEANINGFUL_RAIN_MM: Reading = SURFACE_WETTED_MM;

/// 10.0 °C, where a station reports no temperature.
pub const NEUTRAL_TEMP_C: Reading = 0x4024_0000_0000_0000;

/// 3.0 m/s, where a station reports no wind.
pub const NEUTRAL_WIND_MS: Reading = 0x4008_0000_0000_0000;

/// 70.0 %, where a station reports no humidity.
pub const NEUTRAL_HUMIDITY_PCT: Reading = 0x4051_8000_0000_0000;

/// 70.0 %, where a station reports no cloud cover.
pub const NEUTRAL_CLOUD_PCT: Reading = 0x4051_8000_0000_0000;

/// State of the surface-condition simulation: short-timescale wetness and
/// long-timescale dryness.
#[derive(Debug, Clone, Copy, PartialEq, Eq, Structural)]
pub struct SurfaceState {
    /// Accumulated standing water on the surface, mm.
    pub accumulated_mm: Reading,
    /// Hours since the surface was last wet.
    pub hours_since_meaningful_rain: u64,
    /// The drought counter never saw the surface get wet, so the hours are a
    /// lower bound.
    pub drought_at_lookback_cap: bool,
}

impl Default for SurfaceState {
    fn default() -> (state: Self)
        ensures
            state.accumulated_mm == ZERO,
            state.hours_since_meaningful_rain == 0,
            !state.drought_at_lookback_cap,
    {
        SurfaceState {
            accumulated_mm: ZERO,
            hours_since_meaningful_rain: 0,
            drought_at_lookback_cap: false,
        }
    }
}

/// Water within what the surface can hold; none where it is not known.
pub open spec fn held(mm: Option<Reading>) -> Reading {
    match mm {
        Some(mm) => if mm < ZERO {
            ZERO
        } else if mm > GROUND_SATURATED {
            GROUND_SATURATED
        } else {
            mm
        },
        None => ZERO,
    }
}

fn within_bounds(mm: Option<Reading>) -> (bounded: Reading)
    ensures
        bounded == held(mm),
{
    match mm {
        Some(mm) => if mm < ZERO {
            ZERO
        } else if mm > GROUND_SATURATED {
            GROUND_SATURATED
        } else {
            mm
        },
        None => ZERO,
    }
}

impl SurfaceState {
    /// A surface with `initial_mm` of water on it, within what it can hold. A
    /// value that is not a finite number has no reading and counts as none.
    pub fn new(initial_mm: Option<Reading>) -> (state: Self)
        ensures
            state.accumulated_mm == held(initial_mm),
            state.hours_since_meaningful_rain == 0,
            !state.drought_at_lookback_cap,
    {
        SurfaceState {
            accumulated_mm: within_bounds(initial_mm),
            hours_since_meaningful_rain: 0,
            drought_at_lookback_cap: false,
        }
    }

    /// Returns true once the surface has reached saturation.
    pub fn is_saturated(&self) -> (b: bool)
        ensures
            b == (self.accumulated_mm >= GROUND_SATURATED),
    {
        self.accumulated_mm >= GROUND_SATURATED
    }
}

/// The surface is wet with `water` on it.
pub open spec fn is_wet(water: Reading) -> bool {
    water >= SURFACE_WETTED_MM
}

/// Below freezing the water is ice: it does not drain, and hardly evaporates.
pub open spec fn freezes(h: HourlyConditions) -> bool {
    h.temperature_c < ZERO
}

/// Whether the surface is frozen in that hour.
pub fn is_frozen(h: &HourlyConditions) -> (b: bool)
    ensures
        b == freezes(*h),
{
    h.temperature_c < ZERO
}

/// What stays on the surface of `sum`, the water on it and the rain of the
/// hour: what saturates it at most, the rest runs off.
pub fn after_rain(sum: Reading) -> (water: Reading)
    ensures
        water == held(Some(sum)),
{
    within_bounds(Some(sum))
}

/// The state an hour after `state`, given the water left after that hour.
pub open spec fn stepped(state: SurfaceState, water: Reading) -> SurfaceState {
    SurfaceState {
        accumulated_mm: held(Some(water)),
        hours_since_meaningful_rain: if is_wet(water) {
            0
        } else {
            (state.hours_since_meaningful_rain + 1) as u64
        },
        drought_at_lookback_cap: state.drought_at_lookback_cap,
    }
}

/// Step the surface state forward by one hour. `after_drying` is the water
/// that rain, drainage and evaporation leave; the surface holds neither less
/// than none nor more than saturates it.
pub fn drying_step(state: SurfaceState, after_drying: Reading) -> (next: SurfaceState)
    requires
        state.hours_since_meaningful_rain < u64::MAX,
    ensures
        next == stepped(state, after_drying),
{
    SurfaceState {
        accumulated_mm: within_bounds(Some(after_drying)),
        hours_since_meaningful_rain: if after_drying >= SURFACE_WETTED_MM {
            0
        } else {
            state.hours_since_meaningful_rain + 1
        },
        drought_at_lookback_cap: state.drought_at_lookback_cap,
    }
}

/// The state after several hours that left `water`, one after the other.
pub open spec fn walked(initial: SurfaceState, water: Seq<Reading>) -> SurfaceState
    decreases water.len(),
{
    if water.len() == 0 {
        initial
    } else {
        stepped(walked(initial, water.drop_last()), water.last())
    }
}

/// Replay past hours, in chronological order, to estimate the surface state
/// right now. `water` is what each hour left on the surface.
pub fn replay(initial: SurfaceState, water: &Vec<Reading>) -> (state: SurfaceState)
    requires
        initial.hours_since_meaningful_rain + water@.len() <= u64::MAX,
    ensures
        state == walked(initial, water@),
{
    let mut state = initial;
    let mut i: usize = 0;
    proof {
        assert(water@.take(0) =~= Seq::empty());
    }
    while i < water.len()
        invariant
            i <= water.len(),
            initial.hours_since_meaningful_rain + water@.len() <= u64::MAX,
            state == walked(initial, water@.take(i as int)),
            state.hours_since_meaningful_rain <= initial.hours_since_meaningful_rain + i,
        decreases water.len() - i,
    {
        proof {
            assert(water@.take(i + 1).drop_last() =~= water@.take(i as int));
            assert(water@.take(i + 1).last() == water@[i as int]);
        }
        state = drying_step(state, water[i]);
        i = i + 1;
    }
    proof {
        assert(water@.take(water.len() as int) =~= water@);
    }
    state
}

// ---- Replay of observations ----

/// Whole minutes from `prev` to `time`.
pub open spec fn minutes_between(prev: int, time: int) -> int {
    truncated_div(time - prev, MINUTE as int)
}

/// How many dry hours fill the gap between two observations: none up to 90
/// minutes, else the gap in hours, rounded, less one.
pub open spec fn filler_count(prev: int, time: int) -> nat {
    let minutes = minutes_between(prev, time);
    if minutes > 90 {
        ((minutes + 30) / 60 - 1) as nat
    } else {
        0
    }
}

/// A dry hour under neutral conditions.
pub open spec fn filler(time: i128) -> HourlyConditions {
    HourlyConditions {
        time,
        temperature_c: NEUTRAL_TEMP_C,
        wind_speed_ms: NEUTRAL_WIND_MS,
        precipitation_mm: ZERO,
        wind_gust_ms: None,
        wind_from_deg: None,
        probability_of_precip: None,
        relative_humidity: Some(NEUTRAL_HUMIDITY_PCT),
        cloud_area_fraction: Some(NEUTRAL_CLOUD_PCT),
        uv_index_clear_sky: None,
        resolution: Resolution::Hourly,
    }
}

/// `value`, or `fallback` where there is none.
pub open spec fn known_or(value: Option<Reading>, fallback: Reading) -> Reading {
    match value {
        Some(v) => v,
        None => fallback,
    }
}

/// The observed hour, with neutral values for what the station did not report.
pub open spec fn observed_hour(h: HourlyObservation) -> HourlyConditions {
    HourlyConditions {
        time: h.time,
        temperature_c: known_or(h.temp_c, NEUTRAL_TEMP_C),
        wind_speed_ms: known_or(h.wind_ms, NEUTRAL_WIND_MS),
        precipitation_mm: known_or(h.precip_mm, ZERO),
        wind_gust_ms: None,
        wind_from_deg: None,
        probability_of_precip: None,
        relative_humidity: Some(known_or(h.humidity_pct, NEUTRAL_HUMIDITY_PCT)),
        cloud_area_fraction: Some(known_or(h.cloud_pct, NEUTRAL_CLOUD_PCT)),
        uv_index_clear_sky: None,
        resolution: Resolution::Hourly,
    }
}

/// The hours that a replay walks through: every observation, and before it the
/// dry hours that fill the gap to the one before.
pub open spec fn replay_of(history: Seq<HourlyObservation>) -> Seq<HourlyConditions>
    decreases history.len(),
{
    if history.len() == 0 {
        Seq::empty()
    } else {
        let earlier = history.drop_last();
        let h = history.last();
        let gap = if earlier.len() == 0 {
            Seq::empty()
        } else {
            gap_hours(earlier.last().time as int, h.time as int)
        };
        replay_of(earlier) + gap + seq![observed_hour(h)]
    }
}

/// The dry hours that fill the gap from `prev` to `time`, an hour apart.
pub open spec fn gap_hours(prev: int, time: int) -> Seq<HourlyConditions> {
    Seq::new(filler_count(prev, time), |i: int| filler((prev + (i + 1) * HOUR) as i128))
}

fn neutral_hour(time: i128) -> (hour: HourlyConditions)
    ensures
        hour == filler(time),
{
    HourlyConditions {
        time,
        temperature_c: NEUTRAL_TEMP_C,
        wind_speed_ms: NEUTRAL_WIND_MS,
        precipitation_mm: ZERO,
        wind_gust_ms: None,
        wind_from_deg: None,
        probability_of_precip: None,
        relative_humidity: Some(NEUTRAL_HUMIDITY_PCT),
        cloud_area_fraction: Some(NEUTRAL_CLOUD_PCT),
        uv_index_clear_sky: None,
        resolution: Resolution::Hourly,
    }
}

fn or_neutral(value: Option<Reading>, fallback: Reading) -> (v: Reading)
    ensures
        v == known_or(value, fallback),
{
    match value {
        Some(v) => v,
        None => fallback,
    }
}

fn hour_of_observation(h: &HourlyObservation) -> (hour: HourlyConditions)
    ensures
        hour == observed_hour(*h),
{
    HourlyConditions {
        time: h.time,
        temperature_c: or_neutral(h.temp_c, NEUTRAL_TEMP_C),
        wind_speed_ms: or_neutral(h.wind_ms, NEUTRAL_WIND_MS),
        precipitation_mm: or_neutral(h.precip_mm, ZERO),
        wind_gust_ms: None,
        wind_from_deg: None,
        probability_of_precip: None,
        relative_humidity: Some(or_neutral(h.humidity_pct, NEUTRAL_HUMIDITY_PCT)),
        cloud_area_fraction: Some(or_neutral(h.cloud_pct, NEUTRAL_CLOUD_PCT)),
        uv_index_clear_sky: None,
        resolution: Resolution::Hourly,
    }
}

/// Every observation happened at an instant.
pub open spec fn timed(history: Seq<HourlyObservation>) -> bool {
    forall|i: int| 0 <= i < history.len() ==> is_instant((#[trigger] history[i]).time as int)
}

fn push_gap(out: &mut Vec<HourlyConditions>, prev: i128, time: i128)
    requires
        is_instant(prev as int),
        is_instant(time as int),
    ensures
        final(out)@ == old(out)@ + gap_hours(prev as int, time as int),
{
    let ghost start = out@;
    let elapsed: i128 = time - prev;
    if elapsed < 0 {
        proof {
            assert(gap_hours(prev as int, time as int) =~= Seq::empty());
            assert(start + gap_hours(prev as int, time as int) =~= start);
        }
        return ;
    }
    let minutes: i128 = elapsed / MINUTE;
    if minutes <= 90 {
        proof {
            assert(start + gap_hours(prev as int, time as int) =~= start);
        }
        return ;
    }
    let count: i128 = (minutes + 30) / 60 - 1;
    let mut i: i128 = 0;
    proof {
        assert(gap_hours(prev as int, time as int).take(0) =~= Seq::empty());
        assert(start + gap_hours(prev as int, time as int).take(0) =~= start);
    }
    while i < count
        invariant
            is_instant(prev as int),
            is_instant(time as int),
            0 <= i <= count,
            count == filler_count(prev as int, time as int),
            prev + count * HOUR <= time,
            out@ == start + gap_hours(prev as int, time as int).take(i as int),
        decreases count - i,
    {
        out.push(neutral_hour(prev + (i + 1) * HOUR));
        proof {
            let gap = gap_hours(prev as int, time as int);
            assert(gap.take(i + 1) =~= gap.take(i as int).push(gap[i as int]));
            assert(out@ =~= start + gap.take(i + 1));
        }
        i = i + 1;
    }
    proof {
        let gap = gap_hours(prev as int, time as int);
        assert(gap.take(count as int) =~= gap);
    }
}

/// The hours to walk the drying model through, gaps in the observations filled
/// with dry hours so that the drought counter climbs by real elapsed time.
pub fn replay_hours(history: &Vec<HourlyObservation>) -> (hours: Vec<HourlyConditions>)
    requires
        timed(history@),
    ensures
        hours@ == replay_of(history@),
        forall|i: int|
            #![trigger history@[i]]
            0 <= i < history@.len() ==> exists|k: int|
                {
                    &&& 0 <= k < hours@.len()
                    &&& (#[trigger] hours@[k]).time == history@[i].time
                    &&& hours@[k].temperature_c == history@[i].temp_c.unwrap_or(NEUTRAL_TEMP_C)
                    &&& hours@[k].wind_speed_ms == history@[i].wind_ms.unwrap_or(NEUTRAL_WIND_MS)
                    &&& hours@[k].precipitation_mm == history@[i].precip_mm.unwrap_or(ZERO)
                    &&& hours@[k].relative_humidity == Some(
                        history@[i].humidity_pct.unwrap_or(NEUTRAL_HUMIDITY_PCT),
                    )
                    &&& hours@[k].cloud_area_fraction == Some(
                        history@[i].cloud_pct.unwrap_or(NEUTRAL_CLOUD_PCT),
                    )
                },
{
    let mut hours: Vec<HourlyConditions> = Vec::new();
    let mut i: usize = 0;
    proof {
        assert(history@.take(0) =~= Seq::empty());
    }
    while i < history.len()
        invariant
            i <= history.len(),
            timed(history@),
            hours@ == replay_of(history@.take(i as int)),
        decreases history.len() - i,
    {
        let ghost before = hours@;
        if i > 0 {
            push_gap(&mut hours, history[i - 1].time, history[i].time);
        }
        hours.push(hour_of_observation(&history[i]));
        proof {
            let next = history@.take(i + 1);
            assert(next.drop_last() =~= history@.take(i as int));
            assert(next.last() == history@[i as int]);
            let gap = if i == 0 {
                Seq::empty()
            } else {
                gap_hours(history@[i - 1].time as int, history@[i as int].time as int)
            };
            if i > 0 {
                assert(history@.take(i as int).last() == history@[i - 1]);
            }
            assert(hours@ =~= before + gap + seq![observed_hour(history@[i as int])]);
        }
        i = i + 1;
    }
    proof {
        assert(history@.take(history.len() as int) =~= history@);
        assert forall|i: int| #![trigger history@[i]] 0 <= i < history@.len() implies exists|k: int|
            {
                &&& 0 <= k < hours@.len()
                &&& (#[trigger] hours@[k]).time == history@[i].time
                &&& hours@[k].temperature_c == history@[i].temp_c.unwrap_or(NEUTRAL_TEMP_C)
                &&& hours@[k].wind_speed_ms == history@[i].wind_ms.unwrap_or(NEUTRAL_WIND_MS)
                &&& hours@[k].precipitation_mm == history@[i].precip_mm.unwrap_or(ZERO)
                &&& hours@[k].relative_humidity == Some(
                    history@[i].humidity_pct.unwrap_or(NEUTRAL_HUMIDITY_PCT),
                )
                &&& hours@[k].cloud_area_fraction == Some(
                    history@[i].cloud_pct.unwrap_or(NEUTRAL_CLOUD_PCT),
                )
            } by {
            observations_are_replayed_as_reported(history@, i);
        }
    }
    hours
}

// ---- The state after a replay ----

/// How many hours at the end left the surface dry.
pub open spec fn dry_tail(water: Seq<Reading>) -> nat
    decreases water.len(),
{
    if water.len() == 0 || is_wet(water.last()) {
        0
    } else {
        dry_tail(water.drop_last()) + 1
    }
}

/// The state after a replay whose hours left `water` on the surface.
pub open spec fn replayed_state(water: Seq<Reading>) -> SurfaceState {
    SurfaceState {
        accumulated_mm: if water.len() == 0 {
            ZERO
        } else {
            held(Some(water.last()))
        },
        hours_since_meaningful_rain: dry_tail(water) as u64,
        drought_at_lookback_cap: water.len() > 0 && dry_tail(water) == water.len(),
    }
}

proof fn lemma_dry_tail(water: Seq<Reading>)
    ensures
        dry_tail(water) <= water.len(),
    decreases water.len(),
{
    if water.len() > 0 {
        lemma_dry_tail(water.drop_last());
    }
}

/// Walk a replay through the drying model. `water` is what each hour of
/// [`replay_hours`] left on the surface.
pub fn replay_into_state(water: &Vec<Reading>) -> (state: SurfaceState)
    ensures
        state == replayed_state(water@),
{
    let mut state = SurfaceState::default();
    let mut i: usize = 0;
    proof {
        assert(water@.take(0) =~= Seq::empty());
    }
    while i < water.len()
        invariant
            i <= water.len(),
            state.hours_since_meaningful_rain == dry_tail(water@.take(i as int)),
            state.hours_since_meaningful_rain <= i,
            state.accumulated_mm == (if i == 0 {
                ZERO
            } else {
                held(Some(water@[i - 1]))
            }),
            !state.drought_at_lookback_cap,
        decreases water.len() - i,
    {
        proof {
            let next = water@.take(i + 1);
            assert(next.drop_last() =~= water@.take(i as int));
            assert(next.last() == water@[i as int]);
        }
        state = drying_step(state, water[i]);
        i = i + 1;
    }
    proof {
        assert(water@.take(water.len() as int) =~= water@);
        lemma_dry_tail(water@);
    }
    if water.len() > 0 && state.hours_since_meaningful_rain >= water.len() as u64 {
        state.drought_at_lookback_cap = true;
    }
    state
}

// ---- Projection along a forecast ----

/// The first position from `from` on whose hour does not start before `t`.
pub open spec fn first_not_before(hours: Seq<HourlyConditions>, from: int, t: int) -> int
    decreases hours.len() - from,
{
    if 0 <= from < hours.len() && hours[from].time < t {
        first_not_before(hours, from + 1, t)
    } else {
        from
    }
}

/// How many hours have been walked through when snapshot `j` is taken.
pub open spec fn hours_walked(hours: Seq<HourlyConditions>, snapshots: Seq<i128>, j: int) -> int
    decreases j,
{
    first_not_before(
        hours,
        if j <= 0 {
            0
        } else {
            hours_walked(hours, snapshots, j - 1)
        },
        snapshots[j] as int,
    )
}

pub(crate) proof fn lemma_first_not_before(hours: Seq<HourlyConditions>, from: int, t: int)
    requires
        0 <= from <= hours.len(),
    ensures
        from <= first_not_before(hours, from, t) <= hours.len(),
        forall|k: int|
            from <= k < first_not_before(hours, from, t) ==> (#[trigger] hours[k]).time < t,
        first_not_before(hours, from, t) < hours.len() ==> hours[first_not_before(
            hours,
            from,
            t,
        )].time >= t,
    decreases hours.len() - from,
{
    if from < hours.len() && hours[from].time < t {
        lemma_first_not_before(hours, from + 1, t);
    }
}

/// The surface when snapshot `j` is taken: after the hours walked through by
/// then, which left `water`.
pub open spec fn projected_state(
    initial: SurfaceState,
    water: Seq<Reading>,
    hours: Seq<HourlyConditions>,
    snapshots: Seq<i128>,
    j: int,
) -> SurfaceState {
    walked(initial, water.take(hours_walked(hours, snapshots, j)))
}

/// Walk chronological forecast hours forward from `initial` and take the
/// surface state at the start of each snapshot: the rain of the hour that begins
/// there has not fallen yet. `water` is what each hour leaves on the surface.
pub fn project_states_for_days(
    initial: SurfaceState,
    water: &Vec<Reading>,
    hours: &Vec<HourlyConditions>,
    day_starts: &Vec<i128>,
) -> (out: Vec<SurfaceState>)
    requires
        water@.len() == hours@.len(),
        initial.hours_since_meaningful_rain + hours@.len() <= u64::MAX,
    ensures
        out@.len() == day_starts@.len(),
        forall|j: int|
            0 <= j < out@.len() ==> 0 <= #[trigger] hours_walked(hours@, day_starts@, j)
                <= hours@.len(),
        forall|j: int|
            0 <= j < out@.len() ==> #[trigger] out@[j] == projected_state(
                initial,
                water@,
                hours@,
                day_starts@,
                j,
            ),
{
    let mut out: Vec<SurfaceState> = Vec::new();
    let mut state = initial;
    let mut idx: usize = 0;
    let mut j: usize = 0;
    proof {
        assert(water@.take(0) =~= Seq::empty());
    }
    while j < day_starts.len()
        invariant
            j <= day_starts.len(),
            water@.len() == hours@.len(),
            initial.hours_since_meaningful_rain + hours@.len() <= u64::MAX,
            idx <= hours.len(),
            idx == (if j == 0 {
                0
            } else {
                hours_walked(hours@, day_starts@, j - 1)
            }),
            state == walked(initial, water@.take(idx as int)),
            state.hours_since_meaningful_rain <= initial.hours_since_meaningful_rain + idx,
            out@.len() == j,
            forall|k: int|
                0 <= k < j ==> 0 <= #[trigger] hours_walked(hours@, day_starts@, k) <= hours@.len(),
            forall|k: int|
                0 <= k < j ==> #[trigger] out@[k] == projected_state(
                    initial,
                    water@,
                    hours@,
                    day_starts@,
                    k,
                ),
        decreases day_starts.len() - j,
    {
        let snapshot: i128 = day_starts[j];
        let ghost from = idx as int;
        while idx < hours.len() && hours[idx].time < snapshot
            invariant
                from <= idx <= hours.len(),
                water@.len() == hours@.len(),
                initial.hours_since_meaningful_rain + hours@.len() <= u64::MAX,
                state == walked(initial, water@.take(idx as int)),
                state.hours_since_meaningful_rain <= initial.hours_since_meaningful_rain + idx,
                first_not_before(hours@, from, snapshot as int) == first_not_before(
                    hours@,
                    idx as int,
                    snapshot as int,
                ),
            decreases hours.len() - idx,
        {
            proof {
                assert(water@.take(idx + 1).drop_last() =~= water@.take(idx as int));
                assert(water@.take(idx + 1).last() == water@[idx as int]);
            }
            state = drying_step(state, water[idx]);
            idx = idx + 1;
        }
        proof {
            assert(idx == hours_walked(hours@, day_starts@, j as int));
        }
        out.push(state);
        j = j + 1;
    }
    out
}

/// The surface as it is now, and the water that each hour of the forecast will
/// leave on it.
#[derive(Debug)]
pub struct SurfaceOutlook {
    pub initial: SurfaceState,
    pub water: Vec<Reading>,
}

/// The outlook goes along `hours`, and the drought counter has room for them.
pub open spec fn outlook_fits(
    outlook: Option<SurfaceOutlook>,
    hours: Seq<HourlyConditions>,
) -> bool {
    outlook matches Some(o) ==> o.water@.len() == hours.len()
        && o.initial.hours_since_meaningful_rain + hours.len() <= u64::MAX
}

/// The surface when each snapshot is taken; nothing is known of it where there
/// is no outlook.
pub open spec fn surfaces_at(
    outlook: Option<SurfaceOutlook>,
    hours: Seq<HourlyConditions>,
    snapshots: Seq<i128>,
) -> Seq<Option<SurfaceState>> {
    Seq::new(
        snapshots.len(),
        |j: int|
            match outlook {
                Some(o) => Some(projected_state(o.initial, o.water@, hours, snapshots, j)),
                None => None,
            },
    )
}

/// The surface when each snapshot is taken, as far as it is known.
pub fn surfaces_for(
    outlook: &Option<SurfaceOutlook>,
    hours: &Vec<HourlyConditions>,
    snapshots: &Vec<i128>,
) -> (surfaces: Vec<Option<SurfaceState>>)
    requires
        outlook_fits(*outlook, hours@),
    ensures
        surfaces@ == surfaces_at(*outlook, hours@, snapshots@),
{
    let states = match outlook {
        Some(o) => Some(project_states_for_days(o.initial, &o.water, hours, snapshots)),
        None => None,
    };
    let ghost all = surfaces_at(*outlook, hours@, snapshots@);
    let mut surfaces: Vec<Option<SurfaceState>> = Vec::new();
    let mut j: usize = 0;
    while j < snapshots.len()
        invariant
            j <= snapshots.len(),
            all.len() == snapshots@.len(),
            states is Some ==> states->0@.len() == snapshots@.len(),
            forall|k: int|
                0 <= k < all.len() ==> #[trigger] all[k] == (match states {
                    Some(s) => Some(s@[k]),
                    None => None,
                }),
            surfaces@ == all.take(j as int),
        decreases snapshots.len() - j,
    {
        surfaces.push(
            match &states {
                Some(s) => Some(s[j]),
                None => None,
            },
        );
        proof {
            assert(all.take(j + 1) =~= all.take(j as int).push(all[j as int]));
        }
        j = j + 1;
    }
    proof {
        assert(surfaces@ =~= all);
    }
    surfaces
}

} // verus!
