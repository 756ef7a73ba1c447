//! What holds of every rain history.
use vstd::prelude::*;

use crate::conditions::HourlyConditions;
use crate::aggregate::RainHistory;
use crate::drying::{
    dry_tail, filler_count, gap_hours, is_wet, replay_of, replayed_state, timed, SURFACE_WETTED_MM,
};
use crate::frost::HourlyObservation;
use crate::rain_history::{
    amounts_on, are_wet_days, in_date_order, is_rain_history, is_wet_day, is_wettest, lists_day,
    rainy_among,
};
use crate::reading::{Measured, Reading};
use crate::time::{is_instant, offset_in_force, Date, LocalClock, OffsetChange, HOUR};

verus! {

/// Every hour of a replay, filled in or observed, happens at an instant.
pub proof fn a_replay_happens_at_instants(history: Seq<HourlyObservation>)
    requires
        timed(history),
    ensures
        forall|i: int|
            0 <= i < replay_of(history).len() ==> is_instant(
                (#[trigger] replay_of(history)[i]).time as int,
            ),
    decreases history.len(),
{
    if history.len() > 0 {
        let earlier = history.drop_last();
        let h = history.last();
        assert(is_instant(history[history.len() - 1].time as int));
        assert(timed(earlier)) by {
            assert forall|i: int| 0 <= i < earlier.len() implies is_instant(
                (#[trigger] earlier[i]).time as int,
            ) by {
                assert(earlier[i] == history[i]);
            }
        }
        a_replay_happens_at_instants(earlier);
        let gap = if earlier.len() == 0 {
            Seq::empty()
        } else {
            gap_hours(earlier.last().time as int, h.time as int)
        };
        if earlier.len() > 0 {
            assert(is_instant(earlier[earlier.len() - 1].time as int));
            lemma_gap(earlier.last().time as int, h.time as int);
        }
        let replay = replay_of(history);
        let before = replay_of(earlier);
        assert forall|i: int| 0 <= i < replay.len() implies is_instant(
            (#[trigger] replay[i]).time as int,
        ) by {
            if i < before.len() {
                assert(replay[i] == before[i]);
            } else if i < before.len() + gap.len() {
                assert(replay[i] == gap[i - before.len()]);
            }
        }
    }
}

proof fn lemma_gap(prev: int, time: int)
    requires
        is_instant(prev),
        is_instant(time),
    ensures
        forall|i: int|
            0 <= i < gap_hours(prev, time).len() ==> is_instant(
                (#[trigger] gap_hours(prev, time)[i]).time as int,
            ),
{
    let gap = gap_hours(prev, time);
    assert forall|i: int| 0 <= i < gap.len() implies is_instant((#[trigger] gap[i]).time as int) by {
        assert(prev + filler_count(prev, time) * HOUR <= time);
        assert(prev + (i + 1) * HOUR <= time);
    }
}

/// Two rain histories agree on which days were wet.
pub proof fn the_wet_days_are_unique(
    a: Seq<Date>,
    b: Seq<Date>,
    hours: Seq<HourlyConditions>,
    water: Seq<Reading>,
    clock: LocalClock,
)
    requires
        are_wet_days(a, hours, water, clock),
        are_wet_days(b, hours, water, clock),
    ensures
        a == b,
{
    lemma_prefix(a, b, hours, water, clock, a.len() as int);
    lemma_prefix(b, a, hours, water, clock, b.len() as int);
    assert(a =~= b);
}

proof fn lemma_prefix(
    a: Seq<Date>,
    b: Seq<Date>,
    hours: Seq<HourlyConditions>,
    water: Seq<Reading>,
    clock: LocalClock,
    n: int,
)
    requires
        are_wet_days(a, hours, water, clock),
        are_wet_days(b, hours, water, clock),
        0 <= n <= a.len(),
    ensures
        n <= b.len(),
        forall|k: int| 0 <= k < n ==> a[k] == b[k],
    decreases n,
{
    if n > 0 {
        lemma_prefix(a, b, hours, water, clock, n - 1);
        let p = lemma_listed(a, b, hours, water, clock, n - 1);
        if p < n - 1 {
            assert(a[p] == b[p]);
            assert(a[p].day_number < a[n - 1].day_number);
        }
        if p > n - 1 {
            let q = lemma_listed(b, a, hours, water, clock, n - 1);
            assert(b[n - 1].day_number < b[p].day_number);
            if q < n - 1 {
                assert(a[q] == b[q]);
                assert(b[q].day_number < b[n - 1].day_number);
            } else if q > n - 1 {
                assert(a[n - 1].day_number < a[q].day_number);
            }
        }
        assert(a[n - 1] == b[n - 1]);
    }
}

proof fn lemma_listed(
    a: Seq<Date>,
    b: Seq<Date>,
    hours: Seq<HourlyConditions>,
    water: Seq<Reading>,
    clock: LocalClock,
    k: int,
) -> (p: int)
    requires
        are_wet_days(a, hours, water, clock),
        are_wet_days(b, hours, water, clock),
        0 <= k < a.len(),
    ensures
        0 <= p < b.len(),
        b[p].day_number == a[k].day_number,
{
    let day = a[k].day_number as int;
    assert(is_wet_day(hours, water, clock, day));
    let i = choose|i: int|
        #![trigger hours[i]]
        0 <= i < hours.len() && is_wet(water[i]) && clock.local_day(hours[i].time as int) == day;
    assert(lists_day(b, day));
    choose|p: int| 0 <= p < b.len() && (#[trigger] b[p]).day_number == day
}

/// A replay has fewer wet days than there are dates.
pub proof fn wet_days_fit_the_calendar(
    days: Seq<Date>,
    history: Seq<HourlyObservation>,
    water: Seq<Reading>,
    clock: LocalClock,
)
    requires
        timed(history),
        clock.valid(),
        are_wet_days(days, replay_of(history), water, clock),
    ensures
        days.len() <= u32::MAX,
{
    if days.len() > 0 {
        let hours = replay_of(history);
        lemma_climb(days, days.len() - 1);
        a_replay_happens_at_instants(history);
        assert(is_wet_day(hours, water, clock, days[0].day_number as int));
        let i = choose|i: int|
            #![trigger hours[i]]
            0 <= i < hours.len() && is_wet(water[i]) && clock.local_day(hours[i].time as int)
                == days[0].day_number;
        lemma_offset(clock.offset_secs as int, clock.changes@, hours[i].time as int);
        assert(days[0].day_number > i32::MIN);
    }
}

proof fn lemma_offset(base: int, changes: Seq<OffsetChange>, t: int)
    requires
        -86_400 < base < 86_400,
        forall|i: int|
            0 <= i < changes.len() ==> -86_400 < (#[trigger] changes[i]).offset_secs < 86_400,
    ensures
        -86_400 < offset_in_force(base, changes, t) < 86_400,
    decreases changes.len(),
{
    if changes.len() > 0 {
        assert(changes.last() == changes[changes.len() - 1]);
        if changes.last().from > t {
            lemma_offset(base, changes.drop_last(), t);
        }
    }
}

proof fn lemma_climb(days: Seq<Date>, k: int)
    requires
        in_date_order(days),
        0 <= k < days.len(),
    ensures
        days[k].day_number >= days[0].day_number + k,
    decreases k,
{
    if k > 0 {
        lemma_climb(days, k - 1);
        assert(days[k - 1].day_number < days[k].day_number);
    }
}

/// The drought counter and the rain days never disagree: no rain day in the
/// whole replay means that the drought spans all of it, and a drought that
/// spans all of it means that there was no rain day.
pub proof fn rain_days_and_drought_agree(
    days: Seq<Date>,
    hours: Seq<HourlyConditions>,
    water: Seq<Reading>,
    clock: LocalClock,
)
    requires
        are_wet_days(days, hours, water, clock),
        water.len() == hours.len(),
        hours.len() > 0,
    ensures
        days.len() == 0 <==> dry_tail(water) == water.len(),
        replayed_state(water).drought_at_lookback_cap <==> days.len() == 0,
{
    lemma_dry_tail_is_dry(water);
    if days.len() == 0 {
        if dry_tail(water) < water.len() {
            let i = water.len() - 1 - dry_tail(water);
            assert(is_wet(water[i]));
            assert(lists_day(days, clock.local_day(hours[i].time as int)));
        }
    } else {
        assert(is_wet_day(hours, water, clock, days[0].day_number as int));
        let i = choose|i: int|
            #![trigger hours[i]]
            0 <= i < hours.len() && is_wet(water[i]) && clock.local_day(hours[i].time as int)
                == days[0].day_number;
        assert(is_wet(water[i]));
    }
}

proof fn lemma_dry_tail_is_dry(water: Seq<Reading>)
    ensures
        dry_tail(water) <= water.len(),
        forall|i: int|
            water.len() - dry_tail(water) <= i < water.len() ==> !is_wet(#[trigger] water[i]),
        dry_tail(water) < water.len() ==> is_wet(water[water.len() - 1 - dry_tail(water)]),
    decreases water.len(),
{
    if water.len() > 0 && !is_wet(water.last()) {
        let earlier = water.drop_last();
        lemma_dry_tail_is_dry(earlier);
        assert forall|i: int| water.len() - dry_tail(water) <= i < water.len() implies !is_wet(
            #[trigger] water[i],
        ) by {
            if i < earlier.len() {
                assert(earlier[i] == water[i]);
            }
        }
    }
}

/// A date is a rain day exactly when some hour of the replay left at least
/// 0.3 mm on the surface on that local date; the rain days come in order, each
/// once.
pub proof fn rain_days_are_those_that_wet_the_ground(
    days: Seq<Date>,
    hours: Seq<HourlyConditions>,
    water: Seq<Reading>,
    clock: LocalClock,
    day: int,
)
    requires
        are_wet_days(days, hours, water, clock),
    ensures
        (exists|k: int| 0 <= k < days.len() && (#[trigger] days[k]).day_number == day) <==> exists|
            i: int,
        |
            #![trigger hours[i]]
            0 <= i < hours.len() && water[i] >= SURFACE_WETTED_MM && clock.local_day(
                hours[i].time as int,
            ) == day,
        forall|k: int, l: int|
            0 <= k < l < days.len() ==> (#[trigger] days[k]).day_number < (
            #[trigger] days[l]).day_number,
{
    if exists|k: int| 0 <= k < days.len() && (#[trigger] days[k]).day_number == day {
        let k = choose|k: int| 0 <= k < days.len() && (#[trigger] days[k]).day_number == day;
        assert(is_wet_day(hours, water, clock, days[k].day_number as int));
        let i = choose|i: int|
            #![trigger hours[i]]
            0 <= i < hours.len() && is_wet(water[i]) && clock.local_day(hours[i].time as int)
                == day;
        assert(hours[i].time == hours[i].time);
    }
    if exists|i: int|
        #![trigger hours[i]]
        0 <= i < hours.len() && water[i] >= SURFACE_WETTED_MM && clock.local_day(
            hours[i].time as int,
        ) == day {
        let i = choose|i: int|
            #![trigger hours[i]]
            0 <= i < hours.len() && water[i] >= SURFACE_WETTED_MM && clock.local_day(
                hours[i].time as int,
            ) == day;
        assert(is_wet(water[i]));
        assert(lists_day(days, clock.local_day(hours[i].time as int)));
    }
}

/// The rain of a day is that of its observations: one more adds its amount where
/// it reports rain on that local date, and nothing otherwise.
pub proof fn one_more_observation_adds_its_rain(
    history: Seq<HourlyObservation>,
    h: HourlyObservation,
    clock: LocalClock,
    day: int,
)
    ensures
        amounts_on(Seq::empty(), clock, day).len() == 0,
        amounts_on(history.push(h), clock, day) == if h.precip_mm is Some && h.precip_mm->0 > 0
            && clock.local_day(h.time as int) == day {
            amounts_on(history, clock, day).push(h.precip_mm->0)
        } else {
            amounts_on(history, clock, day)
        },
{
    reveal(Seq::filter);
    assert(history.push(h).drop_last() =~= history);
    assert(amounts_on(history.push(h), clock, day) =~= if h.precip_mm is Some && h.precip_mm->0 > 0
        && clock.local_day(h.time as int) == day {
        amounts_on(history, clock, day).push(h.precip_mm->0)
    } else {
        amounts_on(history, clock, day)
    });
}

/// A rain history counts the wet days; it names the one with the most rain, the
/// last of several, with its amount, and none of them had more.
pub proof fn a_rain_history_names_the_wettest_day(
    h: RainHistory,
    history: Seq<HourlyObservation>,
    days: Seq<Date>,
    clock: LocalClock,
    day_totals: Seq<Measured>,
    total: Measured,
    lookback_hours: i64,
    j: int,
)
    requires
        is_rain_history(h, history, days, clock, day_totals, total, lookback_hours),
        0 <= j < day_totals.len(),
        rainy_among(days, history, clock).len() == day_totals.len(),
    ensures
        h.rain_days == days.len(),
        h.lookback_hours == lookback_hours,
        h.total_mm == total,
        day_totals[j].reading <= h.wettest_day_mm.reading,
        exists|k: int|
            {
                &&& 0 <= k < day_totals.len()
                &&& h.wettest_day_mm == #[trigger] day_totals[k]
                &&& h.wettest_day == rainy_among(days, history, clock)[k]
                &&& k < j ==> day_totals[j].reading < day_totals[k].reading
            },
{
    let rainy = rainy_among(days, history, clock);
    let k = choose|k: int|
        #![trigger rainy[k]]
        is_wettest(day_totals, k) && h.wettest_day == rainy[k] && h.wettest_day_mm == day_totals[k];
    assert(day_totals[j].reading <= day_totals[k].reading);
}

} // verus!
