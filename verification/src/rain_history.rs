//! The past week's rain, rolled up by local date.
//!
//! A day counts as a rain day when the drying model left enough water on the
//! surface to call it wet, which is also what resets the drought counter.
use vstd::prelude::*;

use crate::aggregate::RainHistory;
use crate::conditions::HourlyConditions;
use crate::drying::{is_wet, replay_hours, replay_of, timed, SURFACE_WETTED_MM};
use crate::frost::HourlyObservation;
use crate::reading::{Measured, Reading, ZERO};
use crate::time::{is_instant, Date, LocalClock};

pub mod laws;

verus! {

/// Some hour of the replay left the surface wet on that day.
pub open spec fn is_wet_day(
    hours: Seq<HourlyConditions>,
    water: Seq<Reading>,
    clock: LocalClock,
    day: int,
) -> bool {
    exists|i: int|
        #![trigger hours[i]]
        0 <= i < hours.len() && is_wet(water[i]) && clock.local_day(hours[i].time as int) == day
}

/// `days` are the wet days, each once, in order.
pub open spec fn are_wet_days(
    days: Seq<Date>,
    hours: Seq<HourlyConditions>,
    water: Seq<Reading>,
    clock: LocalClock,
) -> bool {
    &&& forall|k: int|
        0 <= k < days.len() ==> is_wet_day(
            hours,
            water,
            clock,
            (#[trigger] days[k]).day_number as int,
        )
    &&& in_date_order(days)
    &&& forall|i: int|
        #![trigger hours[i]]
        0 <= i < hours.len() && is_wet(water[i]) ==> lists_day(
            days,
            clock.local_day(hours[i].time as int),
        )
}

/// The wet days, in order.
pub open spec fn wet_days_of(
    hours: Seq<HourlyConditions>,
    water: Seq<Reading>,
    clock: LocalClock,
) -> Seq<Date> {
    choose|days: Seq<Date>| are_wet_days(days, hours, water, clock)
}

/// Each date lies after the one before.
pub open spec fn in_date_order(days: Seq<Date>) -> bool {
    forall|k: int, l: int|
        0 <= k < l < days.len() ==> (#[trigger] days[k]).day_number < (
        #[trigger] days[l]).day_number
}

pub open spec fn lists_day(days: Seq<Date>, day: int) -> bool {
    exists|k: int| 0 <= k < days.len() && (#[trigger] days[k]).day_number == day
}

/// Add a date to dates in order, unless it is among them.
fn add_date(days: &mut Vec<Date>, date: Date)
    requires
        in_date_order(old(days)@),
        old(days)@.len() < usize::MAX,
    ensures
        in_date_order(final(days)@),
        final(days)@.len() <= old(days)@.len() + 1,
        lists_day(final(days)@, date.day_number as int),
        forall|d: int| #[trigger] lists_day(old(days)@, d) ==> lists_day(final(days)@, d),
        forall|k: int|
            0 <= k < final(days)@.len() ==> (#[trigger] final(days)@[k]) == date
                || old(days)@.contains(final(days)@[k]),
{
    let ghost before = days@;
    let mut at: usize = days.len();
    while at > 0 && days[at - 1].day_number >= date.day_number
        invariant
            at <= days.len(),
            days@ == before,
            in_date_order(before),
            forall|k: int|
                at <= k < before.len() ==> (#[trigger] before[k]).day_number >= date.day_number,
        decreases at,
    {
        at = at - 1;
    }
    if at < days.len() && days[at].day_number == date.day_number {
        proof {
            assert(before[at as int].day_number == date.day_number);
        }
        return ;
    }
    days.insert(at, date);
    proof {
        let after = days@;
        assert forall|k: int, l: int| 0 <= k < l < after.len() implies (
        #[trigger] after[k]).day_number < (#[trigger] after[l]).day_number by {
            if k > at {
                assert(after[k] == before[k - 1] && after[l] == before[l - 1]);
            } else if l > at {
                assert(after[l] == before[l - 1]);
                if k < at {
                    assert(after[k] == before[k]);
                } else if l - 1 > at {
                    assert(before[at as int].day_number < before[l - 1].day_number);
                }
            } else if l == at {
                assert(after[k] == before[k]);
                if k < at - 1 {
                    assert(before[k].day_number < before[at - 1].day_number);
                }
            } else {
                assert(after[k] == before[k] && after[l] == before[l]);
            }
        }
        assert(after[at as int] == date);
        assert forall|d: int| #[trigger] lists_day(before, d) implies lists_day(after, d) by {
            let k = choose|k: int| 0 <= k < before.len() && (#[trigger] before[k]).day_number == d;
            if k < at {
                assert(after[k] == before[k]);
            } else {
                assert(after[k + 1] == before[k]);
            }
        }
        assert forall|k: int| 0 <= k < after.len() implies (#[trigger] after[k]) == date
            || before.contains(after[k]) by {
            if k < at {
                assert(after[k] == before[k]);
            } else if k > at {
                assert(after[k] == before[k - 1]);
            }
        }
    }
}

/// The local dates on which the surface was wet. `water` is what each hour of
/// [`replay_hours`] left on the surface.
pub fn wet_days(
    history: &Vec<HourlyObservation>,
    water: &Vec<Reading>,
    clock: &LocalClock,
) -> (days: Vec<Date>)
    requires
        timed(history@),
        clock.valid(),
        water@.len() == replay_of(history@).len(),
    ensures
        are_wet_days(days@, replay_of(history@), water@, *clock),
        days@ == wet_days_of(replay_of(history@), water@, *clock),
{
    let hours = replay_hours(history);
    let mut days: Vec<Date> = Vec::new();
    let mut i: usize = 0;
    proof {
        laws::a_replay_happens_at_instants(history@);
    }
    while i < hours.len()
        invariant
            i <= hours.len(),
            clock.valid(),
            water@.len() == hours@.len(),
            days@.len() <= i,
            in_date_order(days@),
            forall|k: int|
                0 <= k < hours@.len() ==> is_instant((#[trigger] hours@[k]).time as int),
            forall|k: int|
                0 <= k < days@.len() ==> is_wet_day(
                    hours@,
                    water@,
                    *clock,
                    (#[trigger] days@[k]).day_number as int,
                ),
            forall|k: int|
                #![trigger hours@[k]]
                0 <= k < i && is_wet(water@[k]) ==> lists_day(
                    days@,
                    clock.local_day(hours@[k].time as int),
                ),
        decreases hours.len() - i,
    {
        if water[i] >= SURFACE_WETTED_MM {
            let date = clock.date_of(hours[i].time);
            let ghost before = days@;
            add_date(&mut days, date);
            proof {
                assert(is_wet_day(hours@, water@, *clock, date.day_number as int)) by {
                    assert(clock.local_day(hours@[i as int].time as int) == date.day_number);
                }
                assert forall|k: int| 0 <= k < days@.len() implies is_wet_day(
                    hours@,
                    water@,
                    *clock,
                    (#[trigger] days@[k]).day_number as int,
                ) by {
                    if days@[k] != date {
                        assert(before.contains(days@[k]));
                    }
                }
            }
        }
        i = i + 1;
    }
    proof {
        laws::the_wet_days_are_unique(
            days@,
            wet_days_of(hours@, water@, *clock),
            hours@,
            water@,
            *clock,
        );
    }
    days
}

// ---- Rain by day ----

/// The observation reports rain that fell on that day.
pub open spec fn rained_on(h: HourlyObservation, clock: LocalClock, day: int) -> bool {
    &&& h.precip_mm is Some
    &&& h.precip_mm->0 > ZERO
    &&& clock.local_day(h.time as int) == day
}

/// The hourly amounts that fell on that day, in their order.
pub open spec fn amounts_on(
    history: Seq<HourlyObservation>,
    clock: LocalClock,
    day: int,
) -> Seq<Reading> {
    history.filter(|h: HourlyObservation| rained_on(h, clock, day)).map_values(
        |h: HourlyObservation| h.precip_mm->0,
    )
}

/// The days on which some rain was observed.
pub open spec fn rainy_among(
    days: Seq<Date>,
    history: Seq<HourlyObservation>,
    clock: LocalClock,
) -> Seq<Date> {
    days.filter(|d: Date| amounts_on(history, clock, d.day_number as int).len() > 0)
}

/// The rain of one day, hour by hour.
#[derive(Debug, PartialEq, Eq)]
pub struct DayRain {
    pub date: Date,
    pub amounts: Vec<Reading>,
}

fn rain_on(history: &Vec<HourlyObservation>, clock: &LocalClock, date: Date) -> (amounts: Vec<
    Reading,
>)
    requires
        timed(history@),
        clock.valid(),
    ensures
        amounts@ == amounts_on(history@, *clock, date.day_number as int),
{
    let ghost day = date.day_number as int;
    let ghost keep = |h: HourlyObservation| rained_on(h, *clock, day);
    let ghost pick = |h: HourlyObservation| h.precip_mm->0;
    let mut amounts: Vec<Reading> = Vec::new();
    let mut i: usize = 0;
    proof {
        reveal(Seq::filter);
        assert(history@.take(0).filter(keep).map_values(pick) =~= Seq::empty());
    }
    while i < history.len()
        invariant
            i <= history.len(),
            timed(history@),
            clock.valid(),
            day == date.day_number,
            keep == (|h: HourlyObservation| rained_on(h, *clock, day)),
            pick == (|h: HourlyObservation| h.precip_mm->0),
            amounts@ == history@.take(i as int).filter(keep).map_values(pick),
        decreases history.len() - i,
    {
        let ghost after = history@.take(i + 1).filter(keep);
        proof {
            reveal(Seq::filter);
            assert(history@.take(i + 1).drop_last() =~= history@.take(i as int));
            assert(history@.take(i + 1).last() == history@[i as int]);
        }
        match history[i].precip_mm {
            Some(mm) => {
                if mm > ZERO && clock.date_of(history[i].time).day_number == date.day_number {
                    amounts.push(mm);
                    proof {
                        assert(amounts@ =~= after.map_values(pick));
                    }
                }
            },
            None => {},
        }
        i = i + 1;
    }
    proof {
        assert(history@.take(history.len() as int) =~= history@);
    }
    amounts
}

/// `rain` lists the amounts of those of `days` on which rain was observed.
pub open spec fn is_rain_of(
    rain: Seq<DayRain>,
    days: Seq<Date>,
    history: Seq<HourlyObservation>,
    clock: LocalClock,
) -> bool {
    let rainy = rainy_among(days, history, clock);
    &&& rain.len() == rainy.len()
    &&& forall|k: int|
        0 <= k < rain.len() ==> (#[trigger] rain[k]).date == rainy[k] && rain[k].amounts@
            == amounts_on(history, clock, rainy[k].day_number as int)
}

/// The amounts of those of `days` on which rain was observed.
pub fn rain_by_day(
    history: &Vec<HourlyObservation>,
    days: &Vec<Date>,
    clock: &LocalClock,
) -> (rain: Vec<DayRain>)
    requires
        timed(history@),
        clock.valid(),
    ensures
        is_rain_of(rain@, days@, history@, *clock),
{
    let ghost keep = |d: Date| amounts_on(history@, *clock, d.day_number as int).len() > 0;
    let mut rain: Vec<DayRain> = Vec::new();
    let mut i: usize = 0;
    proof {
        reveal(Seq::filter);
        assert(days@.take(0).filter(keep) =~= Seq::empty());
    }
    while i < days.len()
        invariant
            i <= days.len(),
            timed(history@),
            clock.valid(),
            keep == (|d: Date| amounts_on(history@, *clock, d.day_number as int).len() > 0),
            rain@.len() == days@.take(i as int).filter(keep).len(),
            forall|k: int|
                0 <= k < rain@.len() ==> (#[trigger] rain@[k]).date == days@.take(i as int).filter(
                    keep,
                )[k],
            forall|k: int|
                0 <= k < rain@.len() ==> (#[trigger] rain@[k]).amounts@ == amounts_on(
                    history@,
                    *clock,
                    rain@[k].date.day_number as int,
                ),
        decreases days.len() - i,
    {
        proof {
            reveal(Seq::filter);
            assert(days@.take(i + 1).drop_last() =~= days@.take(i as int));
            assert(days@.take(i + 1).last() == days@[i as int]);
        }
        let amounts = rain_on(history, clock, days[i]);
        if amounts.len() > 0 {
            rain.push(DayRain { date: days[i], amounts });
        }
        i = i + 1;
    }
    proof {
        assert(days@.take(days.len() as int) =~= days@);
    }
    rain
}

// ---- The rollup ----

/// Position `k` has the most rain, and is the last such.
pub open spec fn is_wettest(totals: Seq<Measured>, k: int) -> bool {
    &&& 0 <= k < totals.len()
    &&& forall|j: int| 0 <= j < totals.len() ==> (#[trigger] totals[j]).reading <= totals[k].reading
    &&& forall|j: int| k < j < totals.len() ==> (#[trigger] totals[j]).reading < totals[k].reading
}

/// `h` rolls up the rain of `history`, given the total of every rainy wet day.
pub open spec fn is_rain_history(
    h: RainHistory,
    history: Seq<HourlyObservation>,
    days: Seq<Date>,
    clock: LocalClock,
    day_totals: Seq<Measured>,
    total: Measured,
    lookback_hours: i64,
) -> bool {
    let rainy = rainy_among(days, history, clock);
    &&& h.rain_days == days.len()
    &&& h.lookback_hours == lookback_hours
    &&& if rainy.len() == 0 {
        &&& h.total_mm.reading == ZERO
        &&& h.total_mm.text@ == "0.0"@
        &&& h.wettest_day.day_number == clock.local_day(history.last().time as int)
        &&& h.wettest_day_mm.reading == ZERO
        &&& h.wettest_day_mm.text@ == "0.0"@
    } else {
        &&& h.total_mm == total
        &&& exists|k: int|
            #![trigger rainy[k]]
            is_wettest(day_totals, k) && h.wettest_day == rainy[k] && h.wettest_day_mm
                == day_totals[k]
    }
}

fn nothing_measured() -> (zero: Measured)
    ensures
        zero.reading == ZERO,
        zero.text@ == "0.0"@,
{
    Measured { reading: ZERO, text: "0.0".to_owned() }
}

/// Roll observations up into a [`RainHistory`]; nothing where there are none.
/// `water` is what each hour of [`replay_hours`] left on the surface,
/// `day_totals` the rain of each day of [`rain_by_day`] over the wet days, and
/// `total` the rain of them all.
pub fn compute_rain_history(
    history: &Vec<HourlyObservation>,
    water: &Vec<Reading>,
    clock: &LocalClock,
    day_totals: Vec<Measured>,
    total: Measured,
    lookback_hours: i64,
) -> (rolled: Option<RainHistory>)
    requires
        timed(history@),
        clock.valid(),
        water@.len() == replay_of(history@).len(),
        day_totals@.len() == rainy_among(
            wet_days_of(replay_of(history@), water@, *clock),
            history@,
            *clock,
        ).len(),
    ensures
        rolled is None <==> history@.len() == 0,
        rolled matches Some(h) ==> is_rain_history(
            h,
            history@,
            wet_days_of(replay_of(history@), water@, *clock),
            *clock,
            day_totals@,
            total,
            lookback_hours,
        ),
{
    if history.len() == 0 {
        return None;
    }
    let days = wet_days(history, water, clock);
    proof {
        laws::wet_days_fit_the_calendar(days@, history@, water@, *clock);
    }
    let rain_days: u32 = days.len() as u32;
    let rain = rain_by_day(history, &days, clock);
    if rain.len() == 0 {
        let wettest_day = clock.date_of(history[history.len() - 1].time);
        return Some(
            RainHistory {
                total_mm: nothing_measured(),
                wettest_day_mm: nothing_measured(),
                wettest_day,
                rain_days,
                lookback_hours,
            },
        );
    }
    let mut at: usize = 0;
    let mut i: usize = 1;
    while i < rain.len()
        invariant
            at < i <= rain.len(),
            rain.len() == day_totals.len(),
            forall|j: int|
                0 <= j < i ==> (#[trigger] day_totals@[j]).reading <= day_totals@[at as int].reading,
            forall|j: int|
                at < j < i ==> (#[trigger] day_totals@[j]).reading < day_totals@[at as int].reading,
        decreases rain.len() - i,
    {
        if day_totals[i].reading >= day_totals[at].reading {
            at = i;
        }
        i = i + 1;
    }
    let ghost totals = day_totals@;
    let ghost rainy = rainy_among(days@, history@, *clock);
    let wettest_day = rain[at].date;
    let mut day_totals = day_totals;
    let wettest_day_mm = day_totals.swap_remove(at);
    proof {
        assert(is_wettest(totals, at as int));
        assert(wettest_day == rainy[at as int]);
    }
    Some(
        RainHistory { total_mm: total, wettest_day_mm, wettest_day, rain_days, lookback_hours },
    )
}

} // verus!
