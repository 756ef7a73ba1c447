//! What holds of every choice of windows.
use vstd::prelude::*;

use crate::config::{is_place_named, knows_place, Config, DaytimeWindow, Place, WorkHoursConfig};
use crate::reading::{Measured, Reading};
use crate::text::trimmed;
use crate::time::{weekday_index, Date, RideWindow, HOUR};
use crate::windows::{
    clock_time_of, day_window, days_looked_at, fits_daytime, is_cut, is_day_shown, is_day_windows,
    is_first_hyphen, is_location, is_mapped, is_range_outcome, is_work_day, place_drainage,
    place_source, radius_or, shown_days, utc_of, whole_hour_from, work_windows, DayBounds,
    DayWindow, LocalMapping, LocalMoment, Location, LocationError, WindowError, DEFAULT_RADIUS_KM,
};

verus! {

/// The next whole hour is a whole hour, not before `t` and less than an hour
/// after it.
pub proof fn whole_hours_are_whole(t: int)
    ensures
        whole_hour_from(t) % (HOUR as int) == 0,
        t <= whole_hour_from(t) < t + HOUR,
{
    let q = t / 3_600_000_000_000int;
    assert(((q + 1) * 3_600_000_000_000int) % 3_600_000_000_000int == 0);
}

/// A shown day starts no earlier than now, is not over, and still holds a
/// whole forecast hour; its date is the first date plus its offset.
pub open spec fn is_sound(w: DayWindow, first: Date, now: int) -> bool {
    &&& now <= w.window.start
    &&& now < w.window.end
    &&& whole_hour_from(w.window.start as int) < w.window.end
    &&& first.day_number <= w.date.day_number
}

proof fn lemma_shown_days(first: Date, bounds: Seq<DayBounds>, now: int, offset: int)
    requires
        0 <= offset <= bounds.len(),
        first.day_number + offset <= i32::MAX,
        forall|i: int|
            0 <= i < offset ==> i128::MIN <= crate::windows::utc_of(
                (#[trigger] bounds[i]).start,
            )->Ok_0 <= i128::MAX && i128::MIN <= crate::windows::utc_of(bounds[i].end)->Ok_0
                <= i128::MAX,
        i128::MIN <= now <= i128::MAX,
    ensures
        shown_days(first, bounds, now, offset).len() <= offset,
        forall|k: int|
            0 <= k < shown_days(first, bounds, now, offset).len() ==> is_sound(
                #[trigger] shown_days(first, bounds, now, offset)[k],
                first,
                now,
            ) && shown_days(first, bounds, now, offset)[k].date.day_number < first.day_number
                + offset,
        forall|k: int, l: int|
            0 <= k < l < shown_days(first, bounds, now, offset).len() ==> (
            #[trigger] shown_days(first, bounds, now, offset)[k]).date.day_number < (
            #[trigger] shown_days(first, bounds, now, offset)[l]).date.day_number,
    decreases offset,
{
    if offset > 0 {
        lemma_shown_days(first, bounds, now, offset - 1);
        let before = shown_days(first, bounds, now, offset - 1);
        let after = shown_days(first, bounds, now, offset);
        let b = bounds[offset - 1];
        if is_day_shown(b, now) {
            let w = day_window(first, offset - 1, b, now);
            assert(after == before.push(w));
            assert(is_sound(w, first, now));
            assert forall|k: int| 0 <= k < after.len() implies is_sound(
                #[trigger] after[k],
                first,
                now,
            ) && after[k].date.day_number < first.day_number + offset by {
                if k < before.len() {
                    assert(after[k] == before[k]);
                }
            }
            assert forall|k: int, l: int| 0 <= k < l < after.len() implies (
            #[trigger] after[k]).date.day_number < (#[trigger] after[l]).date.day_number by {
                assert(after[k] == before[k]);
                if l < before.len() {
                    assert(after[l] == before[l]);
                }
            }
        }
    }
}

/// Built day windows are at most as many as asked for, lie in the future, hold
/// a forecast hour each, and follow each other by date.
pub proof fn day_windows_lie_ahead(
    days: Vec<DayWindow>,
    first: Date,
    n: int,
    bounds: Seq<DayBounds>,
    now: int,
    k: int,
    l: int,
)
    requires
        is_day_windows(Ok(days), first, n, bounds, now),
        bounds.len() == days_looked_at(n),
        first.day_number + bounds.len() <= i32::MAX,
        i128::MIN <= now <= i128::MAX,
        0 <= k <= l < days@.len(),
    ensures
        days@.len() <= n,
        is_sound(days@[k], first, now),
        is_sound(days@[l], first, now),
        k < l ==> days@[k].date.day_number < days@[l].date.day_number,
{
    let offset = choose|offset: int|
        {
            &&& 0 <= offset <= days_looked_at(n)
            &&& forall|i: int| 0 <= i < offset ==> crate::windows::is_mapped(#[trigger] bounds[i])
            &&& days@ == #[trigger] shown_days(first, bounds, now, offset)
            &&& days@.len() <= n
            &&& days@.len() == n || offset == days_looked_at(n)
        };
    assert forall|i: int| 0 <= i < offset implies i128::MIN <= crate::windows::utc_of(
        (#[trigger] bounds[i]).start,
    )->Ok_0 <= i128::MAX && i128::MIN <= crate::windows::utc_of(bounds[i].end)->Ok_0
        <= i128::MAX by {
        assert(crate::windows::is_mapped(bounds[i]));
    }
    lemma_shown_days(first, bounds, now, offset);
}

// ---- Which days are shown ----

/// A wall-clock time that happens once has its instant; one that the clock skips
/// and one that happens twice are refused, and each is named.
pub proof fn a_wall_clock_time_needs_one_instant(moment: LocalMoment, other: LocalMoment)
    ensures
        moment.mapping matches LocalMapping::Single(t) ==> utc_of(moment) == Ok::<int, Seq<char>>(
            t as int,
        ),
        moment.mapping == LocalMapping::Missing || moment.mapping == LocalMapping::Ambiguous
            ==> utc_of(moment) is Err,
        moment.mapping == LocalMapping::Missing && other.mapping == LocalMapping::Missing
            && moment.naive@.len() == other.naive@.len() && utc_of(moment)->Err_0 == utc_of(
            other,
        )->Err_0 ==> moment.naive@ == other.naive@,
{
    if moment.mapping == LocalMapping::Missing && other.mapping == LocalMapping::Missing
        && moment.naive@.len() == other.naive@.len() && utc_of(moment)->Err_0 == utc_of(
        other,
    )->Err_0 {
        let before = "lokal tid "@;
        let a = utc_of(moment)->Err_0;
        let b = utc_of(other)->Err_0;
        let n = moment.naive@.len() as int;
        let at = before.len() as int;
        assert(a.subrange(at, at + n) =~= moment.naive@);
        assert(b.subrange(at, at + n) =~= other.naive@);
    }
}

/// Some whole hour starts between the later of `start` and `now` and `end`.
pub open spec fn leaves_an_hour(start: int, end: int, now: int) -> bool {
    exists|t: int|
        {
            &&& #[trigger] (t % 3_600_000_000_000) == 0
            &&& start <= t
            &&& now <= t
            &&& t < end
        }
}

proof fn lemma_shown_iff(b: DayBounds, now: int, s: i128, e: i128)
    requires
        b.start.mapping == LocalMapping::Single(s),
        b.end.mapping == LocalMapping::Single(e),
    ensures
        is_day_shown(b, now) <==> leaves_an_hour(s as int, e as int, now),
{
    let from = if s < now {
        now
    } else {
        s as int
    };
    whole_hours_are_whole(from);
    let w = whole_hour_from(from);
    if is_day_shown(b, now) {
        assert(w % 3_600_000_000_000 == 0);
    }
    if leaves_an_hour(s as int, e as int, now) {
        let t = choose|t: int|
            #[trigger] (t % 3_600_000_000_000) == 0 && s <= t && now <= t && t < e;
        if t < w {
            assert(from <= t < w < from + 3_600_000_000_000);
            assert((w - t) % 3_600_000_000_000 == 0);
        }
    }
}

proof fn lemma_shown_from(first: Date, bounds: Seq<DayBounds>, now: int, offset: int, k: int) -> (d:
    int)
    requires
        0 <= k < shown_days(first, bounds, now, offset).len(),
    ensures
        0 <= d < offset,
        is_day_shown(bounds[d], now),
        shown_days(first, bounds, now, offset)[k] == day_window(first, d, bounds[d], now),
    decreases offset,
{
    let before = shown_days(first, bounds, now, offset - 1);
    if k < before.len() {
        lemma_shown_from(first, bounds, now, offset - 1, k)
    } else {
        offset - 1
    }
}

proof fn lemma_shown_has(first: Date, bounds: Seq<DayBounds>, now: int, offset: int, d: int) -> (k:
    int)
    requires
        0 <= d < offset,
        is_day_shown(bounds[d], now),
    ensures
        0 <= k < shown_days(first, bounds, now, offset).len(),
        shown_days(first, bounds, now, offset)[k] == day_window(first, d, bounds[d], now),
    decreases offset,
{
    let before = shown_days(first, bounds, now, offset - 1);
    if d == offset - 1 {
        before.len() as int
    } else {
        lemma_shown_has(first, bounds, now, offset - 1, d)
    }
}

/// The window of a shown day is the daytime of its date, cut off at now: it ends
/// when the daytime does, and starts with it, or now where that is later.
pub proof fn a_day_window_is_the_rest_of_its_daytime(
    days: Vec<DayWindow>,
    first: Date,
    n: int,
    bounds: Seq<DayBounds>,
    now: int,
    k: int,
)
    requires
        is_day_windows(Ok(days), first, n, bounds, now),
        0 <= n,
        bounds.len() == days_looked_at(n),
        i32::MIN <= first.day_number && first.day_number + bounds.len() <= i32::MAX,
        i128::MIN <= now <= i128::MAX,
        0 <= k < days@.len(),
    ensures
        exists|d: int|
            {
                &&& 0 <= d < bounds.len()
                &&& days@[k].date.day_number == first.day_number + d
                &&& (#[trigger] bounds[d]).end.mapping == LocalMapping::Single(days@[k].window.end)
                &&& bounds[d].start.mapping matches LocalMapping::Single(s) && {
                    &&& s <= days@[k].window.start
                    &&& now <= days@[k].window.start
                    &&& days@[k].window.start == s || days@[k].window.start == now
                    &&& leaves_an_hour(s as int, days@[k].window.end as int, now)
                }
            },
{
    let offset = choose|offset: int|
        {
            &&& 0 <= offset <= days_looked_at(n)
            &&& forall|i: int| 0 <= i < offset ==> is_mapped(#[trigger] bounds[i])
            &&& days@ == #[trigger] shown_days(first, bounds, now, offset)
            &&& days@.len() <= n
            &&& days@.len() == n || offset == days_looked_at(n)
        };
    let d = lemma_shown_from(first, bounds, now, offset, k);
    assert(is_mapped(bounds[d]));
    let s = match bounds[d].start.mapping {
        LocalMapping::Single(s) => s,
        _ => 0i128,
    };
    let e = match bounds[d].end.mapping {
        LocalMapping::Single(e) => e,
        _ => 0i128,
    };
    lemma_shown_iff(bounds[d], now, s, e);
}

/// No day is left out: a day of which a whole hour is left is shown, unless
/// enough earlier ones are.
pub proof fn every_day_with_an_hour_left_is_shown(
    days: Vec<DayWindow>,
    first: Date,
    n: int,
    bounds: Seq<DayBounds>,
    now: int,
    d: int,
    s: i128,
    e: i128,
)
    requires
        is_day_windows(Ok(days), first, n, bounds, now),
        0 <= n,
        bounds.len() == days_looked_at(n),
        i32::MIN <= first.day_number && first.day_number + bounds.len() <= i32::MAX,
        i128::MIN <= now <= i128::MAX,
        0 <= d < bounds.len(),
        bounds[d].start.mapping == LocalMapping::Single(s),
        bounds[d].end.mapping == LocalMapping::Single(e),
        leaves_an_hour(s as int, e as int, now),
    ensures
        (exists|k: int|
            0 <= k < days@.len() && (#[trigger] days@[k]).date.day_number == first.day_number + d)
            || (days@.len() == n && forall|k: int|
            0 <= k < days@.len() ==> (#[trigger] days@[k]).date.day_number < first.day_number + d),
{
    let offset = choose|offset: int|
        {
            &&& 0 <= offset <= days_looked_at(n)
            &&& forall|i: int| 0 <= i < offset ==> is_mapped(#[trigger] bounds[i])
            &&& days@ == #[trigger] shown_days(first, bounds, now, offset)
            &&& days@.len() <= n
            &&& days@.len() == n || offset == days_looked_at(n)
        };
    lemma_shown_iff(bounds[d], now, s, e);
    if d < offset {
        let k = lemma_shown_has(first, bounds, now, offset, d);
        assert(days@[k].date.day_number == first.day_number + d);
    } else {
        assert forall|k: int| 0 <= k < days@.len() implies (#[trigger] days@[k]).date.day_number
            < first.day_number + d by {
            let c = lemma_shown_from(first, bounds, now, offset, k);
        }
    }
}

/// One day more than asked for is looked at, since today may be over, but never
/// more than the nine days of the forecast, unless more were asked for.
pub proof fn one_more_day_is_looked_at(n: int)
    ensures
        n < 9 ==> days_looked_at(n) == n + 1,
        n >= 9 ==> days_looked_at(n) == n,
{
}

/// An hour is a column of the grid exactly when all of it lies in the daytime.
pub proof fn columns_lie_in_the_daytime(daytime: DaytimeWindow, hour: int)
    ensures
        fits_daytime(daytime, hour) <==> 60 * daytime.start.hour + daytime.start.minute <= 60 * hour
            && 60 * hour + 60 <= 60 * daytime.end.hour + daytime.end.minute,
{
}

// ---- Work hours ----

/// Work hours are kept clear on work days only, on all of them whose hours the
/// clock has, and at those hours.
pub proof fn work_hours_are_those_of_work_days(
    first: Date,
    work_hours: WorkHoursConfig,
    bounds: Seq<DayBounds>,
    offset: int,
    w: RideWindow,
)
    requires
        0 <= offset <= bounds.len(),
    ensures
        work_windows(first, work_hours, bounds, offset).contains(w) <==> exists|d: int|
            {
                &&& 0 <= d < offset
                &&& (#[trigger] bounds[d]).start.mapping == LocalMapping::Single(w.start)
                &&& bounds[d].end.mapping == LocalMapping::Single(w.end)
                &&& exists|i: int|
                    0 <= i < work_hours.days@.len() && (#[trigger] work_hours.days@[i]).index()
                        == weekday_index(first.day_number + d)
            },
    decreases offset,
{
    let list = work_windows(first, work_hours, bounds, offset);
    if offset > 0 {
        let before = work_windows(first, work_hours, bounds, offset - 1);
        work_hours_are_those_of_work_days(first, work_hours, bounds, offset - 1, w);
        let b = bounds[offset - 1];
        let works = is_work_day(work_hours.days@, first.day_number + offset - 1);
        if list.contains(w) && !before.contains(w) {
            let i = choose|i: int| 0 <= i < list.len() && list[i] == w;
            assert(i == before.len());
            assert(works && is_mapped(b));
            assert(bounds[offset - 1].start.mapping == LocalMapping::Single(w.start));
        }
        if before.contains(w) {
            let i = choose|i: int| 0 <= i < before.len() && before[i] == w;
            assert(list[i] == w);
        } else if works && b.start.mapping == LocalMapping::Single(w.start) && b.end.mapping
            == LocalMapping::Single(w.end) {
            assert(list[before.len() as int] == w);
        }
    }
}

// ---- Where and when ----

/// Coordinates go together, exclude a place and win over the default place; the
/// radius asked for wins over the usual one.
pub proof fn coordinates_are_taken_as_given(
    result: Result<Location, LocationError>,
    config: Config,
    lat: Option<Measured>,
    lon: Option<Measured>,
    place: Option<String>,
    radius_km: Option<Reading>,
)
    requires
        is_location(result, config, lat, lon, place, radius_km),
    ensures
        (lat is Some || lon is Some) && place is Some ==> result == Err::<Location, LocationError>(
            LocationError::MutuallyExclusive,
        ),
        lat is Some != lon is Some && place is None ==> result == Err::<Location, LocationError>(
            LocationError::OneCoordinate,
        ),
        lat is Some && lon is Some && place is None ==> {
            &&& result is Ok
            &&& result->Ok_0.center.lat == lat->0.reading
            &&& result->Ok_0.center.lon == lon->0.reading
            &&& radius_km is Some ==> result->Ok_0.radius_km == radius_km->0
            &&& radius_km is None ==> result->Ok_0.radius_km == DEFAULT_RADIUS_KM
        },
        lat is None && lon is None && place is None && config.default_place is None ==> result
            == Err::<Location, LocationError>(LocationError::NothingGiven),
{
}

/// A place is looked up by its name: that given, else the default. The first
/// place of that name counts, with its own radius unless another is asked for;
/// a name that no place has is refused.
pub proof fn places_are_looked_up_by_name(
    result: Result<Location, LocationError>,
    config: Config,
    place: Option<String>,
    radius_km: Option<Reading>,
    name: Seq<char>,
    i: int,
)
    requires
        is_location(result, config, None, None, place, radius_km),
        place is Some ==> name == place->0@,
        place is None ==> config.default_place is Some && name == config.default_place->0@,
    ensures
        0 <= i < config.places@.len() && config.places@[i].name@ == name && (forall|j: int|
            0 <= j < i ==> (#[trigger] config.places@[j]).name@ != name) ==> {
            &&& result is Ok
            &&& result->Ok_0.name@ == name
            &&& result->Ok_0.center == config.places@[i].center
            &&& radius_km is Some ==> result->Ok_0.radius_km == radius_km->0
            &&& radius_km is None ==> result->Ok_0.radius_km == config.places@[i].radius_km
        },
        (forall|j: int| 0 <= j < config.places@.len() ==> (#[trigger] config.places@[j]).name@ != name)
            ==> (result matches Err(LocationError::UnknownPlace(said)) && said@ == name),
{
    if 0 <= i < config.places@.len() && config.places@[i].name@ == name && (forall|j: int|
        0 <= j < i ==> (#[trigger] config.places@[j]).name@ != name) {
        assert(is_place_named(config.places@, name, i));
        assert(knows_place(config.places@, name));
        let l = choose|l: int|
            #![trigger config.places@[l]]
            is_place_named(config.places@, name, l) && result->Ok_0.name@ == name
                && result->Ok_0.center == config.places@[l].center && result->Ok_0.radius_km
                == radius_or(radius_km, config.places@[l].radius_km);
        assert(l == i);
    }
}

/// A window argument is cut at its first hyphen, and read as the two times of
/// day before and behind it, blanks aside.
pub proof fn a_range_is_cut_at_its_first_hyphen(
    result: Result<DaytimeWindow, WindowError>,
    start: Seq<char>,
    end: Seq<char>,
)
    requires
        !start.contains('-'),
        is_range_outcome(
            result,
            start,
            end,
            clock_time_of(trimmed(start)),
            clock_time_of(trimmed(end)),
        ),
    ensures
        is_cut(start, end, start + seq!['-'] + end),
        clock_time_of(trimmed(start)) is None ==> result is Err,
        clock_time_of(trimmed(end)) is None ==> result is Err,
        clock_time_of(trimmed(start)) matches Some(s) ==> (clock_time_of(
            trimmed(end),
        ) matches Some(e) ==> {
            &&& result is Ok
            &&& result->Ok_0.start.hour == s.0
            &&& result->Ok_0.start.minute == s.1
            &&& result->Ok_0.end.hour == e.0
            &&& result->Ok_0.end.minute == e.1
        }),
{
    let whole = start + seq!['-'] + end;
    let i = start.len() as int;
    assert(whole[i] == '-');
    assert forall|j: int| 0 <= j < i implies #[trigger] whole[j] != '-' by {
        assert(whole[j] == start[j]);
    }
    assert(is_first_hyphen(whole, i));
    assert(whole.subrange(0, i) =~= start);
    assert(whole.subrange(i + 1, whole.len() as int) =~= end);
}

/// The Frost source and the drainage of a place are its own where it names them;
/// of a name that no place has, nothing is known.
pub proof fn a_place_names_its_source_and_drainage(places: Seq<Place>, name: Seq<char>, i: int)
    ensures
        0 <= i < places.len() && places[i].name@ == name && (forall|j: int|
            0 <= j < i ==> (#[trigger] places[j]).name@ != name) ==> {
            &&& places[i].frost_source_id is Some ==> place_source(places, name) == Some(
                places[i].frost_source_id->0@,
            )
            &&& places[i].frost_source_id is None ==> place_source(places, name) is None
            &&& place_drainage(places, name) == places[i].drainage
        },
        (forall|j: int| 0 <= j < places.len() ==> (#[trigger] places[j]).name@ != name)
            ==> place_source(places, name) is None && place_drainage(places, name) is None,
    decreases places.len(),
{
    if places.len() > 0 {
        let rest = places.drop_first();
        assert forall|j: int| 0 <= j < rest.len() implies #[trigger] rest[j] == places[j + 1] by {}
        a_place_names_its_source_and_drainage(rest, name, i - 1);
        if 0 < i < places.len() && places[i].name@ == name && (forall|j: int|
            0 <= j < i ==> (#[trigger] places[j]).name@ != name) {
            assert(places[0].name@ != name);
            assert forall|j: int| 0 <= j < i - 1 implies (#[trigger] rest[j]).name@ != name by {
                assert(places[j + 1].name@ != name);
            }
            assert(rest[i - 1] == places[i]);
        }
        if forall|j: int| 0 <= j < places.len() ==> (#[trigger] places[j]).name@ != name {
            assert(places[0].name@ != name);
            assert forall|j: int| 0 <= j < rest.len() implies (#[trigger] rest[j]).name@ != name by {
                assert(places[j + 1].name@ != name);
            }
        }
    }
}

} // verus!
