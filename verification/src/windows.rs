//! Ride windows from local time, and the choice of location.
//!
//! What the local clock says of a wall-clock time is asked outside and comes
//! in as a [`LocalMoment`].
use vstd::prelude::*;
use vstd::string::{StrSliceExecFns, StringExecFns};

use chrono::{NaiveTime, Timelike};

use crate::config::{
    is_place_named, knows_place, ClockTime, Config, DaytimeWindow, DrainageClass, Place, Point,
    WorkHoursConfig,
};
use crate::reading::{Measured, Reading};
use crate::text::{trim, trimmed};
use crate::time::{
    is_instant, weekday_index, Date, RideWindow, Weekday, FIRST_DATE, HOUR, LAST_DATE,
};

pub mod laws;

verus! {

/// The radar looks two hours ahead.
pub const NOWCAST_HORIZON: i128 = 7_200_000_000_000;

/// Default horizon when the user gives no time arguments: today plus the next
/// five days.
pub const DEFAULT_FORECAST_DAYS: u8 = 6;

/// Hard cap for `--days`, the published horizon of the forecast.
pub const MAX_FORECAST_DAYS: u8 = 9;

/// Hard cap for `--hours` and `--best-window`.
pub const MAX_HOURS: i64 = 24;

/// True when the window is not over yet and starts within the radar's horizon.
pub fn window_starts_within_nowcast_horizon(window: RideWindow, now: i128) -> (b: bool)
    requires
        is_instant(now as int),
    ensures
        b == (window.end > now && window.start <= now + NOWCAST_HORIZON),
{
    window.end > now && window.start <= now + NOWCAST_HORIZON
}

/// The whole hours that fit between two times of day.
pub open spec fn fits_daytime(daytime: DaytimeWindow, hour: int) -> bool {
    daytime.start.minutes() <= hour * 60 && (hour + 1) * 60 <= daytime.end.minutes()
}

/// Local-clock hours that an hourly grid labels as columns: each hour that
/// lies wholly inside the daytime window, in order.
pub fn daytime_header_hours(daytime: DaytimeWindow) -> (hours: Vec<u8>)
    requires
        daytime.valid(),
    ensures
        forall|i: int|
            0 <= i < hours@.len() ==> fits_daytime(daytime, (#[trigger] hours@[i]) as int),
        forall|h: int| #[trigger]
            fits_daytime(daytime, h) ==> exists|i: int|
                0 <= i < hours@.len() && #[trigger] hours@[i] == h,
        forall|i: int, j: int| 0 <= i < j < hours@.len() ==> hours@[i] < hours@[j],
{
    let first: u8 = if daytime.start.minute == 0 {
        daytime.start.hour
    } else {
        daytime.start.hour + 1
    };
    let last_end_hour: u8 = daytime.end.hour;
    let mut hours: Vec<u8> = Vec::new();
    let mut h: u8 = first;
    while h < last_end_hour
        invariant
            first <= h,
            h == first || h <= last_end_hour,
            hours@.len() == h - first,
            forall|i: int| 0 <= i < hours@.len() ==> #[trigger] hours@[i] == first + i,
        decreases last_end_hour - h,
    {
        hours.push(h);
        h = h + 1;
    }
    proof {
        assert forall|x: int| #[trigger] fits_daytime(daytime, x) implies exists|i: int|
            0 <= i < hours@.len() && #[trigger] hours@[i] == x by {
            assert(first <= x < last_end_hour);
            assert(hours@[x - first] == x);
        }
    }
    hours
}

// ---- Whole hours ----

/// The first whole hour that is not before `t`.
pub open spec fn whole_hour_from(t: int) -> int {
    if t % (HOUR as int) == 0 {
        t
    } else {
        (t / (HOUR as int) + 1) * HOUR
    }
}

pub fn next_whole_hour_at_or_after(t: i128) -> (hour: i128)
    requires
        is_instant(t as int),
    ensures
        hour == whole_hour_from(t as int),
{
    let past: i128 = t.checked_rem_euclid(HOUR).unwrap();
    if past == 0 {
        return t;
    }
    let whole: i128 = t.checked_div_euclid(HOUR).unwrap();
    (whole + 1) * HOUR
}

/// Whether a forecast hour starts inside `[start, end)`.
pub fn has_forecast_hour_in_window(start: i128, end: i128) -> (b: bool)
    requires
        is_instant(start as int),
    ensures
        b == (whole_hour_from(start as int) < end),
{
    next_whole_hour_at_or_after(start) < end
}

// ---- Local time ----

/// What the local clock says of a wall-clock time.
#[derive(Debug, Clone, Copy, PartialEq, Eq, Structural)]
pub enum LocalMapping {
    /// It happens once, at that instant.
    Single(i128),
    /// The clock skips it.
    Missing,
    /// It happens twice.
    Ambiguous,
}

/// A wall-clock time, in words, and what the local clock says of it.
#[derive(Debug, PartialEq, Eq)]
pub struct LocalMoment {
    pub naive: String,
    pub mapping: LocalMapping,
}

/// The instant of a wall-clock time, or why there is none.
pub open spec fn utc_of(moment: LocalMoment) -> Result<int, Seq<char>> {
    match moment.mapping {
        LocalMapping::Single(t) => Ok(t as int),
        LocalMapping::Missing => Err(
            "lokal tid "@ + moment.naive@
                + " finnes ikke (sommer-/vintertid-overgang); velg et tidspunkt før eller etter overgangen"@,
        ),
        LocalMapping::Ambiguous => Err(
            "lokal tid "@ + moment.naive@
                + " er tvetydig (forekommer to ganger ved sommer-/vintertid-overgang)"@,
        ),
    }
}

/// What a fallible instant stands for.
pub open spec fn instant_view(result: Result<i128, String>) -> Result<int, Seq<char>> {
    match result {
        Ok(t) => Ok(t as int),
        Err(why) => Err(why@),
    }
}

/// The instant of a wall-clock time. A time that does not exist and one that
/// happens twice are refused, each in its own words.
pub fn local_to_utc(moment: &LocalMoment) -> (result: Result<i128, String>)
    ensures
        instant_view(result) == utc_of(*moment),
{
    match moment.mapping {
        LocalMapping::Single(t) => Ok(t),
        LocalMapping::Missing => {
            let mut why = "lokal tid ".to_owned();
            why.append(moment.naive.as_str());
            why.append(
                " finnes ikke (sommer-/vintertid-overgang); velg et tidspunkt før eller etter overgangen",
            );
            Err(why)
        },
        LocalMapping::Ambiguous => {
            let mut why = "lokal tid ".to_owned();
            why.append(moment.naive.as_str());
            why.append(" er tvetydig (forekommer to ganger ved sommer-/vintertid-overgang)");
            Err(why)
        },
    }
}

// ---- Day windows ----

/// One day worth of forecast lookup: a local date and the window to score.
#[derive(Debug, Clone, Copy, PartialEq, Eq, Structural)]
pub struct DayWindow {
    pub date: Date,
    pub window: RideWindow,
}

/// Start and end of a day's hours on the local clock.
#[derive(Debug, PartialEq, Eq)]
pub struct DayBounds {
    pub start: LocalMoment,
    pub end: LocalMoment,
}

/// How many days from the first on are looked at: one more than asked for,
/// since today may already be over, within the published horizon.
pub open spec fn days_looked_at(n: int) -> int {
    if n < MAX_FORECAST_DAYS {
        n + 1
    } else {
        n
    }
}

/// How many days from the first on are looked at.
pub fn max_offsets(n: u8) -> (days: u8)
    ensures
        days == days_looked_at(n as int),
{
    if n < MAX_FORECAST_DAYS {
        n + 1
    } else {
        n
    }
}

/// The window of a day, clipped to `now`.
pub open spec fn clipped(start: int, end: int, now: int) -> (int, int) {
    (if start < now {
        now
    } else {
        start
    }, end)
}

/// Both bounds of the day exist.
pub open spec fn is_mapped(b: DayBounds) -> bool {
    utc_of(b.start) is Ok && utc_of(b.end) is Ok
}

/// The day is shown: it is not over, and what is left of it holds a whole
/// forecast hour.
pub open spec fn is_day_shown(b: DayBounds, now: int) -> bool {
    let w = clipped(utc_of(b.start)->Ok_0, utc_of(b.end)->Ok_0, now);
    w.1 > now && whole_hour_from(w.0) < w.1
}

/// The window of day `offset`.
pub open spec fn day_window(first: Date, offset: int, b: DayBounds, now: int) -> DayWindow {
    let w = clipped(utc_of(b.start)->Ok_0, utc_of(b.end)->Ok_0, now);
    DayWindow {
        date: Date { day_number: (first.day_number + offset) as i32 },
        window: RideWindow { start: w.0 as i128, end: w.1 as i128 },
    }
}

/// The windows of the days before `offset` that are shown.
pub open spec fn shown_days(first: Date, bounds: Seq<DayBounds>, now: int, offset: int) -> Seq<
    DayWindow,
>
    decreases offset,
{
    if offset <= 0 {
        Seq::empty()
    } else {
        let before = shown_days(first, bounds, now, offset - 1);
        if is_day_shown(bounds[offset - 1], now) {
            before.push(day_window(first, offset - 1, bounds[offset - 1], now))
        } else {
            before
        }
    }
}

/// Why a day has no window: the first of its bounds that does not exist.
pub open spec fn mapping_error(b: DayBounds) -> Seq<char> {
    if utc_of(b.start) is Err {
        utc_of(b.start)->Err_0
    } else {
        utc_of(b.end)->Err_0
    }
}

/// Days are looked at in order until `n` of them are shown or there are no
/// more; a bound that does not exist on one of these days is an error.
pub open spec fn is_day_windows(
    result: Result<Vec<DayWindow>, String>,
    first: Date,
    n: int,
    bounds: Seq<DayBounds>,
    now: int,
) -> bool {
    match result {
        Ok(days) => exists|offset: int|
            {
                &&& 0 <= offset <= days_looked_at(n)
                &&& forall|i: int| 0 <= i < offset ==> is_mapped(#[trigger] bounds[i])
                &&& days@ == #[trigger] shown_days(first, bounds, now, offset)
                &&& days@.len() <= n
                &&& days@.len() == n || offset == days_looked_at(n)
            },
        Err(why) => exists|offset: int|
            {
                &&& 0 <= offset < days_looked_at(n)
                &&& forall|i: int| 0 <= i < offset ==> is_mapped(#[trigger] bounds[i])
                &&& (#[trigger] shown_days(first, bounds, now, offset)).len() < n
                &&& !is_mapped(bounds[offset])
                &&& why@ == mapping_error(bounds[offset])
            },
    }
}

/// Every instant that the clock gives is one that a calendar can name.
pub open spec fn timed_bounds(bounds: Seq<DayBounds>) -> bool {
    forall|i: int|
        0 <= i < bounds.len() ==> (utc_of((#[trigger] bounds[i]).start) matches Ok(t) ==> is_instant(
            t,
        ))
}

/// Build up to `n` consecutive day windows starting at `start_date`. `bounds`
/// are the daytime hours of the days looked at, from `start_date` on.
pub fn build_day_windows(start_date: Date, n: u8, now: i128, bounds: &Vec<DayBounds>) -> (result:
    Result<Vec<DayWindow>, String>)
    requires
        FIRST_DATE <= start_date.day_number,
        start_date.day_number + days_looked_at(n as int) <= LAST_DATE,
        is_instant(now as int),
        bounds@.len() == days_looked_at(n as int),
        timed_bounds(bounds@),
    ensures
        is_day_windows(result, start_date, n as int, bounds@, now as int),
{
    let mut out: Vec<DayWindow> = Vec::new();
    let count: u8 = max_offsets(n);
    let mut offset: u8 = 0;
    while offset < count && out.len() < n as usize
        invariant
            offset <= count,
            count == days_looked_at(n as int),
            bounds@.len() == count,
            timed_bounds(bounds@),
            is_instant(now as int),
            FIRST_DATE <= start_date.day_number,
            start_date.day_number + count <= LAST_DATE,
            forall|i: int| 0 <= i < offset ==> is_mapped(#[trigger] bounds@[i]),
            out@ == shown_days(start_date, bounds@, now as int, offset as int),
            out@.len() <= n,
        decreases count - offset,
    {
        let b = &bounds[offset as usize];
        let day_start: i128 = match local_to_utc(&b.start) {
            Ok(t) => t,
            Err(why) => {
                proof {
                    assert(!is_mapped(bounds@[offset as int]));
                    assert(shown_days(start_date, bounds@, now as int, offset as int).len() < n);
                }
                return Err(why);
            },
        };
        let day_end: i128 = match local_to_utc(&b.end) {
            Ok(t) => t,
            Err(why) => {
                proof {
                    assert(!is_mapped(bounds@[offset as int]));
                    assert(shown_days(start_date, bounds@, now as int, offset as int).len() < n);
                }
                return Err(why);
            },
        };
        let start: i128 = if day_start < now {
            now
        } else {
            day_start
        };
        proof {
            assert(is_mapped(bounds@[offset as int]));
            assert(is_instant(day_start as int));
        }
        if day_end > now && has_forecast_hour_in_window(start, day_end) {
            out.push(
                DayWindow {
                    date: Date { day_number: start_date.day_number + offset as i32 },
                    window: RideWindow { start, end: day_end },
                },
            );
        }
        offset = offset + 1;
    }
    Ok(out)
}

// ---- Work hours ----

/// The work hours before `offset`: those of work days whose bounds both exist.
pub open spec fn work_windows(
    first: Date,
    work_hours: WorkHoursConfig,
    bounds: Seq<DayBounds>,
    offset: int,
) -> Seq<RideWindow>
    decreases offset,
{
    if offset <= 0 {
        Seq::empty()
    } else {
        let before = work_windows(first, work_hours, bounds, offset - 1);
        let b = bounds[offset - 1];
        if is_work_day(work_hours.days@, first.day_number + offset - 1) && is_mapped(b) {
            before.push(
                RideWindow {
                    start: utc_of(b.start)->Ok_0 as i128,
                    end: utc_of(b.end)->Ok_0 as i128,
                },
            )
        } else {
            before
        }
    }
}

/// The weekday of the date is a work day.
pub open spec fn is_work_day(days: Seq<Weekday>, day_number: int) -> bool {
    exists|i: int| 0 <= i < days.len() && (#[trigger] days[i]).index() == weekday_index(day_number)
}

fn works_on(days: &Vec<Weekday>, date: Date) -> (b: bool)
    requires
        date.valid(),
    ensures
        b == is_work_day(days@, date.day_number as int),
{
    let today = date.weekday();
    let mut i: usize = 0;
    while i < days.len()
        invariant
            i <= days.len(),
            today.index() == weekday_index(date.day_number as int),
            forall|k: int|
                0 <= k < i ==> (#[trigger] days@[k]).index() != weekday_index(
                    date.day_number as int,
                ),
        decreases days.len() - i,
    {
        if days[i] == today {
            return true;
        }
        i = i + 1;
    }
    false
}

/// The work hours that best windows must keep clear of. `bounds` are the work
/// hours of the days looked at, from `start_date` on.
pub fn build_work_hour_exclusions(
    start_date: Date,
    n: u8,
    work_hours: &WorkHoursConfig,
    bounds: &Vec<DayBounds>,
) -> (windows: Vec<RideWindow>)
    requires
        FIRST_DATE <= start_date.day_number,
        start_date.day_number + days_looked_at(n as int) <= LAST_DATE,
        bounds@.len() == days_looked_at(n as int),
    ensures
        windows@ == (if work_hours.enabled {
            work_windows(start_date, *work_hours, bounds@, days_looked_at(n as int))
        } else {
            Seq::empty()
        }),
{
    let mut windows: Vec<RideWindow> = Vec::new();
    if !work_hours.enabled {
        return windows;
    }
    let count: u8 = max_offsets(n);
    let mut offset: u8 = 0;
    while offset < count
        invariant
            offset <= count,
            count == days_looked_at(n as int),
            bounds@.len() == count,
            FIRST_DATE <= start_date.day_number,
            start_date.day_number + count <= LAST_DATE,
            windows@ == work_windows(start_date, *work_hours, bounds@, offset as int),
        decreases count - offset,
    {
        let date = Date { day_number: start_date.day_number + offset as i32 };
        let b = &bounds[offset as usize];
        if works_on(&work_hours.days, date) {
            match (local_to_utc(&b.start), local_to_utc(&b.end)) {
                (Ok(start), Ok(end)) => {
                    windows.push(RideWindow { start, end });
                },
                _ => {},
            }
        }
        offset = offset + 1;
    }
    windows
}

// ---- Location ----

/// 20.0 km
pub const DEFAULT_RADIUS_KM: Reading = 0x4034_0000_0000_0000;

/// Where to look: a named place or a pair of coordinates, and the radius of
/// the sample disk.
#[derive(Debug, PartialEq, Eq)]
pub struct Location {
    pub name: String,
    pub center: Point,
    pub radius_km: Reading,
}

/// Why no location could be chosen.
#[derive(Debug, PartialEq, Eq)]
pub enum LocationError {
    /// Coordinates and a place were both given.
    MutuallyExclusive,
    /// Only one coordinate was given.
    OneCoordinate,
    /// No place of that name is configured.
    UnknownPlace(String),
    /// Nothing was given and there is no default.
    NothingGiven,
}

impl LocationError {
    /// The error in words. `known` lists the configured places.
    pub open spec fn message_text(self, known: Seq<char>) -> Seq<char> {
        match self {
            LocationError::MutuallyExclusive => "--lat/--lon and --place are mutually exclusive"@,
            LocationError::OneCoordinate => "--lat and --lon must be given together"@,
            LocationError::UnknownPlace(name) => "no place named '"@ + name@
                + "' in config — known: "@ + known,
            LocationError::NothingGiven =>
                "specify --lat and --lon, or --place, or set default_place in config"@,
        }
    }

    /// The error in words. `known` lists the configured places.
    pub fn message(&self, known: &str) -> (text: String)
        ensures
            text@ == self.message_text(known@),
    {
        match self {
            LocationError::MutuallyExclusive =>
                "--lat/--lon and --place are mutually exclusive".to_owned(),
            LocationError::OneCoordinate => "--lat and --lon must be given together".to_owned(),
            LocationError::UnknownPlace(name) => {
                let mut text = "no place named '".to_owned();
                text.append(name.as_str());
                text.append("' in config — known: ");
                text.append(known);
                text
            },
            LocationError::NothingGiven =>
                "specify --lat and --lon, or --place, or set default_place in config".to_owned(),
        }
    }
}

/// The name of a place given by its coordinates, each with four decimals.
pub open spec fn coordinate_name(lat: Measured, lon: Measured) -> Seq<char> {
    lat.text@ + ","@ + lon.text@
}

/// The place asked for: the one given, else the default.
pub open spec fn wanted_place(config: Config, place: Option<String>) -> Option<String> {
    if place is Some {
        place
    } else {
        config.default_place
    }
}

pub open spec fn radius_or(radius_km: Option<Reading>, fallback: Reading) -> Reading {
    match radius_km {
        Some(r) => r,
        None => fallback,
    }
}

/// Coordinates exclude a place and come in pairs; they win over the default
/// place; a place must be configured.
pub open spec fn is_location(
    result: Result<Location, LocationError>,
    config: Config,
    lat: Option<Measured>,
    lon: Option<Measured>,
    place: Option<String>,
    radius_km: Option<Reading>,
) -> bool {
    if (lat is Some || lon is Some) && place is Some {
        result == Err::<Location, LocationError>(LocationError::MutuallyExclusive)
    } else if lat is Some && lon is Some {
        result matches Ok(loc) && loc.name@ == coordinate_name(lat->0, lon->0) && loc.center
            == (Point { lat: lat->0.reading, lon: lon->0.reading }) && loc.radius_km == radius_or(
            radius_km,
            DEFAULT_RADIUS_KM,
        )
    } else if lat is Some || lon is Some {
        result == Err::<Location, LocationError>(LocationError::OneCoordinate)
    } else {
        match wanted_place(config, place) {
            Some(name) => if knows_place(config.places@, name@) {
                result matches Ok(loc) && exists|i: int|
                    #![trigger config.places@[i]]
                    is_place_named(config.places@, name@, i) && loc.name@ == name@ && loc.center
                        == config.places@[i].center && loc.radius_km == radius_or(
                        radius_km,
                        config.places@[i].radius_km,
                    )
            } else {
                result matches Err(LocationError::UnknownPlace(said)) && said@ == name@
            },
            None => result == Err::<Location, LocationError>(LocationError::NothingGiven),
        }
    }
}

pub fn resolve_location(
    config: &Config,
    lat: Option<Measured>,
    lon: Option<Measured>,
    place: Option<String>,
    radius_km: Option<Reading>,
) -> (result: Result<Location, LocationError>)
    ensures
        is_location(result, *config, lat, lon, place, radius_km),
{
    if (lat.is_some() || lon.is_some()) && place.is_some() {
        return Err(LocationError::MutuallyExclusive);
    }
    match (&lat, &lon) {
        (Some(a), Some(o)) => {
            let mut name = a.text.clone();
            name.append(",");
            name.append(o.text.as_str());
            let radius_km: Reading = match radius_km {
                Some(r) => r,
                None => DEFAULT_RADIUS_KM,
            };
            return Ok(
                Location { name, center: Point { lat: a.reading, lon: o.reading }, radius_km },
            );
        },
        (None, None) => {},
        _ => {
            return Err(LocationError::OneCoordinate);
        },
    }
    let name = match &place {
        Some(name) => name.clone(),
        None => match &config.default_place {
            Some(name) => name.clone(),
            None => {
                return Err(LocationError::NothingGiven);
            },
        },
    };
    match config.position_of(name.as_str()) {
        Some(i) => {
            let found = &config.places[i];
            let radius_km: Reading = match radius_km {
                Some(r) => r,
                None => found.radius_km,
            };
            Ok(Location { name, center: found.center, radius_km })
        },
        None => Err(LocationError::UnknownPlace(name)),
    }
}

/// What a place says of its Frost source, if it is configured and says so.
pub open spec fn place_source(places: Seq<Place>, name: Seq<char>) -> Option<Seq<char>>
    decreases places.len(),
{
    if places.len() == 0 {
        None
    } else if places[0].name@ == name {
        match places[0].frost_source_id {
            Some(id) => Some(id@),
            None => None,
        }
    } else {
        place_source(places.drop_first(), name)
    }
}

/// What a place says of its drainage, if it is configured and says so.
pub open spec fn place_drainage(places: Seq<Place>, name: Seq<char>) -> Option<DrainageClass>
    decreases places.len(),
{
    if places.len() == 0 {
        None
    } else if places[0].name@ == name {
        places[0].drainage
    } else {
        place_drainage(places.drop_first(), name)
    }
}

proof fn lemma_first_named(places: Seq<Place>, name: Seq<char>, i: int)
    requires
        is_place_named(places, name, i),
    ensures
        place_source(places, name) == (match places[i].frost_source_id {
            Some(id) => Some(id@),
            None => None,
        }),
        place_drainage(places, name) == places[i].drainage,
    decreases i,
{
    if i > 0 {
        let rest = places.drop_first();
        assert(places[0].name@ != name);
        assert forall|j: int| 0 <= j < i - 1 implies (#[trigger] rest[j]).name@ != name by {
            assert(rest[j] == places[j + 1]);
        }
        lemma_first_named(rest, name, i - 1);
    }
}

proof fn lemma_none_named(places: Seq<Place>, name: Seq<char>)
    requires
        !knows_place(places, name),
    ensures
        place_source(places, name) is None,
        place_drainage(places, name) is None,
    decreases places.len(),
{
    if places.len() > 0 {
        let rest = places.drop_first();
        assert(places[0].name@ != name);
        assert forall|j: int| 0 <= j < rest.len() implies (#[trigger] rest[j]).name@ != name by {
            assert(rest[j] == places[j + 1]);
        }
        lemma_none_named(rest, name);
    }
}

/// What an optional text says.
pub open spec fn id_view(id: Option<String>) -> Option<Seq<char>> {
    match id {
        Some(text) => Some(text@),
        None => None,
    }
}

/// The Frost source for a location: that of the place itself, else the
/// configured default.
pub fn location_frost_source(config: &Config, location: &Location) -> (source: Option<String>)
    ensures
        id_view(source) == (match place_source(config.places@, location.name@) {
            Some(id) => Some(id),
            None => id_view(config.frost.source_id),
        }),
{
    match config.position_of(location.name.as_str()) {
        Some(i) => {
            proof {
                lemma_first_named(config.places@, location.name@, i as int);
            }
            match &config.places[i].frost_source_id {
                Some(id) => {
                    return Some(id.clone());
                },
                None => {},
            }
        },
        None => {
            proof {
                lemma_none_named(config.places@, location.name@);
            }
        },
    }
    match &config.frost.source_id {
        Some(id) => Some(id.clone()),
        None => None,
    }
}

/// Drainage character for a location: that of the place itself, else the
/// configured default.
pub fn location_drainage(config: &Config, location: &Location) -> (class: DrainageClass)
    ensures
        class == (match place_drainage(config.places@, location.name@) {
            Some(class) => class,
            None => config.drainage,
        }),
{
    match config.position_of(location.name.as_str()) {
        Some(i) => {
            proof {
                lemma_first_named(config.places@, location.name@, i as int);
            }
            match config.places[i].drainage {
                Some(class) => class,
                None => config.drainage,
            }
        },
        None => {
            proof {
                lemma_none_named(config.places@, location.name@);
            }
            config.drainage
        },
    }
}

// ---- A single window ----

/// What `chrono::NaiveTime::parse_from_str` reads from a text as `%H:%M`: hour
/// and minute, or nothing.
pub uninterp spec fn clock_time_of(text: Seq<char>) -> Option<(int, int)>;

/// What an optional pair of numbers stands for.
pub open spec fn hour_minute_view(time: Option<(u32, u32)>) -> Option<(int, int)> {
    match time {
        Some(t) => Some((t.0 as int, t.1 as int)),
        None => None,
    }
}

/// `chrono::NaiveTime::parse_from_str` with `%H:%M`: the result is a function
/// of the text, and a time of day where there is one.
#[verifier::external_body]
fn parse_hour_minute(text: &str) -> (time: Option<(u32, u32)>)
    ensures
        hour_minute_view(time) == clock_time_of(text@),
        time matches Some(t) ==> t.0 < 24 && t.1 < 60,
{
    NaiveTime::parse_from_str(text, "%H:%M").ok().map(|t| (t.hour(), t.minute()))
}

/// Why a window argument was refused, with the words that are to blame.
#[derive(Debug, PartialEq, Eq)]
pub enum WindowError {
    /// The whole argument has no hyphen.
    NotARange(String),
    /// The start is no time of day.
    BadStart(String),
    /// The end is no time of day.
    BadEnd(String),
    /// The local clock does not have the time, or has it twice.
    LocalTime(String),
    /// The end is not after the start.
    EndNotAfterStart,
}

/// Position `i` is the first hyphen.
pub open spec fn is_first_hyphen(s: Seq<char>, i: int) -> bool {
    &&& 0 <= i < s.len()
    &&& s[i] == '-'
    &&& forall|j: int| 0 <= j < i ==> #[trigger] s[j] != '-'
}

/// Start and end of a window argument, cut at the first hyphen.
pub open spec fn is_cut(start: Seq<char>, end: Seq<char>, whole: Seq<char>) -> bool {
    exists|i: int| #[trigger]
        is_first_hyphen(whole, i) && start == whole.subrange(0, i) && end == whole.subrange(
            i + 1,
            whole.len() as int,
        )
}

/// Turn what reading the two times gave into a window argument, or an error
/// that blames the start before the end.
pub open spec fn is_range_outcome(
    result: Result<DaytimeWindow, WindowError>,
    start_words: Seq<char>,
    end_words: Seq<char>,
    start: Option<(int, int)>,
    end: Option<(int, int)>,
) -> bool {
    match (start, end) {
        (None, _) => result matches Err(WindowError::BadStart(said)) && said@ == start_words,
        (Some(_), None) => result matches Err(WindowError::BadEnd(said)) && said@ == end_words,
        (Some(s), Some(e)) => result matches Ok(w) && w.start.hour == s.0 && w.start.minute == s.1
            && w.end.hour == e.0 && w.end.minute == e.1,
    }
}

/// Turn what reading the two times gave into a window argument.
pub fn range_outcome(
    start_words: &str,
    end_words: &str,
    start: Option<(u32, u32)>,
    end: Option<(u32, u32)>,
) -> (result: Result<DaytimeWindow, WindowError>)
    requires
        start matches Some(t) ==> t.0 < 24 && t.1 < 60,
        end matches Some(t) ==> t.0 < 24 && t.1 < 60,
    ensures
        is_range_outcome(
            result,
            start_words@,
            end_words@,
            hour_minute_view(start),
            hour_minute_view(end),
        ),
        result matches Ok(w) ==> w.valid(),
{
    match start {
        None => Err(WindowError::BadStart(start_words.to_owned())),
        Some(s) => match end {
            None => Err(WindowError::BadEnd(end_words.to_owned())),
            Some(e) => Ok(
                DaytimeWindow {
                    start: ClockTime { hour: s.0 as u8, minute: s.1 as u8 },
                    end: ClockTime { hour: e.0 as u8, minute: e.1 as u8 },
                },
            ),
        },
    }
}

/// Read a window argument like `14:00-17:00`.
pub fn parse_window(window: &str) -> (result: Result<DaytimeWindow, WindowError>)
    ensures
        !window@.contains('-') ==> (result matches Err(WindowError::NotARange(said)) && said@
            == window@),
        forall|start: Seq<char>, end: Seq<char>| #[trigger]
            is_cut(start, end, window@) ==> is_range_outcome(
                result,
                start,
                end,
                clock_time_of(trimmed(start)),
                clock_time_of(trimmed(end)),
            ),
        result matches Ok(w) ==> w.valid(),
{
    let n: usize = window.unicode_len();
    let mut at: usize = 0;
    while at < n && window.get_char(at) != '-'
        invariant
            at <= n,
            n == window@.len(),
            forall|j: int| 0 <= j < at ==> #[trigger] window@[j] != '-',
        decreases n - at,
    {
        at = at + 1;
    }
    if at == n {
        proof {
            assert forall|start: Seq<char>, end: Seq<char>| !#[trigger] is_cut(
                start,
                end,
                window@,
            ) by {}
        }
        return Err(WindowError::NotARange(window.to_owned()));
    }
    let start_words = window.substring_char(0, at);
    let end_words = window.substring_char(at + 1, n);
    let start = parse_hour_minute(trim(start_words));
    let end = parse_hour_minute(trim(end_words));
    proof {
        assert(window@[at as int] == '-');
        assert forall|s: Seq<char>, e: Seq<char>| #[trigger] is_cut(s, e, window@) implies s
            == start_words@ && e == end_words@ by {
            let i = choose|i: int| #[trigger]
                is_first_hyphen(window@, i) && s == window@.subrange(0, i) && e == window@.subrange(
                    i + 1,
                    window@.len() as int,
                );
            assert(i == at);
        }
    }
    range_outcome(start_words, end_words, start, end)
}

/// The window between two wall-clock times of today.
pub fn window_between(start: &LocalMoment, end: &LocalMoment) -> (result: Result<
    RideWindow,
    WindowError,
>)
    ensures
        match (utc_of(*start), utc_of(*end)) {
            (Err(why), _) => result matches Err(WindowError::LocalTime(said)) && said@ == why,
            (Ok(_), Err(why)) => result matches Err(WindowError::LocalTime(said)) && said@ == why,
            (Ok(s), Ok(e)) => if e <= s {
                result == Err::<RideWindow, WindowError>(WindowError::EndNotAfterStart)
            } else {
                result matches Ok(w) && w.start == s && w.end == e
            },
        },
{
    let s: i128 = match local_to_utc(start) {
        Ok(t) => t,
        Err(why) => {
            return Err(WindowError::LocalTime(why));
        },
    };
    let e: i128 = match local_to_utc(end) {
        Ok(t) => t,
        Err(why) => {
            return Err(WindowError::LocalTime(why));
        },
    };
    if e <= s {
        return Err(WindowError::EndNotAfterStart);
    }
    Ok(RideWindow { start: s, end: e })
}

impl WindowError {
    /// The error in words. `quoted` is the text to blame, in quotes.
    pub open spec fn message_text(self, quoted: Seq<char>) -> Seq<char> {
        match self {
            WindowError::NotARange(_) => "--window must be HH:MM-HH:MM, got "@ + quoted,
            WindowError::BadStart(_) => "parsing window start "@ + quoted,
            WindowError::BadEnd(_) => "parsing window end "@ + quoted,
            WindowError::LocalTime(why) => why@,
            WindowError::EndNotAfterStart => "--window end must be after start"@,
        }
    }

    /// The error in words. `quoted` is the text to blame, in quotes.
    pub fn message(&self, quoted: &str) -> (text: String)
        ensures
            text@ == self.message_text(quoted@),
    {
        match self {
            WindowError::NotARange(_) => {
                let mut text = "--window must be HH:MM-HH:MM, got ".to_owned();
                text.append(quoted);
                text
            },
            WindowError::BadStart(_) => {
                let mut text = "parsing window start ".to_owned();
                text.append(quoted);
                text
            },
            WindowError::BadEnd(_) => {
                let mut text = "parsing window end ".to_owned();
                text.append(quoted);
                text
            },
            WindowError::LocalTime(why) => why.clone(),
            WindowError::EndNotAfterStart => "--window end must be after start".to_owned(),
        }
    }
}

/// The window to score: between the two wall-clock times where they are given,
/// else the next `hours` hours.
pub fn resolve_window(
    range: Option<(&LocalMoment, &LocalMoment)>,
    now: i128,
    hours: i64,
) -> (result: Result<RideWindow, WindowError>)
    requires
        range is None ==> 0 < hours && is_instant(now as int) && is_instant(now + hours * HOUR),
    ensures
        match range {
            Some((start, end)) => match (utc_of(*start), utc_of(*end)) {
                (Err(why), _) => result matches Err(WindowError::LocalTime(said)) && said@ == why,
                (Ok(_), Err(why)) => result matches Err(WindowError::LocalTime(said)) && said@
                    == why,
                (Ok(s), Ok(e)) => if e <= s {
                    result == Err::<RideWindow, WindowError>(WindowError::EndNotAfterStart)
                } else {
                    result matches Ok(w) && w.start == s && w.end == e
                },
            },
            None => result matches Ok(w) && w.start == now && w.end == now + hours * HOUR,
        },
{
    match range {
        Some((start, end)) => window_between(start, end),
        None => Ok(RideWindow::from_hours(now, hours)),
    }
}

} // verus!
