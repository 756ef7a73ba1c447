//! The user's configuration: places, daytime and work hours.
use vstd::prelude::*;

use crate::lang::Language;
use crate::reading::Reading;
use crate::text::same_text;
use crate::time::Weekday;

verus! {

/// A time of day on the local clock.
#[derive(Debug, Clone, Copy, PartialEq, Eq, Structural)]
pub struct ClockTime {
    pub hour: u8,
    pub minute: u8,
}

impl ClockTime {
    pub open spec fn valid(self) -> bool {
        self.hour < 24 && self.minute < 60
    }

    /// Minutes since midnight.
    pub open spec fn minutes(self) -> int {
        self.hour * 60 + self.minute
    }
}

/// The hours of a day in which someone might ride.
#[derive(Debug, Clone, Copy, PartialEq, Eq, Structural)]
pub struct DaytimeWindow {
    pub start: ClockTime,
    pub end: ClockTime,
}

impl Default for DaytimeWindow {
    fn default() -> (daytime: Self)
        ensures
            daytime.start == (ClockTime { hour: 10, minute: 0 }),
            daytime.end == (ClockTime { hour: 22, minute: 0 }),
    {
        DaytimeWindow {
            start: ClockTime { hour: 10, minute: 0 },
            end: ClockTime { hour: 22, minute: 0 },
        }
    }
}

impl DaytimeWindow {
    pub open spec fn valid(self) -> bool {
        self.start.valid() && self.end.valid()
    }

    /// Length in minutes; below zero where the end comes first.
    pub fn duration_minutes(&self) -> (minutes: i64)
        ensures
            minutes == self.end.minutes() - self.start.minutes(),
    {
        (self.end.hour as i64 * 60 + self.end.minute as i64) - (self.start.hour as i64 * 60
            + self.start.minute as i64)
    }
}

/// When the user is at work.
#[derive(Debug, PartialEq, Eq)]
pub struct WorkHoursConfig {
    pub enabled: bool,
    pub days: Vec<Weekday>,
    pub window: DaytimeWindow,
}

impl Default for WorkHoursConfig {
    fn default() -> (config: Self)
        ensures
            !config.enabled,
            config.days@ == seq![
                Weekday::Mon,
                Weekday::Tue,
                Weekday::Wed,
                Weekday::Thu,
                Weekday::Fri,
            ],
            config.window.start == (ClockTime { hour: 8, minute: 0 }),
            config.window.end == (ClockTime { hour: 15, minute: 0 }),
    {
        let mut days: Vec<Weekday> = Vec::new();
        days.push(Weekday::Mon);
        days.push(Weekday::Tue);
        days.push(Weekday::Wed);
        days.push(Weekday::Thu);
        days.push(Weekday::Fri);
        WorkHoursConfig {
            enabled: false,
            days,
            window: DaytimeWindow {
                start: ClockTime { hour: 8, minute: 0 },
                end: ClockTime { hour: 15, minute: 0 },
            },
        }
    }
}

/// How readily the gravel of a place drains.
#[derive(Debug, Clone, Copy, PartialEq, Eq, Structural)]
pub enum DrainageClass {
    Fast,
    Normal,
    Slow,
}

impl Default for DrainageClass {
    fn default() -> (class: Self)
        ensures
            class == DrainageClass::Normal,
    {
        DrainageClass::Normal
    }
}

/// A point on the map.
#[derive(Debug, Clone, Copy, PartialEq, Eq, Structural)]
pub struct Point {
    pub lat: Reading,
    pub lon: Reading,
}

/// A place that the user has named.
#[derive(Debug, PartialEq, Eq)]
pub struct Place {
    pub name: String,
    pub center: Point,
    pub radius_km: Reading,
    pub frost_source_id: Option<String>,
    pub drainage: Option<DrainageClass>,
}

/// Access to Frost.
#[derive(Debug, PartialEq, Eq)]
pub struct FrostConfig {
    pub client_id: Option<String>,
    pub source_id: Option<String>,
}

/// The user's configuration. No two places have the same name.
#[derive(Debug, PartialEq, Eq)]
pub struct Config {
    pub user_agent_contact: String,
    pub default_place: Option<String>,
    pub language: Language,
    pub show_rain_history: bool,
    pub show_window_stats: bool,
    pub daytime_window: DaytimeWindow,
    pub work_hours: WorkHoursConfig,
    pub drainage: DrainageClass,
    pub frost: FrostConfig,
    pub places: Vec<Place>,
}

/// Position `i` is the first place of that name.
pub open spec fn is_place_named(places: Seq<Place>, name: Seq<char>, i: int) -> bool {
    &&& 0 <= i < places.len()
    &&& places[i].name@ == name
    &&& forall|j: int| 0 <= j < i ==> (#[trigger] places[j]).name@ != name
}

/// Some place has that name.
pub open spec fn knows_place(places: Seq<Place>, name: Seq<char>) -> bool {
    exists|i: int| 0 <= i < places.len() && (#[trigger] places[i]).name@ == name
}

impl Config {
    /// Where the place of that name stands.
    pub fn position_of(&self, name: &str) -> (at: Option<usize>)
        ensures
            at is None <==> !knows_place(self.places@, name@),
            at matches Some(i) ==> is_place_named(self.places@, name@, i as int),
    {
        let mut i: usize = 0;
        while i < self.places.len()
            invariant
                i <= self.places.len(),
                forall|j: int| 0 <= j < i ==> (#[trigger] self.places@[j]).name@ != name@,
            decreases self.places.len() - i,
        {
            if same_text(self.places[i].name.as_str(), name) {
                return Some(i);
            }
            i = i + 1;
        }
        None
    }
}

} // verus!
