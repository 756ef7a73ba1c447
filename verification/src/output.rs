//! Human-readable reports.
//!
//! Pure functions that return texts. All colour goes through [`crate::theme`],
//! which leaves a text plain where the terminal takes no colour.
use vstd::prelude::*;

use crate::lang::Language;
pub use crate::output::days::render_multi_day;
pub use crate::output::hours::render_hourly;
pub use crate::output::window::render_human;
use crate::time::{is_instant, Date, LocalClock};

pub mod bars;
pub mod chips;
pub mod days;
pub mod hours;
pub mod labels;
pub mod laws;
pub mod marks;
pub mod plain;
pub mod shows;
pub mod window;
pub mod words;

verus! {

/// Per-render toggles for the optional chips and lines.
#[derive(Debug, Clone, Copy, PartialEq, Eq, Structural)]
pub struct ChipFlags {
    pub rain_history: bool,
    pub window_stats: bool,
    /// The best sub-window of every day was asked for.
    pub best_window: bool,
}

impl Default for ChipFlags {
    fn default() -> (flags: Self)
        ensures
            flags.rain_history,
            flags.window_stats,
            !flags.best_window,
    {
        ChipFlags { rain_history: true, window_stats: true, best_window: false }
    }
}

/// When, where and for whom a report is rendered.
#[derive(Debug)]
pub struct Setting {
    pub lang: Language,
    /// Whether the terminal takes colour.
    pub color: bool,
    pub now: i128,
    pub clock: LocalClock,
}

impl Setting {
    pub open spec fn valid(self) -> bool {
        is_instant(self.now as int) && self.clock.valid()
    }

    pub open spec fn spec_today(self) -> Date {
        Date { day_number: self.clock.local_day(self.now as int) as i32 }
    }

    /// The local date.
    pub fn today(&self) -> (date: Date)
        requires
            self.valid(),
        ensures
            date == self.spec_today(),
    {
        self.clock.date_of(self.now)
    }
}

} // verus!
