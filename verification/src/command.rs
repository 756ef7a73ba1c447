//! What a command line asks for.
use vstd::prelude::*;
use vstd::string::StringExecFns;

use crate::conditions::HourlyConditions;
use crate::config::{Config, DaytimeWindow};
use crate::daily::{candidates, eligible, sub_window, sub_window_count, BestWindowConfig};
use crate::output::ChipFlags;
use crate::text::{push_signed, push_two_digits, signed_decimal, two_digits};
use crate::time::{is_instant, truncated_div, RideWindow, HOUR, MINUTE};
use crate::windows::{
    window_starts_within_nowcast_horizon, DayWindow, DEFAULT_FORECAST_DAYS, MAX_HOURS,
    NOWCAST_HORIZON,
};

verus! {

/// How many hours a single window covers where nothing else is asked for.
pub const DEFAULT_HOURS: i64 = 3;

/// The arguments that decide what is reported.
#[derive(Debug, PartialEq, Eq)]
pub struct ScoreArgs {
    /// Window like "14:00-17:00" in local time today.
    pub window: Option<String>,
    /// Length of a window that starts now.
    pub hours: Option<i64>,
    /// How many days ahead.
    pub days: Option<u8>,
    /// Length of the best sub-window to show for every day.
    pub best_window: Option<i64>,
    pub include_work_hours: bool,
    pub hourly: bool,
    pub no_rain_history: bool,
    pub no_window_stats: bool,
}

/// Arguments that do not go together.
#[derive(Debug, Clone, Copy, PartialEq, Eq, Structural)]
pub enum UsageError {
    HourlyWithWindow,
    HourlyWithBestWindow,
    WindowWithDays,
    WindowWithBestWindow,
}

impl UsageError {
    pub open spec fn message_text(self) -> Seq<char> {
        match self {
            UsageError::HourlyWithWindow =>
                "--hourly kan ikke brukes sammen med --window/--hours"@,
            UsageError::HourlyWithBestWindow =>
                "--hourly kan ikke brukes sammen med --best-window"@,
            UsageError::WindowWithDays => "--window/--hours kan ikke brukes sammen med --days"@,
            UsageError::WindowWithBestWindow =>
                "--best-window gjelder bare multi-dags-prognosen — kan ikke kombineres med --window/--hours"@,
        }
    }

    /// What to tell the user.
    pub fn message(self) -> (text: &'static str)
        ensures
            text@ == self.message_text(),
    {
        match self {
            UsageError::HourlyWithWindow => "--hourly kan ikke brukes sammen med --window/--hours",
            UsageError::HourlyWithBestWindow =>
                "--hourly kan ikke brukes sammen med --best-window",
            UsageError::WindowWithDays => "--window/--hours kan ikke brukes sammen med --days",
            UsageError::WindowWithBestWindow =>
                "--best-window gjelder bare multi-dags-prognosen — kan ikke kombineres med --window/--hours",
        }
    }
}

/// Which report is asked for.
#[derive(Debug, Clone, Copy, PartialEq, Eq, Structural)]
pub enum Report {
    /// One ride window, by default of that many hours from now on.
    Window(i64),
    /// Day by day, this many days.
    Days(u8),
    /// Hour by hour, this many days.
    Hours(u8),
}

/// What a run is to do.
#[derive(Debug, PartialEq, Eq)]
pub struct Plan {
    pub report: Report,
    pub best_window: BestWindowConfig,
    /// Work hours are no candidates for the best window.
    pub exclude_work_hours: bool,
}

/// A single window was asked for.
pub open spec fn asks_for_window(args: ScoreArgs) -> bool {
    args.window is Some || args.hours is Some
}

/// The first thing that is wrong with the arguments.
pub open spec fn usage_error(args: ScoreArgs) -> Option<UsageError> {
    let single = asks_for_window(args);
    if args.hourly && single {
        Some(UsageError::HourlyWithWindow)
    } else if args.hourly && args.best_window is Some {
        Some(UsageError::HourlyWithBestWindow)
    } else if single && args.days is Some {
        Some(UsageError::WindowWithDays)
    } else if single && args.best_window is Some {
        Some(UsageError::WindowWithBestWindow)
    } else {
        None
    }
}

/// The report that valid arguments ask for.
pub open spec fn report_of(args: ScoreArgs) -> Report {
    let days = match args.days {
        Some(d) => d,
        None => DEFAULT_FORECAST_DAYS,
    };
    if asks_for_window(args) {
        Report::Window(match args.hours {
            Some(h) => h,
            None => DEFAULT_HOURS,
        })
    } else if args.hourly {
        Report::Hours(days)
    } else {
        Report::Days(days)
    }
}

/// The plan looks for the best window that the arguments ask for: of the length
/// given and on every day, or else the usual one.
pub open spec fn looks_for(best_window: BestWindowConfig, args: ScoreArgs) -> bool {
    match args.best_window {
        Some(h) => {
            &&& best_window.length_hours == h
            &&& best_window.min_improvement == 0
            &&& best_window.excluded_windows@.len() == 0
        },
        None => {
            &&& best_window.length_hours == 3
            &&& best_window.min_improvement == 10
            &&& best_window.excluded_windows@.len() == 0
        },
    }
}

/// Decide what a command line asks for, or what is wrong with it.
pub fn plan(args: &ScoreArgs) -> (result: Result<Plan, UsageError>)
    ensures
        match usage_error(*args) {
            Some(e) => result == Err::<Plan, UsageError>(e),
            None => result is Ok,
        },
        result matches Ok(p) ==> p.report == report_of(*args) && looks_for(p.best_window, *args)
            && p.exclude_work_hours == (args.best_window is Some && !args.include_work_hours),
{
    let single_day = args.window.is_some() || args.hours.is_some();
    if args.hourly && single_day {
        return Err(UsageError::HourlyWithWindow);
    }
    if args.hourly && args.best_window.is_some() {
        return Err(UsageError::HourlyWithBestWindow);
    }
    if single_day && args.days.is_some() {
        return Err(UsageError::WindowWithDays);
    }
    if single_day && args.best_window.is_some() {
        return Err(UsageError::WindowWithBestWindow);
    }
    let best_window = match args.best_window {
        Some(h) => BestWindowConfig {
            length_hours: h,
            min_improvement: 0,
            excluded_windows: Vec::new(),
        },
        None => BestWindowConfig::default(),
    };
    let exclude_work_hours = args.best_window.is_some() && !args.include_work_hours;
    let days: u8 = match args.days {
        Some(d) => d,
        None => DEFAULT_FORECAST_DAYS,
    };
    let report = if single_day {
        Report::Window(match args.hours {
            Some(h) => h,
            None => DEFAULT_HOURS,
        })
    } else if args.hourly {
        Report::Hours(days)
    } else {
        Report::Days(days)
    };
    Ok(Plan { report, best_window, exclude_work_hours })
}

/// A chip is shown where the configuration says so and the user did not opt
/// out; the best window of every day is shown where it was asked for.
pub fn chip_flags(config: &Config, args: &ScoreArgs) -> (flags: ChipFlags)
    ensures
        flags.rain_history == (config.show_rain_history && !args.no_rain_history),
        flags.window_stats == (config.show_window_stats && !args.no_window_stats),
        flags.best_window == (args.best_window is Some),
{
    ChipFlags {
        rain_history: config.show_rain_history && !args.no_rain_history,
        window_stats: config.show_window_stats && !args.no_window_stats,
        best_window: args.best_window.is_some(),
    }
}

/// Whether the radar has a say in a report over `days`: where the first of them
/// starts within its horizon.
pub fn days_need_nowcast(days: &Vec<DayWindow>, now: i128) -> (b: bool)
    requires
        is_instant(now as int),
    ensures
        b == (days@.len() > 0 && days@[0].window.end > now && days@[0].window.start <= now
            + NOWCAST_HORIZON),
{
    days.len() > 0 && window_starts_within_nowcast_horizon(days[0].window, now)
}

// ---- A best window that never fits ----

/// Minutes in at least two digits.
pub open spec fn minutes_text(minutes: int) -> Seq<char> {
    if minutes < 0 {
        signed_decimal(minutes)
    } else {
        two_digits(minutes as nat)
    }
}

/// That no window of `hours` hours fits into `minutes` minutes of daytime.
pub open spec fn too_long_text(hours: int, minutes: int) -> Seq<char> {
    "warning: --best-window "@ + signed_decimal(hours) + "t er lengre enn dag-vinduet ("@
        + signed_decimal(truncated_div(minutes, 60)) + "t "@ + minutes_text(
        minutes - truncated_div(minutes, 60) * 60,
    ) + "m). Ingen vindu vil bli foreslått. Juster `daytime_window` i config eller velg et kortere --best-window."@
}

/// A warning where a best window of `hours` hours can never fit into the
/// daytime.
pub fn best_window_warning(hours: i64, daytime: DaytimeWindow) -> (warning: Option<String>)
    requires
        1 <= hours <= MAX_HOURS,
    ensures
        warning is Some <==> hours * 60 > daytime.end.minutes() - daytime.start.minutes(),
        warning matches Some(text) ==> text@ == too_long_text(
            hours as int,
            daytime.end.minutes() - daytime.start.minutes(),
        ),
{
    let minutes: i64 = daytime.duration_minutes();
    if hours * 60 <= minutes {
        return None;
    }
    let (h, m): (i64, i64) = if minutes < 0 {
        (-((-minutes) / 60), -((-minutes) % 60))
    } else {
        (minutes / 60, minutes % 60)
    };
    let mut text = "warning: --best-window ".to_owned();
    push_signed(&mut text, hours);
    text.append("t er lengre enn dag-vinduet (");
    push_signed(&mut text, h);
    text.append("t ");
    if m < 0 {
        push_signed(&mut text, m);
    } else {
        push_two_digits(&mut text, m as u64);
    }
    text.append(
        "m). Ingen vindu vil bli foreslått. Juster `daytime_window` i config eller velg et kortere --best-window.",
    );
    Some(text)
}

/// Where the warning is given, no day has a candidate for the best window: no
/// day's window is longer than the daytime.
pub proof fn a_warned_best_window_never_shows(
    hours: Seq<HourlyConditions>,
    day: RideWindow,
    length: int,
    excluded: Seq<RideWindow>,
    daytime: DaytimeWindow,
)
    requires
        day.end - day.start <= (daytime.end.minutes() - daytime.start.minutes()) * MINUTE,
        length * 60 > daytime.end.minutes() - daytime.start.minutes(),
    ensures
        candidates(hours, day, length, excluded).len() == 0,
{
    let minutes = daytime.end.minutes() - daytime.start.minutes();
    if length > 0 {
        assert(minutes * MINUTE == minutes * 60_000_000_000);
        assert(length * HOUR == length * 3_600_000_000_000);
        assert(day.end - day.start < length * HOUR);
        assert(day.hours() < length);
    }
    assert(sub_window_count(day, length) == 0);
    let all = Seq::new(sub_window_count(day, length), |k: int| sub_window(day, length, k));
    all.lemma_filter_len(|w: RideWindow| eligible(hours, excluded, w));
}

/// Arguments are accepted exactly when a single window goes with nothing that
/// speaks of days, and the hourly view with no best window; then they ask for
/// that window, for hours or for days, six of them unless told otherwise.
pub proof fn arguments_ask_for_one_report(args: ScoreArgs)
    ensures
        ({
            let single = args.window is Some || args.hours is Some;
            let days = match args.days {
                Some(d) => d,
                None => 6,
            };
            &&& usage_error(args) is None <==> !(single && (args.hourly || args.days is Some
                || args.best_window is Some)) && !(args.hourly && args.best_window is Some)
            &&& single && args.hours is Some ==> report_of(args) == Report::Window(args.hours->0)
            &&& single && args.hours is None ==> report_of(args) == Report::Window(3)
            &&& !single && args.hourly ==> report_of(args) == Report::Hours(days)
            &&& !single && !args.hourly ==> report_of(args) == Report::Days(days)
        }),
{
}

/// A best window that was asked for has the length given and is shown whatever
/// it gains; otherwise it lasts three hours and has to gain ten points.
pub proof fn a_best_window_is_looked_for_as_asked(best: BestWindowConfig, args: ScoreArgs)
    requires
        looks_for(best, args),
    ensures
        args.best_window is Some ==> best.length_hours == args.best_window->0
            && best.min_improvement == 0,
        args.best_window is None ==> best.length_hours == 3 && best.min_improvement == 10,
        best.excluded_windows@.len() == 0,
{
}

} // verus!
