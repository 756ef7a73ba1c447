//! Grusindeks — the "how good is it to ride gravel right now" score.
//!
//! All scores are integers 0–100, higher is better. The total is a weighted
//! average of five sub-scores plus two hard caps for genuine deal-breakers
//! (heavy rain, storm-force wind), since a linear average would be too
//! forgiving in those cases.
use vstd::prelude::*;
use vstd::string::StringExecFns;

use crate::conditions::{
    hours_in_window, in_window, largest_of, peak, readings_of, HourlyConditions, Signal,
};
use crate::drying::SurfaceState;
use crate::felt_temp::SOLAR_NEGLIGIBLE_C;
use crate::lang::Language;
use crate::reading::{Measured, Reading, ZERO};
use crate::text::{decimal, push_decimal, texts};
use crate::time::RideWindow;

pub mod curves;
pub mod laws;
pub mod thresholds;

use crate::score::curves::{
    at_most_100, ground_stretch_of, ground_subscore, mean_wind_score, mean_wind_score_of,
    on_stretch, precip_prob_subscore, precip_stretch_of, precip_subscore, temp_stretch_of,
    temp_subscore,
};
use crate::score::thresholds::{
    DROUGHT_FULL_HOURS, DROUGHT_MAX_PENALTY, DROUGHT_TRIGGER_HOURS, FELT_GAP_C,
    GROUND_DRY_FLOOR_SCORE, GROUND_OPTIMAL_MM, GROUND_SATURATED, GUST_PENALTY,
    HARD_CAP_PRECIP_MM_PER_HOUR, HARD_CAP_TOTAL, HARD_CAP_WIND_MS, PRECIP_HEAVY, TEMP_OPTIMAL_LOW,
    UNKNOWN_SCORE, WIND_OK_MAX, WIND_PERFECT_MAX, W_GROUND, W_PRECIP, W_PROB, W_TEMP, W_WIND,
};

verus! {

/// Per-axis 0–100 sub-scores.
#[derive(Debug, Clone, Copy, PartialEq, Eq, Structural)]
pub struct ScoreBreakdown {
    pub temperature: u8,
    pub wind: u8,
    pub precipitation: u8,
    pub precip_probability: u8,
    pub ground: u8,
}

/// Which axis a penalty came from. `HardCap` is the rule that keeps the total
/// from being misleadingly high when the forecast holds heavy rain or
/// storm-force wind, `NoData` stands for a window without any forecast hour.
#[derive(Debug, Clone, Copy, PartialEq, Eq, Structural)]
pub enum Component {
    Temperature,
    Wind,
    Precipitation,
    PrecipProbability,
    Ground,
    HardCap,
    NoData,
}

/// How much a penalty hurt the score: `Critical > Major > Minor`.
#[derive(Debug, Clone, Copy, PartialEq, Eq, PartialOrd, Ord, Structural)]
pub enum Severity {
    Minor,
    Major,
    Critical,
}

/// A human-readable explanation for why a sub-score got reduced.
#[derive(Debug, PartialEq, Eq)]
pub struct Penalty {
    pub component: Component,
    pub severity: Severity,
    pub message: String,
}

/// What a [`Penalty`] says.
pub struct PenaltyView {
    pub component: Component,
    pub severity: Severity,
    pub message: Seq<char>,
}

impl View for Penalty {
    type V = PenaltyView;

    open spec fn view(&self) -> PenaltyView {
        PenaltyView {
            component: self.component,
            severity: self.severity,
            message: self.message@,
        }
    }
}

/// What a list of penalties says.
pub open spec fn penalty_views(penalties: Seq<Penalty>) -> Seq<PenaltyView> {
    penalties.map_values(|p: Penalty| p@)
}

/// The plain figures of a window: temperatures and wind in whole units, and
/// precipitation with its printed form.
#[derive(Debug, PartialEq, Eq)]
pub struct WindowFigures {
    pub min_temp_c: i32,
    pub max_temp_c: i32,
    /// Never below zero.
    pub total_precip_mm: Measured,
    /// Never below zero.
    pub max_hourly_precip_mm: Measured,
    pub max_wind_ms: i32,
    pub max_gust_ms: Option<i32>,
    /// Sub-score of the felt temperature over the window.
    pub temp_score: u8,
    /// Sub-score of the wettest hour.
    pub precip_score: u8,
    /// Sub-score of the strongest wind and gust.
    pub wind_score: u8,
}

/// The figures of a window, or nothing where no forecast hour lies in it.
#[derive(Debug, PartialEq, Eq)]
pub struct WindowStats {
    pub figures: Option<WindowFigures>,
}

impl WindowStats {
    /// The stats of a window without forecast hours.
    pub fn empty() -> (stats: WindowStats)
        ensures
            stats.figures is None,
    {
        WindowStats { figures: None }
    }

    pub open spec fn has_no_figures(self) -> bool {
        self.figures is None
    }

    pub fn is_empty(&self) -> (empty: bool)
        ensures
            empty == self.has_no_figures(),
    {
        self.figures.is_none()
    }
}

/// Two figures are printed alike.
pub open spec fn same_measured(a: Measured, b: Measured) -> bool {
    a.reading == b.reading && a.text@ == b.text@
}

/// Two stats say the same.
pub open spec fn same_stats(a: WindowStats, b: WindowStats) -> bool {
    match (a.figures, b.figures) {
        (Some(x), Some(y)) => {
            &&& x.min_temp_c == y.min_temp_c
            &&& x.max_temp_c == y.max_temp_c
            &&& same_measured(x.total_precip_mm, y.total_precip_mm)
            &&& same_measured(x.max_hourly_precip_mm, y.max_hourly_precip_mm)
            &&& x.max_wind_ms == y.max_wind_ms
            &&& x.max_gust_ms == y.max_gust_ms
            &&& x.temp_score == y.temp_score
            &&& x.precip_score == y.precip_score
            &&& x.wind_score == y.wind_score
        },
        (None, None) => true,
        _ => false,
    }
}

impl WindowStats {
    /// Stats that say the same.
    pub fn copied(&self) -> (copy: WindowStats)
        ensures
            same_stats(copy, *self),
    {
        match &self.figures {
            Some(f) => WindowStats {
                figures: Some(
                    WindowFigures {
                        min_temp_c: f.min_temp_c,
                        max_temp_c: f.max_temp_c,
                        total_precip_mm: f.total_precip_mm.copied(),
                        max_hourly_precip_mm: f.max_hourly_precip_mm.copied(),
                        max_wind_ms: f.max_wind_ms,
                        max_gust_ms: f.max_gust_ms,
                        temp_score: f.temp_score,
                        precip_score: f.precip_score,
                        wind_score: f.wind_score,
                    },
                ),
            },
            None => WindowStats { figures: None },
        }
    }
}

/// The Grusindeks for one location and ride window.
#[derive(Debug, PartialEq, Eq)]
pub struct Grusindeks {
    pub total: u8,
    pub breakdown: ScoreBreakdown,
    pub label: &'static str,
    /// `true` when a hard cap (heavy rain or storm wind) clamped the total.
    pub hard_capped: bool,
    /// Explanations for the sub-scores that got reduced, worst first.
    pub penalties: Vec<Penalty>,
    pub stats: WindowStats,
    /// Positive context lines.
    pub highlights: Vec<String>,
}

/// Mean wind over a window, and its strongest gust where gusts are known.
#[derive(Debug)]
pub struct WindSignal {
    pub mean: Measured,
    /// The score at the mean on its stretch of the wind curve.
    pub between: u8,
    /// Points lost past the end of the curve: 2.5 for each m/s, rounded.
    pub extra: u8,
    pub gust: Option<Measured>,
    /// 1.5 × mean wind.
    pub gust_limit: Reading,
}

/// The highest probability of precipitation in a window.
#[derive(Debug)]
pub struct ProbabilitySignal {
    /// 100 less the probability, rounded.
    pub remaining: u8,
    /// Whole percent.
    pub percent: String,
}

/// The surface when the window starts.
#[derive(Debug)]
pub struct GroundSignal {
    pub water_mm: Measured,
    /// The score at the water on its stretch of the ground curve.
    pub between: u8,
    pub hours_since_meaningful_rain: u64,
    /// The hours are only a lower bound.
    pub drought_at_lookback_cap: bool,
}

/// What the hours of a window amount to on each axis.
#[derive(Debug)]
pub struct AxisSignals {
    pub mean_temp: Measured,
    pub felt_temp: Measured,
    pub felt_gap: Reading,
    pub temp_between: u8,
    pub wind: WindSignal,
    pub mean_precip: Measured,
    pub precip_between: u8,
    /// Nothing where no hour carries a probability.
    pub probability: Option<ProbabilitySignal>,
    /// Nothing where no observations are at hand.
    pub ground: Option<GroundSignal>,
    pub peak_precip_text: String,
    pub peak_wind_text: String,
    pub sun_warming: Measured,
}

/// What is computed from the hours of a window outside: their means with the
/// scores at them, and what is printed.
#[derive(Debug)]
pub struct WindowSignals {
    /// Mean temperature, printed in whole degrees.
    pub mean_temp: Measured,
    /// How that feels on a bike, printed in whole degrees.
    pub felt_temp: Measured,
    /// How far the two lie apart.
    pub felt_gap: Reading,
    /// The score at the felt temperature on its stretch of the curve.
    pub temp_between: u8,
    /// Mean wind, m/s.
    pub mean_wind: Measured,
    /// The score at the mean wind on its stretch of the curve.
    pub wind_between: u8,
    /// Points lost past the end of the wind curve: 2.5 for each m/s, rounded.
    pub wind_extra: u8,
    /// 1.5 × mean wind.
    pub gust_limit: Reading,
    /// The strongest gust in whole m/s, as printed.
    pub gust_text: String,
    /// Mean precipitation, mm/h.
    pub mean_precip: Measured,
    /// The score at the mean precipitation on its stretch of the curve.
    pub precip_between: u8,
    /// 100 less the highest probability of precipitation, rounded.
    pub dry_chance: u8,
    /// The highest probability in whole percent, as printed.
    pub probability_text: String,
    /// The water on the surface when the window starts, mm, as printed.
    pub ground_text: String,
    /// The score at that water on its stretch of the ground curve.
    pub ground_between: u8,
    /// The wettest hour, mm/h, as printed.
    pub peak_precip_text: String,
    /// The windiest hour, m/s, as printed.
    pub peak_wind_text: String,
    pub stats: WindowStats,
    /// What the sun adds to the felt temperature, °C.
    pub sun_warming: Measured,
}

/// The surface on which a window starts, and how it is printed and scored;
/// nothing where nothing is known of it.
pub open spec fn ground_of(
    surface: Option<SurfaceState>,
    text: String,
    between: u8,
) -> Option<GroundSignal> {
    match surface {
        Some(state) => Some(
            GroundSignal {
                water_mm: Measured { reading: state.accumulated_mm, text },
                between,
                hours_since_meaningful_rain: state.hours_since_meaningful_rain,
                drought_at_lookback_cap: state.drought_at_lookback_cap,
            },
        ),
        None => None,
    }
}

/// The signals of a window together with the surface on which it starts and the
/// peaks of its hours: the strongest gust, and whether any hour carries a
/// probability.
pub open spec fn tied(
    signals: WindowSignals,
    hours: Seq<HourlyConditions>,
    surface: Option<SurfaceState>,
) -> AxisSignals {
    AxisSignals {
        mean_temp: signals.mean_temp,
        felt_temp: signals.felt_temp,
        felt_gap: signals.felt_gap,
        temp_between: signals.temp_between,
        wind: WindSignal {
            mean: signals.mean_wind,
            between: signals.wind_between,
            extra: signals.wind_extra,
            gust: match largest_of(readings_of(hours, Signal::Gust)) {
                Some(reading) => Some(Measured { reading, text: signals.gust_text }),
                None => None,
            },
            gust_limit: signals.gust_limit,
        },
        mean_precip: signals.mean_precip,
        precip_between: signals.precip_between,
        probability: match largest_of(readings_of(hours, Signal::Probability)) {
            Some(_) => Some(
                ProbabilitySignal {
                    remaining: signals.dry_chance,
                    percent: signals.probability_text,
                },
            ),
            None => None,
        },
        ground: ground_of(surface, signals.ground_text, signals.ground_between),
        peak_precip_text: signals.peak_precip_text,
        peak_wind_text: signals.peak_wind_text,
        sun_warming: signals.sun_warming,
    }
}

// ---- Labels ----

/// The short label of a total.
pub open spec fn label_text(total: int, lang: Language) -> Seq<char> {
    match lang {
        Language::Norwegian => if total <= 24 {
            "Dårlig"@
        } else if total <= 44 {
            "Marginalt"@
        } else if total <= 64 {
            "OK"@
        } else if total <= 84 {
            "Bra"@
        } else {
            "Strålende"@
        },
        Language::Swedish => if total <= 24 {
            "Dåligt"@
        } else if total <= 44 {
            "Marginellt"@
        } else if total <= 64 {
            "OK"@
        } else if total <= 84 {
            "Bra"@
        } else {
            "Strålande"@
        },
    }
}

/// Map a total to a short label.
pub fn label_for(total: u8, lang: Language) -> (label: &'static str)
    ensures
        label@ == label_text(total as int, lang),
{
    match lang {
        Language::Norwegian => if total <= 24 {
            "Dårlig"
        } else if total <= 44 {
            "Marginalt"
        } else if total <= 64 {
            "OK"
        } else if total <= 84 {
            "Bra"
        } else {
            "Strålende"
        },
        Language::Swedish => if total <= 24 {
            "Dåligt"
        } else if total <= 44 {
            "Marginellt"
        } else if total <= 64 {
            "OK"
        } else if total <= 84 {
            "Bra"
        } else {
            "Strålande"
        },
    }
}

// ---- Sub-scores ----

/// Gusts count when there is wind at all and they exceed 1.5 × its mean.
pub open spec fn is_gusty(wind: WindSignal) -> bool {
    wind.mean.reading > ZERO && (wind.gust matches Some(g) && g.reading > wind.gust_limit)
}

fn gusty(wind: &WindSignal) -> (b: bool)
    ensures
        b == is_gusty(*wind),
{
    match &wind.gust {
        Some(g) => wind.mean.reading > ZERO && g.reading > wind.gust_limit,
        None => false,
    }
}

/// `points` docked from `score`, never below zero.
pub open spec fn docked(score: int, points: int) -> int {
    if score >= points {
        score - points
    } else {
        0
    }
}

/// Wind sub-score: that of the mean wind, docked for gusts, at most 100.
pub open spec fn wind_score(wind: WindSignal) -> int {
    let left = docked(
        mean_wind_score_of(wind.mean.reading, wind.between, wind.extra) as int,
        if is_gusty(wind) {
            GUST_PENALTY as int
        } else {
            0
        },
    );
    if left > 100 {
        100
    } else {
        left
    }
}

/// Penalizes both mean wind and gusts.
pub fn wind_subscore(wind: &WindSignal) -> (score: u8)
    ensures
        score == wind_score(*wind),
{
    let base: u8 = mean_wind_score(wind.mean.reading, wind.between, wind.extra);
    let left: u8 = if gusty(wind) {
        base.saturating_sub(GUST_PENALTY)
    } else {
        base
    };
    if left > 100 {
        100
    } else {
        left
    }
}

/// Points that a dry spell of `hours` costs: nothing up to the trigger, then
/// in proportion up to the maximum (10 points over 96 hours), rounded to the
/// nearest whole point.
pub open spec fn drought_points(hours: int) -> int {
    if hours <= DROUGHT_TRIGGER_HOURS {
        0
    } else if hours >= DROUGHT_FULL_HOURS {
        DROUGHT_MAX_PENALTY as int
    } else {
        (20 * (hours - DROUGHT_TRIGGER_HOURS) + 96) / 192
    }
}

/// Subtract drought points from `ground_score`.
pub fn apply_drought_penalty(ground_score: u8, hours_since_meaningful_rain: u64) -> (score: u8)
    ensures
        score == docked(ground_score as int, drought_points(hours_since_meaningful_rain as int)),
        score <= ground_score,
{
    if hours_since_meaningful_rain <= DROUGHT_TRIGGER_HOURS {
        return ground_score;
    }
    let points: u8 = if hours_since_meaningful_rain >= DROUGHT_FULL_HOURS {
        DROUGHT_MAX_PENALTY
    } else {
        let over: u64 = hours_since_meaningful_rain - DROUGHT_TRIGGER_HOURS;
        ((20 * over + 96) / 192) as u8
    };
    ground_score.saturating_sub(points)
}

/// Sub-score of the surface water, dry spells left aside.
pub open spec fn water_score(g: GroundSignal) -> int {
    on_stretch(ground_stretch_of(g.water_mm.reading), g.water_mm.reading, g.between) as int
}

/// The five sub-scores. An unknown probability counts as neutral, and ground of
/// which nothing is known as dry.
pub open spec fn breakdown_of(signals: AxisSignals) -> ScoreBreakdown {
    ScoreBreakdown {
        temperature: on_stretch(
            temp_stretch_of(signals.felt_temp.reading),
            signals.felt_temp.reading,
            signals.temp_between,
        ),
        wind: wind_score(signals.wind) as u8,
        precipitation: on_stretch(
            precip_stretch_of(signals.mean_precip.reading),
            signals.mean_precip.reading,
            signals.precip_between,
        ),
        precip_probability: match signals.probability {
            Some(p) => at_most_100(p.remaining as int) as u8,
            None => UNKNOWN_SCORE,
        },
        ground: match signals.ground {
            Some(g) => docked(
                water_score(g),
                drought_points(g.hours_since_meaningful_rain as int),
            ) as u8,
            None => GROUND_DRY_FLOOR_SCORE,
        },
    }
}

fn breakdown_from(signals: &AxisSignals) -> (breakdown: ScoreBreakdown)
    ensures
        breakdown == breakdown_of(*signals),
{
    let remaining: Option<u8> = match &signals.probability {
        Some(p) => Some(p.remaining),
        None => None,
    };
    ScoreBreakdown {
        temperature: temp_subscore(Some(signals.felt_temp.reading), signals.temp_between),
        wind: wind_subscore(&signals.wind),
        precipitation: precip_subscore(signals.mean_precip.reading, signals.precip_between),
        precip_probability: precip_prob_subscore(remaining),
        ground: match &signals.ground {
            Some(g) => apply_drought_penalty(
                ground_subscore(g.water_mm.reading, g.between),
                g.hours_since_meaningful_rain,
            ),
            None => GROUND_DRY_FLOOR_SCORE,
        },
    }
}

// ---- Total ----

/// The weighted mean of the sub-scores, fractions dropped.
pub open spec fn weighted_total(b: ScoreBreakdown) -> int {
    (b.temperature * W_TEMP + b.wind * W_WIND + b.precipitation * W_PRECIP + b.precip_probability
        * W_PROB + b.ground * W_GROUND) / 100
}

fn weigh(score: u8, weight: u8) -> (product: u32)
    ensures
        product == score * weight,
        product <= 255 * weight,
{
    proof {
        assert(score * weight <= 255 * weight) by (nonlinear_arith)
            requires
                score <= 255,
        ;
    }
    score as u32 * weight as u32
}

/// The weighted mean of the sub-scores, fractions dropped.
pub fn weighted(b: &ScoreBreakdown) -> (total: u8)
    ensures
        total == weighted_total(*b),
        100 * total <= W_TEMP * b.temperature + W_WIND * b.wind + W_PRECIP * b.precipitation
            + W_PROB * b.precip_probability + W_GROUND * b.ground,
        W_TEMP * b.temperature + W_WIND * b.wind + W_PRECIP * b.precipitation + W_PROB
            * b.precip_probability + W_GROUND * b.ground < 100 * total + 100,
{
    let sum: u32 = weigh(b.temperature, W_TEMP) + weigh(b.wind, W_WIND) + weigh(
        b.precipitation,
        W_PRECIP,
    ) + weigh(b.precip_probability, W_PROB) + weigh(b.ground, W_GROUND);
    (sum / 100) as u8
}

/// Some hour's precipitation exceeds the hard-cap threshold.
pub open spec fn rain_caps(hours: Seq<HourlyConditions>) -> bool {
    exists|i: int|
        0 <= i < hours.len() && (#[trigger] hours[i]).precipitation_mm
            > HARD_CAP_PRECIP_MM_PER_HOUR
}

/// Some hour's wind exceeds the hard-cap threshold.
pub open spec fn wind_caps(hours: Seq<HourlyConditions>) -> bool {
    exists|i: int|
        0 <= i < hours.len() && (#[trigger] hours[i]).wind_speed_ms > HARD_CAP_WIND_MS
}

/// What the total is, given the weighted mean and whether a hard cap applies.
pub open spec fn capped_total(weighted: int, capped: bool) -> int {
    if capped && weighted > HARD_CAP_TOTAL {
        HARD_CAP_TOTAL as int
    } else {
        weighted
    }
}

fn any_rain_cap(hours: &Vec<HourlyConditions>) -> (b: bool)
    ensures
        b == rain_caps(hours@),
{
    let mut i: usize = 0;
    while i < hours.len()
        invariant
            i <= hours.len(),
            forall|k: int|
                0 <= k < i ==> (#[trigger] hours@[k]).precipitation_mm
                    <= HARD_CAP_PRECIP_MM_PER_HOUR,
        decreases hours.len() - i,
    {
        if hours[i].precipitation_mm > HARD_CAP_PRECIP_MM_PER_HOUR {
            return true;
        }
        i = i + 1;
    }
    false
}

fn any_wind_cap(hours: &Vec<HourlyConditions>) -> (b: bool)
    ensures
        b == wind_caps(hours@),
{
    let mut i: usize = 0;
    while i < hours.len()
        invariant
            i <= hours.len(),
            forall|k: int|
                0 <= k < i ==> (#[trigger] hours@[k]).wind_speed_ms <= HARD_CAP_WIND_MS,
        decreases hours.len() - i,
    {
        if hours[i].wind_speed_ms > HARD_CAP_WIND_MS {
            return true;
        }
        i = i + 1;
    }
    false
}

// ---- Penalties ----

/// Severity of a reduced sub-score. `Critical` is reserved for hard caps and
/// missing data, so an axis only ever yields `Minor` or `Major`.
pub open spec fn axis_severity(subscore: int) -> Option<Severity> {
    if 80 <= subscore <= 100 {
        None
    } else if 60 <= subscore <= 79 {
        Some(Severity::Minor)
    } else {
        Some(Severity::Major)
    }
}

/// Severity bucketing for sub-score deficits.
pub fn severity_for(subscore: u8) -> (severity: Option<Severity>)
    ensures
        severity == axis_severity(subscore as int),
{
    if 80 <= subscore && subscore <= 100 {
        None
    } else if 60 <= subscore && subscore <= 79 {
        Some(Severity::Minor)
    } else {
        Some(Severity::Major)
    }
}

fn phrase(before: &str, number: &str, after: &str) -> (out: String)
    ensures
        out@ == before@ + number@ + after@,
{
    let mut out = String::new();
    out.append(before);
    out.append(number);
    out.append(after);
    proof {
        assert(out@ =~= before@ + number@ + after@);
    }
    out
}

/// The mean temperature, and how it feels where that differs notably.
pub open spec fn temp_message(signals: AxisSignals, lang: Language) -> Seq<char> {
    let before = match lang {
        Language::Norwegian => if signals.mean_temp.reading < TEMP_OPTIMAL_LOW {
            "kjølig, snitt "@
        } else {
            "varmt, snitt "@
        },
        Language::Swedish => if signals.mean_temp.reading < TEMP_OPTIMAL_LOW {
            "kyligt, snitt "@
        } else {
            "varmt, snitt "@
        },
    };
    if signals.felt_gap >= FELT_GAP_C {
        before + signals.mean_temp.text@ + (match lang {
            Language::Norwegian => " °C, føles som "@,
            Language::Swedish => " °C, känns som "@,
        }) + signals.felt_temp.text@ + " °C"@
    } else {
        before + signals.mean_temp.text@ + " °C"@
    }
}

pub open spec fn temp_penalty_of(subscore: int, signals: AxisSignals, lang: Language) -> Option<
    PenaltyView,
> {
    match axis_severity(subscore) {
        Some(severity) => Some(
            PenaltyView {
                component: Component::Temperature,
                severity,
                message: temp_message(signals, lang),
            },
        ),
        None => None,
    }
}

fn temp_text(signals: &AxisSignals, lang: Language) -> (message: String)
    ensures
        message@ == temp_message(*signals, lang),
{
    let before = match lang {
        Language::Norwegian => if signals.mean_temp.reading < TEMP_OPTIMAL_LOW {
            "kjølig, snitt "
        } else {
            "varmt, snitt "
        },
        Language::Swedish => if signals.mean_temp.reading < TEMP_OPTIMAL_LOW {
            "kyligt, snitt "
        } else {
            "varmt, snitt "
        },
    };
    if signals.felt_gap < FELT_GAP_C {
        return phrase(before, signals.mean_temp.text.as_str(), " °C");
    }
    let joint = match lang {
        Language::Norwegian => " °C, føles som ",
        Language::Swedish => " °C, känns som ",
    };
    let mut message = phrase(before, signals.mean_temp.text.as_str(), joint);
    message.append(signals.felt_temp.text.as_str());
    message.append(" °C");
    message
}

pub fn temp_penalty(subscore: u8, signals: &AxisSignals, lang: Language) -> (penalty: Option<
    Penalty,
>)
    ensures
        penalty_view(penalty) == temp_penalty_of(subscore as int, *signals, lang),
{
    match severity_for(subscore) {
        Some(severity) => Some(
            Penalty {
                component: Component::Temperature,
                severity,
                message: temp_text(signals, lang),
            },
        ),
        None => None,
    }
}

/// What an optional penalty says.
pub open spec fn penalty_view(penalty: Option<Penalty>) -> Option<PenaltyView> {
    match penalty {
        Some(p) => Some(p@),
        None => None,
    }
}

/// Gusts alone, mean and gusts, much wind, or just the mean: whichever
/// explains the reduced wind score.
pub open spec fn wind_message(wind: WindSignal, lang: Language) -> Seq<char> {
    if is_gusty(wind) && wind.mean.reading <= WIND_PERFECT_MAX {
        match lang {
            Language::Norwegian => "kastevind opp i "@ + wind.gust->0.text@ + " m/s"@,
            Language::Swedish => "vindbyar upp till "@ + wind.gust->0.text@ + " m/s"@,
        }
    } else if is_gusty(wind) {
        match lang {
            Language::Norwegian => "snitt "@ + wind.mean.text@ + " m/s, kastevind opp i "@
                + wind.gust->0.text@ + " m/s"@,
            Language::Swedish => "snitt "@ + wind.mean.text@ + " m/s, vindbyar upp till "@
                + wind.gust->0.text@ + " m/s"@,
        }
    } else if wind.mean.reading > WIND_OK_MAX {
        match lang {
            Language::Norwegian => "snitt "@ + wind.mean.text@ + " m/s — mye vind"@,
            Language::Swedish => "snitt "@ + wind.mean.text@ + " m/s — mycket vind"@,
        }
    } else {
        "snitt "@ + wind.mean.text@ + " m/s"@
    }
}

pub open spec fn wind_penalty_of(subscore: int, wind: WindSignal, lang: Language) -> Option<
    PenaltyView,
> {
    match axis_severity(subscore) {
        Some(severity) => Some(
            PenaltyView {
                component: Component::Wind,
                severity,
                message: wind_message(wind, lang),
            },
        ),
        None => None,
    }
}

fn wind_text(wind: &WindSignal, lang: Language) -> (message: String)
    ensures
        message@ == wind_message(*wind, lang),
{
    if gusty(wind) {
        let gust = wind.gust.as_ref().unwrap();
        if wind.mean.reading <= WIND_PERFECT_MAX {
            match lang {
                Language::Norwegian => phrase("kastevind opp i ", gust.text.as_str(), " m/s"),
                Language::Swedish => phrase("vindbyar upp till ", gust.text.as_str(), " m/s"),
            }
        } else {
            let joint = match lang {
                Language::Norwegian => " m/s, kastevind opp i ",
                Language::Swedish => " m/s, vindbyar upp till ",
            };
            let mut message = phrase("snitt ", wind.mean.text.as_str(), joint);
            message.append(gust.text.as_str());
            message.append(" m/s");
            message
        }
    } else if wind.mean.reading > WIND_OK_MAX {
        match lang {
            Language::Norwegian => phrase("snitt ", wind.mean.text.as_str(), " m/s — mye vind"),
            Language::Swedish => phrase("snitt ", wind.mean.text.as_str(), " m/s — mycket vind"),
        }
    } else {
        phrase("snitt ", wind.mean.text.as_str(), " m/s")
    }
}

pub fn wind_penalty(subscore: u8, wind: &WindSignal, lang: Language) -> (penalty: Option<Penalty>)
    ensures
        penalty_view(penalty) == wind_penalty_of(subscore as int, *wind, lang),
{
    match severity_for(subscore) {
        Some(severity) => Some(
            Penalty { component: Component::Wind, severity, message: wind_text(wind, lang) },
        ),
        None => None,
    }
}

pub open spec fn precip_message(mean: Measured, lang: Language) -> Seq<char> {
    match lang {
        Language::Norwegian => if mean.reading > PRECIP_HEAVY {
            "kraftig regn, snitt "@ + mean.text@ + " mm/t"@
        } else {
            ""@ + mean.text@ + " mm/t i snitt"@
        },
        Language::Swedish => if mean.reading > PRECIP_HEAVY {
            "kraftigt regn, snitt "@ + mean.text@ + " mm/h"@
        } else {
            ""@ + mean.text@ + " mm/h i snitt"@
        },
    }
}

pub open spec fn precip_penalty_of(subscore: int, mean: Measured, lang: Language) -> Option<
    PenaltyView,
> {
    match axis_severity(subscore) {
        Some(severity) => Some(
            PenaltyView {
                component: Component::Precipitation,
                severity,
                message: precip_message(mean, lang),
            },
        ),
        None => None,
    }
}

pub fn precip_penalty(subscore: u8, mean: &Measured, lang: Language) -> (penalty: Option<Penalty>)
    ensures
        penalty_view(penalty) == precip_penalty_of(subscore as int, *mean, lang),
{
    match severity_for(subscore) {
        Some(severity) => {
            let heavy = mean.reading > PRECIP_HEAVY;
            let message = match lang {
                Language::Norwegian => if heavy {
                    phrase("kraftig regn, snitt ", mean.text.as_str(), " mm/t")
                } else {
                    phrase("", mean.text.as_str(), " mm/t i snitt")
                },
                Language::Swedish => if heavy {
                    phrase("kraftigt regn, snitt ", mean.text.as_str(), " mm/h")
                } else {
                    phrase("", mean.text.as_str(), " mm/h i snitt")
                },
            };
            Some(Penalty { component: Component::Precipitation, severity, message })
        },
        None => None,
    }
}

/// The probability penalty only fires when there is a probability: blaming
/// the neutral score of missing data on "0 %" would mislead.
pub open spec fn prob_penalty_of(
    subscore: int,
    probability: Option<ProbabilitySignal>,
    lang: Language,
) -> Option<PenaltyView> {
    match (axis_severity(subscore), probability) {
        (Some(severity), Some(p)) => Some(
            PenaltyView {
                component: Component::PrecipProbability,
                severity,
                message: ""@ + p.percent@ + match lang {
                    Language::Norwegian => " % sjanse for nedbør"@,
                    Language::Swedish => " % risk för nederbörd"@,
                },
            },
        ),
        _ => None,
    }
}

pub fn prob_penalty(
    subscore: u8,
    probability: &Option<ProbabilitySignal>,
    lang: Language,
) -> (penalty: Option<Penalty>)
    ensures
        penalty_view(penalty) == prob_penalty_of(subscore as int, *probability, lang),
{
    match (severity_for(subscore), probability) {
        (Some(severity), Some(p)) => {
            let after = match lang {
                Language::Norwegian => " % sjanse for nedbør",
                Language::Swedish => " % risk för nederbörd",
            };
            Some(
                Penalty {
                    component: Component::PrecipProbability,
                    severity,
                    message: phrase("", p.percent.as_str(), after),
                },
            )
        },
        _ => None,
    }
}

pub open spec fn ground_message(water: Measured, lang: Language) -> Seq<char> {
    match lang {
        Language::Norwegian => if water.reading >= GROUND_SATURATED {
            "gjennomvåt ("@ + water.text@ + " mm akkumulert)"@
        } else {
            "våt fra forrige døgn ("@ + water.text@ + " mm)"@
        },
        Language::Swedish => if water.reading >= GROUND_SATURATED {
            "genomblött ("@ + water.text@ + " mm ackumulerat)"@
        } else {
            "vått från föregående dygn ("@ + water.text@ + " mm)"@
        },
    }
}

pub open spec fn ground_penalty_of(
    subscore: int,
    ground: Option<GroundSignal>,
    lang: Language,
) -> Option<PenaltyView> {
    match (axis_severity(subscore), ground) {
        (Some(severity), Some(g)) => Some(
            PenaltyView {
                component: Component::Ground,
                severity,
                message: ground_message(g.water_mm, lang),
            },
        ),
        _ => None,
    }
}

pub fn ground_penalty(
    subscore: u8,
    ground: &Option<GroundSignal>,
    lang: Language,
) -> (penalty: Option<Penalty>)
    ensures
        penalty_view(penalty) == ground_penalty_of(subscore as int, *ground, lang),
{
    match (severity_for(subscore), ground) {
        (Some(severity), Some(g)) => {
            let saturated = g.water_mm.reading >= GROUND_SATURATED;
            let text = g.water_mm.text.as_str();
            let message = match lang {
                Language::Norwegian => if saturated {
                    phrase("gjennomvåt (", text, " mm akkumulert)")
                } else {
                    phrase("våt fra forrige døgn (", text, " mm)")
                },
                Language::Swedish => if saturated {
                    phrase("genomblött (", text, " mm ackumulerat)")
                } else {
                    phrase("vått från föregående dygn (", text, " mm)")
                },
            };
            Some(Penalty { component: Component::Ground, severity, message })
        },
        _ => None,
    }
}

/// Hours in whole days, rounded to the nearest.
pub open spec fn days_of_hours(hours: int) -> int {
    (hours + 12) / 24
}

/// A dry spell is worth a note when it lasts beyond the trigger, the surface
/// is not past its optimum, and the spell did cost points.
pub open spec fn drought_applies(g: GroundSignal) -> bool {
    &&& g.hours_since_meaningful_rain > DROUGHT_TRIGGER_HOURS
    &&& g.water_mm.reading <= GROUND_OPTIMAL_MM
    &&& docked(water_score(g), drought_points(g.hours_since_meaningful_rain as int))
        != water_score(g)
}

/// The day count carries a `+` where it is only a lower bound.
pub open spec fn drought_message(g: GroundSignal, lang: Language) -> Seq<char> {
    let days = decimal(days_of_hours(g.hours_since_meaningful_rain as int) as nat);
    let bound = if g.drought_at_lookback_cap {
        "+"@
    } else {
        ""@
    };
    match lang {
        Language::Norwegian => "tørt og løst dekke ("@ + days + bound + " døgn uten regn)"@,
        Language::Swedish => "torrt och löst underlag ("@ + days + bound + " dygn utan regn)"@,
    }
}

pub open spec fn drought_penalty_of(ground: Option<GroundSignal>, lang: Language) -> Option<
    PenaltyView,
> {
    match ground {
        Some(g) => if drought_applies(g) {
            Some(
                PenaltyView {
                    component: Component::Ground,
                    severity: Severity::Minor,
                    message: drought_message(g, lang),
                },
            )
        } else {
            None
        },
        None => None,
    }
}

/// Drought-side counterpart to `ground_penalty`.
pub fn drought_penalty(ground: &Option<GroundSignal>, lang: Language) -> (penalty: Option<Penalty>)
    ensures
        penalty_view(penalty) == drought_penalty_of(*ground, lang),
{
    match ground {
        Some(g) => {
            let hours: u64 = g.hours_since_meaningful_rain;
            let dry: u8 = ground_subscore(g.water_mm.reading, g.between);
            if hours <= DROUGHT_TRIGGER_HOURS || g.water_mm.reading > GROUND_OPTIMAL_MM
                || apply_drought_penalty(dry, hours) == dry {
                return None;
            }
            let days: u64 = hours / 24 + if hours % 24 >= 12 {
                1
            } else {
                0
            };
            let mut message = String::new();
            match lang {
                Language::Norwegian => message.append("tørt og løst dekke ("),
                Language::Swedish => message.append("torrt och löst underlag ("),
            }
            push_decimal(&mut message, days);
            message.append(if g.drought_at_lookback_cap {
                "+"
            } else {
                ""
            });
            match lang {
                Language::Norwegian => message.append(" døgn uten regn)"),
                Language::Swedish => message.append(" dygn utan regn)"),
            }
            proof {
                assert(days == days_of_hours(hours as int));
                assert(message@ =~= drought_message(*g, lang));
            }
            Some(Penalty { component: Component::Ground, severity: Severity::Minor, message })
        },
        None => None,
    }
}

// ---- The list of penalties ----

/// An optional penalty as a list of at most one.
pub open spec fn at_most_one(penalty: Option<PenaltyView>) -> Seq<PenaltyView> {
    match penalty {
        Some(p) => seq![p],
        None => Seq::empty(),
    }
}

pub open spec fn rain_cap_penalty(peak: Seq<char>, lang: Language) -> PenaltyView {
    PenaltyView {
        component: Component::HardCap,
        severity: Severity::Critical,
        message: match lang {
            Language::Norwegian => "Kraftig regn ventet ("@ + peak
                + " mm/t) — score hard-cappet"@,
            Language::Swedish => "Kraftigt regn väntas ("@ + peak + " mm/h) — poäng hard-cappad"@,
        },
    }
}

pub open spec fn wind_cap_penalty(peak: Seq<char>, lang: Language) -> PenaltyView {
    PenaltyView {
        component: Component::HardCap,
        severity: Severity::Critical,
        message: match lang {
            Language::Norwegian => "Stormvind ventet ("@ + peak + " m/s) — score hard-cappet"@,
            Language::Swedish => "Stormvind väntas ("@ + peak + " m/s) — poäng hard-cappad"@,
        },
    }
}

/// Every penalty of a window, axis by axis, then the hard caps.
pub open spec fn penalties_of(
    hours: Seq<HourlyConditions>,
    signals: AxisSignals,
    lang: Language,
) -> Seq<PenaltyView> {
    let b = breakdown_of(signals);
    at_most_one(temp_penalty_of(b.temperature as int, signals, lang)) + at_most_one(
        wind_penalty_of(b.wind as int, signals.wind, lang),
    ) + at_most_one(precip_penalty_of(b.precipitation as int, signals.mean_precip, lang))
        + at_most_one(
        prob_penalty_of(b.precip_probability as int, signals.probability, lang),
    ) + at_most_one(ground_penalty_of(b.ground as int, signals.ground, lang)) + at_most_one(
        drought_penalty_of(signals.ground, lang),
    ) + at_most_one(
        if rain_caps(hours) {
            Some(rain_cap_penalty(signals.peak_precip_text@, lang))
        } else {
            None
        },
    ) + at_most_one(
        if wind_caps(hours) {
            Some(wind_cap_penalty(signals.peak_wind_text@, lang))
        } else {
            None
        },
    )
}

/// The penalties of one severity, in their order.
pub open spec fn of_severity(list: Seq<PenaltyView>, severity: Severity) -> Seq<PenaltyView> {
    list.filter(|p: PenaltyView| p.severity == severity)
}

/// The same penalties with the worst first; among equals the order stays.
pub open spec fn worst_first(list: Seq<PenaltyView>) -> Seq<PenaltyView> {
    of_severity(list, Severity::Critical) + of_severity(list, Severity::Major) + of_severity(
        list,
        Severity::Minor,
    )
}

/// Penalties on their way into a list, one list per severity.
struct Buckets {
    critical: Vec<Penalty>,
    major: Vec<Penalty>,
    minor: Vec<Penalty>,
}

impl Buckets {
    spec fn holds(self, list: Seq<PenaltyView>) -> bool {
        &&& penalty_views(self.critical@) == of_severity(list, Severity::Critical)
        &&& penalty_views(self.major@) == of_severity(list, Severity::Major)
        &&& penalty_views(self.minor@) == of_severity(list, Severity::Minor)
    }

    fn new() -> (buckets: Buckets)
        ensures
            buckets.holds(Seq::empty()),
    {
        let buckets = Buckets { critical: Vec::new(), major: Vec::new(), minor: Vec::new() };
        proof {
            reveal(Seq::filter);
            assert(penalty_views(Seq::empty()) =~= Seq::empty());
        }
        buckets
    }

    /// The penalties, worst first.
    fn into_list(self, Ghost(list): Ghost<Seq<PenaltyView>>) -> (out: Vec<Penalty>)
        requires
            self.holds(list),
        ensures
            penalty_views(out@) == worst_first(list),
    {
        let mut out = self.critical;
        let mut major = self.major;
        let mut minor = self.minor;
        out.append(&mut major);
        out.append(&mut minor);
        proof {
            assert(penalty_views(out@) =~= penalty_views(self.critical@) + penalty_views(
                self.major@,
            ) + penalty_views(self.minor@));
        }
        out
    }

    fn add(&mut self, penalty: Option<Penalty>, Ghost(list): Ghost<Seq<PenaltyView>>)
        requires
            old(self).holds(list),
        ensures
            final(self).holds(list + at_most_one(penalty_view(penalty))),
    {
        proof {
            let more = at_most_one(penalty_view(penalty));
            reveal(Seq::filter);
            assert forall|s: Severity| true implies #[trigger] of_severity(list + more, s)
                == of_severity(list, s) + of_severity(more, s) by {
                Seq::filter_distributes_over_add(list, more, |p: PenaltyView| p.severity == s);
            }
            if penalty is Some {
                let p = penalty_view(penalty)->0;
                assert(more.drop_last() =~= Seq::empty());
                assert forall|s: Severity| true implies #[trigger] of_severity(more, s) == (
                if p.severity == s {
                    seq![p]
                } else {
                    Seq::empty()
                }) by {
                    assert(more.last() == p);
                    assert(of_severity(more.drop_last(), s) =~= Seq::empty());
                }
            }
        }
        match penalty {
            Some(p) => {
                let severity = p.severity;
                match severity {
                    Severity::Critical => self.critical.push(p),
                    Severity::Major => self.major.push(p),
                    Severity::Minor => self.minor.push(p),
                }
            },
            None => {},
        }
        proof {
            let all = list + at_most_one(penalty_view(penalty));
            assert(penalty_views(self.critical@) =~= of_severity(all, Severity::Critical));
            assert(penalty_views(self.major@) =~= of_severity(all, Severity::Major));
            assert(penalty_views(self.minor@) =~= of_severity(all, Severity::Minor));
        }
    }
}

fn rain_cap(peak: &str, lang: Language) -> (penalty: Penalty)
    ensures
        penalty@ == rain_cap_penalty(peak@, lang),
{
    Penalty {
        component: Component::HardCap,
        severity: Severity::Critical,
        message: match lang {
            Language::Norwegian => phrase(
                "Kraftig regn ventet (",
                peak,
                " mm/t) — score hard-cappet",
            ),
            Language::Swedish => phrase("Kraftigt regn väntas (", peak, " mm/h) — poäng hard-cappad"),
        },
    }
}

fn wind_cap(peak: &str, lang: Language) -> (penalty: Penalty)
    ensures
        penalty@ == wind_cap_penalty(peak@, lang),
{
    Penalty {
        component: Component::HardCap,
        severity: Severity::Critical,
        message: match lang {
            Language::Norwegian => phrase("Stormvind ventet (", peak, " m/s) — score hard-cappet"),
            Language::Swedish => phrase("Stormvind väntas (", peak, " m/s) — poäng hard-cappad"),
        },
    }
}

fn penalty_list(hours: &Vec<HourlyConditions>, signals: &AxisSignals, lang: Language) -> (list:
    Vec<Penalty>)
    ensures
        penalty_views(list@) == worst_first(penalties_of(hours@, *signals, lang)),
{
    let b = breakdown_from(signals);
    let mut buckets = Buckets::new();
    let ghost none: Seq<PenaltyView> = Seq::empty();
    buckets.add(temp_penalty(b.temperature, signals, lang), Ghost(none));
    let ghost l1 = at_most_one(temp_penalty_of(b.temperature as int, *signals, lang));
    proof {
        assert(none + l1 =~= l1);
    }
    buckets.add(wind_penalty(b.wind, &signals.wind, lang), Ghost(l1));
    let ghost l2 = l1 + at_most_one(wind_penalty_of(b.wind as int, signals.wind, lang));
    buckets.add(precip_penalty(b.precipitation, &signals.mean_precip, lang), Ghost(l2));
    let ghost l3 = l2 + at_most_one(
        precip_penalty_of(b.precipitation as int, signals.mean_precip, lang),
    );
    buckets.add(prob_penalty(b.precip_probability, &signals.probability, lang), Ghost(l3));
    let ghost l4 = l3 + at_most_one(
        prob_penalty_of(b.precip_probability as int, signals.probability, lang),
    );
    buckets.add(ground_penalty(b.ground, &signals.ground, lang), Ghost(l4));
    let ghost l5 = l4 + at_most_one(ground_penalty_of(b.ground as int, signals.ground, lang));
    buckets.add(drought_penalty(&signals.ground, lang), Ghost(l5));
    let ghost l6 = l5 + at_most_one(drought_penalty_of(signals.ground, lang));
    let rain = if any_rain_cap(hours) {
        Some(rain_cap(signals.peak_precip_text.as_str(), lang))
    } else {
        None
    };
    let ghost l7 = l6 + at_most_one(penalty_view(rain));
    buckets.add(rain, Ghost(l6));
    let wind = if any_wind_cap(hours) {
        Some(wind_cap(signals.peak_wind_text.as_str(), lang))
    } else {
        None
    };
    let ghost l8 = l7 + at_most_one(penalty_view(wind));
    buckets.add(wind, Ghost(l7));
    proof {
        assert(l8 == penalties_of(hours@, *signals, lang));
    }
    buckets.into_list(Ghost(l8))
}

// ---- Highlights ----

/// What speaks for the window: the warmth of the sun, where it is noticeable.
pub open spec fn highlights_of(sun_warming: Measured, lang: Language) -> Seq<Seq<char>> {
    if sun_warming.reading < SOLAR_NEGLIGIBLE_C {
        Seq::empty()
    } else {
        seq![
            (match lang {
                Language::Norwegian => "Sol bidrar med +"@,
                Language::Swedish => "Solen bidrar med +"@,
            }) + sun_warming.text@ + " °C"@,
        ]
    }
}

fn highlight_list(sun_warming: &Measured, lang: Language) -> (list: Vec<String>)
    ensures
        texts(list@) == highlights_of(*sun_warming, lang),
{
    let mut list: Vec<String> = Vec::new();
    if sun_warming.reading >= SOLAR_NEGLIGIBLE_C {
        let before = match lang {
            Language::Norwegian => "Sol bidrar med +",
            Language::Swedish => "Solen bidrar med +",
        };
        list.push(phrase(before, sun_warming.text.as_str(), " °C"));
    }
    proof {
        assert(texts(list@) =~= highlights_of(*sun_warming, lang));
    }
    list
}

// ---- Score ----

pub open spec fn no_data_label(lang: Language) -> Seq<char> {
    match lang {
        Language::Norwegian => "Ingen data"@,
        Language::Swedish => "Inga data"@,
    }
}

pub open spec fn no_data_penalty(lang: Language) -> PenaltyView {
    PenaltyView {
        component: Component::NoData,
        severity: Severity::Critical,
        message: match lang {
            Language::Norwegian => "ingen prognosedata i vinduet"@,
            Language::Swedish => "inga prognosdata i fönstret"@,
        },
    }
}

/// The score of a window without forecast hours: zero on every axis, under a
/// label and a critical penalty of its own.
pub open spec fn is_no_data_score(s: Grusindeks, lang: Language) -> bool {
    &&& s.total == 0
    &&& s.breakdown == ScoreBreakdown {
        temperature: 0,
        wind: 0,
        precipitation: 0,
        precip_probability: 0,
        ground: 0,
    }
    &&& s.label@ == no_data_label(lang)
    &&& !s.hard_capped
    &&& penalty_views(s.penalties@) == seq![no_data_penalty(lang)]
    &&& s.stats.has_no_figures()
    &&& s.highlights@.len() == 0
}

/// The score of a window with forecast hours `hours` that starts on `surface`.
pub open spec fn is_score_of(
    s: Grusindeks,
    hours: Seq<HourlyConditions>,
    surface: Option<SurfaceState>,
    signals: WindowSignals,
    lang: Language,
) -> bool {
    let axes = tied(signals, hours, surface);
    &&& s.breakdown == breakdown_of(axes)
    &&& s.hard_capped == (rain_caps(hours) || wind_caps(hours))
    &&& s.total == capped_total(weighted_total(s.breakdown), s.hard_capped)
    &&& s.label@ == label_text(s.total as int, lang)
    &&& penalty_views(s.penalties@) == worst_first(penalties_of(hours, axes, lang))
    &&& s.stats == signals.stats
    &&& texts(s.highlights@) == highlights_of(signals.sun_warming, lang)
}

/// `s` is the score of the hours that lie in `window`, which starts on
/// `surface`.
pub open spec fn scores_window(
    s: Grusindeks,
    hours: Seq<HourlyConditions>,
    window: RideWindow,
    surface: Option<SurfaceState>,
    signals: WindowSignals,
    lang: Language,
) -> bool {
    if in_window(hours, window).len() == 0 {
        is_no_data_score(s, lang)
    } else {
        is_score_of(s, in_window(hours, window), surface, signals, lang)
    }
}

/// The score of a window without forecast hours.
pub fn no_data_score(lang: Language) -> (s: Grusindeks)
    ensures
        is_no_data_score(s, lang),
{
    let (label, message) = match lang {
        Language::Norwegian => ("Ingen data", "ingen prognosedata i vinduet"),
        Language::Swedish => ("Inga data", "inga prognosdata i fönstret"),
    };
    let mut penalties: Vec<Penalty> = Vec::new();
    penalties.push(
        Penalty {
            component: Component::NoData,
            severity: Severity::Critical,
            message: message.to_owned(),
        },
    );
    proof {
        assert(penalty_views(penalties@) =~= seq![no_data_penalty(lang)]);
    }
    Grusindeks {
        total: 0,
        breakdown: ScoreBreakdown {
            temperature: 0,
            wind: 0,
            precipitation: 0,
            precip_probability: 0,
            ground: 0,
        },
        label,
        hard_capped: false,
        penalties,
        stats: WindowStats::empty(),
        highlights: Vec::new(),
    }
}

/// Compute the Grusindeks for the `hours` that lie in `window`. `surface` is the
/// ground when the window starts, where it is known, and `signals` what the
/// hours amount to on each axis.
pub fn score(
    hours: &Vec<HourlyConditions>,
    window: RideWindow,
    surface: Option<SurfaceState>,
    signals: WindowSignals,
    lang: Language,
) -> (s: Grusindeks)
    ensures
        scores_window(s, hours@, window, surface, signals, lang),
{
    let inside = hours_in_window(hours, window);
    if inside.len() == 0 {
        return no_data_score(lang);
    }
    let stats = signals.stats;
    let gust = match peak(&inside, Signal::Gust) {
        Some(reading) => Some(Measured { reading, text: signals.gust_text }),
        None => None,
    };
    let probability = match peak(&inside, Signal::Probability) {
        Some(_) => Some(
            ProbabilitySignal {
                remaining: signals.dry_chance,
                percent: signals.probability_text,
            },
        ),
        None => None,
    };
    let ground = match surface {
        Some(state) => Some(
            GroundSignal {
                water_mm: Measured { reading: state.accumulated_mm, text: signals.ground_text },
                between: signals.ground_between,
                hours_since_meaningful_rain: state.hours_since_meaningful_rain,
                drought_at_lookback_cap: state.drought_at_lookback_cap,
            },
        ),
        None => None,
    };
    let axes = AxisSignals {
        mean_temp: signals.mean_temp,
        felt_temp: signals.felt_temp,
        felt_gap: signals.felt_gap,
        temp_between: signals.temp_between,
        wind: WindSignal {
            mean: signals.mean_wind,
            between: signals.wind_between,
            extra: signals.wind_extra,
            gust,
            gust_limit: signals.gust_limit,
        },
        mean_precip: signals.mean_precip,
        precip_between: signals.precip_between,
        probability,
        ground,
        peak_precip_text: signals.peak_precip_text,
        peak_wind_text: signals.peak_wind_text,
        sun_warming: signals.sun_warming,
    };
    let breakdown = breakdown_from(&axes);
    let hard_capped = any_rain_cap(&inside) || any_wind_cap(&inside);
    let raw_total: u8 = weighted(&breakdown);
    let total: u8 = if hard_capped && raw_total > HARD_CAP_TOTAL {
        HARD_CAP_TOTAL
    } else {
        raw_total
    };
    let penalties = penalty_list(&inside, &axes, lang);
    let highlights = highlight_list(&axes.sun_warming, lang);
    Grusindeks {
        total,
        breakdown,
        label: label_for(total, lang),
        hard_capped,
        penalties,
        stats,
        highlights,
    }
}

} // verus!
