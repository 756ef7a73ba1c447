//! What holds of every score.
use vstd::prelude::*;

use crate::conditions::{
    a_peak_is_carried_and_not_exceeded, hours_in_a_window_start_in_it, in_window, largest_of,
    readings_of, HourlyConditions, Signal,
};
use crate::drying::SurfaceState;
use crate::felt_temp::SOLAR_NEGLIGIBLE_C;
use crate::lang::Language;
use crate::reading::ZERO;
use crate::score::curves::{
    along_curve, stronger_mean_wind_never_scores_higher, sub_scores_stay_on_scale, wind_stretch_of,
};
use crate::score::thresholds::{
    DROUGHT_FULL_HOURS, DROUGHT_MAX_PENALTY, DROUGHT_TRIGGER_HOURS, GROUND_OPTIMAL_MM,
    GROUND_SATURATED, GUST_PENALTY, HARD_CAP_PRECIP_MM_PER_HOUR, HARD_CAP_TOTAL, HARD_CAP_WIND_MS,
    PRECIP_DRIZZLE, PRECIP_DRIZZLE_AT, PRECIP_HEAVY, PRECIP_HEAVY_AT, PRECIP_ZERO,
    TEMP_OPTIMAL_HIGH, TEMP_OPTIMAL_LOW, TEMP_ZERO_HIGH, TEMP_ZERO_LOW, WIND_OK_MAX,
    WIND_PERFECT_MAX, WIND_POOR_MAX,
};
use crate::score::{
    at_most_one, axis_severity, capped_total, docked, drought_penalty_of, drought_points,
    ground_penalty_of, is_gusty, is_score_of, of_severity, penalties_of, penalty_views,
    precip_penalty_of, prob_penalty_of, rain_cap_penalty, rain_caps, scores_window,
    temp_penalty_of, tied, water_score, weighted_total, wind_cap_penalty, wind_caps,
    wind_penalty_of, wind_score, worst_first, Component, Grusindeks, PenaltyView, ScoreBreakdown,
    Severity, WindSignal, WindowSignals,
};
use crate::text::texts;
use crate::time::RideWindow;

verus! {

/// No sub-score exceeds 100.
pub open spec fn on_scale(b: ScoreBreakdown) -> bool {
    &&& b.temperature <= 100
    &&& b.wind <= 100
    &&& b.precipitation <= 100
    &&& b.precip_probability <= 100
    &&& b.ground <= 100
}

/// Every sub-score of `a` is at most that of `b`.
pub open spec fn no_better(a: ScoreBreakdown, b: ScoreBreakdown) -> bool {
    &&& a.temperature <= b.temperature
    &&& a.wind <= b.wind
    &&& a.precipitation <= b.precipitation
    &&& a.precip_probability <= b.precip_probability
    &&& a.ground <= b.ground
}

/// `Critical` above `Major` above `Minor`.
pub open spec fn rank(severity: Severity) -> int {
    match severity {
        Severity::Minor => 0,
        Severity::Major => 1,
        Severity::Critical => 2,
    }
}

/// A total lies between its lowest and its highest sub-score, and so on the
/// scale from 0 to 100; five perfect sub-scores make 100.
pub proof fn total_stays_on_scale(b: ScoreBreakdown, low: int, high: int)
    requires
        on_scale(b),
        low <= b.temperature <= high,
        low <= b.wind <= high,
        low <= b.precipitation <= high,
        low <= b.precip_probability <= high,
        low <= b.ground <= high,
    ensures
        low <= weighted_total(b) <= high,
        0 <= weighted_total(b) <= 100,
        low == 100 ==> weighted_total(b) == 100,
{
}

/// Every score of a window with data has its sub-scores and its total between 0
/// and 100.
pub proof fn scores_lie_on_the_scale(
    s: Grusindeks,
    hours: Seq<HourlyConditions>,
    surface: Option<SurfaceState>,
    signals: WindowSignals,
    lang: Language,
)
    requires
        is_score_of(s, hours, surface, signals, lang),
    ensures
        on_scale(s.breakdown),
        s.total <= 100,
{
    sub_scores_stay_on_scale(signals.felt_temp.reading, signals.temp_between, 0);
    sub_scores_stay_on_scale(signals.mean_precip.reading, signals.precip_between, 0);
    if let Some(state) = surface {
        sub_scores_stay_on_scale(state.accumulated_mm, signals.ground_between, 0);
    }
    total_stays_on_scale(s.breakdown, 0, 100);
}

/// Better sub-scores never make a lower total, with or without a hard cap.
pub proof fn total_grows_with_its_sub_scores(a: ScoreBreakdown, b: ScoreBreakdown, capped: bool)
    requires
        no_better(a, b),
    ensures
        capped_total(weighted_total(a), capped) <= capped_total(weighted_total(b), capped),
{
}

/// A hard cap holds the total at 25 or below and never raises it.
pub proof fn hard_cap_bounds_the_total(weighted: int)
    ensures
        capped_total(weighted, true) <= HARD_CAP_TOTAL,
        capped_total(weighted, true) <= weighted,
        capped_total(weighted, false) == weighted,
{
}

/// A dry spell costs nothing up to the trigger, never more than the maximum,
/// and never less for having lasted longer.
pub proof fn drought_is_a_soft_hint(hours: int, longer: int, ground_score: int)
    requires
        hours <= longer,
        0 <= ground_score,
    ensures
        hours <= DROUGHT_TRIGGER_HOURS ==> drought_points(hours) == 0,
        hours >= DROUGHT_FULL_HOURS ==> drought_points(hours) == DROUGHT_MAX_PENALTY,
        0 <= drought_points(hours) <= drought_points(longer) <= DROUGHT_MAX_PENALTY,
        ground_score - DROUGHT_MAX_PENALTY <= docked(ground_score, drought_points(hours))
            <= ground_score,
{
}

/// On the scale, an axis is penalised exactly when its sub-score is below 80,
/// and a lower sub-score is never penalised less.
pub proof fn axis_penalties_follow_the_sub_score(low: int, high: int)
    requires
        0 <= low <= high <= 100,
    ensures
        axis_severity(low) is None <==> low >= 80,
        axis_severity(high) is Some ==> axis_severity(low) is Some && rank(
            axis_severity(high)->0,
        ) <= rank(axis_severity(low)->0),
        axis_severity(low) != Some(Severity::Critical),
{
}

proof fn lemma_of_severity(list: Seq<PenaltyView>, severity: Severity)
    ensures
        forall|i: int|
            0 <= i < of_severity(list, severity).len() ==> (#[trigger] of_severity(
                list,
                severity,
            )[i]).severity == severity,
        forall|p: PenaltyView|
            list.contains(p) && p.severity == severity ==> of_severity(list, severity).contains(p),
{
    let keep = |p: PenaltyView| p.severity == severity;
    assert forall|i: int| 0 <= i < of_severity(list, severity).len() implies (
    #[trigger] of_severity(list, severity)[i]).severity == severity by {
        list.lemma_filter_pred(keep, i);
    }
    assert forall|p: PenaltyView| list.contains(p) && p.severity == severity implies of_severity(
        list,
        severity,
    ).contains(p) by {
        let i = choose|i: int| 0 <= i < list.len() && list[i] == p;
        list.lemma_filter_contains(keep, i);
    }
}

/// In a list of penalties no penalty stands before a worse one.
pub proof fn worst_penalties_come_first(list: Seq<PenaltyView>, i: int, j: int)
    requires
        0 <= i <= j < worst_first(list).len(),
    ensures
        rank(worst_first(list)[i].severity) >= rank(worst_first(list)[j].severity),
{
    lemma_of_severity(list, Severity::Critical);
    lemma_of_severity(list, Severity::Major);
    lemma_of_severity(list, Severity::Minor);
}

/// Putting the worst first neither drops, adds nor repeats a penalty.
pub proof fn worst_first_keeps_every_penalty(list: Seq<PenaltyView>)
    ensures
        worst_first(list).to_multiset() == list.to_multiset(),
    decreases list.len(),
{
    broadcast use vstd::seq_lib::group_to_multiset_ensures;

    reveal(Seq::filter);
    if list.len() > 0 {
        let rest = list.drop_last();
        let p = list.last();
        worst_first_keeps_every_penalty(rest);
        assert(list =~= rest.push(p));
        let critical = of_severity(rest, Severity::Critical);
        let major = of_severity(rest, Severity::Major);
        let minor = of_severity(rest, Severity::Minor);
        vstd::seq_lib::lemma_multiset_commutative(critical + major, minor);
        vstd::seq_lib::lemma_multiset_commutative(critical, major);
        let critical2 = of_severity(list, Severity::Critical);
        let major2 = of_severity(list, Severity::Major);
        let minor2 = of_severity(list, Severity::Minor);
        vstd::seq_lib::lemma_multiset_commutative(critical2 + major2, minor2);
        vstd::seq_lib::lemma_multiset_commutative(critical2, major2);
        assert(worst_first(list).to_multiset() =~= list.to_multiset());
    } else {
        assert(worst_first(list) =~= list);
    }
}

/// A hard-capped score opens its list of penalties with a critical one, and
/// its total is at most 25.
pub proof fn a_hard_cap_is_explained_first(
    s: Grusindeks,
    hours: Seq<HourlyConditions>,
    surface: Option<SurfaceState>,
    signals: WindowSignals,
    lang: Language,
)
    requires
        is_score_of(s, hours, surface, signals, lang),
        s.hard_capped,
    ensures
        s.total <= HARD_CAP_TOTAL,
        s.penalties@.len() > 0,
        s.penalties@[0].severity == Severity::Critical,
{
    let list = penalties_of(hours, tied(signals, hours, surface), lang);
    let cap = if rain_caps(hours) {
        rain_cap_penalty(signals.peak_precip_text@, lang)
    } else {
        wind_cap_penalty(signals.peak_wind_text@, lang)
    };
    let last = at_most_one(
        if wind_caps(hours) {
            Some(wind_cap_penalty(signals.peak_wind_text@, lang))
        } else {
            None
        },
    );
    let n = list.len();
    assert(list.contains(cap)) by {
        if wind_caps(hours) && !rain_caps(hours) {
            assert(list[n - 1] == cap);
        } else {
            assert(list[n - 1 - last.len()] == cap);
        }
    }
    lemma_of_severity(list, Severity::Critical);
    let critical = of_severity(list, Severity::Critical);
    assert(critical.contains(cap));
    assert(worst_first(list)[0] == critical[0]);
    assert(penalty_views(s.penalties@).len() == s.penalties@.len());
    assert(worst_first(list).len() >= critical.len());
    assert(penalty_views(s.penalties@)[0] == s.penalties@[0]@);
}

// ---- Wind ----

/// The same wind with its gusts left aside.
pub open spec fn without_gusts(wind: WindSignal) -> WindSignal {
    WindSignal { gust: None, ..wind }
}

/// Gusts of more than 1.5 × the mean wind cost a fixed number of points, never
/// below zero; other gusts cost nothing.
pub proof fn gusts_cost_a_fixed_number_of_points(wind: WindSignal)
    ensures
        is_gusty(wind) ==> wind_score(wind) == docked(
            wind_score(without_gusts(wind)),
            GUST_PENALTY as int,
        ),
        !is_gusty(wind) ==> wind_score(wind) == wind_score(without_gusts(wind)),
{
    sub_scores_stay_on_scale(wind.mean.reading, wind.between, wind.extra);
}

/// A stronger mean wind never scores higher, gusts left aside, and no wind
/// scores more than 100.
pub proof fn stronger_wind_never_scores_higher(calmer: WindSignal, stronger: WindSignal)
    requires
        calmer.mean.reading <= stronger.mean.reading,
        along_curve(
            wind_stretch_of(calmer.mean.reading),
            calmer.mean.reading,
            calmer.between,
            wind_stretch_of(stronger.mean.reading),
            stronger.mean.reading,
            stronger.between,
        ),
        calmer.mean.reading > WIND_POOR_MAX ==> calmer.extra <= stronger.extra,
    ensures
        wind_score(without_gusts(stronger)) <= wind_score(without_gusts(calmer)) <= 100,
{
    stronger_mean_wind_never_scores_higher(
        calmer.mean.reading,
        calmer.between,
        calmer.extra,
        stronger.mean.reading,
        stronger.between,
        stronger.extra,
    );
}

// ---- Weights ----

/// Of a hundred parts of the total, 18 are temperature, 17 wind, 25 the amount
/// and 10 the probability of precipitation, and 30 the ground: the total is
/// what they add up to, fractions of a point dropped.
pub proof fn the_total_is_the_weighted_mean(b: ScoreBreakdown)
    ensures
        100 * weighted_total(b) <= 18 * b.temperature + 17 * b.wind + 25 * b.precipitation + 10
            * b.precip_probability + 30 * b.ground,
        18 * b.temperature + 17 * b.wind + 25 * b.precipitation + 10 * b.precip_probability + 30
            * b.ground < 100 * weighted_total(b) + 100,
{
}

// ---- What a score is made of ----

/// A window without any forecast hour in it scores nothing and says so.
pub proof fn a_window_without_hours_has_no_score(
    s: Grusindeks,
    hours: Seq<HourlyConditions>,
    window: RideWindow,
    surface: Option<SurfaceState>,
    signals: WindowSignals,
    lang: Language,
)
    requires
        scores_window(s, hours, window, surface, signals, lang),
        forall|i: int|
            0 <= i < hours.len() ==> (#[trigger] hours[i]).time < window.start || hours[i].time
                >= window.end,
    ensures
        s.total == 0,
        s.breakdown.temperature == 0 && s.breakdown.wind == 0 && s.breakdown.precipitation == 0
            && s.breakdown.precip_probability == 0 && s.breakdown.ground == 0,
        !s.hard_capped,
        s.penalties@.len() == 1,
        s.penalties@[0].component == Component::NoData,
        s.penalties@[0].severity == Severity::Critical,
        s.stats.figures is None,
        s.highlights@.len() == 0,
{
    if in_window(hours, window).len() > 0 {
        hours_in_a_window_start_in_it(hours, window, 0);
        let j = choose|j: int| 0 <= j < hours.len() && hours[j] == in_window(hours, window)[0];
        assert(hours[j].time < window.start || hours[j].time >= window.end);
    }
    let views = penalty_views(s.penalties@);
    assert(views.len() == s.penalties@.len());
    assert(views[0] == s.penalties@[0]@);
}

/// A window with forecast hours is hard-capped exactly when one of them brings
/// more than 5 mm/h of rain or more than 15 m/s of wind. Its total is the
/// weighted mean of its sub-scores, and at most 25 where it is capped.
pub proof fn a_total_is_the_weighted_mean_or_the_cap(
    s: Grusindeks,
    hours: Seq<HourlyConditions>,
    window: RideWindow,
    surface: Option<SurfaceState>,
    signals: WindowSignals,
    lang: Language,
    i: int,
)
    requires
        scores_window(s, hours, window, surface, signals, lang),
        0 <= i < hours.len(),
        window.start <= hours[i].time < window.end,
    ensures
        s.hard_capped <==> exists|j: int|
            0 <= j < hours.len() && window.start <= (#[trigger] hours[j]).time < window.end && (
            hours[j].precipitation_mm > HARD_CAP_PRECIP_MM_PER_HOUR || hours[j].wind_speed_ms
                > HARD_CAP_WIND_MS),
        ({
            let b = s.breakdown;
            let sum = 18 * b.temperature + 17 * b.wind + 25 * b.precipitation + 10
                * b.precip_probability + 30 * b.ground;
            &&& !s.hard_capped ==> 100 * s.total <= sum < 100 * s.total + 100
            &&& s.hard_capped && sum < 2600 ==> 100 * s.total <= sum < 100 * s.total + 100
            &&& s.hard_capped && sum >= 2600 ==> s.total == 25
        }),
        s.label@ == (match lang {
            Language::Norwegian => if s.total < 25 {
                "Dårlig"@
            } else if s.total < 45 {
                "Marginalt"@
            } else if s.total < 65 {
                "OK"@
            } else if s.total < 85 {
                "Bra"@
            } else {
                "Strålende"@
            },
            Language::Swedish => if s.total < 25 {
                "Dåligt"@
            } else if s.total < 45 {
                "Marginellt"@
            } else if s.total < 65 {
                "OK"@
            } else if s.total < 85 {
                "Bra"@
            } else {
                "Strålande"@
            },
        }),
        s.stats == signals.stats,
{
    let inside = in_window(hours, window);
    hours_in_a_window_start_in_it(hours, window, i);
    assert(inside.len() > 0);
    the_total_is_the_weighted_mean(s.breakdown);
    if s.hard_capped {
        let k = choose|k: int|
            0 <= k < inside.len() && ((#[trigger] inside[k]).precipitation_mm
                > HARD_CAP_PRECIP_MM_PER_HOUR || inside[k].wind_speed_ms > HARD_CAP_WIND_MS);
        hours_in_a_window_start_in_it(hours, window, k);
        let j = choose|j: int| 0 <= j < hours.len() && hours[j] == inside[k];
        assert(window.start <= hours[j].time < window.end);
    }
    if exists|j: int|
        0 <= j < hours.len() && window.start <= (#[trigger] hours[j]).time < window.end && (
        hours[j].precipitation_mm > HARD_CAP_PRECIP_MM_PER_HOUR || hours[j].wind_speed_ms
            > HARD_CAP_WIND_MS) {
        let j = choose|j: int|
            0 <= j < hours.len() && window.start <= (#[trigger] hours[j]).time < window.end && (
            hours[j].precipitation_mm > HARD_CAP_PRECIP_MM_PER_HOUR || hours[j].wind_speed_ms
                > HARD_CAP_WIND_MS);
        hours_in_a_window_start_in_it(hours, window, j);
        let k = choose|k: int| 0 <= k < inside.len() && inside[k] == hours[j];
        assert(inside[k].precipitation_mm > HARD_CAP_PRECIP_MM_PER_HOUR || inside[k].wind_speed_ms
            > HARD_CAP_WIND_MS);
    }
}

/// The temperature sub-score is that of the felt temperature: 100 from 12 to 22
/// °C, nothing from -5 °C down and from 35 °C up, and in between the
/// interpolated score. The precipitation sub-score is that of the mean: 100
/// without rain, nothing from 5 mm/h up.
pub proof fn temperature_and_rain_are_scored_on_their_curves(
    s: Grusindeks,
    hours: Seq<HourlyConditions>,
    surface: Option<SurfaceState>,
    signals: WindowSignals,
    lang: Language,
)
    requires
        is_score_of(s, hours, surface, signals, lang),
    ensures
        ({
            let t = signals.felt_temp.reading;
            let score = s.breakdown.temperature;
            &&& TEMP_OPTIMAL_LOW <= t <= TEMP_OPTIMAL_HIGH ==> score == 100
            &&& t <= TEMP_ZERO_LOW || t >= TEMP_ZERO_HIGH ==> score == 0
            &&& TEMP_ZERO_LOW < t < TEMP_OPTIMAL_LOW || TEMP_OPTIMAL_HIGH < t < TEMP_ZERO_HIGH
                ==> (signals.temp_between <= 100 ==> score == signals.temp_between)
        }),
        ({
            let mm = signals.mean_precip.reading;
            let score = s.breakdown.precipitation;
            &&& mm <= ZERO ==> score == 100
            &&& mm == PRECIP_DRIZZLE ==> score == PRECIP_DRIZZLE_AT
            &&& mm == PRECIP_HEAVY ==> score == PRECIP_HEAVY_AT
            &&& mm >= PRECIP_ZERO ==> score == 0
            &&& ZERO < mm < PRECIP_ZERO && mm != PRECIP_DRIZZLE && mm != PRECIP_HEAVY ==> (
            signals.precip_between <= 100 ==> score == signals.precip_between)
        }),
{
}

/// The wind sub-score is that of the mean wind: 100 up to 3 m/s, 60 at 7 and 20
/// at 12, and past that the points lost are taken from 20. It loses 20 points,
/// never below zero, exactly where there is wind and some hour has a gust above
/// 1.5 times the mean.
pub proof fn wind_is_scored_with_its_gusts(
    s: Grusindeks,
    hours: Seq<HourlyConditions>,
    surface: Option<SurfaceState>,
    signals: WindowSignals,
    lang: Language,
)
    requires
        is_score_of(s, hours, surface, signals, lang),
        signals.wind_between <= 100,
    ensures
        ({
            let mean = signals.mean_wind.reading;
            let gusty = mean > ZERO && exists|i: int|
                0 <= i < hours.len() && ((#[trigger] hours[i]).wind_gust_ms matches Some(g) && g
                    > signals.gust_limit);
            let base = if mean <= WIND_PERFECT_MAX {
                100int
            } else if mean == WIND_OK_MAX {
                60
            } else if mean < WIND_POOR_MAX {
                signals.wind_between as int
            } else if mean == WIND_POOR_MAX {
                20
            } else if signals.wind_extra < 20 {
                20 - signals.wind_extra
            } else {
                0
            };
            &&& !gusty ==> s.breakdown.wind == base
            &&& gusty && base >= 20 ==> s.breakdown.wind == base - 20
            &&& gusty && base < 20 ==> s.breakdown.wind == 0
        }),
{
    let axes = tied(signals, hours, surface);
    let mean = signals.mean_wind.reading;
    if exists|i: int|
        0 <= i < hours.len() && ((#[trigger] hours[i]).wind_gust_ms matches Some(g) && g
            > signals.gust_limit) {
        let i = choose|i: int|
            0 <= i < hours.len() && ((#[trigger] hours[i]).wind_gust_ms matches Some(g) && g
                > signals.gust_limit);
        a_peak_is_carried_and_not_exceeded(hours, Signal::Gust, i);
        assert(mean > ZERO ==> is_gusty(axes.wind));
    } else if is_gusty(axes.wind) {
        if hours.len() == 0 {
            reveal(Seq::filter);
            assert(readings_of(hours, Signal::Gust).len() == 0);
        }
        a_peak_is_carried_and_not_exceeded(hours, Signal::Gust, 0);
        let peak = largest_of(readings_of(hours, Signal::Gust));
        let j = choose|j: int| 0 <= j < hours.len() && (#[trigger] hours[j]).wind_gust_ms == peak;
        assert(hours[j].wind_gust_ms == peak);
    }
}

/// The probability sub-score is what the highest probability of any hour leaves
/// of 100, and a neutral 50 where no hour carries one.
pub proof fn probability_is_scored_where_it_is_known(
    s: Grusindeks,
    hours: Seq<HourlyConditions>,
    surface: Option<SurfaceState>,
    signals: WindowSignals,
    lang: Language,
)
    requires
        is_score_of(s, hours, surface, signals, lang),
        signals.dry_chance <= 100,
        hours.len() > 0,
    ensures
        (exists|i: int| 0 <= i < hours.len() && (#[trigger] hours[i]).probability_of_precip is Some)
            ==> s.breakdown.precip_probability == signals.dry_chance,
        (forall|i: int| 0 <= i < hours.len() ==> (#[trigger] hours[i]).probability_of_precip is None)
            ==> s.breakdown.precip_probability == 50,
{
    let peak = largest_of(readings_of(hours, Signal::Probability));
    if exists|i: int| 0 <= i < hours.len() && (#[trigger] hours[i]).probability_of_precip is Some {
        let i = choose|i: int|
            0 <= i < hours.len() && (#[trigger] hours[i]).probability_of_precip is Some;
        a_peak_is_carried_and_not_exceeded(hours, Signal::Probability, i);
    } else {
        a_peak_is_carried_and_not_exceeded(hours, Signal::Probability, 0);
        if peak is Some {
            let j = choose|j: int|
                0 <= j < hours.len() && (#[trigger] hours[j]).probability_of_precip == peak;
            assert(hours[j].probability_of_precip == peak);
        }
    }
}

/// The ground sub-score is that of the water on the surface: 95 when dry, 100 at
/// 0.4 mm, nothing from 5 mm up; less what a dry spell costs. A spell costs
/// nothing up to 72 hours and 10 points from 168 hours on, and in between a
/// share of the 10 points that grows with the time past 72 hours, to the nearest
/// point. Ground of which nothing is known scores 95.
pub proof fn ground_is_scored_on_its_water_and_its_drought(
    s: Grusindeks,
    hours: Seq<HourlyConditions>,
    surface: Option<SurfaceState>,
    signals: WindowSignals,
    lang: Language,
)
    requires
        is_score_of(s, hours, surface, signals, lang),
        10 <= signals.ground_between <= 100,
    ensures
        surface is None ==> s.breakdown.ground == 95,
        surface matches Some(state) ==> {
            let mm = state.accumulated_mm;
            let dry = state.hours_since_meaningful_rain as int;
            let wet = if mm <= ZERO {
                95int
            } else if mm == GROUND_OPTIMAL_MM {
                100
            } else if mm >= GROUND_SATURATED {
                0
            } else {
                signals.ground_between as int
            };
            let lost = wet - s.breakdown.ground;
            &&& mm >= GROUND_SATURATED ==> s.breakdown.ground == 0
            &&& dry <= 72 ==> s.breakdown.ground == wet
            &&& mm < GROUND_SATURATED && dry >= 168 ==> lost == 10
            &&& mm < GROUND_SATURATED && 72 < dry < 168 ==> 192 * lost <= 20 * (dry - 72) + 96 < 192
                * lost + 192
        },
{
}

/// The points that a dry spell of between 72 and 168 hours costs are its share
/// of 10, to the nearest point.
pub proof fn a_drought_costs_its_share(hours: int)
    requires
        72 < hours < 168,
    ensures
        192 * drought_points(hours) <= 20 * (hours - 72) + 96 < 192 * drought_points(hours) + 192,
{
}

// ---- What a score explains ----

broadcast proof fn lemma_either(a: Seq<PenaltyView>, b: Seq<PenaltyView>, p: PenaltyView)
    ensures
        #[trigger] (a + b).contains(p) <==> a.contains(p) || b.contains(p),
{
    if a.contains(p) {
        let i = choose|i: int| 0 <= i < a.len() && a[i] == p;
        assert((a + b)[i] == p);
    }
    if b.contains(p) {
        let i = choose|i: int| 0 <= i < b.len() && b[i] == p;
        assert((a + b)[a.len() + i] == p);
    }
}

broadcast proof fn lemma_one(penalty: Option<PenaltyView>, p: PenaltyView)
    ensures
        #[trigger] at_most_one(penalty).contains(p) <==> penalty == Some(p),
{
    if penalty == Some(p) {
        assert(at_most_one(penalty)[0] == p);
    }
}

/// A penalty of the score is one of those that its hours and signals give.
proof fn lemma_listed(
    s: Grusindeks,
    hours: Seq<HourlyConditions>,
    surface: Option<SurfaceState>,
    signals: WindowSignals,
    lang: Language,
    p: PenaltyView,
)
    requires
        is_score_of(s, hours, surface, signals, lang),
    ensures
        ({
            let axes = tied(signals, hours, surface);
            let b = s.breakdown;
            penalty_views(s.penalties@).contains(p) <==> {
                ||| temp_penalty_of(b.temperature as int, axes, lang) == Some(p)
                ||| wind_penalty_of(b.wind as int, axes.wind, lang) == Some(p)
                ||| precip_penalty_of(b.precipitation as int, axes.mean_precip, lang) == Some(p)
                ||| prob_penalty_of(b.precip_probability as int, axes.probability, lang) == Some(p)
                ||| ground_penalty_of(b.ground as int, axes.ground, lang) == Some(p)
                ||| drought_penalty_of(axes.ground, lang) == Some(p)
                ||| rain_caps(hours) && p == rain_cap_penalty(signals.peak_precip_text@, lang)
                ||| wind_caps(hours) && p == wind_cap_penalty(signals.peak_wind_text@, lang)
            }
        }),
{
    broadcast use {lemma_either, lemma_one};

    let list = penalties_of(hours, tied(signals, hours, surface), lang);
    worst_first_keeps_every_penalty(list);
    vstd::seq_lib::to_multiset_contains(list, p);
    vstd::seq_lib::to_multiset_contains(worst_first(list), p);
    assert(list.contains(p) <==> worst_first(list).contains(p));
}

proof fn lemma_probability_known(
    hours: Seq<HourlyConditions>,
    surface: Option<SurfaceState>,
    signals: WindowSignals,
)
    requires
        hours.len() > 0,
    ensures
        tied(signals, hours, surface).probability is Some <==> exists|i: int|
            0 <= i < hours.len() && (#[trigger] hours[i]).probability_of_precip is Some,
{
    let peak = largest_of(readings_of(hours, Signal::Probability));
    a_peak_is_carried_and_not_exceeded(hours, Signal::Probability, 0);
    if peak is Some {
        let j = choose|j: int|
            0 <= j < hours.len() && (#[trigger] hours[j]).probability_of_precip == peak;
        assert(hours[j].probability_of_precip is Some);
    }
    if exists|i: int| 0 <= i < hours.len() && (#[trigger] hours[i]).probability_of_precip is Some {
        let i = choose|i: int|
            0 <= i < hours.len() && (#[trigger] hours[i]).probability_of_precip is Some;
        a_peak_is_carried_and_not_exceeded(hours, Signal::Probability, i);
    }
}

/// A score blames an axis only where its sub-score is below 80: slightly from 60
/// on and strongly below. It blames the probability of rain only where some hour
/// carries one, the ground only where it is known, and hard caps, critically,
/// only where the total is capped.
pub proof fn only_weak_axes_are_blamed(
    s: Grusindeks,
    hours: Seq<HourlyConditions>,
    surface: Option<SurfaceState>,
    signals: WindowSignals,
    lang: Language,
    k: int,
)
    requires
        is_score_of(s, hours, surface, signals, lang),
        hours.len() > 0,
        0 <= k < s.penalties@.len(),
    ensures
        ({
            let p = s.penalties@[k];
            let b = s.breakdown;
            match p.component {
                Component::Temperature => b.temperature < 80 && p.severity == (
                if b.temperature >= 60 {
                    Severity::Minor
                } else {
                    Severity::Major
                }),
                Component::Wind => b.wind < 80 && p.severity == (if b.wind >= 60 {
                    Severity::Minor
                } else {
                    Severity::Major
                }),
                Component::Precipitation => b.precipitation < 80 && p.severity == (
                if b.precipitation >= 60 {
                    Severity::Minor
                } else {
                    Severity::Major
                }),
                Component::PrecipProbability => {
                    &&& b.precip_probability < 80
                    &&& p.severity == (if b.precip_probability >= 60 {
                        Severity::Minor
                    } else {
                        Severity::Major
                    })
                    &&& exists|i: int|
                        0 <= i < hours.len() && (
                        #[trigger] hours[i]).probability_of_precip is Some
                },
                Component::Ground => {
                    &&& surface is Some
                    &&& p.severity != Severity::Critical
                    &&& b.ground >= 80 ==> p.severity == Severity::Minor
                        && surface->0.hours_since_meaningful_rain > 72
                        && surface->0.accumulated_mm <= GROUND_OPTIMAL_MM
                },
                Component::HardCap => s.hard_capped && p.severity == Severity::Critical,
                Component::NoData => false,
            }
        }),
{
    let views = penalty_views(s.penalties@);
    assert(views[k] == s.penalties@[k]@);
    assert(views.contains(views[k]));
    scores_lie_on_the_scale(s, hours, surface, signals, lang);
    lemma_probability_known(hours, surface, signals);
    lemma_listed(s, hours, surface, signals, lang, s.penalties@[k]@);
}

/// Some penalty of the score has the component and the severity.
pub open spec fn blames(s: Grusindeks, component: Component, severity: Severity) -> bool {
    exists|k: int|
        0 <= k < s.penalties@.len() && (#[trigger] s.penalties@[k]).component == component
            && s.penalties@[k].severity == severity
}

proof fn lemma_blames(s: Grusindeks, p: PenaltyView)
    requires
        penalty_views(s.penalties@).contains(p),
    ensures
        blames(s, p.component, p.severity),
{
    let views = penalty_views(s.penalties@);
    let k = choose|k: int| 0 <= k < views.len() && views[k] == p;
    assert(s.penalties@[k]@ == p);
    assert(s.penalties@[k].component == p.component);
}

/// Every axis with a sub-score below 80 is blamed: slightly from 60 on and
/// strongly below. The probability of rain is so where some hour carries one,
/// and the ground where it is known. A capped total is explained by a hard cap.
pub proof fn every_weak_axis_is_blamed(
    s: Grusindeks,
    hours: Seq<HourlyConditions>,
    surface: Option<SurfaceState>,
    signals: WindowSignals,
    lang: Language,
)
    requires
        is_score_of(s, hours, surface, signals, lang),
        hours.len() > 0,
    ensures
        60 <= s.breakdown.temperature < 80 ==> blames(s, Component::Temperature, Severity::Minor),
        s.breakdown.temperature < 60 ==> blames(s, Component::Temperature, Severity::Major),
        60 <= s.breakdown.wind < 80 ==> blames(s, Component::Wind, Severity::Minor),
        s.breakdown.wind < 60 ==> blames(s, Component::Wind, Severity::Major),
        60 <= s.breakdown.precipitation < 80 ==> blames(
            s,
            Component::Precipitation,
            Severity::Minor,
        ),
        s.breakdown.precipitation < 60 ==> blames(s, Component::Precipitation, Severity::Major),
        (exists|i: int| 0 <= i < hours.len() && (#[trigger] hours[i]).probability_of_precip is Some)
            ==> {
            &&& 60 <= s.breakdown.precip_probability < 80 ==> blames(
                s,
                Component::PrecipProbability,
                Severity::Minor,
            )
            &&& s.breakdown.precip_probability < 60 ==> blames(
                s,
                Component::PrecipProbability,
                Severity::Major,
            )
        },
        surface is Some && 60 <= s.breakdown.ground < 80 ==> blames(
            s,
            Component::Ground,
            Severity::Minor,
        ),
        surface is Some && s.breakdown.ground < 60 ==> blames(
            s,
            Component::Ground,
            Severity::Major,
        ),
        s.hard_capped ==> blames(s, Component::HardCap, Severity::Critical),
{
    let axes = tied(signals, hours, surface);
    let b = s.breakdown;
    lemma_probability_known(hours, surface, signals);
    if let Some(p) = temp_penalty_of(b.temperature as int, axes, lang) {
        lemma_listed(s, hours, surface, signals, lang, p);
        lemma_blames(s, p);
    }
    if let Some(p) = wind_penalty_of(b.wind as int, axes.wind, lang) {
        lemma_listed(s, hours, surface, signals, lang, p);
        lemma_blames(s, p);
    }
    if let Some(p) = precip_penalty_of(b.precipitation as int, axes.mean_precip, lang) {
        lemma_listed(s, hours, surface, signals, lang, p);
        lemma_blames(s, p);
    }
    if let Some(p) = prob_penalty_of(b.precip_probability as int, axes.probability, lang) {
        lemma_listed(s, hours, surface, signals, lang, p);
        lemma_blames(s, p);
    }
    if let Some(p) = ground_penalty_of(b.ground as int, axes.ground, lang) {
        lemma_listed(s, hours, surface, signals, lang, p);
        lemma_blames(s, p);
    }
    if rain_caps(hours) {
        let p = rain_cap_penalty(signals.peak_precip_text@, lang);
        lemma_listed(s, hours, surface, signals, lang, p);
        lemma_blames(s, p);
    }
    if wind_caps(hours) {
        let p = wind_cap_penalty(signals.peak_wind_text@, lang);
        lemma_listed(s, hours, surface, signals, lang, p);
        lemma_blames(s, p);
    }
}

/// Among the penalties of a score none stands before a worse one.
pub proof fn a_score_explains_the_worst_first(
    s: Grusindeks,
    hours: Seq<HourlyConditions>,
    surface: Option<SurfaceState>,
    signals: WindowSignals,
    lang: Language,
    i: int,
    j: int,
)
    requires
        is_score_of(s, hours, surface, signals, lang),
        0 <= i <= j < s.penalties@.len(),
    ensures
        s.penalties@[j].severity == Severity::Critical ==> s.penalties@[i].severity
            == Severity::Critical,
        s.penalties@[j].severity == Severity::Major ==> s.penalties@[i].severity != Severity::Minor,
{
    let list = penalties_of(hours, tied(signals, hours, surface), lang);
    let views = penalty_views(s.penalties@);
    assert(views.len() == s.penalties@.len());
    worst_penalties_come_first(list, i, j);
    assert(views[i] == s.penalties@[i]@ && views[j] == s.penalties@[j]@);
}

/// Noticeable sunshine, from half a degree on, is the one thing that speaks for
/// a window; it tells how much warmer the sun makes it.
pub proof fn noticeable_sunshine_is_a_highlight(
    s: Grusindeks,
    hours: Seq<HourlyConditions>,
    surface: Option<SurfaceState>,
    signals: WindowSignals,
    lang: Language,
)
    requires
        is_score_of(s, hours, surface, signals, lang),
    ensures
        signals.sun_warming.reading < SOLAR_NEGLIGIBLE_C ==> s.highlights@.len() == 0,
        signals.sun_warming.reading >= SOLAR_NEGLIGIBLE_C ==> s.highlights@.len() == 1
            && s.highlights@[0]@ == (match lang {
            Language::Norwegian => "Sol bidrar med +"@,
            Language::Swedish => "Solen bidrar med +"@,
        }) + signals.sun_warming.text@ + " °C"@,
{
    let shown = texts(s.highlights@);
    assert(shown.len() == s.highlights@.len());
    if signals.sun_warming.reading >= SOLAR_NEGLIGIBLE_C {
        assert(shown[0] == s.highlights@[0]@);
    }
}

/// A dry spell of more than 72 hours on ground that is no wetter than damp is
/// noted where it costs points.
pub proof fn a_costly_drought_is_noted(
    s: Grusindeks,
    hours: Seq<HourlyConditions>,
    state: SurfaceState,
    signals: WindowSignals,
    lang: Language,
)
    requires
        is_score_of(s, hours, Some(state), signals, lang),
        state.hours_since_meaningful_rain >= 77,
        ZERO < state.accumulated_mm < GROUND_OPTIMAL_MM ==> 0 < signals.ground_between <= 100,
        state.accumulated_mm <= GROUND_OPTIMAL_MM,
    ensures
        blames(s, Component::Ground, Severity::Minor),
{
    let axes = tied(signals, hours, Some(state));
    let g = axes.ground->0;
    assert(drought_points(g.hours_since_meaningful_rain as int) >= 1);
    assert(water_score(g) > 0);
    let p = drought_penalty_of(axes.ground, lang)->0;
    lemma_listed(s, hours, Some(state), signals, lang, p);
    lemma_blames(s, p);
}

} // verus!
