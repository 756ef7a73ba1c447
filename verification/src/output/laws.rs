//! What holds of every report.
use vstd::prelude::*;

use crate::aggregate::{
    is_highest, is_lowest, point_totals, AggregateScore, DayAggregate, HourScore,
};
use crate::daily::Confidence;
use crate::output::bars::{bar_eighths, bar_text, partial_block, trend_text};
use crate::output::days::{beats, best_day_at, is_best_day};
use crate::output::hours::{hour_at, stands_at};
use crate::output::labels::combined;
use crate::output::window::{penalty_block, spread_block};
use crate::output::Setting;
use crate::score::Penalty;
use crate::text::repeated;
use crate::time::LocalClock;

verus! {

// ---- Bars ----

proof fn lemma_repeated_len(unit: Seq<char>, n: nat)
    ensures
        repeated(unit, n).len() == unit.len() * n,
    decreases n,
{
    if n > 0 {
        lemma_repeated_len(unit, (n - 1) as nat);
        assert(unit.len() * n == unit.len() * (n - 1) + unit.len()) by (nonlinear_arith);
    } else {
        assert(unit.len() * n == 0) by (nonlinear_arith)
            requires
                n == 0,
        ;
    }
}

proof fn lemma_block_len(eighths: int)
    ensures
        partial_block(eighths).len() == 1,
{
    reveal_strlit("▏");
    reveal_strlit("▎");
    reveal_strlit("▍");
    reveal_strlit("▌");
    reveal_strlit("▋");
    reveal_strlit("▊");
    reveal_strlit("▉");
}

/// A bar is ten cells wide, whatever it shows.
pub proof fn a_bar_is_ten_cells_wide(value: u8)
    ensures
        bar_text(value as int, false).len() == 10,
{
    reveal_strlit("█");
    reveal_strlit("▒");
    let full = bar_eighths(value as int) / 8;
    let rest = bar_eighths(value as int) % 8;
    lemma_repeated_len("█"@, 10);
    lemma_repeated_len("█"@, full as nat);
    lemma_block_len(rest);
    lemma_repeated_len("▒"@, (10 - full) as nat);
    lemma_repeated_len("▒"@, (9 - full) as nat);
}

/// A higher score never has a shorter bar.
pub proof fn higher_scores_have_longer_bars(a: u8, b: u8)
    requires
        a <= b,
    ensures
        bar_eighths(a as int) <= bar_eighths(b as int),
{
}

/// The combined precipitation score lies between those of amount and
/// probability.
pub proof fn combined_precip_lies_between(amount: u8, probability: u8)
    ensures
        amount <= probability ==> amount <= combined(amount as int, probability as int)
            <= probability,
        probability <= amount ==> probability <= combined(amount as int, probability as int)
            <= amount,
{
}

// ---- The featured day ----

/// Among any days there is one to feature, no other has a higher mean, and
/// among those of the same mean none has a higher confidence.
pub proof fn the_best_day_is_featured(days: Seq<DayAggregate>, j: int)
    requires
        0 <= j < days.len(),
    ensures
        0 <= best_day_at(days) < days.len(),
        days[j].mean <= days[best_day_at(days)].mean,
        days[j].mean == days[best_day_at(days)].mean ==> days[j].confidence.spec_rank()
            <= days[best_day_at(days)].confidence.spec_rank(),
{
    lemma_some_best_day(days, days.len() as int);
    let k = choose|k: int| is_best_day(days.take(days.len() as int), k);
    assert(days.take(days.len() as int) =~= days);
    assert(is_best_day(days, k));
    assert(is_best_day(days, best_day_at(days)));
    assert(!beats(days[j], days[best_day_at(days)]));
}

pub(crate) proof fn lemma_some_best_day(days: Seq<DayAggregate>, n: int)
    requires
        0 < n <= days.len(),
    ensures
        exists|k: int| is_best_day(days.take(n), k),
    decreases n,
{
    let shown = days.take(n);
    if n == 1 {
        assert(is_best_day(shown, 0));
    } else {
        lemma_some_best_day(days, n - 1);
        let before = days.take(n - 1);
        let k = choose|k: int| is_best_day(before, k);
        assert forall|j: int| 0 <= j < n - 1 implies #[trigger] shown[j] == before[j] by {}
        if beats(shown[k], shown[n - 1]) {
            assert(is_best_day(shown, k)) by {
                assert forall|j: int| 0 <= j < n implies !beats(#[trigger] shown[j], shown[k]) by {
                    if j < n - 1 {
                        assert(!beats(before[j], before[k]));
                    }
                }
                assert forall|j: int| k < j < n implies beats(shown[k], #[trigger] shown[j]) by {
                    if j < n - 1 {
                        assert(beats(before[k], before[j]));
                    }
                }
            }
        } else {
            assert(is_best_day(shown, n - 1)) by {
                assert forall|j: int| 0 <= j < n implies !beats(
                    #[trigger] shown[j],
                    shown[n - 1],
                ) by {
                    if j < n - 1 {
                        assert(!beats(before[j], before[k]));
                    }
                }
            }
        }
    }
}

// ---- One window ----

/// Where all points tie, no point is called worst or best.
pub proof fn ties_hide_worst_and_best(agg: AggregateScore, set: Setting)
    requires
        agg.is_rolled_up(),
        forall|i: int, j: int|
            0 <= i < j < agg.points@.len() ==> (#[trigger] agg.points@[i]).score.total == (
            #[trigger] agg.points@[j]).score.total,
    ensures
        spread_block(agg, set) == ""@,
{
    let totals = point_totals(agg.points@);
    let i = choose|i: int| 0 <= i < totals.len() && totals[i] == agg.min;
    let j = choose|j: int| 0 <= j < totals.len() && totals[j] == agg.max;
    assert(is_lowest(totals, agg.min) && is_highest(totals, agg.max));
    assert(totals.contains(agg.min) && totals.contains(agg.max));
    assert(totals[i] == agg.points@[i].score.total);
    assert(totals[j] == agg.points@[j].score.total);
}

/// Without `verbose` the first three penalties are listed, which are the worst.
pub proof fn the_default_report_lists_three_penalties(penalties: Seq<Penalty>, set: Setting)
    ensures
        penalty_block(penalties, false, set) == penalty_block(
            penalties.take(
                if penalties.len() < 3 {
                    penalties.len() as int
                } else {
                    3
                },
            ),
            true,
            set,
        ),
{
    if penalties.len() <= 3 {
        assert(penalties.take(penalties.len() as int) =~= penalties);
    }
}

// ---- The grid ----

/// A cell of the grid is a placeholder only where no hour was scored, and else
/// shows an hour that stands there.
pub proof fn every_scored_hour_has_a_cell(
    hours: Seq<HourScore>,
    clock: LocalClock,
    day: int,
    column: int,
)
    ensures
        hour_at(hours, clock, day, column) is None <==> forall|i: int|
            0 <= i < hours.len() ==> !stands_at(#[trigger] hours[i], clock, day, column),
        hour_at(hours, clock, day, column) matches Some(h) ==> hours.contains(h) && stands_at(
            h,
            clock,
            day,
            column,
        ),
    decreases hours.len(),
{
    if hours.len() > 0 {
        let rest = hours.drop_first();
        every_scored_hour_has_a_cell(rest, clock, day, column);
        assert forall|i: int| 0 <= i < rest.len() implies #[trigger] rest[i] == hours[i + 1] by {}
        if stands_at(hours[0], clock, day, column) {
            assert(hours.contains(hours[0]));
        } else {
            if hour_at(rest, clock, day, column) is None {
                assert forall|i: int| 0 <= i < hours.len() implies !stands_at(
                    #[trigger] hours[i],
                    clock,
                    day,
                    column,
                ) by {
                    if i > 0 {
                        assert(rest[i - 1] == hours[i]);
                    }
                }
            } else {
                let h = hour_at(rest, clock, day, column)->0;
                let i = choose|i: int| 0 <= i < rest.len() && rest[i] == h;
                assert(hours[i + 1] == h);
            }
        }
    }
}

// ---- Glyphs ----

/// A bar is filled in proportion to its value: to the nearest eighth of a cell
/// of nine, and wholly at a hundred.
pub proof fn a_bar_is_filled_in_proportion(value: u8, i: int)
    requires
        value <= 100,
        0 <= i < 10,
    ensures
        ({
            let eighths = bar_eighths(value as int);
            let bar = bar_text(value as int, false);
            &&& -50 <= 100 * eighths - 72 * value <= 50
            &&& eighths == 72 ==> bar[i] == '█'
            &&& eighths < 72 && 8 * (i + 1) <= eighths ==> bar[i] == '█'
            &&& eighths < 72 && 8 * i >= eighths ==> bar[i] == '▒'
        }),
{
    reveal_strlit("█");
    reveal_strlit("▒");
    let full = bar_eighths(value as int) / 8;
    let rest = bar_eighths(value as int) % 8;
    lemma_block_len(rest);
    lemma_repeated_char('█', 10);
    lemma_repeated_char('█', full as nat);
    lemma_repeated_char('▒', (10 - full) as nat);
    lemma_repeated_char('▒', (9 - full) as nat);
    assert("█"@ =~= seq!['█']);
    assert("▒"@ =~= seq!['▒']);
}

proof fn lemma_repeated_char(c: char, n: nat)
    ensures
        repeated(seq![c], n).len() == n,
        forall|i: int| 0 <= i < n ==> #[trigger] repeated(seq![c], n)[i] == c,
    decreases n,
{
    if n > 0 {
        lemma_repeated_char(c, (n - 1) as nat);
    }
}

/// The two halves of precipitation count 25 to 10, fractions dropped.
pub proof fn combined_precip_weighs_its_parts(amount: u8, probability: u8)
    ensures
        35 * combined(amount as int, probability as int) <= 25 * amount + 10 * probability,
        25 * amount + 10 * probability < 35 * combined(amount as int, probability as int) + 35,
{
}

/// The arrow of a week points up or down where its last day differs from its
/// first by at least five points.
pub proof fn the_arrow_points_where_the_week_goes(values: Seq<u8>)
    ensures
        values.len() >= 2 && values.last() >= values[0] + 5 ==> trend_text(values) == "↗"@,
        values.len() >= 2 && values[0] >= values.last() + 5 ==> trend_text(values) == "↘"@,
        values.len() < 2 || (values.last() < values[0] + 5 && values[0] < values.last() + 5)
            ==> trend_text(values) == "→"@,
{
}

/// The featured day has the highest mean, the highest confidence among those,
/// and the earliest date among those.
pub proof fn the_featured_day_is_highest_surest_and_earliest(days: Seq<DayAggregate>, j: int)
    requires
        0 <= j < days.len(),
    ensures
        ({
            let best = days[best_day_at(days)];
            &&& days[j].mean <= best.mean
            &&& days[j].mean == best.mean && best.confidence == Confidence::Lav
                ==> days[j].confidence == Confidence::Lav
            &&& days[j].mean == best.mean && best.confidence == Confidence::Middels
                ==> days[j].confidence != Confidence::Hoy
            &&& days[j].mean == best.mean && days[j].confidence == best.confidence
                ==> best.date.day_number <= days[j].date.day_number
        }),
{
    lemma_some_best_day(days, days.len() as int);
    assert(days.take(days.len() as int) =~= days);
    let k = choose|k: int| is_best_day(days.take(days.len() as int), k);
    assert(is_best_day(days, k));
    assert(is_best_day(days, best_day_at(days)));
    assert(!beats(days[j], days[best_day_at(days)]));
}

} // verus!
