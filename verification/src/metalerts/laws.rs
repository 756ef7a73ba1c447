//! What holds of every set of warnings.
use vstd::prelude::*;

use crate::metalerts::{
    are_alerts_of, has_interval, is_above, is_alert_of, is_cancel, is_newer, is_order, is_shown,
    is_superseded, issued_at, largest_stamp, level_of, level_rank, message_type, same_episode,
    AlertFeature, AlertLevel, WeatherAlert,
};
use crate::text::{all_digits, ascii_lowercased, number_of, unsigned_part};

verus! {

/// Of two messages one is the newer, and only one.
pub proof fn messages_have_an_age(features: Seq<AlertFeature>, i: int, j: int)
    requires
        i != j,
    ensures
        is_newer(features, i, j) != is_newer(features, j, i),
{
}

/// An episode is shown at most once.
pub proof fn an_episode_is_shown_once(features: Seq<AlertFeature>, i: int, j: int)
    requires
        is_shown(features, i),
        is_shown(features, j),
        same_episode(features[i], features[j]),
    ensures
        i == j,
{
    if i != j {
        messages_have_an_age(features, i, j);
        assert(has_interval(features[i]) && has_interval(features[j]));
    }
}

/// A cancellation removes every older message of its episode, and is not shown
/// itself.
pub proof fn a_cancel_kills_the_episode(features: Seq<AlertFeature>, cancel: int, i: int)
    requires
        0 <= cancel < features.len(),
        0 <= i < features.len(),
        has_interval(features[cancel]),
        is_cancel(features[cancel]),
        is_newer(features, cancel, i),
        same_episode(features[cancel], features[i]),
    ensures
        !is_shown(features, cancel),
        !is_shown(features, i),
{
}

/// A message that shares its event, area and time with no other one is shown,
/// unless it cancels.
pub proof fn a_lone_message_is_shown(features: Seq<AlertFeature>, i: int)
    requires
        0 <= i < features.len(),
        has_interval(features[i]),
        !is_cancel(features[i]),
        forall|j: int|
            0 <= j < features.len() && j != i ==> !same_episode(#[trigger] features[j], features[i]),
    ensures
        is_shown(features, i),
{
}

/// No warning stands below one of a lower level, and among warnings of one
/// level none stands below one that starts later.
pub proof fn worst_warnings_come_first(
    alerts: Seq<WeatherAlert>,
    features: Seq<AlertFeature>,
    order: Seq<usize>,
    k: int,
    l: int,
)
    requires
        is_order(features, order, features.len() as int),
        are_alerts_of(alerts, features, order),
        0 <= k < l < alerts.len(),
    ensures
        level_rank(alerts[k].level) >= level_rank(alerts[l].level),
        alerts[k].level == alerts[l].level ==> alerts[k].starts <= alerts[l].starts,
{
    assert(is_above(features, order[k] as int, order[l] as int));
}

/// A feed has one display order.
pub proof fn the_display_order_is_unique(
    features: Seq<AlertFeature>,
    a: Seq<usize>,
    b: Seq<usize>,
    n: int,
)
    requires
        n <= features.len(),
        is_order(features, a, n),
        is_order(features, b, n),
    ensures
        a == b,
{
    lemma_prefix_agrees(features, a, b, n, a.len() as int);
    lemma_prefix_agrees(features, b, a, n, b.len() as int);
    assert(a =~= b);
}

/// The first `k` positions of `a` are also the first of `b`.
proof fn lemma_prefix_agrees(
    features: Seq<AlertFeature>,
    a: Seq<usize>,
    b: Seq<usize>,
    n: int,
    k: int,
)
    requires
        n <= features.len(),
        is_order(features, a, n),
        is_order(features, b, n),
        0 <= k <= a.len(),
    ensures
        k <= b.len(),
        forall|m: int| 0 <= m < k ==> a[m] == b[m],
    decreases k,
{
    if k > 0 {
        lemma_prefix_agrees(features, a, b, n, k - 1);
        let x = a[k - 1];
        assert(is_shown(features, x as int));
        let p = choose|p: int| 0 <= p < b.len() && #[trigger] b[p] == x;
        if p < k - 1 {
            assert(a[p] == b[p]);
            assert(is_above(features, a[p] as int, a[k - 1] as int));
        }
        let y = b[k - 1];
        if y != x {
            assert(is_shown(features, y as int));
            let q = choose|q: int| 0 <= q < a.len() && #[trigger] a[q] == y;
            if q < k - 1 {
                assert(a[q] == b[q]);
                assert(is_above(features, b[q] as int, b[k - 1] as int));
            }
            assert(is_above(features, a[k - 1] as int, a[q] as int));
            assert(is_above(features, b[k - 1] as int, b[p] as int));
        }
    }
}

/// A warning that is shown says what its message says: the event, the area, the
/// description, and from when to when, which is a span of time.
pub proof fn a_warning_says_what_its_message_says(
    alerts: Seq<WeatherAlert>,
    features: Seq<AlertFeature>,
    order: Seq<usize>,
    k: int,
)
    requires
        is_order(features, order, features.len() as int),
        are_alerts_of(alerts, features, order),
        0 <= k < alerts.len(),
    ensures
        exists|i: int|
            {
                &&& 0 <= i < features.len()
                &&& (#[trigger] features[i]).event@ == alerts[k].event@
                &&& features[i].area@ == alerts[k].area@
                &&& features[i].description@ == alerts[k].description@
                &&& features[i].interval is Some
                &&& features[i].interval->0@ == seq![alerts[k].starts, alerts[k].ends]
                &&& alerts[k].starts < alerts[k].ends
                &&& features[i].event_awareness_name is Some ==> alerts[k].event_name@
                    == features[i].event_awareness_name->0@
                &&& features[i].event_awareness_name is None && features[i].title is Some
                    ==> alerts[k].event_name@ == features[i].title->0@
                &&& features[i].event_awareness_name is None && features[i].title is None
                    ==> alerts[k].event_name@ == features[i].event@
                &&& alerts[k].consequences is Some ==> features[i].consequences is Some
                    && alerts[k].consequences->0@ == features[i].consequences->0@
                &&& alerts[k].instruction is Some ==> features[i].instruction is Some
                    && alerts[k].instruction->0@ == features[i].instruction->0@
                &&& ascii_lowercased(message_type(features[i])) != ascii_lowercased("cancel"@)
            },
{
    let i = order[k] as int;
    assert(is_shown(features, i));
    assert(is_alert_of(alerts[k], features[i]));
    assert(features[i].interval->0@ =~= seq![alerts[k].starts, alerts[k].ends]);
    assert(features[i].event@ == alerts[k].event@);
}

/// The colour of the risk matrix decides the level, in whatever case it is
/// written; without one the severity does, and what is neither known as extreme
/// nor as severe is shown at the lowest level.
pub proof fn colours_and_severities_give_the_level(
    color: Option<Seq<char>>,
    severity: Option<Seq<char>>,
)
    ensures
        color == Some("Red"@) || color == Some("red"@) ==> level_of(color, severity)
            == AlertLevel::Red,
        color == Some("Orange"@) || color == Some("orange"@) ==> level_of(color, severity)
            == AlertLevel::Orange,
        color == Some("Yellow"@) || color == Some("yellow"@) ==> level_of(color, severity)
            == AlertLevel::Yellow,
        color is None && severity == Some("Extreme"@) ==> level_of(color, severity)
            == AlertLevel::Red,
        color is None && severity == Some("Severe"@) ==> level_of(color, severity)
            == AlertLevel::Orange,
        color is None && severity is None ==> level_of(color, severity) == AlertLevel::Yellow,
        color is None && severity == Some("Moderate"@) ==> level_of(color, severity)
            == AlertLevel::Yellow,
{
    reveal_strlit("Red");
    reveal_strlit("red");
    reveal_strlit("Orange");
    reveal_strlit("orange");
    reveal_strlit("Yellow");
    reveal_strlit("yellow");
    reveal_strlit("Extreme");
    reveal_strlit("Severe");
    reveal_strlit("Moderate");
    assert(ascii_lowercased("Red"@) =~= ascii_lowercased("red"@));
    assert(ascii_lowercased("Orange"@) =~= ascii_lowercased("orange"@));
    assert(ascii_lowercased("Yellow"@) =~= ascii_lowercased("yellow"@));
    assert(ascii_lowercased("red"@).len() == 3);
    assert(ascii_lowercased("orange"@).len() == 6 && ascii_lowercased("orange"@)[0] == 'o');
    assert(ascii_lowercased("yellow"@).len() == 6 && ascii_lowercased("yellow"@)[0] == 'y');
    assert("Extreme"@.len() == 7 && "Severe"@.len() == 6 && "Moderate"@.len() == 8);
}

/// No shown warning has been overtaken: whatever message with a span of time
/// speaks of the same event in the same area at a common time was issued no
/// later than the message that is shown.
pub proof fn the_newest_message_is_shown(
    alerts: Seq<WeatherAlert>,
    features: Seq<AlertFeature>,
    order: Seq<usize>,
    k: int,
    j: int,
)
    requires
        is_order(features, order, features.len() as int),
        are_alerts_of(alerts, features, order),
        0 <= k < alerts.len(),
        0 <= j < features.len(),
        features[j].interval is Some,
        features[j].interval->0@.len() == 2,
        features[j].interval->0@[0] < features[j].interval->0@[1],
        features[j].event@ == alerts[k].event@,
        features[j].area@ == alerts[k].area@,
        features[j].interval->0@[0] < alerts[k].ends,
        alerts[k].starts < features[j].interval->0@[1],
    ensures
        exists|i: int|
            {
                &&& 0 <= i < features.len()
                &&& is_alert_of(alerts[k], #[trigger] features[i])
                &&& i == j || issued_at(features[j]) <= issued_at(features[i])
            },
{
    let i = order[k] as int;
    assert(is_shown(features, i));
    assert(is_alert_of(alerts[k], features[i]));
    if i != j && issued_at(features[j]) > issued_at(features[i]) {
        assert(same_episode(features[j], features[i]));
        assert(is_newer(features, j, i));
        assert(is_superseded(features, i));
    }
}

/// A message with a span of time that does not cancel, and with which no other
/// message shares event, area and time, is passed on.
pub proof fn a_lone_warning_is_passed_on(
    alerts: Seq<WeatherAlert>,
    features: Seq<AlertFeature>,
    order: Seq<usize>,
    i: int,
)
    requires
        is_order(features, order, features.len() as int),
        are_alerts_of(alerts, features, order),
        0 <= i < features.len(),
        features[i].interval is Some,
        features[i].interval->0@.len() == 2,
        features[i].interval->0@[0] < features[i].interval->0@[1],
        features[i].msg_type is None || features[i].msg_type->0@ == "Alert"@
            || features[i].msg_type->0@ == "Update"@,
        forall|j: int|
            #![trigger features[j]]
            0 <= j < features.len() && j != i ==> {
                ||| features[j].event@ != features[i].event@
                ||| features[j].area@ != features[i].area@
                ||| features[j].interval is None
                ||| features[j].interval->0@.len() != 2
                ||| features[j].interval->0@[0] >= features[i].interval->0@[1]
                ||| features[i].interval->0@[0] >= features[j].interval->0@[1]
            },
    ensures
        exists|k: int|
            {
                &&& 0 <= k < alerts.len()
                &&& (#[trigger] alerts[k]).event@ == features[i].event@
                &&& alerts[k].area@ == features[i].area@
                &&& alerts[k].description@ == features[i].description@
                &&& alerts[k].starts == features[i].interval->0@[0]
                &&& alerts[k].ends == features[i].interval->0@[1]
            },
{
    reveal_strlit("Alert");
    reveal_strlit("Update");
    reveal_strlit("cancel");
    assert(ascii_lowercased("Alert"@).len() == 5);
    assert(ascii_lowercased("Update"@)[0] == 'u');
    assert(ascii_lowercased("cancel"@)[0] == 'c');
    assert(ascii_lowercased("cancel"@).len() == 6);
    assert(!is_cancel(features[i]));
    if is_superseded(features, i) {
        let j = choose|j: int|
            0 <= j < features.len() && has_interval(#[trigger] features[j]) && is_newer(
                features,
                j,
                i,
            ) && same_episode(features[j], features[i]);
        assert(features[j].event@ == features[i].event@);
        assert(j != i);
    }
    assert(is_shown(features, i));
    let k = choose|k: int| 0 <= k < order.len() && #[trigger] order[k] == i;
    assert(is_alert_of(alerts[k], features[i]));
}

/// A message that cancels is never shown, nor is a message that one issued later
/// cancels.
pub proof fn a_cancelled_warning_is_gone(
    alerts: Seq<WeatherAlert>,
    features: Seq<AlertFeature>,
    order: Seq<usize>,
    cancel: int,
    k: int,
)
    requires
        is_order(features, order, features.len() as int),
        are_alerts_of(alerts, features, order),
        0 <= cancel < features.len(),
        0 <= k < alerts.len(),
        features[cancel].msg_type is Some,
        features[cancel].msg_type->0@ == "Cancel"@,
        features[cancel].interval is Some,
        features[cancel].interval->0@.len() == 2,
        features[cancel].interval->0@[0] < features[cancel].interval->0@[1],
        forall|j: int|
            #![trigger features[j]]
            0 <= j < features.len() && j != cancel ==> issued_at(features[j]) < issued_at(
                features[cancel],
            ),
    ensures
        alerts[k].event@ != features[cancel].event@ || alerts[k].area@ != features[cancel].area@
            || alerts[k].starts >= features[cancel].interval->0@[1] || alerts[k].ends
            <= features[cancel].interval->0@[0],
{
    reveal_strlit("Cancel");
    reveal_strlit("cancel");
    assert(ascii_lowercased("Cancel"@) =~= ascii_lowercased("cancel"@));
    let i = order[k] as int;
    assert(is_shown(features, i));
    assert(is_alert_of(alerts[k], features[i]));
    if i != cancel {
        assert(issued_at(features[i]) < issued_at(features[cancel]));
        if same_episode(features[cancel], features[i]) {
            assert(is_newer(features, cancel, i));
            assert(is_superseded(features, i));
        }
    } else {
        assert(is_cancel(features[i]));
    }
}

/// Red warnings stand above orange ones and orange ones above yellow ones; those
/// of one level stand by their start.
pub proof fn red_stands_above_orange_above_yellow(
    alerts: Seq<WeatherAlert>,
    features: Seq<AlertFeature>,
    order: Seq<usize>,
    k: int,
    l: int,
)
    requires
        is_order(features, order, features.len() as int),
        are_alerts_of(alerts, features, order),
        0 <= k < l < alerts.len(),
    ensures
        alerts[l].level == AlertLevel::Red ==> alerts[k].level == AlertLevel::Red,
        alerts[k].level == AlertLevel::Yellow ==> alerts[l].level == AlertLevel::Yellow,
        alerts[k].level == alerts[l].level ==> alerts[k].starts <= alerts[l].starts,
{
    assert(is_above(features, order[k] as int, order[l] as int));
    assert(is_shown(features, order[k] as int) && is_shown(features, order[l] as int));
}

/// The issue time of a message is the largest number among the segments of its
/// id that have at least twelve characters and read as a number; zero without
/// one.
pub proof fn a_message_is_as_old_as_its_id_says(parts: Seq<Seq<char>>, i: int)
    ensures
        0 <= i < parts.len() && parts[i].len() >= 12 && parts[i][0] != '+' && all_digits(parts[i])
            && number_of(parts[i]) <= u64::MAX ==> largest_stamp(parts) >= number_of(parts[i]),
        largest_stamp(parts) != 0 ==> exists|k: int|
            0 <= k < parts.len() && (#[trigger] parts[k]).len() >= 12 && largest_stamp(parts)
                == number_of(unsigned_part(parts[k])),
        (forall|k: int| 0 <= k < parts.len() ==> (#[trigger] parts[k]).len() < 12)
            ==> largest_stamp(parts) == 0,
    decreases parts.len(),
{
    if parts.len() > 0 {
        let rest = parts.drop_last();
        assert(parts[parts.len() - 1] == parts.last());
        assert forall|k: int| 0 <= k < rest.len() implies #[trigger] rest[k] == parts[k] by {}
        a_message_is_as_old_as_its_id_says(rest, i);
        if largest_stamp(rest) != 0 {
            let k = choose|k: int|
                0 <= k < rest.len() && (#[trigger] rest[k]).len() >= 12 && largest_stamp(rest)
                    == number_of(unsigned_part(rest[k]));
            assert(parts[k] == rest[k]);
        }
        if forall|k: int| 0 <= k < parts.len() ==> (#[trigger] parts[k]).len() < 12 {
            assert forall|k: int| 0 <= k < rest.len() implies (#[trigger] rest[k]).len() < 12 by {
                assert(parts[k].len() < 12);
            }
        }
    }
}

} // verus!
