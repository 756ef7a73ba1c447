//! `api.met.no/weatherapi/metalerts/2.0` — official MET weather warnings.
//!
//! The feed keeps the whole message chain of a warning. Messages for the same
//! event and area with overlapping intervals are one episode: only the newest
//! message survives, and a `Cancel` kills the episode.
use vstd::prelude::*;
use vstd::string::StrSliceExecFns;

use crate::client::{
    is_url_outcome, url_join, url_with_query, without_leading_slashes, ClientError, MetClient,
};
use crate::text::{
    ascii_lowercased, number_of, parse_u64, reads_as_u64, same_ignoring_ascii_case, same_text,
    segments, trim, trimmed, unsigned_part,
};

pub mod laws;

verus! {

pub const PATH: &'static str = "/weatherapi/metalerts/2.0/all.json";

/// The URL of the current and upcoming warnings at a point, its coordinates given with
/// four decimals.
pub fn request_url(client: &MetClient, lat: &str, lon: &str) -> (result: Result<
    String,
    ClientError,
>)
    ensures
        match url_join(client.spec_config().api_base@, without_leading_slashes(PATH@)) {
            Ok(url) => is_url_outcome(
                result,
                url_with_query(url, seq![("lat"@, lat@), ("lon"@, lon@)]),
            ),
            Err(why) => is_url_outcome(result, Err(why)),
        },
{
    client.point_url(PATH, lat, lon)
}

/// The level that a warning is shown at.
#[derive(Debug, Clone, Copy, PartialEq, Eq, PartialOrd, Ord, Structural)]
pub enum AlertLevel {
    Yellow,
    Orange,
    Red,
}

/// One official weather warning.
#[derive(Debug, PartialEq, Eq)]
pub struct WeatherAlert {
    pub event: String,
    pub event_name: String,
    pub level: AlertLevel,
    pub description: String,
    pub consequences: Option<String>,
    pub instruction: Option<String>,
    pub area: String,
    pub starts: i128,
    pub ends: i128,
}

impl WeatherAlert {
    /// Whether the warning is in force at some time from `from` up to `to`.
    pub fn overlaps(&self, from: i128, to: i128) -> (b: bool)
        ensures
            b == (self.starts < to && from < self.ends),
    {
        self.starts < to && from < self.ends
    }
}

/// One message of the feed.
#[derive(Debug, PartialEq, Eq)]
pub struct AlertFeature {
    /// CAP identifier; its 14-digit segment is the issue timestamp.
    pub id: Option<String>,
    /// CAP message type: "Alert", "Update" or "Cancel".
    pub msg_type: Option<String>,
    pub event: String,
    pub event_awareness_name: Option<String>,
    pub title: Option<String>,
    pub description: String,
    pub consequences: Option<String>,
    pub instruction: Option<String>,
    pub area: String,
    /// "Yellow", "Orange" or "Red".
    pub risk_matrix_color: Option<String>,
    /// CAP severity, which uses a scale of its own.
    pub severity: Option<String>,
    /// Start and end, where the message gives both.
    pub interval: Option<Vec<i128>>,
}

// ---- Level ----

/// The colour decides; without a known colour the CAP severity does.
pub open spec fn level_of(color: Option<Seq<char>>, severity: Option<Seq<char>>) -> AlertLevel {
    let named = match color {
        Some(c) => ascii_lowercased(c),
        None => Seq::empty(),
    };
    if color is Some && named == ascii_lowercased("red"@) {
        AlertLevel::Red
    } else if color is Some && named == ascii_lowercased("orange"@) {
        AlertLevel::Orange
    } else if color is Some && named == ascii_lowercased("yellow"@) {
        AlertLevel::Yellow
    } else if severity == Some("Extreme"@) {
        AlertLevel::Red
    } else if severity == Some("Severe"@) {
        AlertLevel::Orange
    } else {
        AlertLevel::Yellow
    }
}

/// What an optional text says.
pub open spec fn text_view(text: Option<String>) -> Option<Seq<char>> {
    match text {
        Some(t) => Some(t@),
        None => None,
    }
}

pub fn parse_level(color: &Option<String>, severity: &Option<String>) -> (level: AlertLevel)
    ensures
        level == level_of(text_view(*color), text_view(*severity)),
{
    match color {
        Some(c) => {
            if same_ignoring_ascii_case(c.as_str(), "red") {
                return AlertLevel::Red;
            }
            if same_ignoring_ascii_case(c.as_str(), "orange") {
                return AlertLevel::Orange;
            }
            if same_ignoring_ascii_case(c.as_str(), "yellow") {
                return AlertLevel::Yellow;
            }
        },
        None => {},
    }
    match severity {
        Some(s) => if same_text(s.as_str(), "Extreme") {
            AlertLevel::Red
        } else if same_text(s.as_str(), "Severe") {
            AlertLevel::Orange
        } else {
            AlertLevel::Yellow
        },
        None => AlertLevel::Yellow,
    }
}

// ---- Issue timestamp ----

/// The number that a segment of an id stands for, if it is long enough to be
/// a timestamp; 0 otherwise.
pub open spec fn stamp_of(segment: Seq<char>) -> int {
    if segment.len() >= 12 && reads_as_u64(segment) {
        number_of(unsigned_part(segment))
    } else {
        0
    }
}

/// The largest timestamp among segments.
pub open spec fn largest_stamp(parts: Seq<Seq<char>>) -> int
    decreases parts.len(),
{
    if parts.len() == 0 {
        0
    } else {
        let rest = largest_stamp(parts.drop_last());
        if stamp_of(parts.last()) > rest {
            stamp_of(parts.last())
        } else {
            rest
        }
    }
}

/// The issue timestamp in an alert id.
pub open spec fn issue_stamp_of(id: Seq<char>) -> int {
    largest_stamp(segments(id, '.'))
}

fn segment_stamp(s: &str) -> (stamp: u64)
    ensures
        stamp == stamp_of(s@),
{
    if s.unicode_len() < 12 {
        return 0;
    }
    match parse_u64(s) {
        Some(n) => {
            proof {
                crate::text::lemma_number_is_natural(unsigned_part(s@));
            }
            n
        },
        None => 0,
    }
}

/// The CAP issue timestamp embedded in an alert id: its largest numeric
/// segment of at least twelve characters, `0` when there is none.
pub fn issue_stamp(id: &str) -> (stamp: u64)
    ensures
        stamp == issue_stamp_of(id@),
{
    let n: usize = id.unicode_len();
    let mut best: u64 = 0;
    let mut start: usize = 0;
    let mut i: usize = 0;
    proof {
        assert(id@.take(0) =~= Seq::empty());
        assert(segments(id@.take(0), '.').drop_last() =~= Seq::empty());
        assert(id@.subrange(0, 0) =~= Seq::empty());
    }
    while i < n
        invariant
            start <= i <= n,
            n == id@.len(),
            segments(id@.take(i as int), '.').len() > 0,
            segments(id@.take(i as int), '.').last() == id@.subrange(start as int, i as int),
            best == largest_stamp(segments(id@.take(i as int), '.').drop_last()),
        decreases n - i,
    {
        let ghost now = segments(id@.take(i as int), '.');
        let ghost next = segments(id@.take(i + 1), '.');
        proof {
            assert(id@.take(i + 1).drop_last() =~= id@.take(i as int));
            assert(id@.take(i + 1).last() == id@[i as int]);
        }
        if id.get_char(i) == '.' {
            let stamp: u64 = segment_stamp(id.substring_char(start, i));
            if stamp > best {
                best = stamp;
            }
            start = i + 1;
            proof {
                assert(next.drop_last() =~= now);
                assert(id@.subrange(i + 1, i + 1) =~= Seq::empty());
            }
        } else {
            proof {
                assert(next.drop_last() =~= now.drop_last());
                assert(id@.subrange(start as int, i + 1) =~= id@.subrange(
                    start as int,
                    i as int,
                ).push(id@[i as int]));
            }
        }
        i = i + 1;
    }
    proof {
        assert(id@.take(n as int) =~= id@);
    }
    let stamp: u64 = segment_stamp(id.substring_char(start, n));
    if stamp > best {
        stamp
    } else {
        best
    }
}

// ---- Messages ----

/// The message gives a start and a later end.
pub open spec fn has_interval(f: AlertFeature) -> bool {
    f.interval matches Some(v) && v@.len() == 2 && v@[0] < v@[1]
}

pub open spec fn starts_at(f: AlertFeature) -> int {
    f.interval->0@[0] as int
}

pub open spec fn ends_at(f: AlertFeature) -> int {
    f.interval->0@[1] as int
}

/// A message without a type is an "Alert".
pub open spec fn message_type(f: AlertFeature) -> Seq<char> {
    match f.msg_type {
        Some(t) => t@,
        None => "Alert"@,
    }
}

pub open spec fn is_cancel(f: AlertFeature) -> bool {
    ascii_lowercased(message_type(f)) == ascii_lowercased("cancel"@)
}

pub open spec fn is_update(f: AlertFeature) -> bool {
    ascii_lowercased(message_type(f)) == ascii_lowercased("update"@)
}

pub open spec fn issued_at(f: AlertFeature) -> int {
    match f.id {
        Some(id) => issue_stamp_of(id@),
        None => 0,
    }
}

pub open spec fn level_at(f: AlertFeature) -> AlertLevel {
    level_of(text_view(f.risk_matrix_color), text_view(f.severity))
}

/// Yellow, orange, red.
pub open spec fn level_rank(level: AlertLevel) -> int {
    match level {
        AlertLevel::Yellow => 0,
        AlertLevel::Orange => 1,
        AlertLevel::Red => 2,
    }
}

/// Message `i` is newer than message `j`: issued later, or an update issued at
/// the same time, or else further down the feed.
pub open spec fn is_newer(features: Seq<AlertFeature>, i: int, j: int) -> bool {
    let a = features[i];
    let b = features[j];
    if issued_at(a) != issued_at(b) {
        issued_at(a) > issued_at(b)
    } else if is_update(a) != is_update(b) {
        is_update(a)
    } else {
        i > j
    }
}

/// Two messages are about the same warning episode.
pub open spec fn same_episode(a: AlertFeature, b: AlertFeature) -> bool {
    &&& a.event@ == b.event@
    &&& a.area@ == b.area@
    &&& starts_at(a) < ends_at(b)
    &&& starts_at(b) < ends_at(a)
}

/// A newer message of the same episode exists.
pub open spec fn is_superseded(features: Seq<AlertFeature>, i: int) -> bool {
    exists|j: int|
        0 <= j < features.len() && has_interval(#[trigger] features[j]) && is_newer(features, j, i)
            && same_episode(features[j], features[i])
}

/// The message is shown: it can be placed in time, is not a cancellation, and
/// nothing newer replaces it.
pub open spec fn is_shown(features: Seq<AlertFeature>, i: int) -> bool {
    &&& 0 <= i < features.len()
    &&& has_interval(features[i])
    &&& !is_cancel(features[i])
    &&& !is_superseded(features, i)
}

/// Message `i` is shown above message `j`: worse level first, then earlier
/// start, then feed order.
pub open spec fn is_above(features: Seq<AlertFeature>, i: int, j: int) -> bool {
    let a = features[i];
    let b = features[j];
    if level_rank(level_at(a)) != level_rank(level_at(b)) {
        level_rank(level_at(a)) > level_rank(level_at(b))
    } else if starts_at(a) != starts_at(b) {
        starts_at(a) < starts_at(b)
    } else {
        i < j
    }
}

/// `order` lists positions among the first `n` messages: each that is shown,
/// once, in the order in which they are shown.
pub open spec fn is_order(features: Seq<AlertFeature>, order: Seq<usize>, n: int) -> bool {
    &&& forall|k: int|
        0 <= k < order.len() ==> (#[trigger] order[k]) < n && is_shown(features, order[k] as int)
    &&& forall|k: int, l: int|
        0 <= k < l < order.len() ==> is_above(
            features,
            (#[trigger] order[k]) as int,
            (#[trigger] order[l]) as int,
        )
    &&& forall|i: int|
        0 <= i < n && #[trigger] is_shown(features, i) ==> exists|k: int|
            0 <= k < order.len() && #[trigger] order[k] == i
}

/// What decides about a message, worked out once.
struct Candidate {
    usable: bool,
    cancel: bool,
    update: bool,
    issued: u64,
    level: AlertLevel,
    starts: i128,
    ends: i128,
}

impl Candidate {
    spec fn describes(self, f: AlertFeature) -> bool {
        &&& self.usable == has_interval(f)
        &&& self.cancel == is_cancel(f)
        &&& self.update == is_update(f)
        &&& self.issued == issued_at(f)
        &&& self.level == level_at(f)
        &&& self.usable ==> self.starts == starts_at(f) && self.ends == ends_at(f)
    }
}

fn describe(f: &AlertFeature) -> (c: Candidate)
    ensures
        c.describes(*f),
{
    let (usable, starts, ends) = match &f.interval {
        Some(v) => if v.len() == 2 && v[0] < v[1] {
            (true, v[0], v[1])
        } else {
            (false, 0i128, 0i128)
        },
        None => (false, 0i128, 0i128),
    };
    let msg_type = match &f.msg_type {
        Some(t) => t.as_str(),
        None => "Alert",
    };
    let issued: u64 = match &f.id {
        Some(id) => issue_stamp(id.as_str()),
        None => 0,
    };
    Candidate {
        usable,
        cancel: same_ignoring_ascii_case(msg_type, "cancel"),
        update: same_ignoring_ascii_case(msg_type, "update"),
        issued,
        level: parse_level(&f.risk_matrix_color, &f.severity),
        starts,
        ends,
    }
}

fn newer(a: &Candidate, i: usize, b: &Candidate, j: usize, Ghost(features): Ghost<
    Seq<AlertFeature>,
>) -> (r: bool)
    requires
        i < features.len(),
        j < features.len(),
        a.describes(features[i as int]),
        b.describes(features[j as int]),
    ensures
        r == is_newer(features, i as int, j as int),
{
    if a.issued != b.issued {
        a.issued > b.issued
    } else if a.update != b.update {
        a.update
    } else {
        i > j
    }
}

fn rank_of(level: AlertLevel) -> (rank: u8)
    ensures
        rank == level_rank(level),
{
    match level {
        AlertLevel::Yellow => 0,
        AlertLevel::Orange => 1,
        AlertLevel::Red => 2,
    }
}

fn above(a: &Candidate, i: usize, b: &Candidate, j: usize, Ghost(features): Ghost<
    Seq<AlertFeature>,
>) -> (r: bool)
    requires
        i < features.len(),
        j < features.len(),
        a.describes(features[i as int]),
        b.describes(features[j as int]),
        a.usable,
        b.usable,
    ensures
        r == is_above(features, i as int, j as int),
{
    let ra: u8 = rank_of(a.level);
    let rb: u8 = rank_of(b.level);
    if ra != rb {
        ra > rb
    } else if a.starts != b.starts {
        a.starts < b.starts
    } else {
        i < j
    }
}

fn superseded(features: &Vec<AlertFeature>, candidates: &Vec<Candidate>, i: usize) -> (b: bool)
    requires
        candidates@.len() == features@.len(),
        forall|k: int| 0 <= k < features@.len() ==> (#[trigger] candidates@[k]).describes(features@[k]),
        i < features@.len(),
        candidates@[i as int].usable,
    ensures
        b == is_superseded(features@, i as int),
{
    let mut j: usize = 0;
    while j < features.len()
        invariant
            j <= features.len(),
            candidates@.len() == features@.len(),
            forall|k: int|
                0 <= k < features@.len() ==> (#[trigger] candidates@[k]).describes(features@[k]),
            i < features@.len(),
            candidates@[i as int].usable,
            forall|k: int|
                0 <= k < j ==> !(has_interval(#[trigger] features@[k]) && is_newer(
                    features@,
                    k,
                    i as int,
                ) && same_episode(features@[k], features@[i as int])),
        decreases features.len() - j,
    {
        proof {
            assert(candidates@[j as int].describes(features@[j as int]));
            assert(candidates@[i as int].describes(features@[i as int]));
        }
        let o = &candidates[j];
        let me = &candidates[i];
        if o.usable && newer(o, j, me, i, Ghost(features@)) && same_text(
            features[j].event.as_str(),
            features[i].event.as_str(),
        ) && same_text(features[j].area.as_str(), features[i].area.as_str()) && o.starts < me.ends
            && me.starts < o.ends {
            return true;
        }
        j = j + 1;
    }
    false
}

/// Put position `i` into its place in the order.
fn place(order: &mut Vec<usize>, candidates: &Vec<Candidate>, i: usize, Ghost(features): Ghost<
    Seq<AlertFeature>,
>)
    requires
        candidates@.len() == features.len(),
        forall|k: int| 0 <= k < features.len() ==> (#[trigger] candidates@[k]).describes(features[k]),
        i < features.len(),
        is_shown(features, i as int),
        is_order(features, old(order)@, i as int),
    ensures
        is_order(features, final(order)@, i + 1),
{
    let ghost before = order@;
    let mut at: usize = 0;
    proof {
        assert(candidates@[i as int].describes(features[i as int]));
    }
    while at < order.len()
        invariant
            at <= order.len(),
            order@ == before,
            candidates@.len() == features.len(),
            forall|k: int|
                0 <= k < features.len() ==> (#[trigger] candidates@[k]).describes(features[k]),
            i < features.len(),
            candidates@[i as int].describes(features[i as int]),
            is_shown(features, i as int),
            is_order(features, before, i as int),
            forall|k: int|
                0 <= k < at ==> is_above(features, (#[trigger] before[k]) as int, i as int),
        ensures
            at < order.len() ==> !is_above(features, before[at as int] as int, i as int),
        decreases order.len() - at,
    {
        let e: usize = order[at];
        proof {
            assert(before[at as int] < i);
            assert(is_shown(features, before[at as int] as int));
            assert(candidates@[e as int].describes(features[e as int]));
        }
        if !above(&candidates[e], e, &candidates[i], i, Ghost(features)) {
            break ;
        }
        at = at + 1;
    }
    order.insert(at, i);
    proof {
        let after = order@;
        assert forall|k: int| 0 <= k < after.len() implies (#[trigger] after[k]) < i + 1
            && is_shown(features, after[k] as int) by {
            if k < at {
                assert(after[k] == before[k]);
            } else if k > at {
                assert(after[k] == before[k - 1]);
            }
        }
        assert forall|k: int, l: int| 0 <= k < l < after.len() implies is_above(
            features,
            (#[trigger] after[k]) as int,
            (#[trigger] after[l]) as int,
        ) by {
            if l < at {
                assert(after[k] == before[k] && after[l] == before[l]);
            } else if l == at {
                assert(after[k] == before[k]);
            } else if k < at {
                assert(after[k] == before[k] && after[l] == before[l - 1]);
            } else if k == at {
                assert(after[l] == before[l - 1]);
                let first = before[at as int];
                assert(first < i);
                if l - 1 > at {
                    assert(is_above(features, first as int, before[l - 1] as int));
                }
            } else {
                assert(after[k] == before[k - 1] && after[l] == before[l - 1]);
            }
        }
        assert forall|j: int| 0 <= j < i + 1 && #[trigger] is_shown(features, j) implies exists|k: int|
            0 <= k < after.len() && #[trigger] after[k] == j by {
            if j == i {
                assert(after[at as int] == j);
            } else {
                let k = choose|k: int| 0 <= k < before.len() && #[trigger] before[k] == j;
                if k < at {
                    assert(after[k] == j);
                } else {
                    assert(after[k + 1] == j);
                }
            }
        }
    }
}

/// The messages to show, by their positions in the feed.
fn display_order(features: &Vec<AlertFeature>) -> (order: Vec<usize>)
    ensures
        is_order(features@, order@, features@.len() as int),
{
    let mut candidates: Vec<Candidate> = Vec::new();
    let mut i: usize = 0;
    while i < features.len()
        invariant
            i <= features.len(),
            candidates@.len() == i,
            forall|k: int| 0 <= k < i ==> (#[trigger] candidates@[k]).describes(features@[k]),
        decreases features.len() - i,
    {
        candidates.push(describe(&features[i]));
        i = i + 1;
    }
    let mut order: Vec<usize> = Vec::new();
    let mut i: usize = 0;
    while i < features.len()
        invariant
            i <= features.len(),
            candidates@.len() == features@.len(),
            forall|k: int|
                0 <= k < features@.len() ==> (#[trigger] candidates@[k]).describes(features@[k]),
            is_order(features@, order@, i as int),
        decreases features.len() - i,
    {
        proof {
            assert(candidates@[i as int].describes(features@[i as int]));
        }
        if candidates[i].usable && !candidates[i].cancel && !superseded(features, &candidates, i) {
            place(&mut order, &candidates, i, Ghost(features@));
        }
        i = i + 1;
    }
    order
}

// ---- Warnings ----

/// A text that is not blank.
pub open spec fn unless_blank(text: Option<Seq<char>>) -> Option<Seq<char>> {
    match text {
        Some(t) => if trimmed(t).len() == 0 {
            None
        } else {
            Some(t)
        },
        None => None,
    }
}

/// The awareness name, else the title, else the event itself.
pub open spec fn event_name_of(f: AlertFeature) -> Seq<char> {
    match (f.event_awareness_name, f.title) {
        (Some(name), _) => name@,
        (None, Some(title)) => title@,
        (None, None) => f.event@,
    }
}

/// `a` is the warning that message `f` announces.
pub open spec fn is_alert_of(a: WeatherAlert, f: AlertFeature) -> bool {
    &&& a.event@ == f.event@
    &&& a.event_name@ == event_name_of(f)
    &&& a.level == level_at(f)
    &&& a.description@ == f.description@
    &&& text_view(a.consequences) == unless_blank(text_view(f.consequences))
    &&& text_view(a.instruction) == unless_blank(text_view(f.instruction))
    &&& a.area@ == f.area@
    &&& a.starts == starts_at(f)
    &&& a.ends == ends_at(f)
}

fn not_blank(text: &Option<String>) -> (out: Option<String>)
    ensures
        text_view(out) == unless_blank(text_view(*text)),
{
    match text {
        Some(t) => if trim(t.as_str()).is_empty() {
            None
        } else {
            Some(t.clone())
        },
        None => None,
    }
}

fn alert_of(f: &AlertFeature) -> (a: WeatherAlert)
    requires
        has_interval(*f),
    ensures
        is_alert_of(a, *f),
{
    let event_name = match (&f.event_awareness_name, &f.title) {
        (Some(name), _) => name.clone(),
        (None, Some(title)) => title.clone(),
        (None, None) => f.event.clone(),
    };
    let interval = f.interval.as_ref().unwrap();
    WeatherAlert {
        event: f.event.clone(),
        event_name,
        level: parse_level(&f.risk_matrix_color, &f.severity),
        description: f.description.clone(),
        consequences: not_blank(&f.consequences),
        instruction: not_blank(&f.instruction),
        area: f.area.clone(),
        starts: interval[0],
        ends: interval[1],
    }
}

/// `alerts` are the warnings of the messages at `order`.
pub open spec fn are_alerts_of(
    alerts: Seq<WeatherAlert>,
    features: Seq<AlertFeature>,
    order: Seq<usize>,
) -> bool {
    &&& alerts.len() == order.len()
    &&& forall|k: int|
        0 <= k < alerts.len() ==> is_alert_of(#[trigger] alerts[k], features[order[k] as int])
}

/// The warnings to show, worst level first, then by start time.
pub fn parse(features: &Vec<AlertFeature>) -> (alerts: Vec<WeatherAlert>)
    ensures
        exists|order: Seq<usize>| #[trigger]
            is_order(features@, order, features@.len() as int) && are_alerts_of(
                alerts@,
                features@,
                order,
            ),
{
    let order = display_order(features);
    let mut alerts: Vec<WeatherAlert> = Vec::new();
    let mut k: usize = 0;
    while k < order.len()
        invariant
            k <= order.len(),
            is_order(features@, order@, features@.len() as int),
            alerts@.len() == k,
            forall|l: int|
                0 <= l < k ==> is_alert_of(#[trigger] alerts@[l], features@[order@[l] as int]),
        decreases order.len() - k,
    {
        proof {
            assert(order@[k as int] < features@.len());
            assert(is_shown(features@, order@[k as int] as int));
        }
        alerts.push(alert_of(&features[order[k]]));
        k = k + 1;
    }
    alerts
}

} // verus!
