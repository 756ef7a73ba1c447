//! `frost.met.no/observations/v0.jsonld` — historical observations.
//!
//! Frost returns one entry per reference time, each with a list of observed
//! values. Readings outside their domain (occasional sensor artefacts) are
//! dropped rather than fed into the drying model.
use vstd::prelude::*;
use vstd::string::StringExecFns;

use crate::chronology::{is_time_order, time_order};
use crate::client::{
    pair_views, set_query, url_join, url_outcome, url_with_query, without_leading_slashes,
    ClientError, MetClient,
};
use crate::reading::{Reading, ZERO};
use crate::text::{join, joined, same_text, texts};
use crate::time::{instant_text, is_instant, rfc3339};

pub mod laws;

verus! {

const PATH: &'static str = "/observations/v0.jsonld";

pub const ELEMENT_HOURLY_PRECIP: &'static str = "sum(precipitation_amount PT1H)";

pub const ELEMENT_HOURLY_TEMP: &'static str = "mean(air_temperature PT1H)";

pub const ELEMENT_HOURLY_WIND: &'static str = "mean(wind_speed PT1H)";

pub const ELEMENT_HOURLY_HUMIDITY: &'static str = "mean(relative_humidity PT1H)";

/// Mean total cloud cover over the hour, in percent.
pub const ELEMENT_HOURLY_CLOUD: &'static str = "mean(cloud_area_fraction PT1H)";

/// 100.0 %
pub const FULL_PCT: Reading = 0x4059_0000_0000_0000;

/// One observed hour of precipitation. `time` is the end of the integration
/// window.
#[derive(Debug, Clone, Copy, PartialEq, Eq, Structural)]
pub struct HourlyPrecip {
    pub time: i128,
    pub mm: Reading,
}

/// A full hour of Frost observations. Every weather field is optional since
/// stations don't all carry every sensor.
#[derive(Debug, Clone, Copy, PartialEq, Eq, Structural)]
pub struct HourlyObservation {
    pub time: i128,
    pub precip_mm: Option<Reading>,
    pub temp_c: Option<Reading>,
    pub wind_ms: Option<Reading>,
    pub humidity_pct: Option<Reading>,
    /// Total cloud cover, 0–100 %.
    pub cloud_pct: Option<Reading>,
}

/// One observed value. A value that is not a finite number has no reading.
#[derive(Debug, PartialEq, Eq)]
pub struct ObsValue {
    pub element_id: String,
    pub value: Option<Reading>,
}

/// What was observed at one reference time.
#[derive(Debug, PartialEq, Eq)]
pub struct ObsEntry {
    pub reference_time: i128,
    pub observations: Vec<ObsValue>,
}

/// The elements asked for when full observations are wanted.
pub open spec fn full_elements() -> Seq<Seq<char>> {
    seq![
        ELEMENT_HOURLY_PRECIP@,
        ELEMENT_HOURLY_TEMP@,
        ELEMENT_HOURLY_WIND@,
        ELEMENT_HOURLY_HUMIDITY@,
        ELEMENT_HOURLY_CLOUD@,
    ]
}

/// Comma-separated list of the element ids of a full observation.
pub fn full_element_query() -> (query: String)
    ensures
        query@ == joined(full_elements(), ","@),
{
    let mut elements: Vec<String> = Vec::new();
    elements.push(ELEMENT_HOURLY_PRECIP.to_owned());
    elements.push(ELEMENT_HOURLY_TEMP.to_owned());
    elements.push(ELEMENT_HOURLY_WIND.to_owned());
    elements.push(ELEMENT_HOURLY_HUMIDITY.to_owned());
    elements.push(ELEMENT_HOURLY_CLOUD.to_owned());
    proof {
        assert(texts(elements@) =~= full_elements());
    }
    join(&elements, ",")
}

// ---- One entry ----

/// A value is valid for a quantity that cannot be below zero.
pub open spec fn not_negative(value: Reading) -> bool {
    value >= ZERO
}

/// A value is valid for a percentage.
pub open spec fn is_percentage(value: Reading) -> bool {
    ZERO <= value <= FULL_PCT
}

/// The last valid value of an element, if there is one.
pub open spec fn last_valid(
    observations: Seq<ObsValue>,
    element: Seq<char>,
    valid: spec_fn(Reading) -> bool,
) -> Option<Reading>
    decreases observations.len(),
{
    if observations.len() == 0 {
        None
    } else {
        let o = observations.last();
        if o.element_id@ == element && o.value is Some && valid(o.value->0) {
            o.value
        } else {
            last_valid(observations.drop_last(), element, valid)
        }
    }
}

/// The observation that an entry holds.
pub open spec fn observation_of(time: i128, observations: Seq<ObsValue>) -> HourlyObservation {
    HourlyObservation {
        time,
        precip_mm: last_valid(
            observations,
            ELEMENT_HOURLY_PRECIP@,
            |v: Reading| not_negative(v),
        ),
        temp_c: last_valid(observations, ELEMENT_HOURLY_TEMP@, |v: Reading| true),
        wind_ms: last_valid(observations, ELEMENT_HOURLY_WIND@, |v: Reading| not_negative(v)),
        humidity_pct: last_valid(
            observations,
            ELEMENT_HOURLY_HUMIDITY@,
            |v: Reading| is_percentage(v),
        ),
        cloud_pct: last_valid(observations, ELEMENT_HOURLY_CLOUD@, |v: Reading| is_percentage(v)),
    }
}

proof fn elements_differ()
    ensures
        ELEMENT_HOURLY_PRECIP@ != ELEMENT_HOURLY_TEMP@,
        ELEMENT_HOURLY_PRECIP@ != ELEMENT_HOURLY_WIND@,
        ELEMENT_HOURLY_PRECIP@ != ELEMENT_HOURLY_HUMIDITY@,
        ELEMENT_HOURLY_PRECIP@ != ELEMENT_HOURLY_CLOUD@,
        ELEMENT_HOURLY_TEMP@ != ELEMENT_HOURLY_WIND@,
        ELEMENT_HOURLY_TEMP@ != ELEMENT_HOURLY_HUMIDITY@,
        ELEMENT_HOURLY_TEMP@ != ELEMENT_HOURLY_CLOUD@,
        ELEMENT_HOURLY_WIND@ != ELEMENT_HOURLY_HUMIDITY@,
        ELEMENT_HOURLY_WIND@ != ELEMENT_HOURLY_CLOUD@,
        ELEMENT_HOURLY_HUMIDITY@ != ELEMENT_HOURLY_CLOUD@,
{
    reveal_strlit("sum(precipitation_amount PT1H)");
    reveal_strlit("mean(air_temperature PT1H)");
    reveal_strlit("mean(wind_speed PT1H)");
    reveal_strlit("mean(relative_humidity PT1H)");
    reveal_strlit("mean(cloud_area_fraction PT1H)");
    assert(ELEMENT_HOURLY_PRECIP@[0] == 's');
    assert(ELEMENT_HOURLY_TEMP@[5] == 'a');
    assert(ELEMENT_HOURLY_WIND@[5] == 'w');
    assert(ELEMENT_HOURLY_HUMIDITY@[5] == 'r');
    assert(ELEMENT_HOURLY_CLOUD@[5] == 'c');
    assert(ELEMENT_HOURLY_TEMP@[0] == 'm');
    assert(ELEMENT_HOURLY_WIND@[0] == 'm');
    assert(ELEMENT_HOURLY_HUMIDITY@[0] == 'm');
    assert(ELEMENT_HOURLY_CLOUD@[0] == 'm');
}

fn project(entry: &ObsEntry) -> (obs: HourlyObservation)
    ensures
        obs == observation_of(entry.reference_time, entry.observations@),
{
    let mut obs = HourlyObservation {
        time: entry.reference_time,
        precip_mm: None,
        temp_c: None,
        wind_ms: None,
        humidity_pct: None,
        cloud_pct: None,
    };
    let mut i: usize = 0;
    proof {
        assert(entry.observations@.take(0) =~= Seq::empty());
        elements_differ();
    }
    while i < entry.observations.len()
        invariant
            i <= entry.observations.len(),
            obs == observation_of(entry.reference_time, entry.observations@.take(i as int)),
        decreases entry.observations.len() - i,
    {
        let o = &entry.observations[i];
        proof {
            elements_differ();
            let next = entry.observations@.take(i + 1);
            assert(next.drop_last() =~= entry.observations@.take(i as int));
            assert(next.last() == *o);
        }
        match o.value {
            Some(value) => {
                let id = o.element_id.as_str();
                if same_text(id, ELEMENT_HOURLY_PRECIP) {
                    if value >= ZERO {
                        obs.precip_mm = Some(value);
                    }
                } else if same_text(id, ELEMENT_HOURLY_TEMP) {
                    obs.temp_c = Some(value);
                } else if same_text(id, ELEMENT_HOURLY_WIND) {
                    if value >= ZERO {
                        obs.wind_ms = Some(value);
                    }
                } else if same_text(id, ELEMENT_HOURLY_HUMIDITY) {
                    if ZERO <= value && value <= FULL_PCT {
                        obs.humidity_pct = Some(value);
                    }
                } else if same_text(id, ELEMENT_HOURLY_CLOUD) {
                    if ZERO <= value && value <= FULL_PCT {
                        obs.cloud_pct = Some(value);
                    }
                }
            },
            None => {},
        }
        i = i + 1;
    }
    proof {
        assert(entry.observations@.take(entry.observations.len() as int) =~= entry.observations@);
    }
    obs
}

// ---- A whole response ----

pub open spec fn entry_times(entries: Seq<ObsEntry>) -> Seq<i128> {
    entries.map_values(|e: ObsEntry| e.reference_time)
}

/// `out` holds the observation of every entry, in chronological order.
pub open spec fn are_observations_of(out: Seq<HourlyObservation>, entries: Seq<ObsEntry>) -> bool {
    exists|order: Seq<usize>| #[trigger]
        is_time_order(entry_times(entries), order, entries.len() as int) && out.len() == order.len()
            && forall|k: int|
            0 <= k < out.len() ==> #[trigger] out[k] == observation_of(
                entries[order[k] as int].reference_time,
                entries[order[k] as int].observations@,
            )
}

/// Group a Frost response by reference time and project each known element
/// into the matching field.
pub fn parse_hourly_observations(entries: &Vec<ObsEntry>) -> (out: Vec<HourlyObservation>)
    ensures
        are_observations_of(out@, entries@),
{
    let mut times: Vec<i128> = Vec::new();
    let mut i: usize = 0;
    while i < entries.len()
        invariant
            i <= entries.len(),
            times@ == entry_times(entries@).take(i as int),
        decreases entries.len() - i,
    {
        times.push(entries[i].reference_time);
        proof {
            assert(entry_times(entries@).take(i + 1) =~= entry_times(entries@).take(i as int).push(
                entries@[i as int].reference_time,
            ));
        }
        i = i + 1;
    }
    proof {
        assert(times@ =~= entry_times(entries@));
    }
    let order = time_order(&times);
    let mut out: Vec<HourlyObservation> = Vec::new();
    let mut k: usize = 0;
    while k < order.len()
        invariant
            k <= order.len(),
            is_time_order(entry_times(entries@), order@, entries@.len() as int),
            out@.len() == k,
            forall|l: int|
                0 <= l < k ==> #[trigger] out@[l] == observation_of(
                    entries@[order@[l] as int].reference_time,
                    entries@[order@[l] as int].observations@,
                ),
        decreases order.len() - k,
    {
        proof {
            assert(order@[k as int] < entries@.len());
        }
        out.push(project(&entries[order[k]]));
        k = k + 1;
    }
    out
}

/// The value is an hour of precipitation.
pub open spec fn is_hourly_precip(o: ObsValue) -> bool {
    o.element_id@ == ELEMENT_HOURLY_PRECIP@ && o.value is Some && not_negative(o.value->0)
}

/// The hours of precipitation that an entry's values hold.
pub open spec fn precip_of(time: i128, observations: Seq<ObsValue>) -> Seq<HourlyPrecip>
    decreases observations.len(),
{
    if observations.len() == 0 {
        Seq::empty()
    } else {
        let rest = precip_of(time, observations.drop_last());
        if is_hourly_precip(observations.last()) {
            rest.push(HourlyPrecip { time, mm: observations.last().value->0 })
        } else {
            rest
        }
    }
}

/// The hours of precipitation of a response, in the order in which they are
/// listed.
pub open spec fn listed_precip(entries: Seq<ObsEntry>) -> Seq<HourlyPrecip>
    decreases entries.len(),
{
    if entries.len() == 0 {
        Seq::empty()
    } else {
        listed_precip(entries.drop_last()) + precip_of(
            entries.last().reference_time,
            entries.last().observations@,
        )
    }
}

pub open spec fn precip_times(listed: Seq<HourlyPrecip>) -> Seq<i128> {
    listed.map_values(|p: HourlyPrecip| p.time)
}

/// `out` holds the records of `listed` in chronological order.
pub open spec fn is_chronological_listing(
    out: Seq<HourlyPrecip>,
    listed: Seq<HourlyPrecip>,
) -> bool {
    exists|order: Seq<usize>| #[trigger]
        is_time_order(precip_times(listed), order, listed.len() as int) && out.len() == order.len()
            && forall|k: int| 0 <= k < out.len() ==> #[trigger] out[k] == listed[order[k] as int]
}

fn push_precip(out: &mut Vec<HourlyPrecip>, entry: &ObsEntry)
    ensures
        final(out)@ == old(out)@ + precip_of(entry.reference_time, entry.observations@),
{
    let ghost start = out@;
    let mut i: usize = 0;
    proof {
        assert(entry.observations@.take(0) =~= Seq::empty());
        assert(start + precip_of(entry.reference_time, Seq::empty()) =~= start);
    }
    while i < entry.observations.len()
        invariant
            i <= entry.observations.len(),
            out@ == start + precip_of(
                entry.reference_time,
                entry.observations@.take(i as int),
            ),
        decreases entry.observations.len() - i,
    {
        let o = &entry.observations[i];
        let ghost before = precip_of(entry.reference_time, entry.observations@.take(i as int));
        proof {
            let next = entry.observations@.take(i + 1);
            assert(next.drop_last() =~= entry.observations@.take(i as int));
            assert(next.last() == *o);
        }
        match o.value {
            Some(value) => {
                if value >= ZERO && same_text(o.element_id.as_str(), ELEMENT_HOURLY_PRECIP) {
                    out.push(HourlyPrecip { time: entry.reference_time, mm: value });
                    proof {
                        assert(out@ =~= start + before.push(
                            HourlyPrecip { time: entry.reference_time, mm: value },
                        ));
                    }
                }
            },
            None => {},
        }
        i = i + 1;
    }
    proof {
        assert(entry.observations@.take(entry.observations.len() as int) =~= entry.observations@);
    }
}

/// A Frost response as a chronological list of hourly precipitation values.
/// Other elements and invalid values are left out.
pub fn parse_hourly_precip(entries: &Vec<ObsEntry>) -> (out: Vec<HourlyPrecip>)
    ensures
        is_chronological_listing(out@, listed_precip(entries@)),
{
    let mut listed: Vec<HourlyPrecip> = Vec::new();
    let mut i: usize = 0;
    proof {
        assert(entries@.take(0) =~= Seq::empty());
    }
    while i < entries.len()
        invariant
            i <= entries.len(),
            listed@ == listed_precip(entries@.take(i as int)),
        decreases entries.len() - i,
    {
        proof {
            let next = entries@.take(i + 1);
            assert(next.drop_last() =~= entries@.take(i as int));
            assert(next.last() == entries@[i as int]);
        }
        push_precip(&mut listed, &entries[i]);
        i = i + 1;
    }
    proof {
        assert(entries@.take(entries.len() as int) =~= entries@);
    }
    let mut times: Vec<i128> = Vec::new();
    let mut i: usize = 0;
    while i < listed.len()
        invariant
            i <= listed.len(),
            times@ == precip_times(listed@).take(i as int),
        decreases listed.len() - i,
    {
        times.push(listed[i].time);
        proof {
            assert(precip_times(listed@).take(i + 1) =~= precip_times(listed@).take(i as int).push(
                listed@[i as int].time,
            ));
        }
        i = i + 1;
    }
    proof {
        assert(times@ =~= precip_times(listed@));
    }
    let order = time_order(&times);
    let mut out: Vec<HourlyPrecip> = Vec::new();
    let mut k: usize = 0;
    while k < order.len()
        invariant
            k <= order.len(),
            is_time_order(precip_times(listed@), order@, listed@.len() as int),
            out@.len() == k,
            forall|l: int| 0 <= l < k ==> #[trigger] out@[l] == listed@[order@[l] as int],
        decreases order.len() - k,
    {
        proof {
            assert(order@[k as int] < listed@.len());
        }
        out.push(listed[order[k]]);
        k = k + 1;
    }
    out
}

// ---- The request ----

/// What a request to Frost needs.
#[derive(Debug, PartialEq, Eq)]
pub struct ObservationRequest {
    pub url: String,
    /// User name of the basic authentication; the password is empty.
    pub client_id: String,
}

/// The query of a request: source, elements and time span.
pub open spec fn observation_query(
    source_id: Seq<char>,
    elements: Seq<char>,
    from: int,
    to: int,
) -> Seq<(Seq<char>, Seq<char>)> {
    seq![
        ("sources"@, source_id),
        ("elements"@, elements),
        (
            "referencetime"@,
            instant_text(from) + "/"@ + instant_text(to),
        ),
    ]
}

/// The outcome of preparing a request. Without a client id there is none.
pub open spec fn is_request_outcome(
    result: Result<ObservationRequest, ClientError>,
    client_id: Option<String>,
    base: Seq<char>,
    query: Seq<(Seq<char>, Seq<char>)>,
) -> bool {
    match client_id {
        None => result matches Err(ClientError::MissingCredentials(what)) && what@
            == "frost_client_id"@,
        Some(id) => {
            let built = match url_join(base, without_leading_slashes("/observations/v0.jsonld"@)) {
                Ok(url) => url_with_query(url, query),
                Err(why) => Err(why),
            };
            match built {
                Ok(url) => result matches Ok(request) && request.url@ == url
                    && request.client_id@ == id@,
                Err(why) => result matches Err(ClientError::InvalidBaseUrl(said)) && said@ == why,
            }
        },
    }
}

/// Prepare the request for `elements` of `source_id` (e.g. `"SN18700"`) over
/// `[from, to)`.
pub fn observation_request(
    client: &MetClient,
    source_id: &str,
    elements: &str,
    from: i128,
    to: i128,
) -> (result: Result<ObservationRequest, ClientError>)
    requires
        is_instant(from as int),
        is_instant(to as int),
    ensures
        is_request_outcome(
            result,
            client.spec_config().frost_client_id,
            client.spec_config().frost_base@,
            observation_query(source_id@, elements@, from as int, to as int),
        ),
{
    match &client.config().frost_client_id {
        None => Err(ClientError::MissingCredentials("frost_client_id")),
        Some(client_id) => {
            match client.frost_url(PATH) {
                Ok(url) => {
                    let mut span = rfc3339(from);
                    span.append("/");
                    span.append(rfc3339(to).as_str());
                    let mut pairs: Vec<(String, String)> = Vec::new();
                    pairs.push(("sources".to_owned(), source_id.to_owned()));
                    pairs.push(("elements".to_owned(), elements.to_owned()));
                    pairs.push(("referencetime".to_owned(), span));
                    proof {
                        assert(pair_views(pairs@) =~= observation_query(
                            source_id@,
                            elements@,
                            from as int,
                            to as int,
                        ));
                    }
                    match url_outcome(set_query(url.as_str(), &pairs)) {
                        Ok(url) => Ok(ObservationRequest { url, client_id: client_id.clone() }),
                        Err(e) => Err(e),
                    }
                },
                Err(e) => Err(e),
            }
        },
    }
}

} // verus!
