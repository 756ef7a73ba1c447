//! The services that the forecast and the observations come from.

use chrono::{DateTime, TimeZone, Utc};
use serde_json::Value;

use grusindeks::cache::{
    file_name_of, instant_from, lookup, parse_expires, settle, Cache, CacheEntry, CacheOutcome, Lookup, Response,
};
use grusindeks::client::{ClientError, MetClient, MetClientConfig, UserAgent};
use grusindeks::conditions::Resolution;
use grusindeks::frost::{
    full_element_query, observation_request, parse_hourly_observations, parse_hourly_precip,
    ObsEntry, ObsValue, ELEMENT_HOURLY_PRECIP,
};
use grusindeks::locationforecast::{self, into_forecast, NextHour, NextSixHours, SeriesEntry};
use grusindeks::metalerts::{
    self, issue_stamp, parse, parse_level, AlertFeature, AlertLevel, WeatherAlert,
};
use grusindeks::nowcast::{self, Nowcast, NowcastEntry, NowcastStep};
use grusindeks::reading::{Measured, Reading};

const SECOND: i128 = 1_000_000_000;
const MINUTE: i128 = 60 * SECOND;
const HOUR: i128 = 3_600 * SECOND;

fn reading(x: f64) -> Reading {
    let magnitude = x.abs().to_bits() as i64;
    if x < 0.0 {
        -magnitude
    } else {
        magnitude
    }
}

fn measured(x: f64) -> Measured {
    Measured { reading: reading(x), text: format!("{x:.1}") }
}

fn instant(text: &str) -> i128 {
    let time: DateTime<Utc> = text.parse().unwrap();
    i128::from(time.timestamp()) * SECOND
}

fn at(year: i32, month: u32, day: u32, hour: u32, minute: u32) -> i128 {
    i128::from(Utc.with_ymd_and_hms(year, month, day, hour, minute, 0).unwrap().timestamp())
        * SECOND
}

// ---- User agent ----

fn ua() -> UserAgent {
    UserAgent::new("grusindeks", "0.1.0", "dev@example.invalid").unwrap()
}

#[test]
fn user_agent_format() {
    assert_eq!(ua().as_str(), "grusindeks/0.1.0 dev@example.invalid");
}

#[test]
fn user_agent_accepts_url_contact() {
    let u = UserAgent::new("grusindeks", "0.1.0", "https://example.invalid/contact").unwrap();
    assert!(u.as_str().contains("https://"));
}

#[test]
fn user_agent_rejects_empty_app() {
    assert!(UserAgent::new("", "0.1.0", "dev@example.invalid").is_err());
    assert!(UserAgent::new("   ", "0.1.0", "dev@example.invalid").is_err());
}

#[test]
fn user_agent_rejects_empty_version() {
    assert!(UserAgent::new("grusindeks", "", "dev@example.invalid").is_err());
}

#[test]
fn user_agent_rejects_empty_contact() {
    assert!(UserAgent::new("grusindeks", "0.1.0", "").is_err());
    assert!(UserAgent::new("grusindeks", "0.1.0", "   ").is_err());
}

#[test]
fn user_agent_rejects_non_contact_string() {
    assert!(UserAgent::new("grusindeks", "0.1.0", "anonymous").is_err());
}

#[test]
fn user_agent_rejects_banned_tokens() {
    assert!(UserAgent::new("okhttp", "1.0", "x@y.io").is_err());
    assert!(UserAgent::new("grusindeks", "0.1.0", "Java@runtime.com").is_err());
}

// ---- URLs ----

fn client() -> MetClient {
    MetClient::new(MetClientConfig::production(ua(), None))
}

#[test]
fn api_url_joins_relative_path() {
    assert_eq!(
        client().api_url("/weatherapi/locationforecast/2.0/complete").unwrap(),
        "https://api.met.no/weatherapi/locationforecast/2.0/complete"
    );
}

#[test]
fn api_url_handles_path_without_leading_slash() {
    assert_eq!(
        client().api_url("weatherapi/locationforecast/2.0/complete").unwrap(),
        "https://api.met.no/weatherapi/locationforecast/2.0/complete"
    );
}

#[test]
fn frost_url_uses_frost_base() {
    assert_eq!(
        client().frost_url("/observations/v0.jsonld").unwrap(),
        "https://frost.met.no/observations/v0.jsonld"
    );
}

#[test]
fn points_are_asked_for_by_coordinates() {
    let met = client();
    assert_eq!(
        locationforecast::request_url(&met, "59.9139", "10.7522").unwrap(),
        "https://api.met.no/weatherapi/locationforecast/2.0/complete?lat=59.9139&lon=10.7522"
    );
    assert_eq!(
        nowcast::request_url(&met, "59.9139", "-0.5000").unwrap(),
        "https://api.met.no/weatherapi/nowcast/2.0/complete?lat=59.9139&lon=-0.5000"
    );
    assert_eq!(
        metalerts::request_url(&met, "1.0000", "2.0000").unwrap(),
        "https://api.met.no/weatherapi/metalerts/2.0/all.json?lat=1.0000&lon=2.0000"
    );
}

#[test]
fn a_bad_base_is_an_error() {
    let config =
        MetClientConfig::for_run(ua(), None, Some("no base".to_owned()), None, None, None);
    let err = MetClient::new(config).api_url("/ping").unwrap_err();
    assert!(matches!(err, ClientError::InvalidBaseUrl(_)), "got {err:?}");
    assert!(err.message().starts_with("invalid base URL: "), "got {}", err.message());
}

#[test]
fn an_overridden_api_is_not_cached() {
    let dir = || Some("/var/cache".to_owned());
    let plain = MetClientConfig::for_run(ua(), None, None, None, None, dir());
    assert_eq!(plain.cache_dir, dir());
    assert_eq!(plain.timeout_secs, 15);
    let elsewhere = Some("http://localhost:1/".to_owned());
    let test = MetClientConfig::for_run(ua(), None, elsewhere, None, dir(), dir());
    assert_eq!(test.cache_dir, None);
    let own = Some("/srv".to_owned());
    let server = MetClientConfig::for_run(ua(), None, None, None, own.clone(), dir());
    assert_eq!(server.cache_dir, own);
}

// ---- Cache ----

#[test]
fn entries_are_named_by_the_digest_of_their_url() {
    let cache = Cache::new("/tmp/met".to_owned());
    assert_eq!(cache.dir(), "/tmp/met");
    assert_eq!(
        cache.file_name_for("abc"),
        "ba7816bf8f01cfea414140de5dae2223b00361a396177a9cb410ff61f20015ad.json"
    );
    assert_eq!(
        cache.file_name_for(""),
        "e3b0c44298fc1c149afbf4c8996fb92427ae41e4649b934ca495991b7852b855.json"
    );
}

#[test]
fn digests_are_written_in_hexadecimal() {
    assert_eq!(file_name_of(&vec![0x00, 0x0f, 0xa0, 0xff]), "000fa0ff.json");
    assert_eq!(file_name_of(&Vec::new()), ".json");
}

fn entry(expires: Option<i128>) -> CacheEntry {
    CacheEntry {
        last_modified: Some("Sun, 26 Apr 2026 10:00:00 GMT".to_owned()),
        expires,
        body: "hello".to_owned(),
    }
}

fn response(status: u16, body: Option<&str>) -> Response {
    Response {
        status,
        last_modified: Some("Sun, 26 Apr 2026 12:00:00 GMT".to_owned()),
        expires: Some("Sun, 26 Apr 2026 13:00:00 GMT".to_owned()),
        body: body.map(str::to_owned),
    }
}

#[test]
fn a_fresh_entry_is_served_without_asking() {
    let cached = Some(entry(Some(1_000)));
    assert_eq!(lookup(&cached, 999), Lookup::Serve("hello".to_owned()));
    let stale = Lookup::Ask {
        if_modified_since: Some("Sun, 26 Apr 2026 10:00:00 GMT".to_owned()),
    };
    assert_eq!(lookup(&cached, 1_000), stale);
    assert_eq!(lookup(&Some(entry(None)), 0), stale);
    assert_eq!(lookup(&None, 0), Lookup::Ask { if_modified_since: None });
}

#[test]
fn a_first_answer_is_stored() {
    let settled = settle(None, response(200, Some("hello"))).unwrap();
    assert_eq!(settled.outcome, CacheOutcome::Refreshed);
    assert_eq!(settled.entry.body, "hello");
    assert_eq!(settled.entry.expires, Some(at(2026, 4, 26, 13, 0)));
}

#[test]
fn an_unchanged_answer_keeps_the_body() {
    let settled = settle(Some(entry(Some(5))), response(304, None)).unwrap();
    assert_eq!(settled.outcome, CacheOutcome::Revalidated);
    assert_eq!(settled.entry.body, "hello");
    assert_eq!(settled.entry.expires, Some(at(2026, 4, 26, 13, 0)));
    assert_eq!(
        settled.entry.last_modified,
        Some("Sun, 26 Apr 2026 12:00:00 GMT".to_owned())
    );
}

#[test]
fn a_changed_answer_replaces_the_body() {
    let settled = settle(Some(entry(Some(5))), response(200, Some("new"))).unwrap();
    assert_eq!(settled.outcome, CacheOutcome::Refreshed);
    assert_eq!(settled.entry.body, "new");
}

#[test]
fn an_error_is_passed_on() {
    let err = settle(None, response(500, Some("boom"))).unwrap_err();
    assert_eq!(err, ClientError::Http { status: 500, body: Some("boom".to_owned()) });
    assert!(err.message().contains("500"));
}

#[test]
fn expiry_dates_are_read_from_headers() {
    let header = |text: &str| Some(text.to_owned());
    assert_eq!(
        parse_expires(&header("Sun, 26 Apr 2026 13:00:00 GMT")),
        Some(at(2026, 4, 26, 13, 0))
    );
    assert_eq!(parse_expires(&header("tomorrow")), None);
    assert_eq!(parse_expires(&None), None);
    assert_eq!(instant_from(Some((-1, 500))), Some(-SECOND + 500));
    assert_eq!(instant_from(None), None);
}

// ---- Observations ----

fn obs_entries(body: &str) -> Vec<ObsEntry> {
    let raw: Value = serde_json::from_str(body).unwrap();
    raw["data"]
        .as_array()
        .unwrap()
        .iter()
        .map(|entry| ObsEntry {
            reference_time: instant(entry["referenceTime"].as_str().unwrap()),
            observations: entry["observations"]
                .as_array()
                .unwrap()
                .iter()
                .map(|o| ObsValue {
                    element_id: o["elementId"].as_str().unwrap().to_owned(),
                    value: o["value"].as_f64().map(reading),
                })
                .collect(),
        })
        .collect()
}

#[test]
fn parser_skips_unknown_element_ids() {
    let body = r#"{
        "data": [
            {"referenceTime": "2026-04-25T00:00:00.000Z",
             "observations": [
                {"elementId": "air_temperature", "value": 12.0},
                {"elementId": "sum(precipitation_amount PT1H)", "value": 0.5}
             ]}
        ]
    }"#;
    let series = parse_hourly_precip(&obs_entries(body));
    assert_eq!(series.len(), 1);
    assert_eq!(series[0].mm, reading(0.5));
}

#[test]
fn parser_handles_empty_data() {
    assert!(parse_hourly_precip(&obs_entries(r#"{"data": []}"#)).is_empty());
}

#[test]
fn parser_drops_negative_and_nan_values() {
    let body = r#"{
        "data": [
            {"referenceTime": "2026-04-25T00:00:00.000Z",
             "observations": [
                {"elementId": "sum(precipitation_amount PT1H)", "value": -99.9}
             ]},
            {"referenceTime": "2026-04-25T01:00:00.000Z",
             "observations": [
                {"elementId": "sum(precipitation_amount PT1H)", "value": 1.2}
             ]}
        ]
    }"#;
    let series = parse_hourly_precip(&obs_entries(body));
    assert_eq!(series.len(), 1);
    assert_eq!(series[0].mm, reading(1.2));
    let not_a_number = vec![ObsEntry {
        reference_time: 0,
        observations: vec![ObsValue {
            element_id: ELEMENT_HOURLY_PRECIP.to_owned(),
            value: None,
        }],
    }];
    assert!(parse_hourly_precip(&not_a_number).is_empty());
}

#[test]
fn observations_parser_groups_elements_per_hour() {
    let body = r#"{
        "data": [
            {"referenceTime": "2026-04-25T00:00:00.000Z",
             "observations": [
                {"elementId": "sum(precipitation_amount PT1H)", "value": 0.4},
                {"elementId": "mean(air_temperature PT1H)",     "value": 9.5},
                {"elementId": "mean(wind_speed PT1H)",          "value": 3.2},
                {"elementId": "mean(relative_humidity PT1H)",   "value": 78.0},
                {"elementId": "mean(cloud_area_fraction PT1H)", "value": 35.0}
             ]},
            {"referenceTime": "2026-04-25T01:00:00.000Z",
             "observations": [
                {"elementId": "sum(precipitation_amount PT1H)", "value": 0.0},
                {"elementId": "mean(air_temperature PT1H)",     "value": 9.0}
             ]}
        ]
    }"#;
    let series = parse_hourly_observations(&obs_entries(body));
    assert_eq!(series.len(), 2);
    let first = &series[0];
    assert_eq!(first.precip_mm, Some(reading(0.4)));
    assert_eq!(first.temp_c, Some(reading(9.5)));
    assert_eq!(first.wind_ms, Some(reading(3.2)));
    assert_eq!(first.humidity_pct, Some(reading(78.0)));
    assert_eq!(first.cloud_pct, Some(reading(35.0)));
    let second = &series[1];
    assert_eq!(second.precip_mm, Some(reading(0.0)));
    assert_eq!(second.temp_c, Some(reading(9.0)));
    assert_eq!(second.wind_ms, None);
    assert_eq!(second.humidity_pct, None);
    assert_eq!(second.cloud_pct, None);
}

#[test]
fn observations_parser_drops_out_of_domain_values() {
    let body = r#"{
        "data": [{
            "referenceTime": "2026-04-25T00:00:00.000Z",
            "observations": [
                {"elementId": "sum(precipitation_amount PT1H)", "value": -10.0},
                {"elementId": "mean(wind_speed PT1H)",          "value": -2.0},
                {"elementId": "mean(relative_humidity PT1H)",   "value": 250.0},
                {"elementId": "mean(cloud_area_fraction PT1H)", "value": 150.0}
            ]
        }]
    }"#;
    let series = parse_hourly_observations(&obs_entries(body));
    let obs = &series[0];
    assert_eq!(obs.precip_mm, None);
    assert_eq!(obs.wind_ms, None);
    assert_eq!(obs.humidity_pct, None);
    assert_eq!(obs.cloud_pct, None);
}

#[test]
fn parser_sorts_out_of_order_input() {
    let body = r#"{
        "data": [
            {"referenceTime": "2026-04-25T03:00:00.000Z",
             "observations": [
                {"elementId": "sum(precipitation_amount PT1H)", "value": 0.5}
             ]},
            {"referenceTime": "2026-04-25T01:00:00.000Z",
             "observations": [
                {"elementId": "sum(precipitation_amount PT1H)", "value": 0.2}
             ]},
            {"referenceTime": "2026-04-25T02:00:00.000Z",
             "observations": [
                {"elementId": "sum(precipitation_amount PT1H)", "value": 0.3}
             ]}
        ]
    }"#;
    let series = parse_hourly_precip(&obs_entries(body));
    assert!(series.windows(2).all(|w| w[0].time < w[1].time));
    assert_eq!(series[0].mm, reading(0.2));
    assert_eq!(series[1].mm, reading(0.3));
    assert_eq!(series[2].mm, reading(0.5));
}

#[test]
fn observations_of_one_hour_keep_their_order() {
    let entry = |time: i128, mm: f64| ObsEntry {
        reference_time: time,
        observations: vec![ObsValue {
            element_id: ELEMENT_HOURLY_PRECIP.to_owned(),
            value: Some(reading(mm)),
        }],
    };
    let series = parse_hourly_precip(&vec![entry(5, 0.1), entry(2, 0.2), entry(5, 0.3)]);
    let amounts: Vec<Reading> = series.iter().map(|p| p.mm).collect();
    assert_eq!(amounts, [reading(0.2), reading(0.1), reading(0.3)]);
}

#[test]
fn all_five_elements_are_asked_for() {
    assert_eq!(
        full_element_query(),
        "sum(precipitation_amount PT1H),mean(air_temperature PT1H),mean(wind_speed PT1H),mean(relative_humidity PT1H),mean(cloud_area_fraction PT1H)"
    );
}

#[test]
fn a_request_for_observations_names_its_range() {
    let config = MetClientConfig::production(ua(), Some("test-client-id".to_owned()));
    let request = observation_request(
        &MetClient::new(config),
        "SN18700",
        ELEMENT_HOURLY_PRECIP,
        instant("2026-04-24T10:00:00Z"),
        instant("2026-04-26T10:00:00Z"),
    )
    .unwrap();
    assert_eq!(request.client_id, "test-client-id");
    assert_eq!(
        request.url,
        "https://frost.met.no/observations/v0.jsonld?sources=SN18700\
&elements=sum%28precipitation_amount+PT1H%29\
&referencetime=2026-04-24T10%3A00%3A00%2B00%3A00%2F2026-04-26T10%3A00%3A00%2B00%3A00"
    );
}

#[test]
fn observations_need_a_client_id() {
    let err = observation_request(&client(), "SN18700", "x", 0, 1).unwrap_err();
    assert_eq!(err, ClientError::MissingCredentials("frost_client_id"));
}

// ---- Forecast ----

fn series_entry(time: i128) -> SeriesEntry {
    SeriesEntry {
        time,
        air_temperature: Some(reading(10.1)),
        wind_speed: Some(reading(1.9)),
        wind_speed_of_gust: Some(reading(4.0)),
        wind_from_direction: Some(reading(261.0)),
        relative_humidity: Some(reading(30.9)),
        cloud_area_fraction: Some(reading(90.0)),
        ultraviolet_index_clear_sky: Some(reading(3.0)),
        next_1_hours: None,
        next_6_hours: None,
    }
}

fn hourly(time: i128, mm: f64) -> SeriesEntry {
    SeriesEntry {
        next_1_hours: Some(NextHour {
            precipitation_amount: Some(reading(mm)),
            probability_of_precipitation: Some(reading(20.0)),
        }),
        ..series_entry(time)
    }
}

fn six_hourly(time: i128, mm: f64) -> SeriesEntry {
    SeriesEntry {
        next_6_hours: Some(NextSixHours {
            hourly_share: Some(reading(mm / 6.0)),
            probability_of_precipitation: Some(reading(60.0)),
        }),
        ..series_entry(time)
    }
}

#[test]
fn a_forecast_mixes_hours_and_buckets() {
    let start = at(2026, 4, 26, 10, 0);
    let mut both = hourly(start + HOUR, 0.4);
    both.next_6_hours = six_hourly(start, 3.0).next_6_hours;
    let series = vec![six_hourly(start + 4 * HOUR, 6.0), hourly(start, 0.0), both];
    let hours = into_forecast(&series);
    let times: Vec<i128> = hours.iter().map(|h| (h.time - start) / HOUR).collect();
    assert_eq!(times, [0, 1, 4, 5, 6, 7, 8, 9]);
    assert_eq!(hours[0].resolution, Resolution::Hourly);
    assert_eq!(hours[0].precipitation_mm, reading(0.0));
    assert_eq!(hours[0].wind_from_deg, Some(reading(261.0)));
    assert_eq!(hours[1].resolution, Resolution::Hourly);
    assert_eq!(hours[1].precipitation_mm, reading(0.4));
    assert_eq!(hours[2].resolution, Resolution::SixHourly);
    assert_eq!(hours[2].precipitation_mm, reading(1.0));
    assert_eq!(hours[7].probability_of_precip, Some(reading(60.0)));
    let hourly_wins = into_forecast(&vec![six_hourly(start, 6.0), hourly(start + HOUR, 0.4)]);
    assert_eq!(hourly_wins.len(), 6);
    assert_eq!(hourly_wins[1].resolution, Resolution::Hourly);
}

#[test]
fn entries_without_temperature_or_wind_are_passed_over() {
    let mut cold = hourly(0, 1.0);
    cold.air_temperature = None;
    let mut calm = hourly(HOUR, 1.0);
    calm.wind_speed = None;
    assert!(into_forecast(&vec![cold, calm, series_entry(2 * HOUR)]).is_empty());
}

#[test]
fn a_missing_amount_counts_as_dry() {
    let mut entry = hourly(0, 1.0);
    entry.next_1_hours =
        Some(NextHour { precipitation_amount: None, probability_of_precipitation: None });
    let hours = into_forecast(&vec![entry]);
    assert_eq!(hours[0].precipitation_mm, reading(0.0));
    assert_eq!(hours[0].probability_of_precip, None);
}

// ---- Warnings ----

fn text_at(v: &Value, key: &str) -> Option<String> {
    v.get(key).and_then(Value::as_str).map(str::to_owned)
}

fn features(body: &str) -> Vec<AlertFeature> {
    let raw: Value = serde_json::from_str(body).unwrap();
    raw["features"]
        .as_array()
        .unwrap()
        .iter()
        .map(|f| {
            let p = &f["properties"];
            AlertFeature {
                id: text_at(p, "id"),
                msg_type: text_at(p, "type"),
                event: text_at(p, "event").unwrap_or_default(),
                event_awareness_name: text_at(p, "eventAwarenessName"),
                title: text_at(p, "title"),
                description: text_at(p, "description").unwrap_or_default(),
                consequences: text_at(p, "consequences"),
                instruction: text_at(p, "instruction"),
                area: text_at(p, "area").unwrap_or_default(),
                risk_matrix_color: text_at(p, "riskMatrixColor"),
                severity: text_at(p, "severity"),
                interval: f.get("when").map(|w| {
                    w["interval"]
                        .as_array()
                        .unwrap()
                        .iter()
                        .map(|t| instant(t.as_str().unwrap()))
                        .collect()
                }),
            }
        })
        .collect()
}

fn feature_msg(level_color: &str, start: &str, end: &str, id: &str, msg_type: &str) -> String {
    format!(
        r#"{{
            "properties": {{
                "id": "{id}",
                "type": "{msg_type}",
                "event": "lightning",
                "eventAwarenessName": "Mye lyn",
                "title": "Mye lyn, gult nivå, Deler av Østlandet",
                "description": "Det er fare for tordenvær med mye lyn.",
                "consequences": "Lynnedslag kan føre til brann.",
                "instruction": "Unngå utendørsaktiviteter på utsatte områder.",
                "area": "Deler av Østlandet",
                "riskMatrixColor": "{level_color}",
                "severity": "Moderate"
            }},
            "when": {{ "interval": ["{start}", "{end}"] }}
        }}"#
    )
}

fn feature(level_color: &str, start: &str, end: &str) -> String {
    feature_msg(level_color, start, end, "", "Alert")
}

fn collection(features: &[String]) -> String {
    format!(r#"{{ "type": "FeatureCollection", "features": [{}] }}"#, features.join(","))
}

fn parsed(body: &str) -> Vec<WeatherAlert> {
    parse(&features(body))
}

#[test]
fn parser_maps_cap_fields() {
    let body = collection(&[feature(
        "Yellow",
        "2026-06-10T13:00:00+00:00",
        "2026-06-10T21:00:00+00:00",
    )]);
    let alerts = parsed(&body);
    assert_eq!(alerts.len(), 1);
    let a = &alerts[0];
    assert_eq!(a.event, "lightning");
    assert_eq!(a.event_name, "Mye lyn");
    assert_eq!(a.level, AlertLevel::Yellow);
    assert_eq!(a.area, "Deler av Østlandet");
    assert!(a.consequences.is_some());
    assert!(a.instruction.is_some());
    assert_eq!(a.starts, at(2026, 6, 10, 13, 0));
    assert_eq!(a.ends, at(2026, 6, 10, 21, 0));
}

#[test]
fn parser_sorts_worst_level_first() {
    let body = collection(&[
        feature("Yellow", "2026-06-10T10:00:00Z", "2026-06-10T12:00:00Z"),
        feature("Red", "2026-06-11T10:00:00Z", "2026-06-11T12:00:00Z"),
        feature("Orange", "2026-06-10T08:00:00Z", "2026-06-10T09:00:00Z"),
    ]);
    let levels: Vec<AlertLevel> = parsed(&body).iter().map(|a| a.level).collect();
    assert_eq!(levels, vec![AlertLevel::Red, AlertLevel::Orange, AlertLevel::Yellow]);
}

#[test]
fn parser_skips_features_without_interval() {
    let body = r#"{
        "type": "FeatureCollection",
        "features": [
            { "properties": { "event": "wind", "description": "", "area": "" } },
            { "properties": { "event": "wind", "description": "", "area": "" },
              "when": { "interval": ["2026-06-10T10:00:00Z"] } }
        ]
    }"#;
    assert!(parsed(body).is_empty());
}

#[test]
fn parser_handles_empty_collection() {
    assert!(parsed(r#"{ "type": "FeatureCollection", "features": [] }"#).is_empty());
}

#[test]
fn update_supersedes_overlapping_alert() {
    let body = collection(&[
        feature_msg(
            "Yellow",
            "2026-06-10T12:00:00Z",
            "2026-06-10T17:00:00Z",
            "2.49.0.1.578.0.20260609073947.006",
            "Alert",
        ),
        feature_msg(
            "Yellow",
            "2026-06-10T13:00:00Z",
            "2026-06-10T21:00:00Z",
            "2.49.0.1.578.0.20260610080652.055",
            "Update",
        ),
    ]);
    let alerts = parsed(&body);
    assert_eq!(alerts.len(), 1);
    assert_eq!(alerts[0].ends, at(2026, 6, 10, 21, 0));
}

#[test]
fn distinct_episodes_are_both_kept() {
    let body = collection(&[
        feature_msg(
            "Yellow",
            "2026-06-10T12:00:00Z",
            "2026-06-10T17:00:00Z",
            "2.49.0.1.578.0.20260609073947.006",
            "Alert",
        ),
        feature_msg(
            "Yellow",
            "2026-06-13T10:00:00Z",
            "2026-06-13T18:00:00Z",
            "2.49.0.1.578.0.20260610090000.001",
            "Alert",
        ),
    ]);
    assert_eq!(parsed(&body).len(), 2);
}

#[test]
fn cancel_kills_the_episode() {
    let body = collection(&[
        feature_msg(
            "Yellow",
            "2026-06-10T12:00:00Z",
            "2026-06-10T17:00:00Z",
            "2.49.0.1.578.0.20260609073947.006",
            "Alert",
        ),
        feature_msg(
            "Yellow",
            "2026-06-10T12:00:00Z",
            "2026-06-10T17:00:00Z",
            "2.49.0.1.578.0.20260610100000.002",
            "Cancel",
        ),
    ]);
    assert!(parsed(&body).is_empty());
}

#[test]
fn level_falls_back_to_cap_severity() {
    let body = collection(&[feature("", "2026-06-10T10:00:00Z", "2026-06-10T12:00:00Z")])
        .replace(r#""riskMatrixColor": "","#, "")
        .replace(r#""severity": "Moderate""#, r#""severity": "Extreme""#);
    assert_eq!(parsed(&body)[0].level, AlertLevel::Red);
}

#[test]
fn levels_read_colour_before_severity() {
    let text = |s: &str| Some(s.to_owned());
    assert_eq!(parse_level(&text("oRANGE"), &text("Extreme")), AlertLevel::Orange);
    assert_eq!(parse_level(&text("green"), &text("Severe")), AlertLevel::Orange);
    assert_eq!(parse_level(&None, &text("extreme")), AlertLevel::Yellow);
    assert_eq!(parse_level(&None, &None), AlertLevel::Yellow);
}

#[test]
fn stamps_are_the_long_number_of_an_id() {
    assert_eq!(issue_stamp("2.49.0.1.578.0.20260610080652.055"), 20_260_610_080_652);
    assert_eq!(issue_stamp("2.49.0.1"), 0);
    assert_eq!(issue_stamp("abcdefghijklmn.20260610080652"), 20_260_610_080_652);
}

#[test]
fn warnings_overlap_half_open_intervals() {
    let body =
        collection(&[feature("Red", "2026-06-10T10:00:00Z", "2026-06-10T12:00:00Z")]);
    let alerts = parsed(&body);
    let a = &alerts[0];
    assert!(a.overlaps(a.starts - HOUR, a.starts + 1));
    assert!(!a.overlaps(a.starts - HOUR, a.starts));
    assert!(!a.overlaps(a.ends, a.ends + HOUR));
}

// ---- Nowcast ----

fn step(minute: i128, rate: f64) -> NowcastStep {
    NowcastStep {
        time: at(2026, 4, 26, 14, 0) + minute * MINUTE,
        precipitation_rate_mm_h: measured(rate),
    }
}

fn covered(steps: Vec<NowcastStep>) -> Nowcast {
    Nowcast { radar_coverage_ok: true, steps }
}

#[test]
fn parser_marks_no_radar_coverage() {
    let n = Nowcast::from_series(Some("no coverage"), &Vec::new());
    assert!(!n.radar_coverage_ok);
    assert!(n.steps.is_empty());
    assert!(!Nowcast::from_series(None, &Vec::new()).radar_coverage_ok);
}

#[test]
fn steps_are_the_entries_with_a_rate() {
    let entries = vec![
        NowcastEntry { time: 0, precipitation_rate: Some(measured(0.2)) },
        NowcastEntry { time: 5 * MINUTE, precipitation_rate: None },
        NowcastEntry { time: 10 * MINUTE, precipitation_rate: Some(measured(0.0)) },
    ];
    let n = Nowcast::from_series(Some("ok"), &entries);
    assert!(n.radar_coverage_ok);
    let times: Vec<i128> = n.steps.iter().map(|s| s.time).collect();
    assert_eq!(times, [0, 10 * MINUTE]);
}

#[test]
fn next_rain_at_returns_first_step_above_threshold() {
    let n = covered(vec![step(0, 0.0), step(5, 0.05), step(10, 0.4)]);
    assert_eq!(n.next_rain_at(reading(0.1)), Some(at(2026, 4, 26, 14, 10)));
    assert_eq!(n.next_rain_at(reading(1.0)), None);
}

#[test]
fn next_rain_at_returns_none_for_dry_series() {
    assert_eq!(covered(vec![step(0, 0.0)]).next_rain_at(reading(0.1)), None);
}

#[test]
fn summary_returns_none_for_dry_series() {
    assert!(covered(vec![step(0, 0.0), step(5, 0.05)]).summary(reading(0.1)).is_none());
}

#[test]
fn summary_returns_none_when_steps_empty() {
    let n = Nowcast { radar_coverage_ok: false, steps: Vec::new() };
    assert!(n.summary(reading(0.1)).is_none());
}

#[test]
fn summary_brackets_first_last_and_picks_peak() {
    let n = covered(vec![
        step(0, 0.0),
        step(5, 0.2),
        step(10, 0.6),
        step(15, 0.4),
        step(20, 0.0),
        step(25, 0.3),
    ]);
    let s = n.summary(reading(0.1)).expect("rain in series");
    assert_eq!(s.first_rain_at, at(2026, 4, 26, 14, 5));
    assert_eq!(s.last_rain_at, at(2026, 4, 26, 14, 25));
    assert_eq!(s.peak_mm_h.reading, reading(0.6));
    assert_eq!(s.peak_at, at(2026, 4, 26, 14, 10));
}

#[test]
fn summary_threshold_excludes_subthreshold_blip() {
    let n = covered(vec![step(5, 0.05), step(15, 0.4)]);
    let s = n.summary(reading(0.1)).expect("rain above the threshold");
    assert_eq!(s.first_rain_at, at(2026, 4, 26, 14, 15));
}
