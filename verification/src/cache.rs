//! Disk cache that honours `Expires` and revalidates with
//! `If-Modified-Since` / `304 Not Modified` — required by the MET TOS.
//!
//! Storage shape: one file per URL, named by the SHA-256 of the URL, holding
//! the response body plus the `Last-Modified` and `Expires` values of the
//! response. Reading, sending and writing happen outside; this module decides
//! what to do next and what to store.
use vstd::prelude::*;
use vstd::string::StringExecFns;

use chrono::DateTime;
use sha2::{Digest, Sha256};

use crate::client::ClientError;
use crate::time::SECOND;

pub mod laws;

verus! {

/// Disk-backed HTTP cache.
#[derive(Debug)]
pub struct Cache {
    dir: String,
}

/// What is stored of a response.
#[derive(Debug, PartialEq, Eq)]
pub struct CacheEntry {
    /// `Last-Modified` from the upstream response, verbatim. Echoed back as
    /// `If-Modified-Since` on revalidation.
    pub last_modified: Option<String>,
    /// Instant from which on the entry must be revalidated.
    pub expires: Option<i128>,
    pub body: String,
}

/// Outcome of a cache lookup.
#[derive(Debug, Clone, Copy, PartialEq, Eq, Structural)]
pub enum CacheOutcome {
    /// Returned without any HTTP call.
    Hit,
    /// Sent `If-Modified-Since`, server replied `304 Not Modified`.
    Revalidated,
    /// New body fetched from upstream.
    Refreshed,
}

// ---- File names ----

/// The SHA-256 digest of a message.
pub uninterp spec fn sha256_digest(message: Seq<u8>) -> Seq<u8>;

/// `sha2::Sha256::digest`: the result is a function of the message, and 32
/// bytes long.
#[verifier::external_body]
fn sha256(message: &[u8]) -> (digest: Vec<u8>)
    ensures
        digest@ == sha256_digest(message@),
        digest@.len() == 32,
{
    Sha256::digest(message).to_vec()
}

pub open spec fn hex_digit(d: int) -> char {
    if d < 10 {
        ('0' as u32 + d) as char
    } else {
        ('a' as u32 + (d - 10)) as char
    }
}

/// Two lower-case hexadecimal digits per byte.
pub open spec fn hex_text(bytes: Seq<u8>) -> Seq<char> {
    Seq::new(
        2 * bytes.len(),
        |i: int|
            hex_digit(
                if i % 2 == 0 {
                    bytes[i / 2] as int / 16
                } else {
                    bytes[i / 2] as int % 16
                },
            ),
    )
}

/// `hex::encode`: two lower-case hexadecimal digits per byte, the high half
/// first.
#[verifier::external_body]
fn hex_encode(bytes: &Vec<u8>) -> (text: String)
    ensures
        text@ == hex_text(bytes@),
{
    hex::encode(bytes)
}

/// The name of the file that holds the entry of a URL.
pub open spec fn entry_name(url: Seq<char>) -> Seq<char> {
    hex_text(sha256_digest(vstd::utf8::encode_utf8(url))) + ".json"@
}

/// The name of the file for the URL with that digest.
pub fn file_name_of(digest: &Vec<u8>) -> (name: String)
    ensures
        name@ == hex_text(digest@) + ".json"@,
{
    let mut name = hex_encode(digest);
    name.append(".json");
    name
}

impl Cache {
    pub closed spec fn spec_dir(self) -> Seq<char> {
        self.dir@
    }

    pub fn new(dir: String) -> (cache: Self)
        ensures
            cache.spec_dir() == dir@,
    {
        Cache { dir }
    }

    /// The directory that holds the entries.
    pub fn dir(&self) -> (dir: &str)
        ensures
            dir@ == self.spec_dir(),
    {
        self.dir.as_str()
    }

    /// The name, inside the cache directory, of the file for `url`.
    pub fn file_name_for(&self, url: &str) -> (name: String)
        ensures
            name@ == entry_name(url@),
    {
        file_name_of(&sha256(url.as_bytes()))
    }
}

// ---- Expiry ----

/// What `chrono::DateTime::parse_from_rfc2822` reads from a text: seconds
/// since 1970-01-01T00:00:00Z and nanoseconds on top, or nothing.
pub uninterp spec fn rfc2822_time(text: Seq<char>) -> Option<(int, int)>;

/// What an optional pair of numbers stands for.
pub open spec fn time_view(time: Option<(i64, u32)>) -> Option<(int, int)> {
    match time {
        Some(t) => Some((t.0 as int, t.1 as int)),
        None => None,
    }
}

/// `chrono::DateTime::parse_from_rfc2822`, with the time it reads given as
/// seconds and nanoseconds: the result is a function of the text.
#[verifier::external_body]
fn parse_rfc2822(text: &str) -> (time: Option<(i64, u32)>)
    ensures
        time_view(time) == rfc2822_time(text@),
{
    DateTime::parse_from_rfc2822(text).ok().map(|t| (t.timestamp(), t.timestamp_subsec_nanos()))
}

/// The instant of a time given in seconds and nanoseconds.
pub open spec fn instant_of(time: Option<(int, int)>) -> Option<int> {
    match time {
        Some(t) => Some(t.0 * SECOND + t.1),
        None => None,
    }
}

/// What an optional instant stands for.
pub open spec fn expiry_view(expires: Option<i128>) -> Option<int> {
    match expires {
        Some(t) => Some(t as int),
        None => None,
    }
}

/// The instant of a time given in seconds and nanoseconds.
pub fn instant_from(time: Option<(i64, u32)>) -> (instant: Option<i128>)
    ensures
        expiry_view(instant) == instant_of(time_view(time)),
{
    match time {
        Some(t) => Some(t.0 as i128 * SECOND + t.1 as i128),
        None => None,
    }
}

/// The instant that an `Expires` header names, if it can be read.
pub open spec fn expiry_of(header: Option<Seq<char>>) -> Option<int> {
    match header {
        Some(text) => instant_of(rfc2822_time(text)),
        None => None,
    }
}

pub fn parse_expires(header: &Option<String>) -> (expires: Option<i128>)
    ensures
        expiry_view(expires) == expiry_of(header_view(*header)),
{
    match header {
        Some(text) => instant_from(parse_rfc2822(text.as_str())),
        None => None,
    }
}

/// What an optional header says.
pub open spec fn header_view(header: Option<String>) -> Option<Seq<char>> {
    match header {
        Some(text) => Some(text@),
        None => None,
    }
}

// ---- Lookup ----

/// What a lookup calls for.
#[derive(Debug, PartialEq, Eq)]
pub enum Lookup {
    /// Serve the stored body without touching the network.
    Serve(String),
    /// Ask upstream, with `If-Modified-Since` where there is a value for it.
    Ask { if_modified_since: Option<String> },
}

/// The entry may still be served at `now`.
pub open spec fn is_fresh(entry: CacheEntry, now: int) -> bool {
    entry.expires matches Some(e) && now < e
}

/// `next` is what a lookup calls for at `now`, given what is stored.
pub open spec fn is_lookup(next: Lookup, cached: Option<CacheEntry>, now: int) -> bool {
    match cached {
        Some(entry) => if is_fresh(entry, now) {
            next matches Lookup::Serve(body) && body@ == entry.body@
        } else {
            next matches Lookup::Ask { if_modified_since } && header_view(if_modified_since)
                == header_view(entry.last_modified)
        },
        None => next matches Lookup::Ask { if_modified_since } && if_modified_since is None,
    }
}

/// Decide between serving what is stored and asking upstream.
pub fn lookup(cached: &Option<CacheEntry>, now: i128) -> (next: Lookup)
    ensures
        is_lookup(next, *cached, now as int),
{
    match cached {
        Some(entry) => {
            match entry.expires {
                Some(e) => {
                    if now < e {
                        return Lookup::Serve(entry.body.clone());
                    }
                },
                None => {},
            }
            let if_modified_since = match &entry.last_modified {
                Some(text) => Some(text.clone()),
                None => None,
            };
            Lookup::Ask { if_modified_since }
        },
        None => Lookup::Ask { if_modified_since: None },
    }
}

// ---- Response ----

/// What the cache reads of a response. Headers that are not text count as
/// missing.
#[derive(Debug, PartialEq, Eq)]
pub struct Response {
    pub status: u16,
    pub last_modified: Option<String>,
    pub expires: Option<String>,
    /// Nothing where the body could not be read.
    pub body: Option<String>,
}

/// What to store and what to hand out.
#[derive(Debug, PartialEq, Eq)]
pub struct Settled {
    pub entry: CacheEntry,
    pub outcome: CacheOutcome,
}

pub open spec fn is_success(status: u16) -> bool {
    200 <= status <= 299
}

/// `304` keeps the body and takes expiry and, where it is echoed,
/// `Last-Modified` from the response; a success is stored as it came; anything
/// else is an error and stores nothing.
pub open spec fn is_settled(
    result: Result<Settled, ClientError>,
    cached: Option<CacheEntry>,
    response: Response,
) -> bool {
    if response.status == 304 {
        result matches Ok(s) && s.outcome == CacheOutcome::Revalidated && s.entry.body@
            == cached->0.body@ && expiry_view(s.entry.expires) == expiry_of(
            header_view(response.expires),
        ) && header_view(s.entry.last_modified) == (if response.last_modified is Some {
            header_view(response.last_modified)
        } else {
            header_view(cached->0.last_modified)
        })
    } else if !is_success(response.status) {
        result matches Err(ClientError::Http { status, body }) && status == response.status && body
            == response.body
    } else {
        result matches Ok(s) && s.outcome == CacheOutcome::Refreshed && s.entry.body@
            == response.body->0@ && expiry_view(s.entry.expires) == expiry_of(
            header_view(response.expires),
        ) && header_view(s.entry.last_modified) == header_view(response.last_modified)
    }
}

/// Decide what a response means for the cache. A `304` answers a revalidation,
/// so there is a stored entry then; the body of a success has been read.
pub fn settle(cached: Option<CacheEntry>, response: Response) -> (result: Result<
    Settled,
    ClientError,
>)
    requires
        response.status == 304 ==> cached is Some,
        is_success(response.status) ==> response.body is Some,
    ensures
        is_settled(result, cached, response),
{
    let expires = parse_expires(&response.expires);
    if response.status == 304 {
        let entry = cached.unwrap();
        let last_modified = match response.last_modified {
            Some(text) => Some(text),
            None => entry.last_modified,
        };
        return Ok(
            Settled {
                entry: CacheEntry { last_modified, expires, body: entry.body },
                outcome: CacheOutcome::Revalidated,
            },
        );
    }
    if response.status < 200 || response.status > 299 {
        return Err(ClientError::Http { status: response.status, body: response.body });
    }
    Ok(
        Settled {
            entry: CacheEntry {
                last_modified: response.last_modified,
                expires,
                body: response.body.unwrap(),
            },
            outcome: CacheOutcome::Refreshed,
        },
    )
}

} // verus!
