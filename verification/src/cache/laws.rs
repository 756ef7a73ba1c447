//! What holds of every use of the cache.
use vstd::prelude::*;

use crate::cache::{
    expiry_of, header_view, hex_digit, hex_text, is_lookup, is_settled, rfc2822_time, CacheEntry,
    CacheOutcome, Lookup, Response, Settled,
};
use crate::client::ClientError;

verus! {

/// What a response stored is served, without a request, to every lookup before
/// its expiry.
pub proof fn a_stored_body_is_served_until_it_expires(
    settled: Settled,
    cached: Option<CacheEntry>,
    response: Response,
    next: Lookup,
    now: int,
)
    requires
        is_settled(Ok(settled), cached, response),
        expiry_of(header_view(response.expires)) matches Some(e) && now < e,
        is_lookup(next, Some(settled.entry), now),
    ensures
        next matches Lookup::Serve(body) && body@ == settled.entry.body@,
{
}

/// From its expiry on an entry is never served without asking upstream, and
/// the request echoes the stored `Last-Modified`.
pub proof fn an_expired_entry_is_revalidated(entry: CacheEntry, next: Lookup, now: int)
    requires
        entry.expires matches Some(e) ==> now >= e,
        is_lookup(next, Some(entry), now),
    ensures
        next matches Lookup::Ask { if_modified_since } && header_view(if_modified_since)
            == header_view(entry.last_modified),
{
}

/// A `304` keeps the body that was stored.
pub proof fn a_revalidation_keeps_the_body(
    settled: Settled,
    cached: CacheEntry,
    response: Response,
)
    requires
        is_settled(Ok(settled), Some(cached), response),
        response.status == 304,
    ensures
        settled.entry.body@ == cached.body@,
        settled.outcome == CacheOutcome::Revalidated,
{
}

/// A response that is neither a success nor a `304` stores nothing.
pub proof fn an_error_stores_nothing(
    result: Result<Settled, ClientError>,
    cached: Option<CacheEntry>,
    response: Response,
)
    requires
        is_settled(result, cached, response),
        response.status != 304,
        response.status < 200 || response.status > 299,
    ensures
        result is Err,
{
}

/// Digits of different bytes differ, so different digests get different file
/// names.
pub proof fn hex_text_tells_bytes_apart(a: Seq<u8>, b: Seq<u8>)
    requires
        hex_text(a) == hex_text(b),
    ensures
        a == b,
{
    assert(hex_text(a).len() == 2 * a.len());
    assert(hex_text(b).len() == 2 * b.len());
    assert forall|i: int| 0 <= i < a.len() implies a[i] == b[i] by {
        assert(hex_text(a)[2 * i] == hex_digit(a[i] as int / 16));
        assert(hex_text(b)[2 * i] == hex_digit(b[i] as int / 16));
        assert(hex_text(a)[2 * i + 1] == hex_digit(a[i] as int % 16));
        assert(hex_text(b)[2 * i + 1] == hex_digit(b[i] as int % 16));
        lemma_hex_digit(a[i] as int / 16, b[i] as int / 16);
        lemma_hex_digit(a[i] as int % 16, b[i] as int % 16);
    }
    assert(a =~= b);
}

proof fn lemma_hex_digit(x: int, y: int)
    requires
        0 <= x < 16,
        0 <= y < 16,
        hex_digit(x) == hex_digit(y),
    ensures
        x == y,
{
}

/// An entry is served as it is before the instant that it names as its expiry,
/// and upstream is asked otherwise; without an entry the question is put without
/// a condition.
pub proof fn lookups_go_by_the_expiry(next: Lookup, cached: Option<CacheEntry>, now: int)
    requires
        is_lookup(next, cached, now),
    ensures
        cached is None ==> (next matches Lookup::Ask { if_modified_since }
            && if_modified_since is None),
        cached matches Some(entry) ==> {
            &&& entry.expires is Some && now < entry.expires->0 ==> (next matches Lookup::Serve(
                body,
            ) && body@ == entry.body@)
            &&& entry.expires is None || now >= entry.expires->0 ==> (next matches Lookup::Ask {
                if_modified_since,
            } && (if_modified_since is Some <==> entry.last_modified is Some) && (
            if_modified_since is Some ==> if_modified_since->0@ == entry.last_modified->0@))
        },
{
}

/// A success replaces what was stored: its body, its `Last-Modified` and the
/// instant that its `Expires` names.
pub proof fn a_success_is_stored_as_it_came(
    result: Result<Settled, ClientError>,
    cached: Option<CacheEntry>,
    response: Response,
)
    requires
        is_settled(result, cached, response),
        200 <= response.status <= 299,
        response.body is Some,
    ensures
        result matches Ok(s) && {
            &&& s.outcome == CacheOutcome::Refreshed
            &&& s.entry.body@ == response.body->0@
            &&& s.entry.last_modified is Some <==> response.last_modified is Some
            &&& s.entry.last_modified is Some ==> s.entry.last_modified->0@
                == response.last_modified->0@
            &&& response.expires is None ==> s.entry.expires is None
            &&& response.expires is Some ==> match rfc2822_time(response.expires->0@) {
                Some(t) => s.entry.expires is Some && s.entry.expires->0 == t.0 * 1_000_000_000
                    + t.1,
                None => s.entry.expires is None,
            }
        },
{
}

/// A `304` keeps the stored body and its `Last-Modified`, unless it brings one of
/// its own, and takes over the instant that its `Expires` names.
pub proof fn a_revalidation_renews_the_expiry(
    result: Result<Settled, ClientError>,
    cached: CacheEntry,
    response: Response,
)
    requires
        is_settled(result, Some(cached), response),
        response.status == 304,
    ensures
        result matches Ok(s) && {
            &&& s.entry.body@ == cached.body@
            &&& response.last_modified is Some ==> s.entry.last_modified is Some
                && s.entry.last_modified->0@ == response.last_modified->0@
            &&& response.last_modified is None ==> (s.entry.last_modified is Some
                <==> cached.last_modified is Some)
            &&& response.last_modified is None && cached.last_modified is Some
                ==> s.entry.last_modified->0@ == cached.last_modified->0@
            &&& response.expires is None ==> s.entry.expires is None
            &&& response.expires is Some ==> match rfc2822_time(response.expires->0@) {
                Some(t) => s.entry.expires is Some && s.entry.expires->0 == t.0 * 1_000_000_000
                    + t.1,
                None => s.entry.expires is None,
            }
        },
{
}

/// Any other response is handed on as the error that it is.
pub proof fn an_error_names_its_status(
    result: Result<Settled, ClientError>,
    cached: Option<CacheEntry>,
    response: Response,
)
    requires
        is_settled(result, cached, response),
        response.status != 304,
        response.status < 200 || response.status > 299,
    ensures
        result matches Err(ClientError::Http { status, body }) && status == response.status && body
            == response.body,
{
}

} // verus!
