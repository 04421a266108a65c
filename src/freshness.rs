//! Freshness of a stored exchange at a given time, judged by the HTTP
//! caching rules of the `http-cache-semantics` crate.

use vstd::prelude::*;

use std::time::{Duration, UNIX_EPOCH};

use http::{Request, Response};
use http_cache_semantics::CachePolicy;

use crate::bytes::{bytes_equal_ignoring_case, equal_ignoring_case};
use crate::codec::HeaderLine;
use crate::snapshot::{headers_view, CacheEntry, EntryModel, Header};

verus! {

/// How a stored exchange stands when a request for its key arrives.
#[derive(Clone, Copy, Debug, PartialEq, Eq, Structural)]
pub enum Freshness {
    /// The stored response may be served as it is.
    Fresh,
    /// The stored response must not be served without asking the origin;
    /// `revalidatable` tells whether it carries a validator on which a
    /// conditional request could be based.
    Stale { revalidatable: bool },
    /// Nothing is stored for the request's key.
    Absent,
}

/// Whether the caching rules hold the stored response stale at `now`
/// (seconds since the Unix epoch): its freshness lifetime (from `max-age`,
/// from `Expires` less `Date`, or heuristically) is no longer than its age
/// (the `Age` it arrived with plus the time since `cached_at`). `None` where
/// the stored exchange cannot be put in the rules' terms (an invalid method,
/// URI, status or header line).
pub uninterp spec fn policy_stale(stored: EntryModel, now: u64) -> Option<bool>;

/// The last second of the year 9999: the latest time handed to the rules,
/// which keeps the time spent in the cache far below a `u64` of seconds.
pub const LATEST_TIME: u64 = 253402300799;

/// "age"
pub open spec fn is_age_name(n: Seq<u8>) -> bool {
    equal_ignoring_case(n, seq![0x61u8, 0x67, 0x65])
}

/// Every `Age` line holds at most 18 bytes, so that the age it gives plus
/// the time spent in the cache stays within a `u64` count of seconds.
pub open spec fn ages_bounded(hs: Seq<HeaderLine>) -> bool {
    forall|i: int| 0 <= i < hs.len() && #[trigger] is_age_name(hs[i].0) ==> hs[i].1.len() <= 18
}

/// The rules can be consulted on `stored` at `now`.
pub open spec fn policy_applies(stored: EntryModel, now: u64) -> bool {
    &&& now <= LATEST_TIME
    &&& stored.cached_at <= LATEST_TIME
    &&& ages_bounded(stored.response.headers)
}

/// Relies on http_cache_semantics::CachePolicy::new_options, with default
/// options (a shared cache), built from the stored request, response and
/// arrival time, and on CachePolicy::is_stale at `now`. `is_stale` panics on
/// an `Age` value that overflows once the resident time is added.
#[verifier::external_body]
fn policy_is_stale(stored: &CacheEntry, now: u64) -> (r: Option<bool>)
    requires
        policy_applies(stored@, now),
    ensures
        r == policy_stale(stored@, now),
{
    let q = &stored.request;
    let req = q.headers.iter().fold(Request::builder().method(&*q.method).uri(&*q.uri), |b, h| b.header(&*h.name, &*h.value));
    let res = stored.response.headers.iter().fold(Response::builder().status(stored.response.status), |b, h| b.header(&*h.name, &*h.value));
    let at = |s| UNIX_EPOCH + Duration::from_secs(s);
    let policy = CachePolicy::new_options(&req.body(()).ok()?, &res.body(()).ok()?, at(stored.cached_at), Default::default());
    Some(policy.is_stale(at(now)))
}

/// Whether every `Age` line of `hs` holds at most 18 bytes.
pub fn ages_are_bounded(hs: &Vec<Header>) -> (r: bool)
    ensures
        r == ages_bounded(headers_view(hs@)),
{
    let age: [u8; 3] = [0x61, 0x67, 0x65];
    assert(age@ == seq![0x61u8, 0x67, 0x65]);
    let mut i: usize = 0;
    while i < hs.len()
        invariant
            i <= hs.len(),
            age@ == seq![0x61u8, 0x67, 0x65],
            forall|j: int|
                0 <= j < i && #[trigger] is_age_name(headers_view(hs@)[j].0) ==> headers_view(
                    hs@,
                )[j].1.len() <= 18,
        decreases hs.len() - i,
    {
        if bytes_equal_ignoring_case(&hs[i].name, age.as_slice()) && hs[i].value.len() > 18 {
            assert(headers_view(hs@)[i as int] == hs@[i as int]@);
            assert(is_age_name(headers_view(hs@)[i as int].0));
            assert(headers_view(hs@).len() == hs@.len());
            return false;
        }
        assert(headers_view(hs@)[i as int] == hs@[i as int]@);
        i = i + 1;
    }
    true
}

/// "etag" or "last-modified"
pub open spec fn is_validator_name(n: Seq<u8>) -> bool {
    ||| equal_ignoring_case(n, seq![0x65u8, 0x74, 0x61, 0x67])
    ||| equal_ignoring_case(
        n,
        seq![0x6cu8, 0x61, 0x73, 0x74, 0x2d, 0x6d, 0x6f, 0x64, 0x69, 0x66, 0x69, 0x65, 0x64],
    )
}

/// The headers carry a validator (an `ETag` or a `Last-Modified` line), on
/// which a conditional request to the origin could be based.
pub open spec fn has_validator(hs: Seq<HeaderLine>) -> bool {
    exists|i: int| 0 <= i < hs.len() && #[trigger] is_validator_name(hs[i].0)
}

/// Whether the headers carry an `ETag` or a `Last-Modified` line.
pub fn carries_validator(hs: &Vec<Header>) -> (r: bool)
    ensures
        r == has_validator(headers_view(hs@)),
{
    let etag: [u8; 4] = [0x65, 0x74, 0x61, 0x67];
    let modified: [u8; 13] = [0x6c, 0x61, 0x73, 0x74, 0x2d, 0x6d, 0x6f, 0x64, 0x69, 0x66, 0x69, 0x65, 0x64];
    assert(etag@ == seq![0x65u8, 0x74, 0x61, 0x67]);
    assert(modified@ == seq![0x6cu8, 0x61, 0x73, 0x74, 0x2d, 0x6d, 0x6f, 0x64, 0x69, 0x66, 0x69, 0x65, 0x64]);
    let mut i: usize = 0;
    while i < hs.len()
        invariant
            i <= hs.len(),
            etag@ == seq![0x65u8, 0x74, 0x61, 0x67],
            modified@ == seq![0x6cu8, 0x61, 0x73, 0x74, 0x2d, 0x6d, 0x6f, 0x64, 0x69, 0x66, 0x69, 0x65, 0x64],
            forall|j: int| 0 <= j < i ==> !#[trigger] is_validator_name(headers_view(hs@)[j].0),
        decreases hs.len() - i,
    {
        assert(headers_view(hs@)[i as int] == hs@[i as int]@);
        if bytes_equal_ignoring_case(&hs[i].name, etag.as_slice()) || bytes_equal_ignoring_case(
            &hs[i].name,
            modified.as_slice(),
        ) {
            assert(is_validator_name(headers_view(hs@)[i as int].0));
            return true;
        }
        i = i + 1;
    }
    false
}

/// How the stored exchange (if any) stands at `now`: absent, fresh while
/// the caching rules do not hold it stale, and otherwise stale, with a
/// conditional request possible when the stored response carries a
/// validator. Where the rules cannot be consulted or cannot read the
/// exchange, it counts as stale, so that the origin is asked.
pub open spec fn freshness_of(stored: Option<EntryModel>, now: u64) -> Freshness {
    match stored {
        None => Freshness::Absent,
        Some(e) => if policy_applies(e, now) && policy_stale(e, now) == Some(false) {
            Freshness::Fresh
        } else {
            Freshness::Stale { revalidatable: has_validator(e.response.headers) }
        },
    }
}

pub open spec fn entry_view(stored: Option<CacheEntry>) -> Option<EntryModel> {
    match stored {
        Some(e) => Some(e@),
        None => None,
    }
}

/// How the stored exchange (if any) stands at `now`.
pub fn evaluate(stored: &Option<CacheEntry>, now: u64) -> (r: Freshness)
    ensures
        r == freshness_of(entry_view(*stored), now),
{
    match stored {
        None => Freshness::Absent,
        Some(e) => {
            let applies = now <= LATEST_TIME && e.cached_at <= LATEST_TIME && ages_are_bounded(
                &e.response.headers,
            );
            if applies {
                if let Some(false) = policy_is_stale(e, now) {
                    return Freshness::Fresh;
                }
            }
            Freshness::Stale { revalidatable: carries_validator(&e.response.headers) }
        },
    }
}

} // verus!
