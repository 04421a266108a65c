//! The decisions taken for one request, from its arrival to its answer. The
//! caller performs each step's outside work (reading and writing the store,
//! asking the origin) and hands the result to the next step.
//!
//! Arrival goes through [`Proxy::receive`] (the host gate and the cache key),
//! the store's answer through [`Proxy::on_lookup`] (serve or forward), the
//! origin's answer through [`Proxy::on_fetched`] (what to store and serve).
//! Nothing is kept between requests but what the store holds.

use vstd::prelude::*;

use crate::codec::{
    decode_entry, encode_entry, entry_enc, entry_fits, lemma_entry_round_trip, parse_entry,
};
use crate::freshness::{entry_view, evaluate, freshness_of, Freshness};
use crate::gate::{host_admitted, hostname_of};
use crate::key::{cache_key, key_of};
use crate::origin::{age_zero, origin_uri_of, outbound_request};
use crate::snapshot::{
    headers_view, CacheEntry, EntryModel, RequestModel, RequestSnapshot, ResponseModel,
    ResponseSnapshot,
};

verus! {

/// Where the proxy takes requests from and where it sends them.
pub struct Proxy {
    /// The front-door host name that requests must be addressed to.
    pub front_domain: Vec<u8>,
    /// The upstream `host:port` that answers in the cache's place.
    pub origin_authority: Vec<u8>,
}

/// Why a request was not answered.
pub enum ProxyError {
    /// The request's host is not the front-door domain.
    ForbiddenHost,
    /// The origin could not be reached or did not answer properly.
    OriginUnavailable { cause: String },
}

/// An admitted request, waiting for what the store holds under its key.
pub struct Lookup {
    pub key: Vec<u8>,
    pub request: RequestSnapshot,
}

/// A request that the origin must answer.
pub struct Fetch {
    /// The key to store the answer under.
    pub key: Vec<u8>,
    /// The request as it arrived, to be stored with the answer.
    pub request: RequestSnapshot,
    /// The request to send to the origin.
    pub outbound: RequestSnapshot,
    /// How the stored exchange stood, if there was one.
    pub freshness: Freshness,
}

/// What to do once the store has answered.
pub enum Decision {
    /// Serve this stored response; the origin is not asked.
    Serve(ResponseSnapshot),
    /// Ask the origin.
    Forward(Fetch),
}

/// An answer from the origin: to be written to the store and served.
pub struct Store {
    pub key: Vec<u8>,
    /// The stored form of the new entry.
    pub bytes: Vec<u8>,
    /// The response to serve, whether or not the write succeeds.
    pub response: ResponseSnapshot,
}

/// The entry that the store's answer holds: none where nothing was stored
/// or the stored bytes do not read as an entry.
pub open spec fn stored_entry(stored: Option<Seq<u8>>) -> Option<EntryModel> {
    match stored {
        Some(b) => parse_entry(b),
        None => None,
    }
}

/// The response that the store's answer lets the proxy serve at `now`, if
/// any.
pub open spec fn cached_answer(stored: Option<Seq<u8>>, now: u64) -> Option<
    ResponseModel,
> {
    match stored_entry(stored) {
        Some(e) => if freshness_of(Some(e), now) == Freshness::Fresh {
            Some(e.response)
        } else {
            None
        },
        None => None,
    }
}

pub open spec fn bytes_view(b: Option<Vec<u8>>) -> Option<Seq<u8>> {
    match b {
        Some(v) => Some(v@),
        None => None,
    }
}

/// `f` forwards `request`, stored under `key`, to the origin at `authority`.
pub open spec fn forwards(f: Fetch, authority: Seq<u8>, key: Seq<u8>, request: RequestModel) -> bool {
    &&& f.key@ == key
    &&& f.request@ == request
    &&& f.outbound.method@ == request.method
    &&& f.outbound.uri@ == origin_uri_of(authority, request.uri)
    &&& f.outbound.version == request.version
    &&& headers_view(f.outbound.headers@) == request.headers.push(age_zero())
    &&& f.outbound.body@ == request.body
}

impl Proxy {
    /// Lets a request in when its Host value names the front-door domain
    /// (any port), and derives its cache key; any other host is refused
    /// before the store or the origin is involved.
    pub fn receive(&self, host: &[u8], request: RequestSnapshot) -> (r: Result<Lookup, ProxyError>)
        ensures
            hostname_of(host@) == self.front_domain@ ==> (r matches Ok(l) && l.key@ == key_of(
                request.method@,
                request.uri@,
            ) && l.request@ == request@),
            hostname_of(host@) != self.front_domain@ ==> r matches Err(ProxyError::ForbiddenHost),
    {
        if host_admitted(self.front_domain.as_slice(), host) {
            let key = cache_key(&request);
            Ok(Lookup { key, request })
        } else {
            Err(ProxyError::ForbiddenHost)
        }
    }

    /// Serves the stored response when `freshness` says it is fresh, and
    /// otherwise forwards the request to the origin.
    pub fn after_judgement(&self, lookup: Lookup, stored: Option<CacheEntry>, freshness: Freshness) -> (r:
        Decision)
        ensures
            freshness == Freshness::Fresh && stored is Some ==> (r matches Decision::Serve(p)
                && p@ == stored->Some_0.response@),
            !(freshness == Freshness::Fresh && stored is Some) ==> (r matches Decision::Forward(f)
                && forwards(f, self.origin_authority@, lookup.key@, lookup.request@)
                && f.freshness == freshness),
    {
        match stored {
            Some(e) => {
                if matches!(freshness, Freshness::Fresh) {
                    return Decision::Serve(e.response);
                }
            },
            None => {},
        }
        let outbound = outbound_request(self.origin_authority.as_slice(), &lookup.request);
        Decision::Forward(Fetch { key: lookup.key, request: lookup.request, outbound, freshness })
    }

    /// Decides on the store's answer for an admitted request at `now`
    /// (seconds since the Unix epoch): the stored response when the stored
    /// entry reads back and is fresh for the request; otherwise, with nothing
    /// stored, unreadable bytes or a stale entry, a forward to the origin.
    pub fn on_lookup(&self, lookup: Lookup, stored: Option<Vec<u8>>, now: u64) -> (r: Decision)
        ensures
            r matches Decision::Serve(p) ==> cached_answer(bytes_view(stored), now)
                == Some(p@),
            r matches Decision::Forward(f) ==> cached_answer(bytes_view(stored), now) is None && forwards(f, self.origin_authority@, lookup.key@, lookup.request@)
                && f.freshness == freshness_of(stored_entry(bytes_view(stored)), now),
    {
        let entry = match &stored {
            Some(b) => decode_entry(b.as_slice()),
            None => None,
        };
        assert(entry_view(entry) == stored_entry(bytes_view(stored)));
        let freshness = evaluate(&entry, now);
        self.after_judgement(lookup, entry, freshness)
    }

    /// Turns the origin's answer, received at `at` (seconds since the Unix
    /// epoch), into what to store and serve: the entry of the request as it
    /// arrived, the response and `at`, under the request's key. A failure
    /// to reach the origin ends the request with `OriginUnavailable`.
    pub fn on_fetched(fetch: Fetch, outcome: Result<ResponseSnapshot, String>, at: u64) -> (r:
        Result<Store, ProxyError>)
        ensures
            outcome is Ok ==> (r matches Ok(s) && s.key@ == fetch.key@ && s.response@
                == outcome->Ok_0@ && s.bytes@ == entry_enc(
                (EntryModel { request: fetch.request@, response: outcome->Ok_0@, cached_at: at }),
            )),
            outcome is Err ==> (r matches Err(ProxyError::OriginUnavailable { cause }) && cause
                == outcome->Err_0),
    {
        match outcome {
            Ok(response) => {
                let served = response.duplicate();
                let entry = CacheEntry { request: fetch.request, response, cached_at: at };
                let bytes = encode_entry(&entry);
                Ok(Store { key: fetch.key, bytes, response: served })
            },
            Err(cause) => Err(ProxyError::OriginUnavailable { cause }),
        }
    }
}

/// What a fetch stores answers a later request for the same key from the
/// cache exactly when the stored exchange is fresh: then the origin is not
/// asked again and the response served is the one the origin gave;
/// otherwise the later request goes to the origin.
pub proof fn lemma_stored_answer_served(
    request: RequestModel,
    response: ResponseModel,
    at: u64,
    now: u64,
)
    requires
        entry_fits((EntryModel { request, response, cached_at: at })),
    ensures
        ({
            let e = EntryModel { request, response, cached_at: at };
            &&& freshness_of(Some(e), now) == Freshness::Fresh ==> cached_answer(Some(entry_enc(e)), now) == Some(response)
            &&& freshness_of(Some(e), now) != Freshness::Fresh ==> cached_answer(Some(entry_enc(e)), now) is None
        }),
{
    lemma_entry_round_trip(EntryModel { request, response, cached_at: at });
}

} // verus!
