use std::collections::HashMap;

use delivrs::codec::{decode_entry, encode_entry};
use delivrs::flight::InFlight;
use delivrs::freshness::{evaluate, Freshness};
use delivrs::gate::hostname;
use delivrs::key::cache_key;
use delivrs::origin::{origin_uri, outbound_request, path_and_query};
use delivrs::proxy::{Decision, Fetch, Lookup, Proxy, ProxyError};
use delivrs::snapshot::{CacheEntry, Header, HttpVersion, RequestSnapshot, ResponseSnapshot};

const T0: u64 = 1_700_000_000;

fn header(name: &str, value: &str) -> Header {
    Header { name: name.as_bytes().to_vec(), value: value.as_bytes().to_vec() }
}

fn request(method: &str, uri: &str) -> RequestSnapshot {
    RequestSnapshot {
        method: method.as_bytes().to_vec(),
        uri: uri.as_bytes().to_vec(),
        version: HttpVersion::Http11,
        headers: vec![header("accept", "*/*")],
        body: Vec::new(),
    }
}

fn response(body: &str, cache_control: &str) -> ResponseSnapshot {
    ResponseSnapshot {
        status: 200,
        version: HttpVersion::Http11,
        headers: vec![header("cache-control", cache_control), header("content-type", "text/html")],
        body: body.as_bytes().to_vec(),
    }
}

fn proxy() -> Proxy {
    Proxy {
        front_domain: b"slow.delivrs.test".to_vec(),
        origin_authority: b"localhost:8080".to_vec(),
    }
}

/// An in-memory store and an origin that counts its calls, driven through
/// the proxy's steps as the server would.
struct Harness {
    proxy: Proxy,
    store: HashMap<Vec<u8>, Vec<u8>>,
    gets: usize,
    puts: usize,
    forwards: usize,
    origin_body: String,
}

impl Harness {
    fn new() -> Harness {
        Harness {
            proxy: proxy(),
            store: HashMap::new(),
            gets: 0,
            puts: 0,
            forwards: 0,
            origin_body: "from origin".to_string(),
        }
    }

    fn origin(&mut self, outbound: &RequestSnapshot) -> ResponseSnapshot {
        self.forwards += 1;
        assert!(outbound.uri.starts_with(b"http://localhost:8080/"));
        response(&self.origin_body, "max-age=60")
    }

    fn handle(&mut self, host: &str, req: RequestSnapshot, now: u64) -> Result<ResponseSnapshot, ProxyError> {
        let lookup = self.proxy.receive(host.as_bytes(), req)?;
        self.gets += 1;
        let stored = self.store.get(&lookup.key).cloned();
        match self.proxy.on_lookup(lookup, stored, now) {
            Decision::Serve(resp) => Ok(resp),
            Decision::Forward(fetch) => {
                let answer = self.origin(&fetch.outbound);
                let store = Proxy::on_fetched(fetch, Ok(answer), now)?;
                self.puts += 1;
                self.store.insert(store.key, store.bytes);
                Ok(store.response)
            }
        }
    }
}

#[test]
fn fresh_within_max_age_and_stale_after() {
    let entry = CacheEntry {
        request: request("GET", "/resource"),
        response: response("body", "max-age=60"),
        cached_at: T0,
    };
    let stored = Some(entry);
    assert_eq!(evaluate(&stored, T0 + 30), Freshness::Fresh);
    assert_eq!(evaluate(&stored, T0 + 61), Freshness::Stale { revalidatable: false });
}

#[test]
fn stale_entry_with_validator_is_revalidatable() {
    let mut resp = response("body", "max-age=60");
    resp.headers.push(header("ETag", "\"v1\""));
    let entry = CacheEntry { request: request("GET", "/resource"), response: resp, cached_at: T0 };
    let stored = Some(entry);
    assert_eq!(evaluate(&stored, T0 + 59), Freshness::Fresh);
    assert_eq!(evaluate(&stored, T0 + 60), Freshness::Stale { revalidatable: true });
}

#[test]
fn expires_without_max_age_gives_lifetime() {
    let resp = ResponseSnapshot {
        status: 200,
        version: HttpVersion::Http11,
        headers: vec![
            header("date", "Tue, 14 Nov 2023 22:13:20 GMT"),
            header("expires", "Tue, 14 Nov 2023 22:15:20 GMT"),
            header("last-modified", "Mon, 13 Nov 2023 22:13:20 GMT"),
        ],
        body: vec![],
    };
    let entry = CacheEntry { request: request("GET", "/resource"), response: resp, cached_at: T0 };
    let stored = Some(entry);
    assert_eq!(evaluate(&stored, T0 + 100), Freshness::Fresh);
    assert_eq!(evaluate(&stored, T0 + 121), Freshness::Stale { revalidatable: true });
}

#[test]
fn nothing_stored_is_absent() {
    assert_eq!(evaluate(&None, T0), Freshness::Absent);
}

#[test]
fn no_freshness_information_is_stale() {
    let entry = CacheEntry {
        request: request("GET", "/resource"),
        response: ResponseSnapshot {
            status: 200,
            version: HttpVersion::Http11,
            headers: vec![],
            body: vec![],
        },
        cached_at: T0,
    };
    assert_eq!(evaluate(&Some(entry), T0), Freshness::Stale { revalidatable: false });
}

#[test]
fn overlong_age_header_is_stale_without_consulting_rules() {
    let mut resp = response("body", "max-age=60");
    resp.headers.push(header("Age", "1234567890123456789"));
    let entry = CacheEntry { request: request("GET", "/resource"), response: resp, cached_at: T0 };
    assert_eq!(evaluate(&Some(entry), T0 + 1), Freshness::Stale { revalidatable: false });
}

#[test]
fn prior_age_counts_toward_staleness() {
    let mut resp = response("body", "max-age=60");
    resp.headers.push(header("age", "50"));
    let entry = CacheEntry { request: request("GET", "/resource"), response: resp, cached_at: T0 };
    let stored = Some(entry);
    assert_eq!(evaluate(&stored, T0 + 5), Freshness::Fresh);
    assert_eq!(evaluate(&stored, T0 + 11), Freshness::Stale { revalidatable: false });
}

#[test]
fn other_host_is_forbidden_and_origin_untouched() {
    let mut h = Harness::new();
    let r = h.handle("evil.test", request("GET", "/resource"), T0);
    assert!(matches!(r, Err(ProxyError::ForbiddenHost)));
    assert_eq!(h.forwards, 0);
    assert_eq!(h.gets, 0);
    let r = h.handle("slow.delivrs.test.evil:80", request("GET", "/resource"), T0);
    assert!(matches!(r, Err(ProxyError::ForbiddenHost)));
    assert_eq!(h.forwards, 0);
}

#[test]
fn front_domain_with_port_is_received() {
    let p = proxy();
    let lookup = p.receive(b"slow.delivrs.test:3000", request("GET", "/a")).ok().unwrap();
    assert_eq!(lookup.key, b"GET@/a".to_vec());
}

#[test]
fn hostname_strips_port() {
    assert_eq!(hostname(b"slow.delivrs.test:3000"), b"slow.delivrs.test");
    assert_eq!(hostname(b"slow.delivrs.test"), b"slow.delivrs.test");
    assert_eq!(hostname(b":80"), b"");
}

#[test]
fn two_identical_requests_reach_origin_once() {
    let mut h = Harness::new();
    let first = h.handle("slow.delivrs.test", request("GET", "/resource"), T0).ok().unwrap();
    let second = h.handle("slow.delivrs.test", request("GET", "/resource"), T0 + 10).ok().unwrap();
    assert_eq!(h.forwards, 1);
    assert_eq!(first.status, second.status);
    assert_eq!(first.body, second.body);
    assert_eq!(first.headers.len(), second.headers.len());
    for (a, b) in first.headers.iter().zip(second.headers.iter()) {
        assert_eq!(a.name, b.name);
        assert_eq!(a.value, b.value);
    }
}

#[test]
fn miss_then_hit() {
    let mut h = Harness::new();
    let first = h.handle("slow.delivrs.test", request("GET", "/a?x=1"), T0).ok().unwrap();
    assert_eq!((h.gets, h.forwards, h.puts), (1, 1, 1));
    assert_eq!(first.body, b"from origin".to_vec());
    let stored = decode_entry(&h.store[&b"GET@/a?x=1".to_vec()]).unwrap();
    assert_eq!(stored.cached_at, T0);
    assert_eq!(stored.request.uri, b"/a?x=1".to_vec());

    h.origin_body = "changed".to_string();
    let second = h.handle("slow.delivrs.test", request("GET", "/a?x=1"), T0 + 20).ok().unwrap();
    assert_eq!((h.gets, h.forwards, h.puts), (2, 1, 1));
    assert_eq!(second.body, b"from origin".to_vec());
}

#[test]
fn stale_entry_is_fetched_again_and_replaced() {
    let mut h = Harness::new();
    h.handle("slow.delivrs.test", request("GET", "/a"), T0).ok().unwrap();
    h.origin_body = "newer".to_string();
    let again = h.handle("slow.delivrs.test", request("GET", "/a"), T0 + 61).ok().unwrap();
    assert_eq!(h.forwards, 2);
    assert_eq!(again.body, b"newer".to_vec());
    let stored = decode_entry(&h.store[&b"GET@/a".to_vec()]).unwrap();
    assert_eq!(stored.cached_at, T0 + 61);
    assert_eq!(stored.response.body, b"newer".to_vec());
}

#[test]
fn different_paths_and_methods_do_not_share_entries() {
    let mut h = Harness::new();
    h.handle("slow.delivrs.test", request("GET", "/a"), T0).ok().unwrap();
    h.handle("slow.delivrs.test", request("GET", "/b"), T0 + 1).ok().unwrap();
    assert_eq!(h.forwards, 2);
    let ka = cache_key(&request("GET", "/a"));
    let kb = cache_key(&request("GET", "/b"));
    let kp = cache_key(&request("POST", "/a"));
    assert_ne!(ka, kb);
    assert_ne!(ka, kp);
    assert_eq!(ka, b"GET@/a".to_vec());
    assert_eq!(kp, b"POST@/a".to_vec());
    assert!(h.store.contains_key(&ka));
    assert!(h.store.contains_key(&kb));
}

#[test]
fn concurrent_first_requests_each_reach_origin() {
    // Without per-key coordination, every request that looks before the
    // first answer is stored finds nothing and goes to the origin.
    let p = proxy();
    let n = 4;
    let mut lookups: Vec<Lookup> = Vec::new();
    for _ in 0..n {
        lookups.push(p.receive(b"slow.delivrs.test", request("GET", "/same")).ok().unwrap());
    }
    let mut fetches: Vec<Fetch> = Vec::new();
    for l in lookups {
        match p.on_lookup(l, None, T0) {
            Decision::Forward(f) => fetches.push(f),
            Decision::Serve(_) => panic!("nothing was stored"),
        }
    }
    assert_eq!(fetches.len(), n);
    let mut store: HashMap<Vec<u8>, Vec<u8>> = HashMap::new();
    for f in fetches {
        assert_eq!(f.freshness, Freshness::Absent);
        let s = Proxy::on_fetched(f, Ok(response("x", "max-age=60")), T0).ok().unwrap();
        store.insert(s.key, s.bytes);
    }
    assert_eq!(store.len(), 1);
}

#[test]
fn unreachable_origin_is_reported() {
    let p = proxy();
    let l = p.receive(b"slow.delivrs.test", request("GET", "/a")).ok().unwrap();
    let f = match p.on_lookup(l, None, T0) {
        Decision::Forward(f) => f,
        Decision::Serve(_) => panic!("nothing was stored"),
    };
    match Proxy::on_fetched(f, Err("connection refused".to_string()), T0) {
        Err(ProxyError::OriginUnavailable { cause }) => assert_eq!(cause, "connection refused"),
        _ => panic!("expected OriginUnavailable"),
    }
}

#[test]
fn corrupt_entry_counts_as_a_miss() {
    let p = proxy();
    let l = p.receive(b"slow.delivrs.test", request("GET", "/a")).ok().unwrap();
    match p.on_lookup(l, Some(vec![0xff, 0xff, 0xff]), T0) {
        Decision::Forward(f) => assert_eq!(f.freshness, Freshness::Absent),
        Decision::Serve(_) => panic!("corrupt bytes must not be served"),
    }
}

#[test]
fn judgement_decides_between_serving_and_forwarding() {
    let p = proxy();
    let entry = || CacheEntry {
        request: request("GET", "/a"),
        response: response("cached", "max-age=60"),
        cached_at: T0,
    };
    let lookup = || p.receive(b"slow.delivrs.test", request("GET", "/a")).ok().unwrap();
    match p.after_judgement(lookup(), Some(entry()), Freshness::Fresh) {
        Decision::Serve(r) => assert_eq!(r.body, b"cached".to_vec()),
        Decision::Forward(_) => panic!("fresh entries are served"),
    }
    let stale = Freshness::Stale { revalidatable: true };
    // the judgement given decides, whatever the entry's own headers say
    match p.after_judgement(lookup(), Some(entry()), stale) {
        Decision::Forward(f) => {
            assert_eq!(f.freshness, stale);
            assert_eq!(f.key, b"GET@/a".to_vec());
        }
        Decision::Serve(_) => panic!("stale entries are fetched again"),
    }
    match p.after_judgement(lookup(), None, Freshness::Absent) {
        Decision::Forward(f) => assert_eq!(f.outbound.uri, b"http://localhost:8080/a".to_vec()),
        Decision::Serve(_) => panic!("nothing to serve"),
    }
}

#[test]
fn fetched_answer_is_stored_with_arrival_time() {
    let p = proxy();
    let l = p.receive(b"slow.delivrs.test", request("GET", "/a")).ok().unwrap();
    let f = match p.on_lookup(l, None, T0) {
        Decision::Forward(f) => f,
        Decision::Serve(_) => panic!("nothing was stored"),
    };
    let s = Proxy::on_fetched(f, Ok(response("x", "max-age=60")), T0 + 3).ok().unwrap();
    let expected = CacheEntry {
        request: request("GET", "/a"),
        response: response("x", "max-age=60"),
        cached_at: T0 + 3,
    };
    assert_eq!(s.bytes, encode_entry(&expected));
    assert_eq!(s.key, b"GET@/a".to_vec());
}

#[test]
fn path_and_query_of_targets() {
    assert_eq!(path_and_query(b"/a?x=1"), b"/a?x=1".to_vec());
    assert_eq!(path_and_query(b"http://slow.delivrs.test:3000/p/q?r=s"), b"/p/q?r=s".to_vec());
    assert_eq!(path_and_query(b"http://slow.delivrs.test?x=1"), b"/?x=1".to_vec());
    assert_eq!(path_and_query(b"http://slow.delivrs.test"), b"/".to_vec());
    assert_eq!(path_and_query(b"*"), b"/".to_vec());
}

#[test]
fn origin_uri_keeps_path_and_query() {
    assert_eq!(origin_uri(b"localhost:8080", b"/a?x=1"), b"http://localhost:8080/a?x=1".to_vec());
}

#[test]
fn outbound_request_adds_age_zero() {
    let mut req = request("PUT", "/doc?v=2");
    req.body = vec![1, 2, 3];
    let out = outbound_request(b"localhost:8080", &req);
    assert_eq!(out.method, b"PUT".to_vec());
    assert_eq!(out.uri, b"http://localhost:8080/doc?v=2".to_vec());
    assert_eq!(out.body, vec![1, 2, 3]);
    assert_eq!(out.headers.len(), 2);
    assert_eq!(out.headers[0].name, b"accept".to_vec());
    assert_eq!(out.headers[1].name, b"age".to_vec());
    assert_eq!(out.headers[1].value, b"0".to_vec());
}

#[test]
fn coordinated_first_requests_reach_origin_once() {
    // With per-key coordination, of the requests that miss together only
    // the one that claims the key first goes to the origin.
    let p = proxy();
    let mut flights = InFlight::new();
    let mut leaders = 0;
    for _ in 0..4 {
        let l = p.receive(b"slow.delivrs.test", request("GET", "/same")).ok().unwrap();
        match p.on_lookup(l, None, T0) {
            Decision::Forward(f) => {
                if flights.claim(&f.key) {
                    leaders += 1;
                }
            }
            Decision::Serve(_) => panic!("nothing was stored"),
        }
    }
    assert_eq!(leaders, 1);
    assert!(flights.contains(b"GET@/same"));
    // another key is not held up
    assert!(flights.claim(b"GET@/other"));
    flights.release(b"GET@/same");
    assert!(!flights.contains(b"GET@/same"));
    assert!(flights.contains(b"GET@/other"));
    assert!(flights.claim(b"GET@/same"));
}
