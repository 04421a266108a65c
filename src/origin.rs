//! What goes to the origin: the request, retargeted at the upstream
//! authority, with an `Age: 0` header added.

use vstd::prelude::*;

use crate::bytes::append;
use crate::snapshot::{copy_bytes, copy_headers, headers_view, Header, RequestSnapshot};

verus! {

/// The index just past the first "://" in `u` at or after `i`.
pub open spec fn scheme_end(u: Seq<u8>, i: nat) -> Option<nat>
    decreases u.len() - i,
{
    if i + 3 > u.len() {
        None
    } else if u[i as int] == 0x3a && u[i + 1int] == 0x2f && u[i + 2int] == 0x2f {
        Some(i + 3)
    } else {
        scheme_end(u, i + 1)
    }
}

/// The index of the first '/' or '?' in `u` at or after `i`, or its length.
pub open spec fn path_start(u: Seq<u8>, i: nat) -> nat
    decreases u.len() - i,
{
    if i >= u.len() {
        u.len()
    } else if u[i as int] == 0x2f || u[i as int] == 0x3f {
        i
    } else {
        path_start(u, i + 1)
    }
}

/// The path and query of a request target: the target itself when it
/// starts with '/', what follows the authority of an absolute URI, and "/"
/// where there is no path.
pub open spec fn path_and_query_of(u: Seq<u8>) -> Seq<u8> {
    if u.len() > 0 && u[0] == 0x2f {
        u
    } else {
        match scheme_end(u, 0) {
            Some(a) => {
                let p = path_start(u, a);
                if p >= u.len() {
                    seq![0x2fu8]
                } else if u[p as int] == 0x3f {
                    seq![0x2fu8] + u.skip(p as int)
                } else {
                    u.skip(p as int)
                }
            },
            None => seq![0x2fu8],
        }
    }
}

/// "http://"
pub open spec fn http_prefix() -> Seq<u8> {
    seq![0x68u8, 0x74, 0x74, 0x70, 0x3a, 0x2f, 0x2f]
}

/// The URI at the origin for a request target `u`: plain HTTP to the
/// upstream `authority`, with the target's path and query.
pub open spec fn origin_uri_of(authority: Seq<u8>, u: Seq<u8>) -> Seq<u8> {
    http_prefix() + authority + path_and_query_of(u)
}

/// The header line `Age: 0`.
pub open spec fn age_zero() -> (Seq<u8>, Seq<u8>) {
    (seq![0x61u8, 0x67, 0x65], seq![0x30u8])
}

fn find_scheme_end(u: &[u8]) -> (r: Option<usize>)
    ensures
        match r {
            Some(a) => scheme_end(u@, 0) == Some(a as nat),
            None => scheme_end(u@, 0) is None,
        },
{
    let mut i: usize = 0;
    while u.len() - i >= 3
        invariant
            i <= u.len(),
            scheme_end(u@, 0) == scheme_end(u@, i as nat),
        decreases u.len() - i,
    {
        if u[i] == 0x3a && u[i + 1] == 0x2f && u[i + 2] == 0x2f {
            return Some(i + 3);
        }
        i = i + 1;
    }
    None
}

fn find_path_start(u: &[u8], from: usize) -> (r: usize)
    requires
        from <= u.len(),
    ensures
        r as nat == path_start(u@, from as nat),
        r <= u.len(),
{
    let mut i: usize = from;
    while i < u.len() && u[i] != 0x2f && u[i] != 0x3f
        invariant
            from <= i <= u.len(),
            path_start(u@, from as nat) == path_start(u@, i as nat),
        decreases u.len() - i,
    {
        i = i + 1;
    }
    i
}

/// The path and query of the request target `u`.
pub fn path_and_query(u: &[u8]) -> (r: Vec<u8>)
    ensures
        r@ == path_and_query_of(u@),
{
    if u.len() > 0 && u[0] == 0x2f {
        return copy_bytes(u);
    }
    match find_scheme_end(u) {
        None => vec![0x2f],
        Some(a) => {
            proof {
                lemma_scheme_end_bound(u@, 0);
            }
            let p = find_path_start(u, a);
            if p >= u.len() {
                vec![0x2f]
            } else {
                let (_, tail) = u.split_at(p);
                let mut r: Vec<u8> = Vec::new();
                if u[p] == 0x3f {
                    r.push(0x2f);
                }
                append(&mut r, tail);
                assert(r@ =~= path_and_query_of(u@));
                r
            }
        },
    }
}

proof fn lemma_scheme_end_bound(u: Seq<u8>, i: nat)
    ensures
        scheme_end(u, i) matches Some(a) ==> a <= u.len(),
    decreases u.len() - i,
{
    if i + 3 <= u.len() && !(u[i as int] == 0x3a && u[i + 1int] == 0x2f && u[i + 2int] == 0x2f) {
        lemma_scheme_end_bound(u, i + 1);
    }
}

/// The URI at the origin for the request target `u`.
pub fn origin_uri(authority: &[u8], u: &[u8]) -> (r: Vec<u8>)
    ensures
        r@ == origin_uri_of(authority@, u@),
{
    let mut r: Vec<u8> = vec![0x68, 0x74, 0x74, 0x70, 0x3a, 0x2f, 0x2f];
    assert(r@ =~= http_prefix());
    append(&mut r, authority);
    let pq = path_and_query(u);
    append(&mut r, pq.as_slice());
    r
}

/// The request as sent to the origin at `authority`: same method, version
/// and body, the URI at the origin, and the same header lines followed by
/// `Age: 0`.
pub fn outbound_request(authority: &[u8], request: &RequestSnapshot) -> (r: RequestSnapshot)
    ensures
        r.method@ == request.method@,
        r.uri@ == origin_uri_of(authority@, request.uri@),
        r.version == request.version,
        headers_view(r.headers@) == headers_view(request.headers@).push(age_zero()),
        r.body@ == request.body@,
{
    let mut headers = copy_headers(&request.headers);
    let ghost before = headers@;
    let age = Header { name: vec![0x61, 0x67, 0x65], value: vec![0x30] };
    assert(age@ == age_zero());
    headers.push(age);
    assert(headers_view(headers@) =~= headers_view(before).push(age_zero()));
    RequestSnapshot {
        method: copy_bytes(request.method.as_slice()),
        uri: origin_uri(authority, request.uri.as_slice()),
        version: request.version,
        headers,
        body: copy_bytes(request.body.as_slice()),
    }
}

} // verus!
