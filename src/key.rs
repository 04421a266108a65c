//! Cache keys: the method and the full URI, joined by '@'.

use vstd::prelude::*;

use crate::snapshot::RequestSnapshot;

verus! {

/// The key under which the exchange for `method` and `uri` is stored.
pub open spec fn key_of(method: Seq<u8>, uri: Seq<u8>) -> Seq<u8> {
    method + seq![0x40u8] + uri
}

/// A token character of HTTP: letters, digits and ``!#$%&'*+-.^_`|~``.
pub open spec fn is_tchar(c: u8) -> bool {
    ||| 0x30 <= c <= 0x39
    ||| 0x41 <= c <= 0x5a
    ||| 0x61 <= c <= 0x7a
    ||| c == 0x21 || c == 0x23 || c == 0x24 || c == 0x25 || c == 0x26 || c == 0x27
    ||| c == 0x2a || c == 0x2b || c == 0x2d || c == 0x2e || c == 0x5e || c == 0x5f
    ||| c == 0x60 || c == 0x7c || c == 0x7e
}

/// A valid request method: a non-empty token.
pub open spec fn is_method(m: Seq<u8>) -> bool {
    m.len() > 0 && forall|i: int| 0 <= i < m.len() ==> #[trigger] is_tchar(m[i])
}

/// The cache key of a request: its method, '@', and its URI as received.
pub fn cache_key(request: &RequestSnapshot) -> (k: Vec<u8>)
    ensures
        k@ == key_of(request.method@, request.uri@),
{
    let mut k: Vec<u8> = Vec::with_capacity(request.method.len());
    let mut i: usize = 0;
    while i < request.method.len()
        invariant
            i <= request.method.len(),
            k@ == request.method@.subrange(0, i as int),
        decreases request.method.len() - i,
    {
        k.push(request.method[i]);
        i = i + 1;
        assert(k@ =~= request.method@.subrange(0, i as int));
    }
    k.push(0x40);
    let mut j: usize = 0;
    while j < request.uri.len()
        invariant
            j <= request.uri.len(),
            k@ == request.method@ + seq![0x40u8] + request.uri@.subrange(0, j as int),
        decreases request.uri.len() - j,
    {
        k.push(request.uri[j]);
        j = j + 1;
        assert(k@ =~= request.method@ + seq![0x40u8] + request.uri@.subrange(0, j as int));
    }
    assert(request.uri@.subrange(0, j as int) =~= request.uri@);
    k
}

/// Two requests share a cache key only when they have the same method and
/// the same URI: `GET /a` and `GET /b`, or `GET /a` and `POST /a`, never
/// share an entry.
pub proof fn lemma_key_specific(m1: Seq<u8>, u1: Seq<u8>, m2: Seq<u8>, u2: Seq<u8>)
    requires
        is_method(m1),
        is_method(m2),
    ensures
        key_of(m1, u1) == key_of(m2, u2) ==> m1 == m2 && u1 == u2,
{
    let k1 = key_of(m1, u1);
    let k2 = key_of(m2, u2);
    if k1 == k2 {
        if m1.len() < m2.len() {
            assert(k1[m1.len() as int] == 0x40);
            assert(k2[m1.len() as int] == m2[m1.len() as int]);
            assert(is_tchar(m2[m1.len() as int]));
        } else if m2.len() < m1.len() {
            assert(k2[m2.len() as int] == 0x40);
            assert(k1[m2.len() as int] == m1[m2.len() as int]);
            assert(is_tchar(m1[m2.len() as int]));
        }
        assert(m1 =~= k1.take(m1.len() as int));
        assert(m2 =~= k2.take(m2.len() as int));
        assert(u1 =~= k1.skip(m1.len() + 1int));
        assert(u2 =~= k2.skip(m2.len() + 1int));
    }
}

} // verus!
