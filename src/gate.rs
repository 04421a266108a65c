//! The host gate: only requests addressed to the front-door domain go on.

use vstd::prelude::*;

use crate::bytes::bytes_equal;

verus! {

/// The length of the host name in a Host value: everything before its first
/// ':' (where a port would follow), or the whole value.
pub open spec fn host_len(h: Seq<u8>) -> nat
    decreases h.len(),
{
    if h.len() == 0 || h[0] == 0x3a {
        0
    } else {
        1 + host_len(h.skip(1))
    }
}

/// The host name of a Host value, its port stripped.
pub open spec fn hostname_of(h: Seq<u8>) -> Seq<u8> {
    h.take(host_len(h) as int)
}

/// The host name of the Host value `host`, its port stripped.
pub fn hostname(host: &[u8]) -> (r: &[u8])
    ensures
        r@ == hostname_of(host@),
{
    let mut i: usize = 0;
    assert(host@.skip(0) =~= host@);
    while i < host.len() && host[i] != 0x3a
        invariant
            i <= host.len(),
            host_len(host@) == i + host_len(host@.skip(i as int)),
        decreases host.len() - i,
    {
        assert(host@.skip(i as int).skip(1) =~= host@.skip(i + 1));
        i = i + 1;
    }
    assert(host_len(host@.skip(i as int)) == 0);
    let (r, _) = host.split_at(i);
    r
}

/// Whether the Host value `host` names the front-door domain `domain`.
pub fn host_admitted(domain: &[u8], host: &[u8]) -> (r: bool)
    ensures
        r == (hostname_of(host@) == domain@),
{
    bytes_equal(hostname(host), domain)
}

} // verus!
