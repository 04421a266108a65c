//! The byte format of a stored entry. Integers and lengths are postcard
//! varints; byte strings are a length followed by the bytes; a header list is
//! a count followed by name and value of each line in order.

use vstd::prelude::*;

use crate::bytes::append;
use crate::snapshot::{
    copy_bytes, headers_view, CacheEntry, EntryModel, Header, HttpVersion, RequestModel,
    RequestSnapshot, ResponseModel, ResponseSnapshot,
};

verus! {

/// The varint that postcard writes for `x`: seven bits per byte, least
/// significant group first, the top bit set on every byte but the last.
pub open spec fn varint(x: nat) -> Seq<u8>
    decreases x,
{
    if x < 128 {
        seq![x as u8]
    } else {
        seq![(x % 128 + 128) as u8] + varint(x / 128)
    }
}

/// What postcard reads as a `u64` starting at byte `i` of `s`: the value of
/// the groups from `i` on, and the index just past the last byte read. At most
/// ten bytes are read, and a tenth byte may only hold the top bit of the value.
pub open spec fn varint_from(s: Seq<u8>, i: nat) -> Option<(nat, nat)>
    decreases 10 - i,
{
    if i >= 10 || i >= s.len() {
        None
    } else if s[i as int] < 128 {
        if i == 9 && s[i as int] > 1 {
            None
        } else {
            Some((s[i as int] as nat, i + 1))
        }
    } else {
        match varint_from(s, i + 1) {
            Some((v, e)) => Some(((s[i as int] - 128) as nat + 128 * v, e)),
            None => None,
        }
    }
}

/// A `u64` read from the front of `s`, and what follows it.
pub open spec fn take_u64(s: Seq<u8>) -> Option<(u64, Seq<u8>)> {
    match varint_from(s, 0) {
        Some((v, e)) => Some((v as u64, s.skip(e as int))),
        None => None,
    }
}

/// Relies on postcard::to_allocvec: a `u64` becomes its varint, and writing
/// into a growable vector does not fail.
#[verifier::external_body]
fn varint_bytes(x: u64) -> (r: Option<Vec<u8>>)
    ensures
        r is Some,
        r matches Some(b) ==> b@ == varint(x as nat),
{
    postcard::to_allocvec(&x).ok()
}

/// Relies on postcard::take_from_bytes for `u64`: it reads one varint from
/// the front and hands back the bytes after it.
#[verifier::external_body]
fn read_varint(s: &[u8]) -> (r: Option<(u64, &[u8])>)
    ensures
        match r {
            Some((v, rest)) => take_u64(s@) == Some((v, rest@)),
            None => take_u64(s@) is None,
        },
{
    postcard::take_from_bytes::<u64>(s).ok()
}

pub open spec fn pow128(i: nat) -> nat
    decreases i,
{
    if i == 0 {
        1
    } else {
        128 * pow128((i - 1) as nat)
    }
}

proof fn lemma_varint_from(s: Seq<u8>, i: nat, y: nat, rest: Seq<u8>)
    requires
        s.skip(i as int) == varint(y) + rest,
        i <= 9,
        i <= s.len(),
        y * pow128(i) < 0x1_0000_0000_0000_0000,
    ensures
        varint_from(s, i) == Some((y, i + varint(y).len())),
    decreases y,
{
    reveal_with_fuel(pow128, 11);
    assert(pow128(9) == 0x8000_0000_0000_0000);
    assert(pow128(10) == 0x40_0000_0000_0000_0000);
    assert(varint(y).len() >= 1) by {
        reveal_with_fuel(varint, 2);
    }
    assert(s.skip(i as int).len() >= 1);
    assert(i < s.len());
    assert(s[i as int] == s.skip(i as int)[0]);
    assert(s.skip(i as int)[0] == varint(y)[0]);
    if y < 128 {
        assert(varint(y) == seq![y as u8]);
        if i == 9 {
            assert(y * pow128(9) < 0x1_0000_0000_0000_0000);
            assert(y <= 1) by (nonlinear_arith)
                requires
                    y * 0x8000_0000_0000_0000nat < 0x1_0000_0000_0000_0000nat,
            ;
        }
    } else {
        let hd = seq![(y % 128 + 128) as u8];
        assert(varint(y) == hd + varint(y / 128));
        assert(s.skip(i + 1int) == varint(y / 128) + rest) by {
            assert(s.skip(i + 1int) =~= s.skip(i as int).skip(1));
            assert((hd + varint(y / 128) + rest).skip(1) =~= varint(y / 128) + rest);
        }
        assert((y / 128) * pow128(i + 1) <= y * pow128(i)) by (nonlinear_arith)
            requires
                pow128(i + 1) == 128 * pow128(i),
        ;
        if i + 1 > 9 {
            assert(pow128(i + 1) >= pow128(10)) by {
                lemma_pow128_mono(10, i + 1);
            }
            assert((y / 128) * pow128(i + 1) >= pow128(i + 1)) by (nonlinear_arith)
                requires
                    y / 128 >= 1,
            ;
        }
        lemma_varint_from(s, i + 1, y / 128, rest);
        assert(s[i as int] == (y % 128 + 128) as u8);
        assert(y == (y % 128) + 128 * (y / 128));
        assert(varint(y).len() == 1 + varint(y / 128).len());
    }
}

proof fn lemma_pow128_mono(a: nat, b: nat)
    requires
        a <= b,
    ensures
        pow128(a) <= pow128(b),
    decreases b,
{
    if a < b {
        lemma_pow128_mono(a, (b - 1) as nat);
    }
}

/// A `u64` written as a varint reads back as itself, whatever follows it.
pub proof fn lemma_take_varint(x: u64, rest: Seq<u8>)
    ensures
        take_u64(varint(x as nat) + rest) == Some((x, rest)),
{
    let s = varint(x as nat) + rest;
    assert(s.skip(0) =~= s);
    assert(pow128(0) == 1);
    lemma_varint_from(s, 0, x as nat, rest);
    assert(s.skip(varint(x as nat).len() as int) =~= rest);
}

pub type HeaderLine = (Seq<u8>, Seq<u8>);

/// A byte string as stored: its length, then the bytes.
pub open spec fn bytes_enc(b: Seq<u8>) -> Seq<u8> {
    varint(b.len()) + b
}

pub open spec fn header_enc(h: HeaderLine) -> Seq<u8> {
    bytes_enc(h.0) + bytes_enc(h.1)
}

/// The header lines one after another, in order.
pub open spec fn header_lines_enc(hs: Seq<HeaderLine>) -> Seq<u8>
    decreases hs.len(),
{
    if hs.len() == 0 {
        Seq::empty()
    } else {
        header_enc(hs[0]) + header_lines_enc(hs.skip(1))
    }
}

pub open spec fn headers_enc(hs: Seq<HeaderLine>) -> Seq<u8> {
    varint(hs.len()) + header_lines_enc(hs)
}

pub open spec fn version_tag(v: HttpVersion) -> nat {
    match v {
        HttpVersion::Http09 => 0,
        HttpVersion::Http10 => 1,
        HttpVersion::Http11 => 2,
        HttpVersion::H2 => 3,
        HttpVersion::H3 => 4,
    }
}

pub open spec fn version_of_tag(t: u64) -> Option<HttpVersion> {
    if t == 0 {
        Some(HttpVersion::Http09)
    } else if t == 1 {
        Some(HttpVersion::Http10)
    } else if t == 2 {
        Some(HttpVersion::Http11)
    } else if t == 3 {
        Some(HttpVersion::H2)
    } else if t == 4 {
        Some(HttpVersion::H3)
    } else {
        None
    }
}

pub open spec fn request_enc(r: RequestModel) -> Seq<u8> {
    bytes_enc(r.method) + bytes_enc(r.uri) + varint(version_tag(r.version)) + headers_enc(r.headers)
        + bytes_enc(r.body)
}

pub open spec fn response_enc(r: ResponseModel) -> Seq<u8> {
    varint(r.status as nat) + varint(version_tag(r.version)) + headers_enc(r.headers) + bytes_enc(
        r.body,
    )
}

/// The stored form of an entry: request, response, then the arrival time.
pub open spec fn entry_enc(e: EntryModel) -> Seq<u8> {
    request_enc(e.request) + response_enc(e.response) + varint(e.cached_at as nat)
}

pub open spec fn take_bytes(s: Seq<u8>) -> Option<(Seq<u8>, Seq<u8>)> {
    match take_u64(s) {
        Some((n, r)) => if n <= r.len() {
            Some((r.take(n as int), r.skip(n as int)))
        } else {
            None
        },
        None => None,
    }
}

pub open spec fn take_header(s: Seq<u8>) -> Option<(HeaderLine, Seq<u8>)> {
    match take_bytes(s) {
        Some((name, r1)) => match take_bytes(r1) {
            Some((value, r2)) => Some(((name, value), r2)),
            None => None,
        },
        None => None,
    }
}

/// `n` header lines read from the front of `s`, and what follows them.
pub open spec fn take_header_lines(s: Seq<u8>, n: nat) -> Option<(Seq<HeaderLine>, Seq<u8>)>
    decreases n,
{
    if n == 0 {
        Some((Seq::empty(), s))
    } else {
        match take_header(s) {
            Some((h, r1)) => match take_header_lines(r1, (n - 1) as nat) {
                Some((hs, r2)) => Some((seq![h] + hs, r2)),
                None => None,
            },
            None => None,
        }
    }
}

pub open spec fn take_headers(s: Seq<u8>) -> Option<(Seq<HeaderLine>, Seq<u8>)> {
    match take_u64(s) {
        Some((n, r)) => take_header_lines(r, n as nat),
        None => None,
    }
}

pub open spec fn take_version(s: Seq<u8>) -> Option<(HttpVersion, Seq<u8>)> {
    match take_u64(s) {
        Some((t, r)) => match version_of_tag(t) {
            Some(v) => Some((v, r)),
            None => None,
        },
        None => None,
    }
}

pub open spec fn take_request(s: Seq<u8>) -> Option<(RequestModel, Seq<u8>)> {
    match take_bytes(s) {
        Some((method, r1)) => match take_bytes(r1) {
            Some((uri, r2)) => match take_version(r2) {
                Some((version, r3)) => match take_headers(r3) {
                    Some((headers, r4)) => match take_bytes(r4) {
                        Some((body, r5)) => Some(
                            (RequestModel { method, uri, version, headers, body }, r5),
                        ),
                        None => None,
                    },
                    None => None,
                },
                None => None,
            },
            None => None,
        },
        None => None,
    }
}

pub open spec fn take_response(s: Seq<u8>) -> Option<(ResponseModel, Seq<u8>)> {
    match take_u64(s) {
        Some((status, r1)) => if status <= u16::MAX {
            match take_version(r1) {
                Some((version, r2)) => match take_headers(r2) {
                    Some((headers, r3)) => match take_bytes(r3) {
                        Some((body, r4)) => Some(
                            (ResponseModel { status: status as u16, version, headers, body }, r4),
                        ),
                        None => None,
                    },
                    None => None,
                },
                None => None,
            }
        } else {
            None
        },
        None => None,
    }
}

/// The entry that the stored bytes `s` hold, if they hold exactly one.
pub open spec fn parse_entry(s: Seq<u8>) -> Option<EntryModel> {
    match take_request(s) {
        Some((request, r1)) => match take_response(r1) {
            Some((response, r2)) => match take_u64(r2) {
                Some((cached_at, r3)) => if r3.len() == 0 {
                    Some(EntryModel { request, response, cached_at })
                } else {
                    None
                },
                None => None,
            },
            None => None,
        },
        None => None,
    }
}

proof fn lemma_header_lines_push(hs: Seq<HeaderLine>, h: HeaderLine)
    ensures
        header_lines_enc(hs.push(h)) == header_lines_enc(hs) + header_enc(h),
    decreases hs.len(),
{
    if hs.len() == 0 {
        assert(hs.push(h).skip(1) =~= Seq::<HeaderLine>::empty());
        assert(header_lines_enc(Seq::<HeaderLine>::empty()) == Seq::<u8>::empty());
        assert(header_enc(h) + Seq::<u8>::empty() =~= header_enc(h));
        assert(hs.push(h)[0] == h);
        assert(Seq::<u8>::empty() + header_enc(h) =~= header_enc(h));
    } else {
        assert(hs.push(h).skip(1) =~= hs.skip(1).push(h));
        lemma_header_lines_push(hs.skip(1), h);
        assert(hs.push(h)[0] == hs[0]);
        assert(header_enc(hs[0]) + (header_lines_enc(hs.skip(1)) + header_enc(h)) =~= (header_enc(
            hs[0],
        ) + header_lines_enc(hs.skip(1))) + header_enc(h));
    }
}

fn push_varint(out: &mut Vec<u8>, x: u64)
    ensures
        final(out)@ == old(out)@ + varint(x as nat),
{
    let enc = varint_bytes(x);
    if let Some(b) = enc {
        append(out, b.as_slice());
    }
}

fn push_bytes(out: &mut Vec<u8>, b: &[u8])
    ensures
        final(out)@ == old(out)@ + bytes_enc(b@),
{
    push_varint(out, b.len() as u64);
    append(out, b);
    assert(final(out)@ =~= old(out)@ + bytes_enc(b@));
}

fn push_headers(out: &mut Vec<u8>, hs: &Vec<Header>)
    ensures
        final(out)@ == old(out)@ + headers_enc(headers_view(hs@)),
{
    push_varint(out, hs.len() as u64);
    let ghost start = out@;
    let mut i: usize = 0;
    while i < hs.len()
        invariant
            i <= hs.len(),
            start == old(out)@ + varint(hs@.len()),
            out@ == start + header_lines_enc(headers_view(hs@.subrange(0, i as int))),
        decreases hs.len() - i,
    {
        let ghost before = out@;
        push_bytes(out, hs[i].name.as_slice());
        push_bytes(out, hs[i].value.as_slice());
        proof {
            let pre = headers_view(hs@.subrange(0, i as int));
            assert(headers_view(hs@.subrange(0, i + 1)) =~= pre.push(hs@[i as int]@));
            lemma_header_lines_push(pre, hs@[i as int]@);
            assert(out@ =~= start + header_lines_enc(headers_view(hs@.subrange(0, i + 1))));
        }
        i = i + 1;
    }
    assert(hs@.subrange(0, hs.len() as int) =~= hs@);
    assert(out@ =~= old(out)@ + headers_enc(headers_view(hs@)));
}

fn version_code(v: HttpVersion) -> (r: u64)
    ensures
        r as nat == version_tag(v),
{
    match v {
        HttpVersion::Http09 => 0,
        HttpVersion::Http10 => 1,
        HttpVersion::Http11 => 2,
        HttpVersion::H2 => 3,
        HttpVersion::H3 => 4,
    }
}

fn push_request(out: &mut Vec<u8>, r: &RequestSnapshot)
    ensures
        final(out)@ == old(out)@ + request_enc(r@),
{
    push_bytes(out, r.method.as_slice());
    push_bytes(out, r.uri.as_slice());
    push_varint(out, version_code(r.version));
    push_headers(out, &r.headers);
    push_bytes(out, r.body.as_slice());
    assert(final(out)@ =~= old(out)@ + request_enc(r@));
}

fn push_response(out: &mut Vec<u8>, r: &ResponseSnapshot)
    ensures
        final(out)@ == old(out)@ + response_enc(r@),
{
    push_varint(out, r.status as u64);
    push_varint(out, version_code(r.version));
    push_headers(out, &r.headers);
    push_bytes(out, r.body.as_slice());
    assert(final(out)@ =~= old(out)@ + response_enc(r@));
}

/// The stored form of `e`.
pub fn encode_entry(e: &CacheEntry) -> (r: Vec<u8>)
    ensures
        r@ == entry_enc(e@),
{
    let mut out: Vec<u8> = Vec::new();
    push_request(&mut out, &e.request);
    push_response(&mut out, &e.response);
    push_varint(&mut out, e.cached_at);
    assert(out@ =~= entry_enc(e@));
    out
}

fn read_bytes<'a>(s: &'a [u8]) -> (r: Option<(Vec<u8>, &'a [u8])>)
    ensures
        match r {
            Some((b, rest)) => take_bytes(s@) == Some((b@, rest@)),
            None => take_bytes(s@) is None,
        },
{
    match read_varint(s) {
        None => None,
        Some((n, rest)) => {
            if n <= rest.len() as u64 {
                let (a, b) = rest.split_at(n as usize);
                Some((copy_bytes(a), b))
            } else {
                None
            }
        },
    }
}

fn read_header<'a>(s: &'a [u8]) -> (r: Option<(Header, &'a [u8])>)
    ensures
        match r {
            Some((h, rest)) => take_header(s@) == Some((h@, rest@)),
            None => take_header(s@) is None,
        },
{
    match read_bytes(s) {
        None => None,
        Some((name, r1)) => match read_bytes(r1) {
            None => None,
            Some((value, r2)) => Some((Header { name, value }, r2)),
        },
    }
}

fn read_headers<'a>(s: &'a [u8]) -> (r: Option<(Vec<Header>, &'a [u8])>)
    ensures
        match r {
            Some((hs, rest)) => take_headers(s@) == Some((headers_view(hs@), rest@)),
            None => take_headers(s@) is None,
        },
{
    let (n, mut cur) = match read_varint(s) {
        None => return None,
        Some(p) => p,
    };
    let ghost first = cur@;
    let mut acc: Vec<Header> = Vec::new();
    let mut i: u64 = 0;
    while i < n
        invariant
            i <= n,
            take_u64(s@) == Some((n, first)),
            take_header_lines(first, n as nat) == match take_header_lines(cur@, (n - i) as nat) {
                Some((hs, r)) => Some((headers_view(acc@) + hs, r)),
                None => None,
            },
        decreases n - i,
    {
        match read_header(cur) {
            None => {
                return None;
            },
            Some((h, rest)) => {
                let ghost old_acc = headers_view(acc@);
                acc.push(h);
                proof {
                    assert(headers_view(acc@) =~= old_acc.push(h@));
                    let m = (n - i) as nat;
                    assert(take_header_lines(cur@, m) == match take_header_lines(
                        rest@,
                        (m - 1) as nat,
                    ) {
                        Some((hs, r2)) => Some((seq![h@] + hs, r2)),
                        None => None,
                    });
                    match take_header_lines(rest@, (m - 1) as nat) {
                        Some((hs, r2)) => {
                            assert(old_acc + (seq![h@] + hs) =~= headers_view(acc@) + hs);
                        },
                        None => {},
                    }
                }
                cur = rest;
                i = i + 1;
            },
        }
    }
    assert(headers_view(acc@) + Seq::<HeaderLine>::empty() =~= headers_view(acc@));
    Some((acc, cur))
}

fn read_version<'a>(s: &'a [u8]) -> (r: Option<(HttpVersion, &'a [u8])>)
    ensures
        match r {
            Some((v, rest)) => take_version(s@) == Some((v, rest@)),
            None => take_version(s@) is None,
        },
{
    match read_varint(s) {
        None => None,
        Some((t, rest)) => {
            if t == 0 {
                Some((HttpVersion::Http09, rest))
            } else if t == 1 {
                Some((HttpVersion::Http10, rest))
            } else if t == 2 {
                Some((HttpVersion::Http11, rest))
            } else if t == 3 {
                Some((HttpVersion::H2, rest))
            } else if t == 4 {
                Some((HttpVersion::H3, rest))
            } else {
                None
            }
        },
    }
}

fn read_request<'a>(s: &'a [u8]) -> (r: Option<(RequestSnapshot, &'a [u8])>)
    ensures
        match r {
            Some((q, rest)) => take_request(s@) == Some((q@, rest@)),
            None => take_request(s@) is None,
        },
{
    let (method, r1) = match read_bytes(s) {
        None => return None,
        Some(p) => p,
    };
    let (uri, r2) = match read_bytes(r1) {
        None => return None,
        Some(p) => p,
    };
    let (version, r3) = match read_version(r2) {
        None => return None,
        Some(p) => p,
    };
    let (headers, r4) = match read_headers(r3) {
        None => return None,
        Some(p) => p,
    };
    let (body, r5) = match read_bytes(r4) {
        None => return None,
        Some(p) => p,
    };
    Some((RequestSnapshot { method, uri, version, headers, body }, r5))
}

fn read_response<'a>(s: &'a [u8]) -> (r: Option<(ResponseSnapshot, &'a [u8])>)
    ensures
        match r {
            Some((q, rest)) => take_response(s@) == Some((q@, rest@)),
            None => take_response(s@) is None,
        },
{
    let (status, r1) = match read_varint(s) {
        None => return None,
        Some(p) => p,
    };
    if status > u16::MAX as u64 {
        return None;
    }
    let (version, r2) = match read_version(r1) {
        None => return None,
        Some(p) => p,
    };
    let (headers, r3) = match read_headers(r2) {
        None => return None,
        Some(p) => p,
    };
    let (body, r4) = match read_bytes(r3) {
        None => return None,
        Some(p) => p,
    };
    Some((ResponseSnapshot { status: status as u16, version, headers, body }, r4))
}

/// The entry held by the stored bytes `s`; `None` where they do not hold
/// exactly one well-formed entry.
pub fn decode_entry(s: &[u8]) -> (r: Option<CacheEntry>)
    ensures
        match r {
            Some(e) => parse_entry(s@) == Some(e@),
            None => parse_entry(s@) is None,
        },
{
    let (request, r1) = match read_request(s) {
        None => return None,
        Some(p) => p,
    };
    let (response, r2) = match read_response(r1) {
        None => return None,
        Some(p) => p,
    };
    let (cached_at, r3) = match read_varint(r2) {
        None => return None,
        Some(p) => p,
    };
    if r3.len() != 0 {
        return None;
    }
    Some(CacheEntry { request, response, cached_at })
}

/// A byte string whose length a stored varint can carry.
pub open spec fn fits(b: Seq<u8>) -> bool {
    b.len() <= u64::MAX
}

pub open spec fn lines_fit(hs: Seq<HeaderLine>) -> bool {
    &&& hs.len() <= u64::MAX
    &&& forall|i: int| 0 <= i < hs.len() ==> #[trigger] fits(hs[i].0) && fits(hs[i].1)
}

/// Every length in `e` can be stored: true of every entry held in memory.
pub open spec fn entry_fits(e: EntryModel) -> bool {
    &&& fits(e.request.method)
    &&& fits(e.request.uri)
    &&& lines_fit(e.request.headers)
    &&& fits(e.request.body)
    &&& lines_fit(e.response.headers)
    &&& fits(e.response.body)
}

proof fn lemma_take_bytes(b: Seq<u8>, rest: Seq<u8>)
    requires
        fits(b),
    ensures
        take_bytes(bytes_enc(b) + rest) == Some((b, rest)),
{
    let n = b.len() as u64;
    assert(bytes_enc(b) + rest =~= varint(n as nat) + (b + rest));
    lemma_take_varint(n, b + rest);
    assert((b + rest).take(n as int) =~= b);
    assert((b + rest).skip(n as int) =~= rest);
}

proof fn lemma_take_header_lines(hs: Seq<HeaderLine>, rest: Seq<u8>)
    requires
        lines_fit(hs),
    ensures
        take_header_lines(header_lines_enc(hs) + rest, hs.len()) == Some((hs, rest)),
    decreases hs.len(),
{
    if hs.len() == 0 {
        assert(header_lines_enc(hs) + rest =~= rest);
        assert(hs =~= Seq::<HeaderLine>::empty());
    } else {
        let h = hs[0];
        let tail = hs.skip(1);
        assert(fits(h.0) && fits(h.1));
        assert(lines_fit(tail)) by {
            assert forall|i: int| 0 <= i < tail.len() implies #[trigger] fits(tail[i].0) && fits(
                tail[i].1,
            ) by {
                assert(tail[i] == hs[i + 1]);
                assert(fits(hs[i + 1].0) && fits(hs[i + 1].1));
            }
        }
        let after = header_lines_enc(tail) + rest;
        assert(header_lines_enc(hs) + rest =~= bytes_enc(h.0) + (bytes_enc(h.1) + after));
        lemma_take_bytes(h.0, bytes_enc(h.1) + after);
        lemma_take_bytes(h.1, after);
        lemma_take_header_lines(tail, rest);
        assert(seq![h] + tail =~= hs);
    }
}

proof fn lemma_take_headers(hs: Seq<HeaderLine>, rest: Seq<u8>)
    requires
        lines_fit(hs),
    ensures
        take_headers(headers_enc(hs) + rest) == Some((hs, rest)),
{
    assert(headers_enc(hs) + rest =~= varint(hs.len()) + (header_lines_enc(hs) + rest));
    lemma_take_varint(hs.len() as u64, header_lines_enc(hs) + rest);
    lemma_take_header_lines(hs, rest);
}

proof fn lemma_take_version(v: HttpVersion, rest: Seq<u8>)
    ensures
        take_version(varint(version_tag(v)) + rest) == Some((v, rest)),
{
    lemma_take_varint(version_tag(v) as u64, rest);
}

proof fn lemma_take_request(q: RequestModel, rest: Seq<u8>)
    requires
        fits(q.method),
        fits(q.uri),
        lines_fit(q.headers),
        fits(q.body),
    ensures
        take_request(request_enc(q) + rest) == Some((q, rest)),
{
    let r5 = rest;
    let r4 = bytes_enc(q.body) + r5;
    let r3 = headers_enc(q.headers) + r4;
    let r2 = varint(version_tag(q.version)) + r3;
    let r1 = bytes_enc(q.uri) + r2;
    assert(request_enc(q) + rest =~= bytes_enc(q.method) + r1);
    lemma_take_bytes(q.method, r1);
    lemma_take_bytes(q.uri, r2);
    lemma_take_version(q.version, r3);
    lemma_take_headers(q.headers, r4);
    lemma_take_bytes(q.body, r5);
}

proof fn lemma_take_response(p: ResponseModel, rest: Seq<u8>)
    requires
        lines_fit(p.headers),
        fits(p.body),
    ensures
        take_response(response_enc(p) + rest) == Some((p, rest)),
{
    let r4 = rest;
    let r3 = bytes_enc(p.body) + r4;
    let r2 = headers_enc(p.headers) + r3;
    let r1 = varint(version_tag(p.version)) + r2;
    assert(response_enc(p) + rest =~= varint(p.status as nat) + r1);
    lemma_take_varint(p.status as u64, r1);
    lemma_take_version(p.version, r2);
    lemma_take_headers(p.headers, r3);
    lemma_take_bytes(p.body, r4);
}

/// Reading back what was stored gives the same entry: the same method, URI,
/// versions, status and arrival time, every header line in its order with
/// repeated names kept, and byte-identical bodies, empty or not UTF-8 alike.
pub proof fn lemma_entry_round_trip(e: EntryModel)
    requires
        entry_fits(e),
    ensures
        parse_entry(entry_enc(e)) == Some(e),
{
    let empty = Seq::<u8>::empty();
    let r2 = varint(e.cached_at as nat) + empty;
    let r1 = response_enc(e.response) + r2;
    assert(entry_enc(e) =~= request_enc(e.request) + r1);
    lemma_take_request(e.request, r1);
    lemma_take_response(e.response, r2);
    lemma_take_varint(e.cached_at, empty);
}

} // verus!
