use vstd::prelude::*;

verus! {

/// One header line: its name and its raw value, in the order received.
pub struct Header {
    pub name: Vec<u8>,
    pub value: Vec<u8>,
}

impl View for Header {
    type V = (Seq<u8>, Seq<u8>);

    open spec fn view(&self) -> (Seq<u8>, Seq<u8>) {
        (self.name@, self.value@)
    }
}

/// The HTTP protocol version of a message.
#[derive(Clone, Copy, Debug, PartialEq, Eq, Structural)]
pub enum HttpVersion {
    Http09,
    Http10,
    Http11,
    H2,
    H3,
}

/// A fully buffered request: method, URI, version, header lines, body.
pub struct RequestSnapshot {
    pub method: Vec<u8>,
    pub uri: Vec<u8>,
    pub version: HttpVersion,
    pub headers: Vec<Header>,
    pub body: Vec<u8>,
}

/// A fully buffered response: status, version, header lines, body.
pub struct ResponseSnapshot {
    pub status: u16,
    pub version: HttpVersion,
    pub headers: Vec<Header>,
    pub body: Vec<u8>,
}

/// A stored exchange: the request, the origin's response to it, and the
/// time (seconds since the Unix epoch) at which that response arrived.
pub struct CacheEntry {
    pub request: RequestSnapshot,
    pub response: ResponseSnapshot,
    pub cached_at: u64,
}

pub struct RequestModel {
    pub method: Seq<u8>,
    pub uri: Seq<u8>,
    pub version: HttpVersion,
    pub headers: Seq<(Seq<u8>, Seq<u8>)>,
    pub body: Seq<u8>,
}

pub struct ResponseModel {
    pub status: u16,
    pub version: HttpVersion,
    pub headers: Seq<(Seq<u8>, Seq<u8>)>,
    pub body: Seq<u8>,
}

pub struct EntryModel {
    pub request: RequestModel,
    pub response: ResponseModel,
    pub cached_at: u64,
}

pub open spec fn headers_view(hs: Seq<Header>) -> Seq<(Seq<u8>, Seq<u8>)> {
    hs.map_values(|h: Header| h@)
}

impl View for RequestSnapshot {
    type V = RequestModel;

    open spec fn view(&self) -> RequestModel {
        RequestModel {
            method: self.method@,
            uri: self.uri@,
            version: self.version,
            headers: headers_view(self.headers@),
            body: self.body@,
        }
    }
}

impl View for ResponseSnapshot {
    type V = ResponseModel;

    open spec fn view(&self) -> ResponseModel {
        ResponseModel {
            status: self.status,
            version: self.version,
            headers: headers_view(self.headers@),
            body: self.body@,
        }
    }
}

impl View for CacheEntry {
    type V = EntryModel;

    open spec fn view(&self) -> EntryModel {
        EntryModel { request: self.request@, response: self.response@, cached_at: self.cached_at }
    }
}

/// A copy of a byte string.
pub fn copy_bytes(b: &[u8]) -> (r: Vec<u8>)
    ensures
        r@ == b@,
{
    let mut r: Vec<u8> = Vec::with_capacity(b.len());
    let mut i: usize = 0;
    while i < b.len()
        invariant
            i <= b.len(),
            r@ == b@.subrange(0, i as int),
        decreases b.len() - i,
    {
        r.push(b[i]);
        i = i + 1;
    }
    assert(r@ =~= b@);
    r
}

/// A copy of a list of header lines, order and repetitions kept.
pub fn copy_headers(hs: &Vec<Header>) -> (r: Vec<Header>)
    ensures
        headers_view(r@) == headers_view(hs@),
{
    let mut r: Vec<Header> = Vec::with_capacity(hs.len());
    let mut i: usize = 0;
    while i < hs.len()
        invariant
            i <= hs.len(),
            headers_view(r@) =~= headers_view(hs@.subrange(0, i as int)),
        decreases hs.len() - i,
    {
        let h = Header { name: copy_bytes(&hs[i].name), value: copy_bytes(&hs[i].value) };
        r.push(h);
        proof {
            assert(hs@.subrange(0, i + 1) =~= hs@.subrange(0, i as int).push(hs@[i as int]));
            assert(headers_view(hs@.subrange(0, i + 1)) =~= headers_view(
                hs@.subrange(0, i as int),
            ).push(hs@[i as int]@));
        }
        i = i + 1;
    }
    assert(hs@.subrange(0, hs@.len() as int) =~= hs@);
    r
}

impl ResponseSnapshot {
    /// A copy of this response.
    pub fn duplicate(&self) -> (r: ResponseSnapshot)
        ensures
            r@ == self@,
    {
        ResponseSnapshot {
            status: self.status,
            version: self.version,
            headers: copy_headers(&self.headers),
            body: copy_bytes(&self.body),
        }
    }
}

} // verus!
