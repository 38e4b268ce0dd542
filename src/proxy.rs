use vstd::prelude::*;

use crate::error::GatewayError;
use crate::text::{chars_of, push_all, string_of};

verus! {

/// One header of a request or response: its name and its raw value.
pub struct Header {
    pub name: String,
    pub value: Vec<u8>,
}

impl View for Header {
    type V = (Seq<char>, Seq<u8>);

    open spec fn view(&self) -> (Seq<char>, Seq<u8>) {
        (self.name@, self.value@)
    }
}

/// The request that is sent on to the upstream.
pub struct OutboundRequest {
    pub method: String,
    pub url: String,
    pub headers: Vec<Header>,
    pub body: Vec<u8>,
}

/// The views of a sequence of headers.
pub open spec fn header_views(hs: Seq<Header>) -> Seq<(Seq<char>, Seq<u8>)> {
    hs.map_values(|h: Header| h@)
}

/// Whether `c` is the letter `lower` in either case.
pub open spec fn is_letter(c: char, lower: char, upper: char) -> bool {
    c == lower || c == upper
}

/// Whether a header name is `Host`, in any case.
pub open spec fn names_host(n: Seq<char>) -> bool {
    n.len() == 4 && is_letter(n[0], 'h', 'H') && is_letter(n[1], 'o', 'O') && is_letter(
        n[2],
        's',
        'S',
    ) && is_letter(n[3], 't', 'T')
}

/// The headers that pass to the upstream, in order: all but `Host`.
pub open spec fn passed_headers(hs: Seq<(Seq<char>, Seq<u8>)>) -> Seq<(Seq<char>, Seq<u8>)>
    decreases hs.len(),
{
    if hs.len() == 0 {
        Seq::empty()
    } else {
        let rest = passed_headers(hs.drop_last());
        if names_host(hs.last().0) {
            rest
        } else {
            rest.push(hs.last())
        }
    }
}

/// The header that asks the upstream to keep the connection open.
pub open spec fn keep_alive_header() -> (Seq<char>, Seq<u8>) {
    (
        seq!['C', 'o', 'n', 'n', 'e', 'c', 't', 'i', 'o', 'n'],
        seq![107u8, 101u8, 101u8, 112u8, 45u8, 97u8, 108u8, 105u8, 118u8, 101u8],
    )
}

/// The headers of the outbound request: the inbound ones but `Host`, then keep-alive.
pub open spec fn outbound_headers(hs: Seq<(Seq<char>, Seq<u8>)>) -> Seq<(Seq<char>, Seq<u8>)> {
    passed_headers(hs).push(keep_alive_header())
}

/// Whether a header name is `Host`, in any case.
pub fn is_host(name: &str) -> (r: bool)
    ensures
        r == names_host(name@),
{
    let v = chars_of(name);
    v.len() == 4 && (v[0] == 'h' || v[0] == 'H') && (v[1] == 'o' || v[1] == 'O') && (v[2] == 's'
        || v[2] == 'S') && (v[3] == 't' || v[3] == 'T')
}

fn copy_bytes(b: &Vec<u8>) -> (r: Vec<u8>)
    ensures
        r@ == b@,
{
    let mut out: Vec<u8> = Vec::new();
    let mut i: usize = 0;
    while i < b.len()
        invariant
            i <= b.len(),
            out@ == b@.subrange(0, i as int),
        decreases b.len() - i,
    {
        out.push(b[i]);
        i = i + 1;
        assert(out@ =~= b@.subrange(0, i as int));
    }
    assert(b@.subrange(0, b.len() as int) =~= b@);
    out
}

fn copy_header(h: &Header) -> (r: Header)
    ensures
        r@ == h@,
{
    Header { name: h.name.clone(), value: copy_bytes(&h.value) }
}

/// The headers to send upstream: every inbound header but `Host`, in order, and
/// then `Connection: keep-alive`.
pub fn forward_headers(headers: &Vec<Header>) -> (r: Vec<Header>)
    ensures
        header_views(r@) == outbound_headers(header_views(headers@)),
{
    let mut out: Vec<Header> = Vec::new();
    let mut i: usize = 0;
    while i < headers.len()
        invariant
            i <= headers.len(),
            header_views(out@) == passed_headers(header_views(headers@.subrange(0, i as int))),
        decreases headers.len() - i,
    {
        let ghost before = headers@.subrange(0, i as int);
        let ghost after = headers@.subrange(0, i + 1);
        proof {
            assert(header_views(after).drop_last() =~= header_views(before));
            assert(header_views(after).last() == headers@[i as int]@);
        }
        if !is_host(headers[i].name.as_str()) {
            let h = copy_header(&headers[i]);
            out.push(h);
            assert(header_views(out@) =~= passed_headers(header_views(after)));
        }
        i = i + 1;
    }
    assert(headers@.subrange(0, headers.len() as int) =~= headers@);
    let name = string_of(&vec!['C', 'o', 'n', 'n', 'e', 'c', 't', 'i', 'o', 'n']);
    let value: Vec<u8> = vec![107u8, 101u8, 101u8, 112u8, 45u8, 97u8, 108u8, 105u8, 118u8, 101u8];
    proof {
        assert(name@ =~= keep_alive_header().0);
        assert(value@ =~= keep_alive_header().1);
    }
    out.push(Header { name, value });
    assert(header_views(out@) =~= outbound_headers(header_views(headers@)));
    out
}

/// The upstream address of a request: the upstream base followed by the inbound
/// path and query.
pub fn forward_url(base: &str, path_and_query: &str) -> (r: String)
    ensures
        r@ == base@ + path_and_query@,
{
    let mut v = chars_of(base);
    push_all(&mut v, &chars_of(path_and_query));
    string_of(&v)
}

/// The request to send upstream for an admitted inbound request: same method, the
/// upstream address, the headers but `Host` plus keep-alive, and the whole body.
pub fn plan_forward(
    method: &str,
    base: &str,
    path_and_query: &str,
    headers: &Vec<Header>,
    body: Vec<u8>,
) -> (r: OutboundRequest)
    ensures
        r.method@ == method@,
        r.url@ == base@ + path_and_query@,
        header_views(r.headers@) == outbound_headers(header_views(headers@)),
        r.body@ == body@,
{
    OutboundRequest {
        method: method.to_owned(),
        url: forward_url(base, path_and_query),
        headers: forward_headers(headers),
        body,
    }
}

/// What the caller receives once the upstream was tried: the upstream's status when
/// it answered, `UpstreamUnreachable` when it could not be reached.
pub fn relay_status<E>(sent: Result<u16, E>) -> (r: Result<u16, GatewayError>)
    ensures
        match sent {
            Ok(s) => r == Ok::<u16, GatewayError>(s),
            Err(_) => r == Err::<u16, GatewayError>(GatewayError::UpstreamUnreachable),
        },
{
    match sent {
        Ok(s) => Ok(s),
        Err(_) => Err(GatewayError::UpstreamUnreachable),
    }
}

} // verus!
