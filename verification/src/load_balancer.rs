pub mod upstream;

use vstd::prelude::*;

use crate::load_balancer::upstream::HostPort;

verus! {

/// The largest inbound body the proxy will buffer, in bytes (1 MiB).
pub const MAX_BODY_SIZE: usize = 1024 * 1024;

/// Failures a single proxied request can end in. Both stay contained within
/// the one request; neither affects the proxy's running state.
#[derive(Clone, Copy, Debug, PartialEq, Eq, Structural)]
pub enum ProxyError {
    /// The inbound body exceeds `MAX_BODY_SIZE`; surfaced to the client as
    /// HTTP 413 (Payload Too Large).
    BodyTooLarge,
    /// Every endpoint of the traversal failed at transport level; surfaced
    /// to the client as an HTTP 503-class response.
    AllUpstreamsUnreachable,
}

/// The HTTP protocol versions the proxy passes through unchanged.
#[derive(Clone, Copy, Debug, PartialEq, Eq, Structural)]
pub enum HttpVersion {
    V09,
    V10,
    V11,
    V2,
    V3,
}

/// A host-agnostic working copy of an inbound request: method, target path
/// and query, protocol version, headers with `Host` removed, and the body
/// buffered in full. It can be replayed against any endpoint without
/// re-reading the body.
pub struct RequestTemplate {
    pub method: String,
    pub path_and_query: String,
    pub version: HttpVersion,
    pub headers: Vec<(String, Vec<u8>)>,
    pub body: Vec<u8>,
}

/// Spec view of a header list: each name as characters, each value as bytes.
pub open spec fn header_views(h: Seq<(String, Vec<u8>)>) -> Seq<(Seq<char>, Seq<u8>)> {
    h.map_values(|p: (String, Vec<u8>)| (p.0@, p.1@))
}

/// `c` equals the character with codepoint `lower`, ASCII case-insensitively.
pub open spec fn chr_eq_ignore_case(c: char, lower: u32) -> bool {
    c as u32 == lower || c as u32 + 32 == lower
}

/// Whether `n` is the `Host` header name, ASCII case-insensitively
/// (104, 111, 115, 116 are the codepoints of `host`).
pub open spec fn is_host_name(n: Seq<char>) -> bool {
    &&& n.len() == 4
    &&& chr_eq_ignore_case(n[0], 104)
    &&& chr_eq_ignore_case(n[1], 111)
    &&& chr_eq_ignore_case(n[2], 115)
    &&& chr_eq_ignore_case(n[3], 116)
}

/// The scrubbed header list: every header except `Host`, in their original
/// order, names and values byte-identical to the inbound set.
pub open spec fn scrub_headers(h: Seq<(Seq<char>, Seq<u8>)>) -> Seq<(Seq<char>, Seq<u8>)> {
    h.filter(|p: (Seq<char>, Seq<u8>)| !is_host_name(p.0))
}

fn is_host_header(name: &str) -> (r: bool)
    ensures
        r == is_host_name(name@),
{
    if name.unicode_len() != 4 {
        return false;
    }
    let c0 = name.get_char(0) as u32;
    let c1 = name.get_char(1) as u32;
    let c2 = name.get_char(2) as u32;
    let c3 = name.get_char(3) as u32;
    (c0 == 104 || c0 + 32 == 104) && (c1 == 111 || c1 + 32 == 111) && (c2 == 115 || c2 + 32 == 115)
        && (c3 == 116 || c3 + 32 == 116)
}

fn copy_bytes(v: &Vec<u8>) -> (r: Vec<u8>)
    ensures
        r@ == v@,
{
    let mut out: Vec<u8> = Vec::new();
    let mut i: usize = 0;
    while i < v.len()
        invariant
            i <= v@.len(),
            out@ == v@.subrange(0, i as int),
        decreases v@.len() - i,
    {
        out.push(v[i]);
        proof {
            assert(v@.subrange(0, i as int).push(v@[i as int]) =~= v@.subrange(0, i + 1));
        }
        i = i + 1;
    }
    proof {
        assert(v@.subrange(0, v@.len() as int) =~= v@);
    }
    out
}

/// Converts an inbound request into an outbound template: the body is
/// size-capped, the `Host` header is dropped (it is upstream-specific and
/// recomputed per attempt), everything else is kept verbatim.
pub fn translate(
    method: String,
    path_and_query: String,
    version: HttpVersion,
    headers: Vec<(String, Vec<u8>)>,
    body: Vec<u8>,
) -> (r: Result<RequestTemplate, ProxyError>)
    ensures
        match r {
            Ok(t) => {
                &&& body@.len() <= MAX_BODY_SIZE
                &&& t.method@ == method@
                &&& t.path_and_query@ == path_and_query@
                &&& t.version == version
                &&& t.body@ == body@
                &&& header_views(t.headers@) == scrub_headers(header_views(headers@))
            },
            Err(e) => e == ProxyError::BodyTooLarge && body@.len() > MAX_BODY_SIZE,
        },
{
    if body.len() > MAX_BODY_SIZE {
        return Err(ProxyError::BodyTooLarge);
    }
    let mut out: Vec<(String, Vec<u8>)> = Vec::new();
    let mut i: usize = 0;
    while i < headers.len()
        invariant
            i <= headers@.len(),
            header_views(out@) == scrub_headers(header_views(headers@.subrange(0, i as int))),
        decreases headers@.len() - i,
    {
        let ghost pre = header_views(headers@.subrange(0, i as int));
        let ghost pre1 = header_views(headers@.subrange(0, i + 1));
        let ghost out_pre = header_views(out@);
        let keep = !is_host_header(headers[i].0.as_str());
        if keep {
            let name = headers[i].0.clone();
            let value = copy_bytes(&headers[i].1);
            out.push((name, value));
        }
        proof {
            reveal(Seq::filter);
            assert(headers@.subrange(0, i + 1).drop_last() =~= headers@.subrange(0, i as int));
            assert(pre1.drop_last() =~= pre);
            assert(pre1.last() == (headers@[i as int].0@, headers@[i as int].1@));
            if keep {
                assert(header_views(out@) =~= out_pre.push(pre1.last()));
                assert(scrub_headers(pre1) == scrub_headers(pre).push(pre1.last()));
            } else {
                assert(scrub_headers(pre1) == scrub_headers(pre));
            }
        }
        i = i + 1;
    }
    proof {
        assert(headers@.subrange(0, headers@.len() as int) =~= headers@);
    }
    Ok(RequestTemplate { method, path_and_query, version, headers: out, body })
}

/// The absolute-form target of one forwarding attempt: scheme `http`, the
/// chosen endpoint's host and port, and the template's path and query.
pub fn target_url(server: &HostPort, path_and_query: &str) -> (r: String)
    ensures
        r@ == "http://"@ + server.host@ + ":"@ + crate::decimal::dec_rep(server.port as nat)
            + path_and_query@,
{
    let mut s = "http://".to_owned();
    s.append(server.host.as_str());
    s.append(":");
    crate::decimal::push_decimal(&mut s, server.port as u32);
    s.append(path_and_query);
    s
}

/// Header scrubbing: the scrubbed list carries no `Host` header under any
/// spelling, and every other header of the inbound set is kept.
pub proof fn lemma_header_scrub(h: Seq<(Seq<char>, Seq<u8>)>)
    ensures
        forall|i: int|
            0 <= i < scrub_headers(h).len() ==> !is_host_name(#[trigger] scrub_headers(h)[i].0),
        forall|i: int|
            0 <= i < h.len() && !is_host_name(h[i].0) ==> scrub_headers(h).contains(
                #[trigger] h[i],
            ),
        scrub_headers(h).len() <= h.len(),
{
    broadcast use vstd::seq_lib::group_filter_ensures;

    assert(scrub_headers(h) == h.filter(|p: (Seq<char>, Seq<u8>)| !is_host_name(p.0)));
}

/// Which traversal member answers the request: the index of the first
/// attempt that is a transport success, if there is one.
pub open spec fn first_success(outcomes: Seq<bool>) -> Option<int>
    decreases outcomes.len(),
{
    if outcomes.len() == 0 {
        None
    } else if outcomes[0] {
        Some(0)
    } else {
        match first_success(outcomes.drop_first()) {
            None => None,
            Some(i) => Some(i + 1),
        }
    }
}

/// Failover correctness: an attempt that succeeds after nothing but
/// transport failures is the one that answers, wherever the rotation placed
/// it; the attempts before it never mask it, and the ones after it are
/// never made.
pub proof fn lemma_failover_first_success(outcomes: Seq<bool>, k: int)
    requires
        0 <= k < outcomes.len(),
        outcomes[k],
        forall|j: int| 0 <= j < k ==> !outcomes[j],
    ensures
        first_success(outcomes) == Some(k),
    decreases k,
{
    if k > 0 {
        lemma_failover_first_success(outcomes.drop_first(), k - 1);
    }
}

/// Total failure: a traversal in which every attempt fails at transport
/// level selects no responder at all.
pub proof fn lemma_total_failure(outcomes: Seq<bool>)
    requires
        forall|j: int| 0 <= j < outcomes.len() ==> !(#[trigger] outcomes[j]),
    ensures
        first_success(outcomes) is None,
    decreases outcomes.len(),
{
    if outcomes.len() > 0 {
        lemma_total_failure(outcomes.drop_first());
    }
}

/// The forwarding dispatcher's failover rule, as a function of each
/// traversal member's transport outcome (`true`: a response came back,
/// whatever its HTTP status; `false`: transport failure). The request is
/// answered by the first success; a traversal with no success at all ends
/// in `AllUpstreamsUnreachable`.
pub fn select_responder(outcomes: &Vec<bool>) -> (r: Result<usize, ProxyError>)
    ensures
        match r {
            Ok(i) => first_success(outcomes@) == Some(i as int),
            Err(e) => e == ProxyError::AllUpstreamsUnreachable && first_success(outcomes@) is None,
        },
{
    let mut i: usize = 0;
    while i < outcomes.len()
        invariant
            i <= outcomes@.len(),
            forall|j: int| 0 <= j < i ==> !(#[trigger] outcomes@[j]),
        decreases outcomes@.len() - i,
    {
        if outcomes[i] {
            proof {
                lemma_failover_first_success(outcomes@, i as int);
            }
            return Ok(i);
        }
        i = i + 1;
    }
    proof {
        lemma_total_failure(outcomes@);
    }
    Err(ProxyError::AllUpstreamsUnreachable)
}

} // verus!

