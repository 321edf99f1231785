use vstd::prelude::*;

use crate::forwarded::{add_forwarded_for, is_forwarded_name, not_forwarded, opt_view, with_forwarded};
use crate::headers::{
    Header, end_to_end, header_views, is_hop_name, lemma_without_hop_headers, without_hop_headers,
};
use crate::response::{
    Reply, bad_gateway, gateway_timeout, internal_server_error, is_canonical, BAD_GATEWAY,
    GATEWAY_TIMEOUT, INTERNAL_SERVER_ERROR,
};
use crate::router::Site;

verus! {

/// The serialization of the URL that `url` makes of `path` joined onto the
/// base URL written `base`, or `None` where it refuses either.
pub uninterp spec fn url_join_of(base: Seq<char>, path: Seq<char>) -> Option<Seq<char>>;

/// Whether hyper accepts the text as a request URI.
pub uninterp spec fn uri_accepts(s: Seq<char>) -> bool;

/// Relies on `url::Url::parse` (the base) and `url::Url::join` (the path onto
/// it), and on `String::from(Url)`, which gives the URL's serialization.
#[verifier::external_body]
fn join_url(base: &str, path: &str) -> (r: Option<String>)
    ensures
        opt_view(r) == url_join_of(base@, path@),
{
    match url::Url::parse(base) {
        Ok(u) => u.join(path).ok().map(String::from),
        Err(_) => None,
    }
}

/// Relies on `hyper::Uri`'s `FromStr`: whether the text parses as a URI.
#[verifier::external_body]
fn parses_as_uri(s: &str) -> (r: bool)
    ensures
        r == uri_accepts(s@),
{
    s.parse::<hyper::Uri>().is_ok()
}

/// The URI that a request path goes to on a backend whose base URL is
/// written `base`: the join, where it succeeds and hyper accepts it.
pub open spec fn target_of(base: Seq<char>, path: Seq<char>) -> Option<Seq<char>> {
    match url_join_of(base, path) {
        Some(u) => if uri_accepts(u) {
            Some(u)
        } else {
            None
        },
        None => None,
    }
}

/// Compute the outbound URI for a request path on a backend.
pub fn target_uri(base: &str, path: &str) -> (r: Option<String>)
    ensures
        opt_view(r) == target_of(base@, path@),
{
    match join_url(base, path) {
        Some(u) => if parses_as_uri(u.as_str()) {
            Some(u)
        } else {
            None
        },
        None => None,
    }
}

/// A request as it leaves for the backend; method and body are copied from
/// the inbound request by the caller.
pub struct OutboundRequest {
    pub uri: String,
    pub headers: Vec<Header>,
}

/// What to do with one inbound request.
pub enum Plan {
    /// Answer with not-found at once.
    NotFound,
    /// Send this request upstream.
    Send(OutboundRequest),
}

/// The header lines sent upstream for inbound `hs` from `peer`.
pub open spec fn outbound_headers(hs: Seq<(Seq<char>, Seq<char>)>, peer: Seq<char>) -> Seq<
    (Seq<char>, Seq<char>),
> {
    with_forwarded(end_to_end(hs), peer)
}

/// The plan for a request once its target URI is known (`None`: no valid
/// target).
pub open spec fn plan_for(
    plan: Plan,
    target: Option<Seq<char>>,
    hs: Seq<(Seq<char>, Seq<char>)>,
    peer: Seq<char>,
) -> bool {
    match target {
        None => plan is NotFound,
        Some(u) => plan matches Plan::Send(o) && o.uri@ == u && header_views(o.headers@)
            == outbound_headers(hs, peer),
    }
}

/// Build the outbound request from a computed target URI: not-found where
/// there is none; else the inbound headers without hop-by-hop lines and with
/// `peer` appended to the forwarded-for entries.
pub fn make_proxy_request(target: Option<String>, headers: Vec<Header>, peer: &str) -> (r: Plan)
    ensures
        plan_for(r, opt_view(target), header_views(headers@), peer@),
{
    match target {
        None => Plan::NotFound,
        Some(uri) => {
            let kept = without_hop_headers(&headers);
            let out = add_forwarded_for(kept, peer);
            Plan::Send(OutboundRequest { uri, headers: out })
        },
    }
}

/// The target URI of a request path on a site: none where the site has no
/// backend.
pub open spec fn site_target(site: Site, path: Seq<char>) -> Option<Seq<char>> {
    match site.target {
        None => None,
        Some(base) => target_of(base@, path),
    }
}

/// Decide how to forward a request for `path` with `headers` from `peer` to
/// `site`.
pub fn plan_forward(site: &Site, path: &str, headers: Vec<Header>, peer: &str) -> (r: Plan)
    ensures
        plan_for(r, site_target(*site, path@), header_views(headers@), peer@),
        site.target is None ==> r is NotFound,
{
    match &site.target {
        None => Plan::NotFound,
        Some(base) => {
            let target = target_uri(base.as_str(), path);
            make_proxy_request(target, headers, peer)
        },
    }
}

/// The header lines sent upstream hold no hop-by-hop header, and every
/// inbound line that is neither hop-by-hop nor `X-Forwarded-For` is among them
/// unchanged.
pub proof fn lemma_outbound_headers(hs: Seq<(Seq<char>, Seq<char>)>, peer: Seq<char>)
    ensures
        forall|i: int|
            0 <= i < outbound_headers(hs, peer).len() ==> !is_hop_name(
                #[trigger] outbound_headers(hs, peer)[i].0,
            ),
        forall|i: int|
            0 <= i < hs.len() && !is_hop_name(hs[i].0) && !is_forwarded_name(hs[i].0)
                ==> outbound_headers(hs, peer).contains(#[trigger] hs[i]),
{
    let kept = end_to_end(hs);
    let nf = |h: (Seq<char>, Seq<char>)| not_forwarded(h);
    let rest = kept.filter(nf);
    let out = outbound_headers(hs, peer);
    lemma_without_hop_headers(hs);
    reveal_strlit("X-Forwarded-For");
    reveal_strlit("Connection");
    reveal_strlit("Keep-Alive");
    reveal_strlit("Proxy-Authenticate");
    reveal_strlit("Proxy-Authorization");
    reveal_strlit("TE");
    reveal_strlit("Trailers");
    reveal_strlit("Transfer-Encoding");
    reveal_strlit("Upgrade");
    assert(!is_hop_name("X-Forwarded-For"@));
    assert forall|i: int| 0 <= i < out.len() implies !is_hop_name(#[trigger] out[i].0) by {
        if i < rest.len() {
            assert(rest.contains(rest[i]));
            kept.lemma_filter_contains_rev(nf, rest[i]);
            let j = choose|j: int| 0 <= j < kept.len() && kept[j] == rest[i];
            assert(!is_hop_name(kept[j].0));
        }
    }
    assert forall|i: int|
        0 <= i < hs.len() && !is_hop_name(hs[i].0) && !is_forwarded_name(hs[i].0) implies out.contains(
        #[trigger] hs[i],
    ) by {
        let j = choose|j: int| 0 <= j < kept.len() && kept[j] == hs[i];
        kept.lemma_filter_contains(nf, j);
        let k = choose|k: int| 0 <= k < rest.len() && rest[k] == kept[j];
        assert(out[k] == hs[i]);
    }
}

/// A site without a backend answers every path with not-found.
pub proof fn lemma_no_target_not_found(site: Site, path: Seq<char>, plan: Plan, hs: Seq<(Seq<char>, Seq<char>)>, peer: Seq<char>)
    requires
        site.target is None,
        plan_for(plan, site_target(site, path), hs, peer),
    ensures
        plan is NotFound,
{
}

/// How an upstream call failed.
pub enum UpstreamError {
    ConnectionRefused,
    ConnectionAborted,
    ConnectionReset,
    Other,
}

/// How the race between the upstream call and the connect timeout ended.
pub enum Outcome {
    /// The upstream answered first.
    Responded(Reply),
    /// The upstream call failed first.
    Failed(UpstreamError),
    /// The timeout fired first.
    TimedOut,
}

/// The status a failed upstream call is answered with.
pub open spec fn failure_status(e: UpstreamError) -> u16 {
    match e {
        UpstreamError::ConnectionRefused => BAD_GATEWAY,
        UpstreamError::ConnectionAborted => BAD_GATEWAY,
        UpstreamError::ConnectionReset => BAD_GATEWAY,
        UpstreamError::Other => INTERNAL_SERVER_ERROR,
    }
}

pub fn failure_reply(e: UpstreamError) -> (r: Reply)
    ensures
        is_canonical(r, failure_status(e)),
{
    match e {
        UpstreamError::ConnectionRefused => bad_gateway(),
        UpstreamError::ConnectionAborted => bad_gateway(),
        UpstreamError::ConnectionReset => bad_gateway(),
        UpstreamError::Other => internal_server_error(),
    }
}

/// The upstream's response as it is handed on: same status, hop-by-hop
/// headers removed.
pub fn make_proxy_response(up: Reply) -> (r: Reply)
    ensures
        r.status == up.status,
        header_views(r.headers@) == end_to_end(header_views(up.headers@)),
{
    let headers = without_hop_headers(&up.headers);
    Reply { status: up.status, headers }
}

/// Turn the outcome of the race into the response for the client.
pub fn resolve(outcome: Outcome) -> (r: Reply)
    ensures
        match outcome {
            Outcome::Responded(up) => r.status == up.status && header_views(r.headers@)
                == end_to_end(header_views(up.headers@)),
            Outcome::Failed(e) => is_canonical(r, failure_status(e)),
            Outcome::TimedOut => is_canonical(r, GATEWAY_TIMEOUT),
        },
{
    match outcome {
        Outcome::Responded(up) => make_proxy_response(up),
        Outcome::Failed(e) => failure_reply(e),
        Outcome::TimedOut => gateway_timeout(),
    }
}

} // verus!
