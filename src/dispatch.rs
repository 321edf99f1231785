use vstd::prelude::*;
use vstd::string::*;

use crate::forward::{Plan, plan_for, plan_forward, site_target};
use crate::headers::{Header, header_views};
use crate::router::{SiteTable, route_index};
use crate::text::{eq_ignore_case, same_ignoring_case};

verus! {

/// The index of the first `c` in `v` at or after `i`, or the length of `v`.
pub open spec fn first_of(v: Seq<char>, c: char, i: int) -> int
    decreases v.len() - i,
{
    if i >= v.len() {
        v.len() as int
    } else if v[i] == c {
        i
    } else {
        first_of(v, c, i + 1)
    }
}

/// The host name of a `Host` header value: the bracketed address of an IPv6
/// literal, else what comes before the port.
pub open spec fn hostname_of(v: Seq<char>) -> Seq<char> {
    if v.len() > 0 && v[0] == '[' {
        let e = first_of(v, ']', 0);
        if e < v.len() {
            v.take(e + 1)
        } else {
            v
        }
    } else {
        v.take(first_of(v, ':', 0))
    }
}

proof fn lemma_first_of_bounded(v: Seq<char>, c: char, i: int)
    requires
        0 <= i,
    ensures
        first_of(v, c, i) <= v.len(),
    decreases v.len() - i,
{
    if i < v.len() && v[i] != c {
        lemma_first_of_bounded(v, c, i + 1);
    }
}

fn find_char(v: &str, c: char) -> (r: usize)
    ensures
        r == first_of(v@, c, 0),
        r <= v@.len(),
{
    proof {
        lemma_first_of_bounded(v@, c, 0);
    }
    let n = v.unicode_len();
    let mut i: usize = 0;
    while i < n
        invariant
            n == v@.len(),
            i <= n,
            first_of(v@, c, 0) == first_of(v@, c, i as int),
        decreases n - i,
    {
        if v.get_char(i) == c {
            return i;
        }
        i += 1;
    }
    n
}

/// The host name part of a `Host` header value.
pub fn host_name(value: &str) -> (r: &str)
    ensures
        r@ == hostname_of(value@),
{
    let n = value.unicode_len();
    if n > 0 && value.get_char(0) == '[' {
        let e = find_char(value, ']');
        if e < n {
            value.substring_char(0, e + 1)
        } else {
            value
        }
    } else {
        let e = find_char(value, ':');
        value.substring_char(0, e)
    }
}

/// The value of the first `Host` line, if there is one.
pub open spec fn host_header(hs: Seq<(Seq<char>, Seq<char>)>) -> Option<Seq<char>>
    decreases hs.len(),
{
    if hs.len() == 0 {
        None
    } else if eq_ignore_case(hs[0].0, "Host"@) {
        Some(hs[0].1)
    } else {
        host_header(hs.drop_first())
    }
}

fn find_host(headers: &Vec<Header>) -> (r: Option<usize>)
    ensures
        r matches Some(i) ==> i < headers@.len() && host_header(header_views(headers@)) == Some(
            headers@[i as int].value@,
        ),
        r is None ==> host_header(header_views(headers@)) is None,
{
    let ghost hv = header_views(headers@);
    let mut i: usize = 0;
    assert(hv.skip(0) =~= hv);
    while i < headers.len()
        invariant
            i <= headers@.len(),
            hv == header_views(headers@),
            host_header(hv) == host_header(hv.skip(i as int)),
        decreases headers@.len() - i,
    {
        assert(hv.skip(i as int).drop_first() =~= hv.skip(i + 1));
        if same_ignoring_case(headers[i].name.as_str(), "Host") {
            return Some(i);
        }
        i += 1;
    }
    None
}

/// The site index that a header list routes to.
pub open spec fn routed(t: SiteTable, hs: Seq<(Seq<char>, Seq<char>)>) -> Option<int> {
    match host_header(hs) {
        None => None,
        Some(v) => route_index(t.sites(), hostname_of(v)),
    }
}

/// Route one request by its `Host` header and decide how to forward it:
/// not-found where no site matches.
pub fn dispatch(table: &SiteTable, path: &str, headers: Vec<Header>, peer: &str) -> (r: Plan)
    ensures
        routed(*table, header_views(headers@)) is None ==> r is NotFound,
        routed(*table, header_views(headers@)) matches Some(i) ==> plan_for(
            r,
            site_target(table.sites()[i], path@),
            header_views(headers@),
            peer@,
        ),
{
    let site = match find_host(&headers) {
        None => None,
        Some(i) => table.route(host_name(headers[i].value.as_str())),
    };
    match site {
        None => Plan::NotFound,
        Some(s) => plan_forward(s, path, headers, peer),
    }
}

/// An error on a client connection.
pub enum ConnectionError {
    /// The client had already closed the connection.
    BrokenPipe,
    Other,
}

/// Whether a connection error is worth reporting: a closed pipe is expected.
pub fn is_reported(e: &ConnectionError) -> (r: bool)
    ensures
        r == !(*e is BrokenPipe),
{
    match e {
        ConnectionError::BrokenPipe => false,
        ConnectionError::Other => true,
    }
}

} // verus!
