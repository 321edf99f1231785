use vstd::prelude::*;

use crate::text::{eq_ignore_case, same_ignoring_case};

verus! {

/// One header line: a name and its value.
pub struct Header {
    pub name: String,
    pub value: String,
}

impl View for Header {
    type V = (Seq<char>, Seq<char>);

    open spec fn view(&self) -> (Seq<char>, Seq<char>) {
        (self.name@, self.value@)
    }
}

impl Header {
    pub fn new(name: &str, value: &str) -> (r: Header)
        ensures
            r@ == (name@, value@),
    {
        Header { name: name.to_string(), value: value.to_string() }
    }

    pub fn duplicate(&self) -> (r: Header)
        ensures
            r@ == self@,
    {
        Header { name: self.name.clone(), value: self.value.clone() }
    }
}

/// The header lines of a list, as name/value pairs.
pub open spec fn header_views(hs: Seq<Header>) -> Seq<(Seq<char>, Seq<char>)> {
    hs.map_values(|h: Header| h@)
}

/// The names of the standard hop-by-hop headers, compared up to ASCII case.
pub open spec fn is_hop_name(name: Seq<char>) -> bool {
    ||| eq_ignore_case(name, "Connection"@)
    ||| eq_ignore_case(name, "Keep-Alive"@)
    ||| eq_ignore_case(name, "Proxy-Authenticate"@)
    ||| eq_ignore_case(name, "Proxy-Authorization"@)
    ||| eq_ignore_case(name, "TE"@)
    ||| eq_ignore_case(name, "Trailers"@)
    ||| eq_ignore_case(name, "Transfer-Encoding"@)
    ||| eq_ignore_case(name, "Upgrade"@)
}

pub open spec fn not_hop(h: (Seq<char>, Seq<char>)) -> bool {
    !is_hop_name(h.0)
}

/// The header lines of `hs` that are not hop-by-hop, in their order.
pub open spec fn end_to_end(hs: Seq<(Seq<char>, Seq<char>)>) -> Seq<(Seq<char>, Seq<char>)> {
    hs.filter(|h: (Seq<char>, Seq<char>)| not_hop(h))
}

/// Whether a header name belongs to the standard hop-by-hop set.
pub fn is_hop_header(name: &str) -> (r: bool)
    ensures
        r == is_hop_name(name@),
{
    same_ignoring_case(name, "Connection") || same_ignoring_case(name, "Keep-Alive")
        || same_ignoring_case(name, "Proxy-Authenticate") || same_ignoring_case(
        name,
        "Proxy-Authorization",
    ) || same_ignoring_case(name, "TE") || same_ignoring_case(name, "Trailers")
        || same_ignoring_case(name, "Transfer-Encoding") || same_ignoring_case(name, "Upgrade")
}

/// Return a new header list with every hop-by-hop header removed.
pub fn without_hop_headers(headers: &Vec<Header>) -> (r: Vec<Header>)
    ensures
        header_views(r@) == end_to_end(header_views(headers@)),
{
    let mut out: Vec<Header> = Vec::new();
    let mut i: usize = 0;
    while i < headers.len()
        invariant
            i <= headers@.len(),
            header_views(out@) == end_to_end(header_views(headers@.subrange(0, i as int))),
        decreases headers@.len() - i,
    {
        let h = &headers[i];
        let ghost before = header_views(headers@.subrange(0, i as int));
        let ghost after = header_views(headers@.subrange(0, i + 1));
        proof {
            assert(after.drop_last() =~= before);
            assert(after.last() == h@);
            reveal(Seq::filter);
        }
        let ghost prev = out@;
        if !is_hop_header(h.name.as_str()) {
            out.push(h.duplicate());
            assert(header_views(out@) =~= header_views(prev).push(h@));
        }
        i += 1;
    }
    assert(headers@.subrange(0, headers@.len() as int) =~= headers@);
    out
}

} // verus!

verus! {

/// Filtering leaves no hop-by-hop header, and keeps every other header of the
/// input unchanged and in its order.
pub proof fn lemma_without_hop_headers(hs: Seq<(Seq<char>, Seq<char>)>)
    ensures
        forall|i: int|
            0 <= i < end_to_end(hs).len() ==> !is_hop_name(#[trigger] end_to_end(hs)[i].0),
        forall|i: int| 0 <= i < hs.len() && !is_hop_name(hs[i].0) ==> end_to_end(hs).contains(
            #[trigger] hs[i],
        ),
        end_to_end(hs) == hs.filter(|h: (Seq<char>, Seq<char>)| !is_hop_name(h.0)),
{
    let p = |h: (Seq<char>, Seq<char>)| not_hop(h);
    assert forall|i: int| 0 <= i < end_to_end(hs).len() implies !is_hop_name(
        #[trigger] end_to_end(hs)[i].0,
    ) by {
        hs.lemma_filter_pred(p, i);
    }
    assert forall|i: int| 0 <= i < hs.len() && !is_hop_name(hs[i].0) implies end_to_end(
        hs,
    ).contains(#[trigger] hs[i]) by {
        hs.lemma_filter_contains(p, i);
    }
    assert(p =~= (|h: (Seq<char>, Seq<char>)| !is_hop_name(h.0)));
}

} // verus!
