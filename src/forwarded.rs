use vstd::prelude::*;
use vstd::string::*;

use crate::headers::{Header, header_views};
use crate::text::{eq_ignore_case, same_ignoring_case};

verus! {

/// Optional whitespace around list elements in a header value.
pub open spec fn is_ows(c: char) -> bool {
    c == ' ' || c == '\t'
}

pub open spec fn trim_start(s: Seq<char>) -> Seq<char>
    decreases s.len(),
{
    if s.len() > 0 && is_ows(s[0]) {
        trim_start(s.drop_first())
    } else {
        s
    }
}

pub open spec fn trim_end(s: Seq<char>) -> Seq<char>
    decreases s.len(),
{
    if s.len() > 0 && is_ows(s.last()) {
        trim_end(s.drop_last())
    } else {
        s
    }
}

pub open spec fn trim(s: Seq<char>) -> Seq<char> {
    trim_end(trim_start(s))
}

/// The pieces of `s` between commas (a string without commas is one piece).
pub open spec fn pieces(s: Seq<char>) -> Seq<Seq<char>>
    decreases s.len(),
{
    if s.len() == 0 {
        seq![Seq::empty()]
    } else {
        let rest = pieces(s.drop_first());
        if s[0] == ',' {
            seq![Seq::empty()] + rest
        } else {
            rest.update(0, seq![s[0]] + rest[0])
        }
    }
}

pub open spec fn non_empty(s: Seq<char>) -> bool {
    s.len() > 0
}

/// The elements of a comma-separated header value: the trimmed pieces that
/// are not empty.
pub open spec fn list_entries(v: Seq<char>) -> Seq<Seq<char>> {
    pieces(v).map_values(|p: Seq<char>| trim(p)).filter(|e: Seq<char>| non_empty(e))
}

/// A single list element as it is written: not empty, no comma, no
/// surrounding whitespace. The text of an IP address is one.
pub open spec fn is_list_element(s: Seq<char>) -> bool {
    &&& s.len() > 0
    &&& forall|i: int| 0 <= i < s.len() ==> #[trigger] s[i] != ','
    &&& !is_ows(s[0])
    &&& !is_ows(s.last())
}

pub open spec fn is_forwarded_name(name: Seq<char>) -> bool {
    eq_ignore_case(name, "X-Forwarded-For"@)
}

/// The forwarded-for entries of a header list: the elements of every
/// `X-Forwarded-For` line, in order.
pub open spec fn forwarded_entries(hs: Seq<(Seq<char>, Seq<char>)>) -> Seq<Seq<char>>
    decreases hs.len(),
{
    if hs.len() == 0 {
        Seq::empty()
    } else {
        forwarded_entries(hs.drop_last()) + if is_forwarded_name(hs.last().0) {
            list_entries(hs.last().1)
        } else {
            Seq::empty()
        }
    }
}

/// The values of the `X-Forwarded-For` lines joined by ", ", if there is one.
pub open spec fn joined_forwarded(hs: Seq<(Seq<char>, Seq<char>)>) -> Option<Seq<char>>
    decreases hs.len(),
{
    if hs.len() == 0 {
        None
    } else {
        let prior = joined_forwarded(hs.drop_last());
        if is_forwarded_name(hs.last().0) {
            match prior {
                Some(j) => Some(j + ", "@ + hs.last().1),
                None => Some(hs.last().1),
            }
        } else {
            prior
        }
    }
}

pub open spec fn not_forwarded(h: (Seq<char>, Seq<char>)) -> bool {
    !is_forwarded_name(h.0)
}

/// The value of the single `X-Forwarded-For` line sent on: the prior values
/// joined, then `peer`.
pub open spec fn forwarded_value(hs: Seq<(Seq<char>, Seq<char>)>, peer: Seq<char>) -> Seq<char> {
    match joined_forwarded(hs) {
        Some(j) => j + ", "@ + peer,
        None => peer,
    }
}

/// The header list sent on: every line but the `X-Forwarded-For` ones, then
/// one `X-Forwarded-For` line.
pub open spec fn with_forwarded(hs: Seq<(Seq<char>, Seq<char>)>, peer: Seq<char>) -> Seq<
    (Seq<char>, Seq<char>),
> {
    hs.filter(|h: (Seq<char>, Seq<char>)| not_forwarded(h)).push(
        ("X-Forwarded-For"@, forwarded_value(hs, peer)),
    )
}

pub proof fn lemma_pieces_not_empty(s: Seq<char>)
    ensures
        pieces(s).len() >= 1,
    decreases s.len(),
{
    if s.len() > 0 {
        lemma_pieces_not_empty(s.drop_first());
    }
}

pub proof fn lemma_pieces_join(a: Seq<char>, b: Seq<char>)
    ensures
        pieces(a + seq![','] + b) == pieces(a) + pieces(b),
    decreases a.len(),
{
    let s = a + seq![','] + b;
    if a.len() == 0 {
        assert(s.drop_first() =~= b);
        assert(pieces(a) =~= seq![Seq::<char>::empty()]);
    } else {
        assert(s.drop_first() =~= a.drop_first() + seq![','] + b);
        lemma_pieces_join(a.drop_first(), b);
        lemma_pieces_not_empty(a.drop_first());
        let ra = pieces(a.drop_first());
        let rb = pieces(b);
        if a[0] == ',' {
            assert(pieces(s) =~= pieces(a) + pieces(b));
        } else {
            assert((ra + rb).update(0, seq![a[0]] + (ra + rb)[0]) =~= ra.update(
                0,
                seq![a[0]] + ra[0],
            ) + rb);
        }
    }
}

pub proof fn lemma_pieces_single(s: Seq<char>)
    requires
        forall|i: int| 0 <= i < s.len() ==> #[trigger] s[i] != ',',
    ensures
        pieces(s) == seq![s],
    decreases s.len(),
{
    if s.len() == 0 {
        assert(s =~= Seq::<char>::empty());
    } else {
        let t = s.drop_first();
        assert forall|i: int| 0 <= i < t.len() implies #[trigger] t[i] != ',' by {
            assert(t[i] == s[i + 1]);
        }
        lemma_pieces_single(t);
        assert(seq![s[0]] + t =~= s);
        assert(pieces(s) =~= seq![s]);
    }
}

pub proof fn lemma_trim_element(s: Seq<char>)
    requires
        is_list_element(s),
    ensures
        trim(s) == s,
{
    assert(trim_start(s) == s);
    assert(trim_end(s) == s);
}

pub proof fn lemma_entries_element(s: Seq<char>)
    requires
        is_list_element(s),
    ensures
        list_entries(s) == seq![s],
{
    lemma_pieces_single(s);
    lemma_trim_element(s);
    let m = pieces(s).map_values(|p: Seq<char>| trim(p));
    assert(m =~= seq![s]);
    reveal_with_fuel(Seq::filter, 2);
    assert(m.drop_last() =~= Seq::<Seq<char>>::empty());
}

/// Joining two values with ", " joins their lists.
pub proof fn lemma_entries_join(a: Seq<char>, b: Seq<char>)
    ensures
        list_entries(a + ", "@ + b) == list_entries(a) + list_entries(b),
{
    reveal_strlit(", ");
    let sb = seq![' '] + b;
    assert(a + ", "@ + b =~= a + seq![','] + sb);
    lemma_pieces_join(a, sb);
    lemma_pieces_not_empty(b);
    let f = |p: Seq<char>| trim(p);
    let g = |e: Seq<char>| non_empty(e);
    assert(sb.drop_first() =~= b);
    assert(trim_start(seq![' '] + pieces(b)[0]).len() >= 0);
    assert((seq![' '] + pieces(b)[0]).drop_first() =~= pieces(b)[0]);
    assert(pieces(sb).map_values(f) =~= pieces(b).map_values(f));
    assert((pieces(a) + pieces(sb)).map_values(f) =~= pieces(a).map_values(f) + pieces(
        sb,
    ).map_values(f));
    Seq::filter_distributes_over_add(pieces(a).map_values(f), pieces(b).map_values(f), g);
}

} // verus!

verus! {

pub open spec fn opt_view(o: Option<String>) -> Option<Seq<char>> {
    match o {
        Some(s) => Some(s@),
        None => None,
    }
}

/// Replace the `X-Forwarded-For` lines of `headers` by one line that holds
/// their entries followed by `peer`.
pub fn add_forwarded_for(headers: Vec<Header>, peer: &str) -> (r: Vec<Header>)
    ensures
        header_views(r@) == with_forwarded(header_views(headers@), peer@),
{
    let ghost hv = header_views(headers@);
    let mut out: Vec<Header> = Vec::new();
    let mut joined: Option<String> = None;
    let mut i: usize = 0;
    while i < headers.len()
        invariant
            i <= headers@.len(),
            hv == header_views(headers@),
            header_views(out@) == header_views(headers@).subrange(0, i as int).filter(
                |h: (Seq<char>, Seq<char>)| not_forwarded(h),
            ),
            opt_view(joined) == joined_forwarded(header_views(headers@).subrange(0, i as int)),
        decreases headers@.len() - i,
    {
        let h = &headers[i];
        let ghost before = hv.subrange(0, i as int);
        let ghost after = hv.subrange(0, i + 1);
        proof {
            assert(after.drop_last() =~= before);
            assert(after.last() == h@);
            reveal(Seq::filter);
        }
        let ghost prev = out@;
        if same_ignoring_case(h.name.as_str(), "X-Forwarded-For") {
            joined = match joined {
                Some(j) => Some(j.concat(", ").concat(h.value.as_str())),
                None => Some(h.value.clone()),
            };
        } else {
            out.push(h.duplicate());
            assert(header_views(out@) =~= header_views(prev).push(h@));
        }
        i += 1;
    }
    assert(hv.subrange(0, headers@.len() as int) =~= hv);
    let value = match joined {
        Some(j) => j.concat(", ").concat(peer),
        None => peer.to_string(),
    };
    let ghost prev = out@;
    out.push(Header { name: "X-Forwarded-For".to_string(), value });
    assert(header_views(out@) =~= header_views(prev).push(("X-Forwarded-For"@, value@)));
    out
}

proof fn lemma_entries_of_joined(hs: Seq<(Seq<char>, Seq<char>)>)
    ensures
        joined_forwarded(hs) matches Some(j) ==> list_entries(j) == forwarded_entries(hs),
        joined_forwarded(hs) is None ==> forwarded_entries(hs) == Seq::<Seq<char>>::empty(),
    decreases hs.len(),
{
    if hs.len() > 0 {
        let prior = hs.drop_last();
        lemma_entries_of_joined(prior);
        if is_forwarded_name(hs.last().0) {
            if let Some(j) = joined_forwarded(prior) {
                lemma_entries_join(j, hs.last().1);
            } else {
                assert(forwarded_entries(hs) =~= list_entries(hs.last().1));
            }
        } else {
            assert(forwarded_entries(hs) =~= forwarded_entries(prior));
        }
    }
}

proof fn lemma_no_forwarded_left(hs: Seq<(Seq<char>, Seq<char>)>)
    ensures
        forwarded_entries(hs.filter(|h: (Seq<char>, Seq<char>)| not_forwarded(h))) == Seq::<
            Seq<char>,
        >::empty(),
    decreases hs.len(),
{
    reveal(Seq::filter);
    if hs.len() > 0 {
        lemma_no_forwarded_left(hs.drop_last());
        let f = hs.filter(|h: (Seq<char>, Seq<char>)| not_forwarded(h));
        let g = hs.drop_last().filter(|h: (Seq<char>, Seq<char>)| not_forwarded(h));
        if not_forwarded(hs.last()) {
            assert(f.drop_last() =~= g);
            assert(forwarded_entries(f) =~= forwarded_entries(g));
        }
    }
}

/// Forwarding appends the peer to the forwarded-for entries: the prior
/// entries stay, in order, and the peer comes last. With no prior entry the
/// result is the peer alone.
pub proof fn lemma_forwarded_for_appends(hs: Seq<(Seq<char>, Seq<char>)>, peer: Seq<char>)
    requires
        is_list_element(peer),
    ensures
        forwarded_entries(with_forwarded(hs, peer)) == forwarded_entries(hs).push(peer),
        forwarded_entries(with_forwarded(hs, peer)).len() == forwarded_entries(hs).len() + 1,
        forwarded_entries(hs).len() == 0 ==> forwarded_entries(with_forwarded(hs, peer)) == seq![
            peer,
        ],
{
    let kept = hs.filter(|h: (Seq<char>, Seq<char>)| not_forwarded(h));
    let out = with_forwarded(hs, peer);
    lemma_no_forwarded_left(hs);
    lemma_entries_of_joined(hs);
    lemma_entries_element(peer);
    assert(out.drop_last() =~= kept);
    assert(is_forwarded_name("X-Forwarded-For"@));
    if let Some(j) = joined_forwarded(hs) {
        lemma_entries_join(j, peer);
    }
    assert(forwarded_entries(out) =~= forwarded_entries(hs).push(peer));
}

} // verus!
