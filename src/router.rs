use vstd::prelude::*;

use crate::text::{
    eq_ignore_case, lemma_eq_ignore_case_sym, lemma_eq_ignore_case_trans, same_ignoring_case,
};

verus! {

/// A routable target: the host names it answers to and, when proxying is
/// enabled for it, the base URL of its backend.
pub struct Site {
    pub hosts: Vec<String>,
    pub target: Option<String>,
}

impl Site {
    pub fn new(hosts: Vec<String>, target: Option<String>) -> (r: Site)
        ensures
            r.hosts == hosts,
            r.target == target,
    {
        Site { hosts, target }
    }
}

/// Site `s` lists a name equal to `host` up to ASCII case.
pub open spec fn serves(s: Site, host: Seq<char>) -> bool {
    exists|j: int| 0 <= j < s.hosts@.len() && eq_ignore_case(#[trigger] s.hosts@[j]@, host)
}

/// The index of the last of the first `n` sites that serves `host`: when
/// several sites list one name, the later one wins.
pub open spec fn route_among(sites: Seq<Site>, host: Seq<char>, n: int) -> Option<int>
    decreases n,
{
    if n <= 0 {
        None
    } else if serves(sites[n - 1], host) {
        Some(n - 1)
    } else {
        route_among(sites, host, n - 1)
    }
}

pub open spec fn route_index(sites: Seq<Site>, host: Seq<char>) -> Option<int> {
    route_among(sites, host, sites.len() as int)
}

/// The routing table, built once from the configured sites and only read
/// afterwards.
pub struct SiteTable {
    sites: Vec<Site>,
}

impl SiteTable {
    pub closed spec fn sites(&self) -> Seq<Site> {
        self.sites@
    }

    pub fn new(sites: Vec<Site>) -> (r: SiteTable)
        ensures
            r.sites() == sites@,
    {
        SiteTable { sites }
    }

    pub fn len(&self) -> (r: usize)
        ensures
            r == self.sites().len(),
    {
        self.sites.len()
    }

    /// The site that the host name routes to, if any.
    pub fn route(&self, host: &str) -> (r: Option<&Site>)
        ensures
            r matches Some(s) ==> route_index(self.sites(), host@) matches Some(i) && *s
                == self.sites()[i],
            r is None <==> route_index(self.sites(), host@) is None,
    {
        let mut i: usize = self.sites.len();
        while i > 0
            invariant
                i <= self.sites@.len(),
                route_index(self.sites@, host@) == route_among(self.sites@, host@, i as int),
            decreases i,
        {
            let site = &self.sites[i - 1];
            if site_serves(site, host) {
                return Some(site);
            }
            i -= 1;
        }
        None
    }
}

fn site_serves(site: &Site, host: &str) -> (r: bool)
    ensures
        r == serves(*site, host@),
{
    let mut j: usize = 0;
    while j < site.hosts.len()
        invariant
            j <= site.hosts@.len(),
            forall|k: int| 0 <= k < j ==> !eq_ignore_case(#[trigger] site.hosts@[k]@, host@),
        decreases site.hosts@.len() - j,
    {
        if same_ignoring_case(site.hosts[j].as_str(), host) {
            return true;
        }
        j += 1;
    }
    false
}

proof fn lemma_serves_same(s: Site, a: Seq<char>, b: Seq<char>)
    requires
        eq_ignore_case(a, b),
    ensures
        serves(s, a) == serves(s, b),
{
    lemma_eq_ignore_case_sym(a, b);
    if serves(s, a) {
        let j = choose|j: int| 0 <= j < s.hosts@.len() && eq_ignore_case(#[trigger] s.hosts@[j]@, a);
        lemma_eq_ignore_case_trans(s.hosts@[j]@, a, b);
    }
    if serves(s, b) {
        let j = choose|j: int| 0 <= j < s.hosts@.len() && eq_ignore_case(#[trigger] s.hosts@[j]@, b);
        lemma_eq_ignore_case_trans(s.hosts@[j]@, b, a);
    }
}

proof fn lemma_route_among_same(sites: Seq<Site>, a: Seq<char>, b: Seq<char>, n: int)
    requires
        eq_ignore_case(a, b),
        n <= sites.len(),
    ensures
        route_among(sites, a, n) == route_among(sites, b, n),
    decreases n,
{
    if n > 0 {
        lemma_serves_same(sites[n - 1], a, b);
        lemma_route_among_same(sites, a, b, n - 1);
    }
}

/// Routing depends on the table and the host name alone, the name up to ASCII
/// case: looking up a name twice, or in another case, gives the same site.
pub proof fn lemma_route_stable(t: SiteTable, a: Seq<char>, b: Seq<char>)
    requires
        eq_ignore_case(a, b),
    ensures
        route_index(t.sites(), a) == route_index(t.sites(), b),
{
    lemma_route_among_same(t.sites(), a, b, t.sites().len() as int);
}

} // verus!
