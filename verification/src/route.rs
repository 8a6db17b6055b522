//! The static route table: inbound host names mapped to target hosts.

use vstd::prelude::*;

verus! {

/// `n` is the length of the host name in `host`: no colon stands before
/// position `n`, and `n` is either the end of `host` or the place of its
/// first colon.
pub open spec fn is_name_len(host: Seq<char>, n: int) -> bool {
    &&& 0 <= n <= host.len()
    &&& forall|i: int| 0 <= i < n ==> host[i] != ':'
    &&& (n < host.len() ==> host[n] == ':')
}

/// The length of the host name that `host` starts with.
pub open spec fn name_len(host: Seq<char>) -> int {
    choose|n: int| is_name_len(host, n)
}

/// `host` without its port suffix: everything before the first colon, or all
/// of `host` where it holds no colon.
pub open spec fn strip_port(host: Seq<char>) -> Seq<char> {
    host.take(name_len(host))
}

/// At most one length is the host name's length.
pub proof fn lemma_name_len_unique(host: Seq<char>, n: int, m: int)
    requires
        is_name_len(host, n),
        is_name_len(host, m),
    ensures
        n == m,
{
    if n < m {
        assert(host[n] == ':');
    } else if m < n {
        assert(host[m] == ':');
    }
}

/// Once a length is known to be the host name's, `strip_port` is the prefix
/// of that length.
pub proof fn lemma_strip_port_at(host: Seq<char>, n: int)
    requires
        is_name_len(host, n),
    ensures
        strip_port(host) == host.take(n),
{
    lemma_name_len_unique(host, n, name_len(host));
}

/// Stripping the port is idempotent: the stripped host holds no colon, and
/// stripping it again changes nothing.
pub proof fn law_strip_port_idempotent(host: Seq<char>)
    ensures
        forall|i: int| 0 <= i < strip_port(host).len() ==> strip_port(host)[i] != ':',
        strip_port(strip_port(host)) == strip_port(host),
        strip_port(host).len() <= host.len(),
{
    let n = first_colon_or_end(host);
    lemma_strip_port_at(host, n);
    let name = host.take(n);
    assert(is_name_len(name, n));
    lemma_strip_port_at(name, n);
    assert(name.take(n) =~= name);
}

/// Every host has a host name's length: walking from the left finds it.
proof fn first_colon_or_end(host: Seq<char>) -> (n: int)
    ensures
        is_name_len(host, n),
    decreases host.len(),
{
    if host.len() == 0 {
        0
    } else if host[0] == ':' {
        0
    } else {
        let rest = host.skip(1);
        let k = first_colon_or_end(rest);
        assert forall|i: int| 0 <= i < k + 1 implies host[i] != ':' by {
            if i > 0 {
                assert(rest[i - 1] == host[i]);
            }
        }
        if k + 1 < host.len() {
            assert(rest[k] == host[k + 1]);
        }
        k + 1
    }
}

/// Strips the port suffix from a host header's value.
pub fn normalize_host(host: &str) -> (name: String)
    ensures
        name@ == strip_port(host@),
{
    let n: usize = host.unicode_len();
    let mut i: usize = 0;
    while i < n && host.get_char(i) != ':'
        invariant
            i <= n,
            n == host@.len(),
            forall|j: int| 0 <= j < i ==> host@[j] != ':',
        decreases n - i,
    {
        i += 1;
    }
    proof {
        lemma_strip_port_at(host@, i as int);
    }
    String::from_str(host.substring_char(0, i))
}

/// One entry of the route table.
#[derive(Debug, PartialEq, Eq)]
pub struct Route {
    pub inbound_host: String,
    pub target_host: String,
}

/// The mapping from inbound host names to target hosts. Keys are unique and
/// matched exactly.
pub struct RouteTable {
    routes: Vec<Route>,
}

impl RouteTable {
    /// No two entries share an inbound host.
    pub closed spec fn well_formed(&self) -> bool {
        forall|i: int, j: int|
            0 <= i < j < self.routes@.len() ==> self.routes@[i].inbound_host@
                != self.routes@[j].inbound_host@
    }

    /// Whether entry `i` is the one for `host`.
    closed spec fn entry_for(&self, host: Seq<char>, i: int) -> bool {
        0 <= i < self.routes@.len() && self.routes@[i].inbound_host@ == host
    }

    /// The table as a map from inbound host to target host.
    pub closed spec fn view(&self) -> Map<Seq<char>, Seq<char>> {
        Map::new(
            |host: Seq<char>| exists|i: int| self.entry_for(host, i),
            |host: Seq<char>| self.routes@[choose|i: int| self.entry_for(host, i)].target_host@,
        )
    }

    /// The target that a host header resolves to, if the table has a route for it.
    pub open spec fn resolve_spec(&self, host: Seq<char>) -> Option<Seq<char>> {
        let name = strip_port(host);
        if self@.contains_key(name) {
            Some(self@[name])
        } else {
            None
        }
    }

    /// Resolution disregards the port: a host header resolves as its host
    /// name alone does.
    pub proof fn law_resolution_disregards_port(&self, host: Seq<char>)
        ensures
            self.resolve_spec(host) == self.resolve_spec(strip_port(host)),
    {
        law_strip_port_idempotent(host);
    }

    proof fn lemma_entry(&self, host: Seq<char>, i: int)
        requires
            self.well_formed(),
            self.entry_for(host, i),
        ensures
            self@.contains_key(host),
            self@[host] == self.routes@[i].target_host@,
    {
        let j = choose|j: int| self.entry_for(host, j);
        assert(i == j);
    }

    /// An empty table.
    pub fn new() -> (table: RouteTable)
        ensures
            table.well_formed(),
            table@ == Map::<Seq<char>, Seq<char>>::empty(),
    {
        let table = RouteTable { routes: Vec::new() };
        assert(table@ =~= Map::<Seq<char>, Seq<char>>::empty());
        table
    }

    /// The number of routes.
    pub fn len(&self) -> (n: usize)
        requires
            self.well_formed(),
        ensures
            n == self@.len(),
            self@.dom().finite(),
    {
        proof {
            self.lemma_len(self.routes@.len() as int);
        }
        self.routes.len()
    }

    /// The hosts of the first `n` entries.
    closed spec fn keys_upto(&self, n: int) -> Set<Seq<char>> {
        Set::new(|host: Seq<char>| exists|i: int| 0 <= i < n && self.entry_for(host, i))
    }

    proof fn lemma_len(&self, n: int)
        requires
            self.well_formed(),
            0 <= n <= self.routes@.len(),
        ensures
            self.keys_upto(n).finite(),
            self.keys_upto(n).len() == n,
            n == self.routes@.len() ==> self@.dom() == self.keys_upto(n),
        decreases n,
    {
        if n == 0 {
            assert(self.keys_upto(0) =~= Set::<Seq<char>>::empty());
        } else {
            self.lemma_len(n - 1);
            let k = self.routes@[n - 1].inbound_host@;
            assert(self.entry_for(k, n - 1));
            assert(self.keys_upto(n) =~= self.keys_upto(n - 1).insert(k)) by {
                assert forall|h: Seq<char>| self.keys_upto(n - 1).insert(k).contains(h)
                    implies self.keys_upto(n).contains(h) by {
                    if h == k {
                        assert(self.entry_for(h, n - 1));
                    } else {
                        let i = choose|i: int| 0 <= i < n - 1 && self.entry_for(h, i);
                        assert(0 <= i < n && self.entry_for(h, i));
                    }
                }
                assert forall|h: Seq<char>| self.keys_upto(n).contains(h)
                    implies self.keys_upto(n - 1).insert(k).contains(h) by {
                    let i = choose|i: int| 0 <= i < n && self.entry_for(h, i);
                    if i < n - 1 {
                        assert(0 <= i < n - 1 && self.entry_for(h, i));
                    }
                }
            }
            if self.keys_upto(n - 1).contains(k) {
                let i = choose|i: int| 0 <= i < n - 1 && self.entry_for(k, i);
                assert(false);
            }
        }
        if n == self.routes@.len() {
            assert(self@.dom() =~= self.keys_upto(n)) by {
                assert forall|h: Seq<char>| self@.dom().contains(h) implies self.keys_upto(
                    n,
                ).contains(h) by {
                    let i = choose|i: int| self.entry_for(h, i);
                    assert(0 <= i < n && self.entry_for(h, i));
                }
            }
        }
    }

    /// The index of the entry whose inbound host is exactly `name`.
    fn find(&self, name: &String) -> (found: Option<usize>)
        requires
            self.well_formed(),
        ensures
            match found {
                Some(i) => self.entry_for(name@, i as int),
                None => !self@.contains_key(name@),
            },
    {
        let mut i: usize = 0;
        while i < self.routes.len()
            invariant
                i <= self.routes@.len(),
                forall|j: int| 0 <= j < i ==> !self.entry_for(name@, j),
            decreases self.routes@.len() - i,
        {
            if self.routes[i].inbound_host == *name {
                return Some(i);
            }
            i += 1;
        }
        None
    }

    /// Adds the route from `inbound_host` to `target_host`, replacing the
    /// route that `inbound_host` had, whose target is returned.
    pub fn insert(&mut self, inbound_host: String, target_host: String) -> (previous: Option<String>)
        requires
            old(self).well_formed(),
        ensures
            final(self).well_formed(),
            final(self)@ == old(self)@.insert(inbound_host@, target_host@),
            match previous {
                Some(target) => old(self)@.contains_key(inbound_host@) && target@ == old(self)@[inbound_host@],
                None => !old(self)@.contains_key(inbound_host@),
            },
    {
        let ghost before = *self;
        let ghost key = inbound_host@;
        let ghost val = target_host@;
        match self.find(&inbound_host) {
            Some(i) => {
                let previous = self.routes[i].target_host.clone();
                proof {
                    before.lemma_entry(key, i as int);
                }
                self.routes.set(i, Route { inbound_host, target_host });
                proof {
                    assert(self.well_formed());
                    assert forall|h: Seq<char>| #[trigger] before@.insert(key, val).contains_key(h)
                        implies self@.contains_key(h) && self@[h] == before@.insert(key, val)[h] by {
                        if h == key {
                            assert(self.entry_for(h, i as int));
                            self.lemma_entry(h, i as int);
                        } else {
                            let j = choose|j: int| before.entry_for(h, j);
                            before.lemma_entry(h, j);
                            assert(self.entry_for(h, j));
                            self.lemma_entry(h, j);
                        }
                    }
                    assert forall|h: Seq<char>| self@.contains_key(h)
                        implies #[trigger] before@.insert(key, val).contains_key(h) by {
                        let j = choose|j: int| self.entry_for(h, j);
                        if j != i {
                            assert(before.entry_for(h, j));
                        }
                    }
                    assert(self@ =~= before@.insert(key, val));
                }
                Some(previous)
            },
            None => {
                self.routes.push(Route { inbound_host, target_host });
                proof {
                    let n = before.routes@.len() as int;
                    assert forall|i: int, j: int| 0 <= i < j < self.routes@.len()
                        implies self.routes@[i].inbound_host@ != self.routes@[j].inbound_host@ by {
                        if j == n {
                            if self.routes@[i].inbound_host@ == key {
                                assert(before.entry_for(key, i));
                            }
                        }
                    }
                    assert forall|h: Seq<char>| #[trigger] before@.insert(key, val).contains_key(h)
                        implies self@.contains_key(h) && self@[h] == before@.insert(key, val)[h] by {
                        if h == key {
                            assert(self.entry_for(h, n));
                            self.lemma_entry(h, n);
                        } else {
                            let j = choose|j: int| before.entry_for(h, j);
                            before.lemma_entry(h, j);
                            assert(self.entry_for(h, j));
                            self.lemma_entry(h, j);
                        }
                    }
                    assert forall|h: Seq<char>| self@.contains_key(h)
                        implies #[trigger] before@.insert(key, val).contains_key(h) by {
                        let j = choose|j: int| self.entry_for(h, j);
                        if j != n {
                            assert(before.entry_for(h, j));
                        }
                    }
                    assert(self@ =~= before@.insert(key, val));
                }
                None
            },
        }
    }

    /// Whether the table has a route for the host header `host`, port
    /// suffix disregarded.
    pub fn contains(&self, host: &str) -> (known: bool)
        requires
            self.well_formed(),
        ensures
            known == self@.contains_key(strip_port(host@)),
    {
        let name = normalize_host(host);
        match self.find(&name) {
            Some(i) => {
                proof {
                    self.lemma_entry(name@, i as int);
                }
                true
            },
            None => false,
        }
    }

    /// Looks up the route for the host header `host`: the port suffix is
    /// stripped, and what is left must equal a route's inbound host exactly.
    pub fn resolve(&self, host: &str) -> (route: Option<Route>)
        requires
            self.well_formed(),
        ensures
            match route {
                Some(r) => {
                    &&& self@.contains_key(strip_port(host@))
                    &&& r.inbound_host@ == strip_port(host@)
                    &&& r.target_host@ == self@[strip_port(host@)]
                },
                None => !self@.contains_key(strip_port(host@)),
            },
            route.is_some() == self.resolve_spec(host@).is_some(),
    {
        let name = normalize_host(host);
        match self.find(&name) {
            Some(i) => {
                proof {
                    self.lemma_entry(name@, i as int);
                }
                let target_host = self.routes[i].target_host.clone();
                Some(Route { inbound_host: name, target_host })
            },
            None => None,
        }
    }
}

} // verus!
