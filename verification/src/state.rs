use vstd::prelude::*;

use crate::route::{clone_hops, Hop, HopView};

verus! {

/// The persisted configuration: the one identity allowed to change
/// the routing table.  It is written at initialization and only read
/// afterwards.
pub struct State {
    pub owner: String,
}

/// One stored route together with the asset pair it serves.
struct RouteEntry {
    input_denom: String,
    output_denom: String,
    route: Vec<Hop>,
}

/// The key a stored route is filed under.
pub open spec fn route_key(input_denom: Seq<char>, output_denom: Seq<char>) -> (
    Seq<char>,
    Seq<char>,
) {
    (input_denom, output_denom)
}

spec fn entry_key(e: RouteEntry) -> (Seq<char>, Seq<char>) {
    (e.input_denom@, e.output_denom@)
}

/// What a lookup observes of a table value: the stored route for the
/// key, or absence.
pub open spec fn spec_get(
    m: Map<(Seq<char>, Seq<char>), Seq<HopView>>,
    k: (Seq<char>, Seq<char>),
) -> Option<Seq<HopView>> {
    if m.contains_key(k) {
        Some(m[k])
    } else {
        None
    }
}

spec fn entries_map(s: Seq<RouteEntry>) -> Map<(Seq<char>, Seq<char>), Seq<HopView>>
    decreases s.len(),
{
    if s.len() == 0 {
        Map::empty()
    } else {
        entries_map(s.drop_last()).insert(entry_key(s.last()), s.last().route.deep_view())
    }
}

spec fn entries_unique(s: Seq<RouteEntry>) -> bool {
    forall|i: int, j: int| 0 <= i < j < s.len() ==> entry_key(s[i]) != entry_key(s[j])
}

proof fn lemma_entries_map_domain(s: Seq<RouteEntry>)
    ensures
        forall|k: (Seq<char>, Seq<char>)|
            entries_map(s).contains_key(k) <==> exists|i: int|
                0 <= i < s.len() && entry_key(s[i]) == k,
    decreases s.len(),
{
    if s.len() > 0 {
        lemma_entries_map_domain(s.drop_last());
        assert forall|k: (Seq<char>, Seq<char>)| entries_map(s).contains_key(k) implies exists|
            i: int,
        | 0 <= i < s.len() && entry_key(s[i]) == k by {
            if k == entry_key(s.last()) {
                assert(entry_key(s[s.len() - 1]) == k);
            } else {
                assert(entries_map(s.drop_last()).contains_key(k));
                let i = choose|i: int| 0 <= i < s.drop_last().len() && entry_key(
                    s.drop_last()[i],
                ) == k;
                assert(s.drop_last()[i] == s[i]);
                assert(entry_key(s[i]) == k);
            }
        }
        assert forall|k: (Seq<char>, Seq<char>)|
            exists|i: int| 0 <= i < s.len() && entry_key(s[i]) == k implies entries_map(
            s,
        ).contains_key(k) by {
            let i = choose|i: int| 0 <= i < s.len() && entry_key(s[i]) == k;
            if i < s.len() - 1 {
                assert(s.drop_last()[i] == s[i]);
                assert(entry_key(s.drop_last()[i]) == k);
                assert(entries_map(s.drop_last()).contains_key(k));
            } else {
                assert(k == entry_key(s.last()));
            }
        }
    }
}

proof fn lemma_entries_map_value(s: Seq<RouteEntry>, i: int)
    requires
        entries_unique(s),
        0 <= i < s.len(),
    ensures
        entries_map(s).contains_key(entry_key(s[i])),
        entries_map(s)[entry_key(s[i])] == s[i].route.deep_view(),
    decreases s.len(),
{
    if i == s.len() - 1 {
    } else {
        assert(entry_key(s[i]) != entry_key(s[s.len() - 1]));
        assert(s.drop_last()[i] == s[i]);
        lemma_entries_map_value(s.drop_last(), i);
    }
}

proof fn lemma_entries_map_push(s: Seq<RouteEntry>, e: RouteEntry)
    ensures
        entries_map(s.push(e)) == entries_map(s).insert(entry_key(e), e.route.deep_view()),
{
    assert(s.push(e).drop_last() =~= s);
    assert(s.push(e).last() == e);
}

proof fn lemma_entries_map_update(s: Seq<RouteEntry>, i: int, e: RouteEntry)
    requires
        entries_unique(s),
        0 <= i < s.len(),
        entry_key(e) == entry_key(s[i]),
    ensures
        entries_map(s.update(i, e)) == entries_map(s).insert(entry_key(e), e.route.deep_view()),
    decreases s.len(),
{
    let t = s.update(i, e);
    if i == s.len() - 1 {
        assert(t.drop_last() =~= s.drop_last());
        assert(t.last() == e);
        assert(entries_map(s.drop_last()).insert(entry_key(s.last()), s.last().route.deep_view())
            .insert(entry_key(e), e.route.deep_view()) =~= entries_map(s.drop_last()).insert(
            entry_key(e),
            e.route.deep_view(),
        ));
    } else {
        assert(t.drop_last() =~= s.drop_last().update(i, e));
        assert(t.last() == s.last());
        assert(forall|x: int, y: int|
            0 <= x < y < s.drop_last().len() ==> entry_key(s.drop_last()[x]) != entry_key(
                s.drop_last()[y],
            ));
        assert(s.drop_last()[i] == s[i]);
        lemma_entries_map_update(s.drop_last(), i, e);
        assert(entry_key(e) != entry_key(s.last()));
        assert(entries_map(s.drop_last()).insert(entry_key(e), e.route.deep_view()).insert(
            entry_key(s.last()),
            s.last().route.deep_view(),
        ) =~= entries_map(s.drop_last()).insert(
            entry_key(s.last()),
            s.last().route.deep_view(),
        ).insert(entry_key(e), e.route.deep_view()));
    }
}

/// The table from asset pairs to stored routes.  It holds at most one
/// route per (input, output) pair; setting an existing pair replaces
/// the stored route, and no reverse route is ever derived.
pub struct RoutingTable {
    entries: Vec<RouteEntry>,
}

impl View for RoutingTable {
    type V = Map<(Seq<char>, Seq<char>), Seq<HopView>>;

    closed spec fn view(&self) -> Map<(Seq<char>, Seq<char>), Seq<HopView>> {
        entries_map(self.entries@)
    }
}

impl RoutingTable {
    /// The internal invariant: no asset pair is filed twice.
    pub closed spec fn wf(&self) -> bool {
        entries_unique(self.entries@)
    }

    /// An empty table.
    pub fn new() -> (t: RoutingTable)
        ensures
            t.wf(),
            t@ == Map::<(Seq<char>, Seq<char>), Seq<HopView>>::empty(),
    {
        RoutingTable { entries: Vec::new() }
    }

    /// Store `route` for the pair (`input_denom`, `output_denom`),
    /// replacing whatever was stored for that pair before.  The table
    /// does no validation of its own: the caller decides what may be
    /// stored.
    pub fn set(&mut self, input_denom: String, output_denom: String, route: Vec<Hop>)
        requires
            old(self).wf(),
        ensures
            final(self).wf(),
            final(self)@ == old(self)@.insert(
                route_key(input_denom@, output_denom@),
                route.deep_view(),
            ),
    {
        let ghost k = route_key(input_denom@, output_denom@);
        let n = self.entries.len();
        let mut i: usize = 0;
        while i < n
            invariant
                n == self.entries@.len(),
                0 <= i <= n,
                self.wf(),
                self@ == old(self)@,
                self.entries@ == old(self).entries@,
                k == route_key(input_denom@, output_denom@),
                forall|j: int| 0 <= j < i ==> entry_key(self.entries@[j]) != k,
            decreases n - i,
        {
            if self.entries[i].input_denom == input_denom && self.entries[i].output_denom
                == output_denom {
                let e = RouteEntry { input_denom, output_denom, route };
                proof {
                    lemma_entries_map_update(self.entries@, i as int, e);
                }
                self.entries[i] = e;
                proof {
                    assert forall|x: int, y: int|
                        0 <= x < y < self.entries@.len() implies entry_key(self.entries@[x])
                        != entry_key(self.entries@[y]) by {
                        assert(entry_key(old(self).entries@[x]) != entry_key(
                            old(self).entries@[y],
                        ));
                    }
                }
                return ;
            }
            i = i + 1;
        }
        let e = RouteEntry { input_denom, output_denom, route };
        proof {
            lemma_entries_map_push(self.entries@, e);
        }
        self.entries.push(e);
        proof {
            assert forall|x: int, y: int|
                0 <= x < y < self.entries@.len() implies entry_key(self.entries@[x]) != entry_key(
                self.entries@[y],
            ) by {
                if y < self.entries@.len() - 1 {
                    assert(entry_key(old(self).entries@[x]) != entry_key(old(self).entries@[y]));
                } else {
                    assert(entry_key(old(self).entries@[x]) != k);
                }
            }
        }
    }

    /// Look up the route most recently stored for the pair
    /// (`input_denom`, `output_denom`), or report its absence.  The
    /// table itself is never changed by a lookup.
    pub fn get(&self, input_denom: &String, output_denom: &String) -> (r: Option<Vec<Hop>>)
        requires
            self.wf(),
        ensures
            match r {
                Some(route) => self@.contains_key(route_key(input_denom@, output_denom@))
                    && route.deep_view() == self@[route_key(input_denom@, output_denom@)],
                None => !self@.contains_key(route_key(input_denom@, output_denom@)),
            },
    {
        let ghost k = route_key(input_denom@, output_denom@);
        let n = self.entries.len();
        let mut i: usize = 0;
        while i < n
            invariant
                n == self.entries@.len(),
                0 <= i <= n,
                self.wf(),
                k == route_key(input_denom@, output_denom@),
                forall|j: int| 0 <= j < i ==> entry_key(self.entries@[j]) != k,
            decreases n - i,
        {
            if self.entries[i].input_denom == *input_denom && self.entries[i].output_denom
                == *output_denom {
                proof {
                    lemma_entries_map_value(self.entries@, i as int);
                }
                return Some(clone_hops(&self.entries[i].route));
            }
            i = i + 1;
        }
        proof {
            lemma_entries_map_domain(self.entries@);
        }
        None
    }
}

} // verus!
