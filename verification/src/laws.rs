use vstd::prelude::*;

use crate::route::{pool_holds, route_chains, HopView};
use crate::state::spec_get;

verus! {

/// The asset fed into hop `i` of a route: the declared input asset
/// for the first hop, and the previous hop's declared output asset
/// for every later one.
pub open spec fn hop_input(input: Seq<char>, hops: Seq<HopView>, i: int) -> Seq<char> {
    if i == 0 {
        input
    } else {
        hops[i - 1].token_out_denom
    }
}

/// The validator's condition, spelled hop by hop: a route chains from
/// `input` to `output` exactly when every hop's pool holds the asset
/// fed into that hop, and the last hop's declared output asset equals
/// `output` (for an empty route: when `input` equals `output`).  This
/// is the condition [`crate::helpers::validate_pool_route`] decides.
pub proof fn lemma_route_chains_hop_by_hop(
    input: Seq<char>,
    output: Seq<char>,
    hops: Seq<HopView>,
    pools: Seq<Seq<Seq<char>>>,
)
    requires
        pools.len() == hops.len(),
    ensures
        route_chains(input, output, hops, pools) <==> ((forall|i: int|
            0 <= i < hops.len() ==> pool_holds(#[trigger] pools[i], hop_input(input, hops, i)))
            && if hops.len() == 0 {
            input == output
        } else {
            hops.last().token_out_denom == output
        }),
    decreases hops.len(),
{
    if hops.len() > 0 {
        let tail_input = hops[0].token_out_denom;
        let tail_hops = hops.skip(1);
        let tail_pools = pools.skip(1);
        lemma_route_chains_hop_by_hop(tail_input, output, tail_hops, tail_pools);
        if hops.len() > 1 {
            assert(tail_hops.last() == hops.last());
        }
        assert forall|i: int|
            0 <= i < tail_hops.len() && (forall|j: int|
                0 <= j < hops.len() ==> pool_holds(
                    #[trigger] pools[j],
                    hop_input(input, hops, j),
                )) implies pool_holds(#[trigger] tail_pools[i], hop_input(
            tail_input,
            tail_hops,
            i,
        )) by {
            assert(tail_pools[i] == pools[i + 1]);
            assert(hop_input(tail_input, tail_hops, i) == hop_input(input, hops, i + 1));
            assert(pool_holds(pools[i + 1], hop_input(input, hops, i + 1)));
        }
        assert forall|i: int|
            0 <= i < hops.len() && pool_holds(pools[0], input) && (forall|j: int|
                0 <= j < tail_hops.len() ==> pool_holds(
                    #[trigger] tail_pools[j],
                    hop_input(tail_input, tail_hops, j),
                )) implies pool_holds(#[trigger] pools[i], hop_input(input, hops, i)) by {
            if i > 0 {
                assert(tail_pools[i - 1] == pools[i]);
                assert(hop_input(tail_input, tail_hops, i - 1) == hop_input(input, hops, i));
                assert(pool_holds(tail_pools[i - 1], hop_input(tail_input, tail_hops, i - 1)));
            }
        }
    }
}

/// Setting the same key to the same route twice leaves the table in
/// the same state as setting it once, so every later lookup — of that
/// key or of any other — observes the same result.  `m` is a table
/// value as [`crate::state::RoutingTable`] exposes it through its
/// view, and [`crate::state::RoutingTable::set`] turns the table's
/// view into exactly `m.insert(k, r)`.
pub proof fn lemma_set_idempotent(
    m: Map<(Seq<char>, Seq<char>), Seq<HopView>>,
    k: (Seq<char>, Seq<char>),
    r: Seq<HopView>,
)
    ensures
        m.insert(k, r).insert(k, r) == m.insert(k, r),
        forall|q: (Seq<char>, Seq<char>)|
            spec_get(m.insert(k, r).insert(k, r), q) == spec_get(m.insert(k, r), q),
{
    assert(m.insert(k, r).insert(k, r) =~= m.insert(k, r));
}

/// Setting a key overwrites: after storing `r1` and then `r2` under
/// the same key, a lookup of that key observes `r2` and never `r1`,
/// and every other key is untouched.
pub proof fn lemma_set_overwrites(
    m: Map<(Seq<char>, Seq<char>), Seq<HopView>>,
    k: (Seq<char>, Seq<char>),
    r1: Seq<HopView>,
    r2: Seq<HopView>,
)
    ensures
        m.insert(k, r1).insert(k, r2) == m.insert(k, r2),
        spec_get(m.insert(k, r1).insert(k, r2), k) == Some(r2),
        forall|q: (Seq<char>, Seq<char>)|
            q != k ==> spec_get(m.insert(k, r1).insert(k, r2), q) == spec_get(m, q),
{
    assert(m.insert(k, r1).insert(k, r2) =~= m.insert(k, r2));
}

} // verus!
