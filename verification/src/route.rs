use vstd::prelude::*;

verus! {

/// One step of a swap route: the pool to trade through and the asset
/// that must come out of that pool.  A hop's input asset is implied by
/// the hop before it (or by the declared input asset of the whole
/// route, for the first hop).
#[derive(Debug, PartialEq, Eq)]
pub struct Hop {
    pub pool_id: u64,
    pub token_out_denom: String,
}

/// The mathematical value of a [`Hop`].
pub ghost struct HopView {
    pub pool_id: u64,
    pub token_out_denom: Seq<char>,
}

impl View for Hop {
    type V = HopView;

    open spec fn view(&self) -> HopView {
        HopView { pool_id: self.pool_id, token_out_denom: self.token_out_denom@ }
    }
}

impl DeepView for Hop {
    type V = HopView;

    open spec fn deep_view(&self) -> HopView {
        self.view()
    }
}

impl Clone for Hop {
    fn clone(&self) -> (r: Hop)
        ensures
            r == *self,
    {
        Hop { pool_id: self.pool_id, token_out_denom: self.token_out_denom.clone() }
    }
}

/// A quantity of one asset, as a trade caller supplies it.
#[derive(Debug, PartialEq, Eq)]
pub struct Coin {
    pub denom: String,
    pub amount: u128,
}

/// The mathematical value of a [`Coin`].
pub ghost struct CoinView {
    pub denom: Seq<char>,
    pub amount: u128,
}

impl View for Coin {
    type V = CoinView;

    open spec fn view(&self) -> CoinView {
        CoinView { denom: self.denom@, amount: self.amount }
    }
}

impl DeepView for Coin {
    type V = CoinView;

    open spec fn deep_view(&self) -> CoinView {
        self.view()
    }
}

impl Clone for Coin {
    fn clone(&self) -> (r: Coin)
        ensures
            r == *self,
    {
        Coin { denom: self.denom.clone(), amount: self.amount }
    }
}

/// Whether a pool whose liquidity lists the assets `pool` can accept
/// the asset `denom`: membership, nothing more.
pub open spec fn pool_holds(pool: Seq<Seq<char>>, denom: Seq<char>) -> bool {
    exists|i: int| 0 <= i < pool.len() && pool[i] == denom
}

/// The chained feasibility condition on a route, read against one
/// liquidity snapshot: starting from the asset `current`, every hop's
/// pool holds the asset fed into it, and after the last hop the
/// running asset equals `output`.  `pools[i]` is the liquidity of the
/// pool of `hops[i]`.  An empty route satisfies this exactly when
/// `current == output`.
pub open spec fn route_chains(
    current: Seq<char>,
    output: Seq<char>,
    hops: Seq<HopView>,
    pools: Seq<Seq<Seq<char>>>,
) -> bool
    decreases hops.len(),
{
    if hops.len() == 0 {
        current == output
    } else {
        pool_holds(pools[0], current) && route_chains(
            hops[0].token_out_denom,
            output,
            hops.skip(1),
            pools.skip(1),
        )
    }
}

/// Copy a route hop by hop.
pub fn clone_hops(v: &Vec<Hop>) -> (r: Vec<Hop>)
    ensures
        r@ == v@,
{
    let mut r: Vec<Hop> = Vec::new();
    let mut i: usize = 0;
    while i < v.len()
        invariant
            0 <= i <= v@.len(),
            r@.len() == i,
            forall|j: int| 0 <= j < i ==> r@[j] == v@[j],
        decreases v@.len() - i,
    {
        r.push(v[i].clone());
        i = i + 1;
    }
    assert(r@ =~= v@);
    r
}

} // verus!
