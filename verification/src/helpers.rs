use vstd::prelude::*;

use crate::decimal::{spec_decimal, u128_to_decimal};
use crate::error::ContractError;
use crate::msg::{GetOwnerResponse, GetRouteResponse};
use crate::route::{pool_holds, route_chains, Coin, Hop};
use crate::state::{route_key, RoutingTable, State};

verus! {

/// The ledger-facing swap request.  Amounts are carried as exact
/// decimal strings so that nothing is rounded at the ledger boundary.
pub struct SwapRequest {
    pub sender: String,
    pub routes: Vec<Hop>,
    pub token_in_denom: String,
    pub token_in_amount: String,
    pub token_out_min_amount: String,
}

/// Permission gate for every mutating call: succeeds exactly when the
/// caller is the stored owner.
pub fn check_is_contract_owner(config: &State, sender: &String) -> (r: Result<(), ContractError>)
    ensures
        r == if config.owner@ == sender@ {
            Result::<(), ContractError>::Ok(())
        } else {
            Result::<(), ContractError>::Err(ContractError::Unauthorized)
        },
{
    if config.owner == *sender {
        Ok(())
    } else {
        Err(ContractError::Unauthorized)
    }
}

/// Whether the liquidity list `pool` contains the asset `denom`.
fn pool_contains_denom(pool: &Vec<String>, denom: &String) -> (b: bool)
    ensures
        b == pool_holds(pool.deep_view(), denom@),
{
    let n = pool.len();
    let mut i: usize = 0;
    while i < n
        invariant
            n == pool@.len(),
            0 <= i <= n,
            forall|j: int| 0 <= j < i ==> pool.deep_view()[j] != denom@,
        decreases n - i,
    {
        if pool[i] == *denom {
            assert(pool.deep_view()[i as int] == denom@);
            return true;
        }
        i = i + 1;
    }
    false
}

/// Check that a proposed route is actually plumbed through pools that
/// hold the right assets.  `pool_liquidity[i]` is the liquidity
/// snapshot of the pool of `pool_route[i]`, as the oracle reported it
/// for this one validation call.
///
/// The check is intentionally shallow: each pool is only asked to hold
/// the asset fed into it, and each hop's declared output asset is
/// trusted as the conduit to the next hop rather than re-derived from
/// the pool's holdings.  In particular the last hop's declared output
/// is never checked against its pool, and an empty route is accepted
/// exactly when the declared input equals the declared output.
pub fn validate_pool_route(
    input_denom: String,
    output_denom: String,
    pool_route: Vec<Hop>,
    pool_liquidity: Vec<Vec<String>>,
) -> (r: Result<(), ContractError>)
    requires
        pool_liquidity@.len() == pool_route@.len(),
    ensures
        r == if route_chains(input_denom@, output_denom@, pool_route.deep_view(),
        pool_liquidity.deep_view()) {
            Result::<(), ContractError>::Ok(())
        } else {
            Result::<(), ContractError>::Err(ContractError::InvalidPoolRoute)
        },
{
    let ghost hops = pool_route.deep_view();
    let ghost pools = pool_liquidity.deep_view();
    let n = pool_route.len();
    let mut current_denom = input_denom.clone();
    let mut i: usize = 0;
    assert(hops.skip(0) =~= hops);
    assert(pools.skip(0) =~= pools);
    while i < n
        invariant
            n == pool_route@.len(),
            0 <= i <= n,
            hops == pool_route.deep_view(),
            pools == pool_liquidity.deep_view(),
            pools.len() == hops.len(),
            route_chains(input_denom@, output_denom@, hops, pools) == route_chains(
                current_denom@,
                output_denom@,
                hops.skip(i as int),
                pools.skip(i as int),
            ),
        decreases n - i,
    {
        proof {
            assert(hops.skip(i as int).len() > 0);
            assert(hops.skip(i as int)[0] == hops[i as int]);
            assert(pools.skip(i as int)[0] == pools[i as int]);
            assert(pools[i as int] == pool_liquidity@[i as int].deep_view());
        }
        if !pool_contains_denom(&pool_liquidity[i], &current_denom) {
            proof {
                assert(!pool_holds(pools[i as int], current_denom@));
                assert(!route_chains(
                    current_denom@,
                    output_denom@,
                    hops.skip(i as int),
                    pools.skip(i as int),
                ));
            }
            return Err(ContractError::InvalidPoolRoute);
        }
        let next_denom = pool_route[i].token_out_denom.clone();
        proof {
            assert(hops.skip(i as int).skip(1) =~= hops.skip(i as int + 1));
            assert(pools.skip(i as int).skip(1) =~= pools.skip(i as int + 1));
            assert(next_denom@ == hops[i as int].token_out_denom);
        }
        current_denom = next_denom;
        i = i + 1;
    }
    proof {
        assert(hops.skip(n as int) =~= Seq::<crate::route::HopView>::empty());
        assert(pools.skip(n as int) =~= Seq::<Seq<Seq<char>>>::empty());
    }
    if current_denom == output_denom {
        Ok(())
    } else {
        Err(ContractError::InvalidPoolRoute)
    }
}

/// The owner-gated "set route" operation: authorize the caller, check
/// the proposed route against the liquidity snapshot, and only then
/// store it.  On any failure the table is left exactly as it was.
pub fn set_route(
    config: &State,
    table: &mut RoutingTable,
    sender: &String,
    input_denom: String,
    output_denom: String,
    pool_route: Vec<Hop>,
    pool_liquidity: Vec<Vec<String>>,
) -> (r: Result<(), ContractError>)
    requires
        old(table).wf(),
        pool_liquidity@.len() == pool_route@.len(),
    ensures
        final(table).wf(),
        config.owner@ != sender@ ==> r == Result::<(), ContractError>::Err(
            ContractError::Unauthorized,
        ) && final(table)@ == old(table)@,
        config.owner@ == sender@ && !route_chains(input_denom@, output_denom@,
        pool_route.deep_view(), pool_liquidity.deep_view()) ==> r == Result::<
            (),
            ContractError,
        >::Err(ContractError::InvalidPoolRoute) && final(table)@ == old(table)@,
        config.owner@ == sender@ && route_chains(input_denom@, output_denom@,
        pool_route.deep_view(), pool_liquidity.deep_view()) ==> r == Result::<
            (),
            ContractError,
        >::Ok(()) && final(table)@ == old(table)@.insert(
            route_key(input_denom@, output_denom@),
            pool_route.deep_view(),
        ),
{
    check_is_contract_owner(config, sender)?;
    let input_copy = input_denom.clone();
    let output_copy = output_denom.clone();
    let route_copy = crate::route::clone_hops(&pool_route);
    validate_pool_route(input_copy, output_copy, route_copy, pool_liquidity)?;
    table.set(input_denom, output_denom, pool_route);
    Ok(())
}

/// Build the ledger-facing swap request for a trade intent: look the
/// route up under (input asset, output asset) and assemble the
/// request, or report that no route is stored for that pair.  The
/// table is only read; a failed build changes nothing.
pub fn generate_swap_msg(
    table: &RoutingTable,
    sender: String,
    input_token: Coin,
    min_output_token: Coin,
) -> (r: Result<SwapRequest, ContractError>)
    requires
        table.wf(),
    ensures
        table@.contains_key(route_key(input_token.denom@, min_output_token.denom@)) ==> (r matches
        Ok(m) && m.sender@ == sender@ && m.routes.deep_view() == table@[route_key(
            input_token.denom@,
            min_output_token.denom@,
        )] && m.token_in_denom@ == input_token.denom@ && m.token_in_amount@ == spec_decimal(
            input_token.amount as int,
        ) && m.token_out_min_amount@ == spec_decimal(min_output_token.amount as int)),
        !table@.contains_key(route_key(input_token.denom@, min_output_token.denom@)) ==> (r
            matches Err(e) && e == ContractError::RouteNotFound),
{
    let route = match table.get(&input_token.denom, &min_output_token.denom) {
        Some(route) => route,
        None => {
            return Err(ContractError::RouteNotFound);
        },
    };
    Ok(
        SwapRequest {
            sender,
            routes: route,
            token_in_denom: input_token.denom,
            token_in_amount: u128_to_decimal(input_token.amount),
            token_out_min_amount: u128_to_decimal(min_output_token.amount),
        },
    )
}

/// Answer the read-only owner query.  Reads are never gated.
pub fn get_owner(config: &State) -> (r: GetOwnerResponse)
    ensures
        r.owner@ == config.owner@,
{
    GetOwnerResponse { owner: config.owner.clone() }
}

/// Answer the read-only route query for one asset pair.
pub fn get_route(table: &RoutingTable, input_denom: &String, output_denom: &String) -> (r: Result<
    GetRouteResponse,
    ContractError,
>)
    requires
        table.wf(),
    ensures
        table@.contains_key(route_key(input_denom@, output_denom@)) ==> (r matches Ok(resp)
            && resp.pool_route.deep_view() == table@[route_key(input_denom@, output_denom@)]),
        !table@.contains_key(route_key(input_denom@, output_denom@)) ==> (r matches Err(e) && e
            == ContractError::RouteNotFound),
{
    match table.get(input_denom, output_denom) {
        Some(route) => Ok(GetRouteResponse { pool_route: route }),
        None => Err(ContractError::RouteNotFound),
    }
}

} // verus!
