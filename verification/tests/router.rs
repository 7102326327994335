use swaprouter::decimal::u128_to_decimal;
use swaprouter::error::ContractError;
use swaprouter::helpers::{
    check_is_contract_owner, generate_swap_msg, get_owner, get_route, set_route,
    validate_pool_route,
};
use swaprouter::msg::{ExecuteMsg, GetRouteResponse, InstantiateMsg, QueryMsg};
use swaprouter::route::{Coin, Hop};
use swaprouter::state::{RoutingTable, State};

fn hop(pool_id: u64, token_out_denom: &str) -> Hop {
    Hop {
        pool_id,
        token_out_denom: token_out_denom.to_string(),
    }
}

fn pool(denoms: &[&str]) -> Vec<String> {
    denoms.iter().map(|d| d.to_string()).collect()
}

#[test]
fn owner_check_accepts_owner() {
    let config = State {
        owner: "alice".to_string(),
    };
    assert_eq!(check_is_contract_owner(&config, &"alice".to_string()), Ok(()));
}

#[test]
fn owner_check_rejects_other_caller() {
    let config = State {
        owner: "alice".to_string(),
    };
    assert_eq!(
        check_is_contract_owner(&config, &"bob".to_string()),
        Err(ContractError::Unauthorized)
    );
}

#[test]
fn validate_single_hop_success() {
    // Pool 1 holds {uosmo, uatom}; one hop through it from uosmo to uatom.
    let r = validate_pool_route(
        "uosmo".to_string(),
        "uatom".to_string(),
        vec![hop(1, "uatom")],
        vec![pool(&["uosmo", "uatom"])],
    );
    assert_eq!(r, Ok(()));
}

#[test]
fn validate_trusts_declared_output_of_last_hop() {
    // Pool 1 never holds uusdc, but the last hop's declared output is
    // trusted, not re-checked against the pool.
    let r = validate_pool_route(
        "uosmo".to_string(),
        "uusdc".to_string(),
        vec![hop(1, "uusdc")],
        vec![pool(&["uosmo", "uatom"])],
    );
    assert_eq!(r, Ok(()));
}

#[test]
fn validate_fails_final_asset_check() {
    // The same hop, but the declared output disagrees with the last
    // hop's declared output asset.
    let r = validate_pool_route(
        "uosmo".to_string(),
        "uatom".to_string(),
        vec![hop(1, "uusdc")],
        vec![pool(&["uosmo", "uatom"])],
    );
    assert_eq!(r, Err(ContractError::InvalidPoolRoute));
}

#[test]
fn validate_fails_when_pool_lacks_input() {
    // Pool 2 holds {uatom, uusdc} only; it cannot take uosmo.
    let r = validate_pool_route(
        "uosmo".to_string(),
        "uusdc".to_string(),
        vec![hop(2, "uusdc")],
        vec![pool(&["uatom", "uusdc"])],
    );
    assert_eq!(r, Err(ContractError::InvalidPoolRoute));
}

#[test]
fn validate_two_hop_route() {
    let r = validate_pool_route(
        "uosmo".to_string(),
        "uusdc".to_string(),
        vec![hop(1, "uatom"), hop(2, "uusdc")],
        vec![pool(&["uosmo", "uatom"]), pool(&["uatom", "uusdc"])],
    );
    assert_eq!(r, Ok(()));
}

#[test]
fn validate_two_hop_route_broken_middle() {
    // The second pool does not hold the intermediate asset uatom.
    let r = validate_pool_route(
        "uosmo".to_string(),
        "uusdc".to_string(),
        vec![hop(1, "uatom"), hop(2, "uusdc")],
        vec![pool(&["uosmo", "uatom"]), pool(&["uion", "uusdc"])],
    );
    assert_eq!(r, Err(ContractError::InvalidPoolRoute));
}

#[test]
fn validate_empty_route_same_assets() {
    // The chosen policy for an empty route: accepted exactly when the
    // declared input equals the declared output.
    let r = validate_pool_route(
        "uosmo".to_string(),
        "uosmo".to_string(),
        Vec::new(),
        Vec::new(),
    );
    assert_eq!(r, Ok(()));
}

#[test]
fn validate_empty_route_different_assets() {
    let r = validate_pool_route(
        "uosmo".to_string(),
        "uatom".to_string(),
        Vec::new(),
        Vec::new(),
    );
    assert_eq!(r, Err(ContractError::InvalidPoolRoute));
}

#[test]
fn table_get_unset_key_is_none() {
    let table = RoutingTable::new();
    assert_eq!(
        table.get(&"uosmo".to_string(), &"uatom".to_string()),
        None
    );
}

#[test]
fn table_set_then_get() {
    let mut table = RoutingTable::new();
    table.set(
        "uosmo".to_string(),
        "uatom".to_string(),
        vec![hop(1, "uatom")],
    );
    assert_eq!(
        table.get(&"uosmo".to_string(), &"uatom".to_string()),
        Some(vec![hop(1, "uatom")])
    );
    // No reverse route is derived.
    assert_eq!(
        table.get(&"uatom".to_string(), &"uosmo".to_string()),
        None
    );
}

#[test]
fn table_set_twice_is_idempotent() {
    let mut once = RoutingTable::new();
    once.set(
        "uosmo".to_string(),
        "uatom".to_string(),
        vec![hop(1, "uatom")],
    );
    let mut twice = RoutingTable::new();
    twice.set(
        "uosmo".to_string(),
        "uatom".to_string(),
        vec![hop(1, "uatom")],
    );
    twice.set(
        "uosmo".to_string(),
        "uatom".to_string(),
        vec![hop(1, "uatom")],
    );
    assert_eq!(
        once.get(&"uosmo".to_string(), &"uatom".to_string()),
        twice.get(&"uosmo".to_string(), &"uatom".to_string())
    );
}

#[test]
fn table_set_overwrites() {
    let mut table = RoutingTable::new();
    table.set(
        "uosmo".to_string(),
        "uusdc".to_string(),
        vec![hop(1, "uusdc")],
    );
    table.set(
        "uosmo".to_string(),
        "uusdc".to_string(),
        vec![hop(1, "uatom"), hop(2, "uusdc")],
    );
    assert_eq!(
        table.get(&"uosmo".to_string(), &"uusdc".to_string()),
        Some(vec![hop(1, "uatom"), hop(2, "uusdc")])
    );
}

#[test]
fn set_route_rejects_non_owner() {
    let config = State {
        owner: "alice".to_string(),
    };
    let mut table = RoutingTable::new();
    let r = set_route(
        &config,
        &mut table,
        &"bob".to_string(),
        "uosmo".to_string(),
        "uatom".to_string(),
        vec![hop(1, "uatom")],
        vec![pool(&["uosmo", "uatom"])],
    );
    assert_eq!(r, Err(ContractError::Unauthorized));
    // The table is left unchanged.
    assert_eq!(
        table.get(&"uosmo".to_string(), &"uatom".to_string()),
        None
    );
}

#[test]
fn set_route_rejects_infeasible_route() {
    let config = State {
        owner: "alice".to_string(),
    };
    let mut table = RoutingTable::new();
    let r = set_route(
        &config,
        &mut table,
        &"alice".to_string(),
        "uosmo".to_string(),
        "uusdc".to_string(),
        vec![hop(2, "uusdc")],
        vec![pool(&["uatom", "uusdc"])],
    );
    assert_eq!(r, Err(ContractError::InvalidPoolRoute));
    assert_eq!(
        table.get(&"uosmo".to_string(), &"uusdc".to_string()),
        None
    );
}

#[test]
fn set_route_stores_validated_route() {
    let config = State {
        owner: "alice".to_string(),
    };
    let mut table = RoutingTable::new();
    let r = set_route(
        &config,
        &mut table,
        &"alice".to_string(),
        "uosmo".to_string(),
        "uatom".to_string(),
        vec![hop(1, "uatom")],
        vec![pool(&["uosmo", "uatom"])],
    );
    assert_eq!(r, Ok(()));
    assert_eq!(
        table.get(&"uosmo".to_string(), &"uatom".to_string()),
        Some(vec![hop(1, "uatom")])
    );
}

#[test]
fn build_for_unset_key_is_route_not_found() {
    let table = RoutingTable::new();
    let r = generate_swap_msg(
        &table,
        "alice".to_string(),
        Coin {
            denom: "uosmo".to_string(),
            amount: 100,
        },
        Coin {
            denom: "uatom".to_string(),
            amount: 1,
        },
    );
    assert_eq!(r.err(), Some(ContractError::RouteNotFound));
    // A failed build has no observable side effect: the table still
    // answers as before.
    assert_eq!(
        table.get(&"uosmo".to_string(), &"uatom".to_string()),
        None
    );
}

#[test]
fn build_assembles_request_from_stored_route() {
    let mut table = RoutingTable::new();
    table.set(
        "uosmo".to_string(),
        "uusdc".to_string(),
        vec![hop(1, "uatom"), hop(2, "uusdc")],
    );
    let r = generate_swap_msg(
        &table,
        "alice".to_string(),
        Coin {
            denom: "uosmo".to_string(),
            amount: 100,
        },
        Coin {
            denom: "uusdc".to_string(),
            amount: 42,
        },
    )
    .unwrap();
    assert_eq!(r.sender, "alice");
    assert_eq!(r.routes, vec![hop(1, "uatom"), hop(2, "uusdc")]);
    assert_eq!(r.token_in_denom, "uosmo");
    assert_eq!(r.token_in_amount, "100");
    assert_eq!(r.token_out_min_amount, "42");
}

#[test]
fn get_owner_reports_stored_identity() {
    let config = State {
        owner: "alice".to_string(),
    };
    assert_eq!(get_owner(&config).owner, "alice");
}

#[test]
fn get_route_answers_stored_pair_only() {
    let mut table = RoutingTable::new();
    table.set(
        "uosmo".to_string(),
        "uatom".to_string(),
        vec![hop(1, "uatom")],
    );
    assert_eq!(
        get_route(&table, &"uosmo".to_string(), &"uatom".to_string()),
        Ok(GetRouteResponse {
            pool_route: vec![hop(1, "uatom")],
        })
    );
    assert_eq!(
        get_route(&table, &"uatom".to_string(), &"uosmo".to_string()),
        Err(ContractError::RouteNotFound)
    );
}

#[test]
fn messages_carry_their_fields() {
    let init = InstantiateMsg {
        owner: "alice".to_string(),
    };
    assert_eq!(init.owner, "alice");
    let exec = ExecuteMsg::SetRoute {
        input_denom: "uosmo".to_string(),
        output_denom: "uatom".to_string(),
        pool_route: vec![hop(1, "uatom")],
    };
    let ExecuteMsg::SetRoute {
        input_denom,
        output_denom,
        pool_route,
    } = exec;
    assert_eq!(input_denom, "uosmo");
    assert_eq!(output_denom, "uatom");
    assert_eq!(pool_route, vec![hop(1, "uatom")]);
    let query = QueryMsg::GetRoute {
        input_denom: "uosmo".to_string(),
        output_denom: "uatom".to_string(),
    };
    assert_ne!(query, QueryMsg::GetOwner {});
}

#[test]
fn decimal_rendering_is_exact() {
    assert_eq!(u128_to_decimal(0), "0");
    assert_eq!(u128_to_decimal(7), "7");
    assert_eq!(u128_to_decimal(10), "10");
    assert_eq!(u128_to_decimal(1000), "1000");
    assert_eq!(u128_to_decimal(12345), "12345");
    assert_eq!(
        u128_to_decimal(u128::MAX),
        "340282366920938463463374607431768211455"
    );
}
