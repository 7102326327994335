use vstd::prelude::*;

use crate::route::Hop;

verus! {

/// The request that creates the router: it names the identity that
/// will be allowed to change the routing table.
#[derive(Clone, Debug, PartialEq)]
pub struct InstantiateMsg {
    pub owner: String,
}

/// The mutating requests the router accepts.
#[derive(Clone, Debug, PartialEq)]
pub enum ExecuteMsg {
    /// Propose a route for one asset pair; only the stored owner may
    /// do this, and the route is checked before it is stored.
    SetRoute { input_denom: String, output_denom: String, pool_route: Vec<Hop> },
}

/// The read-only requests the router answers.
#[derive(Clone, Debug, PartialEq)]
pub enum QueryMsg {
    GetOwner {},
    GetRoute { input_denom: String, output_denom: String },
}

/// The answer to [`QueryMsg::GetOwner`].
#[derive(Clone, Debug, PartialEq)]
pub struct GetOwnerResponse {
    pub owner: String,
}

/// The answer to [`QueryMsg::GetRoute`].
#[derive(Clone, Debug, PartialEq)]
pub struct GetRouteResponse {
    pub pool_route: Vec<Hop>,
}

} // verus!
