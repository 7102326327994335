use vstd::prelude::*;

verus! {

/// The errors the router surfaces to its callers.
///
/// Every error is terminal for the enclosing operation: nothing is
/// retried and no partial state change is left behind.
#[derive(Clone, Copy, Debug, PartialEq, Eq, Structural)]
pub enum ContractError {
    /// The caller of a mutating operation is not the stored owner.
    Unauthorized,
    /// A proposed route fails the hop-liquidity check or does not end
    /// at the declared output asset.
    InvalidPoolRoute,
    /// No route is stored for the requested asset pair.
    RouteNotFound,
}

} // verus!
