//! Joins the collateral and borrow records of a set of account addresses into
//! one list of normalised actions per address.

pub mod records;
pub mod response;
pub mod resolve;
pub mod laws;

pub use response::Response;
pub use resolve::{AddressLookup, resolve_actions, resolve_lookups};
pub use records::{
    Action, ActionKind, Borrowed, Collateral, LookupFailure, Request, borrowed_to_action,
    collateral_to_action, join_actions,
};
