use vstd::prelude::*;
use crate::principal::Principal;

pub use crate::nft::{DetailValue, OperationError};

verus! {

/// The descriptor of a registered token canister.
#[derive(Debug)]
pub struct Token {
    pub name: String,
    pub description: String,
    pub thumbnail: String,
    pub frontend: Option<String>,
    pub principal_id: Principal,
    pub details: Vec<(String, DetailValue)>,
}

} // verus!
