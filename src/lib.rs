//! A registry of NFT canister descriptors administered by a single controller.

pub mod principal;
pub mod url;
pub mod nft;
pub mod common_types;
pub mod laws;
