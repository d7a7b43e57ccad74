//! Requests that a provider takes on behalf of a community oracle, and what
//! it answers. They are plain records; what is done with them is up to the
//! caller.

use vstd::prelude::*;
use crate::zksync::{Address, MintingTransaction};

verus! {

/// Asks which tokens were granted to `user` in a community.
#[derive(Debug, Clone)]
pub struct GrantedTokensRequest {
    pub user: Address,
    pub community_name: String,
}

/// Asks for a signature on a transaction that mints a token for `user`.
#[derive(Debug, Clone)]
pub struct MintingSignatureRequest {
    pub user: Address,
    pub community_name: String,
    pub minting_tx: MintingTransaction,
}

/// Asks which communities `user` has to do with.
#[derive(Debug)]
pub struct RelatedCommunitiesRequest {
    pub user: Address,
}

/// The names of the communities a user has to do with.
#[derive(Debug)]
pub struct RelatedCommunitiesResponse {
    pub communities: Vec<String>,
}

} // verus!
