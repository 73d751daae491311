//! The errors of the minter.

use vstd::prelude::*;

verus! {

/// Why an operation was refused.
#[derive(Debug, PartialEq)]
pub enum ContractError {
    /// A message could not be encoded.
    Std(cosmwasm_std::StdError),
    /// The base token URI is no URL.
    ParseError(url::ParseError),
    /// The number of tokens is outside `min..=max`.
    InvalidNumTokens { min: u32, max: u32 },
    /// The limit of a batch mint is outside `min..=max`.
    InvalidMaxTokensPerBatchMint { min: u32, max: u32 },
    /// The limit of a batch transfer is outside `min..=max`.
    InvalidMaxTokensPerBatchTransfer { min: u32, max: u32 },
    /// The scheme of the base token URI is not `ipfs`.
    InvalidBaseTokenURI {},
    /// The token identifier is outside `1..=max_tokens`.
    InvalidTokenId {},
    /// The token has been handed out before.
    TokenIdAlreadySold { token_id: u32 },
    /// No token is left.
    SoldOut {},
    /// The reply does not answer the request that set up the token contract.
    InvalidReplyID {},
    /// The token contract was not set up.
    InstantiateCW721Error {},
}

} // verus!
