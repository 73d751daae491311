//! What a minter keeps between operations.

use vstd::prelude::*;
use crate::pool::MintablePool;

verus! {

/// The most tokens a minter can be created with.
pub const MAX_TOKEN_LIMIT: u32 = 10000;

/// The most tokens one batch can be allowed to deal with.
pub const MAX_TOKEN_PER_BATCH_LIMIT: u32 = 200;

/// The tag of the one request that sets up the token contract.
pub const INSTANTIATE_CW721_REPLY_ID: u64 = 1;

/// The parameters of a minter. All of them are fixed when the minter is
/// created, but for the address of the token contract, which is absent
/// until that contract has answered.
#[derive(Debug, PartialEq, Clone)]
pub struct Config {
    pub owner: String,
    pub cw721_code_id: u64,
    pub cw721_address: Option<String>,
    pub name: String,
    pub symbol: String,
    pub base_token_uri: String,
    pub max_tokens: u32,
    pub max_tokens_per_batch_mint: u32,
    pub max_tokens_per_batch_transfer: u32,
    pub royalty_percentage: Option<u64>,
    pub royalty_payment_address: Option<String>,
}

impl Config {
    /// The limits every created minter keeps.
    pub open spec fn valid(&self) -> bool {
        &&& 1 <= self.max_tokens <= MAX_TOKEN_LIMIT
        &&& 1 <= self.max_tokens_per_batch_mint <= MAX_TOKEN_PER_BATCH_LIMIT
        &&& 1 <= self.max_tokens_per_batch_transfer <= MAX_TOKEN_PER_BATCH_LIMIT
    }

    /// Whether the token contract has not answered yet.
    pub open spec fn pending(&self) -> bool {
        self.cw721_address is None
    }

    /// Records the address of the token contract and leaves every other
    /// parameter as it was.
    pub fn set_issuance_address(&mut self, address: String)
        ensures
            final(self).cw721_address == Some(address),
            final(self).differs_in_address_only(*old(self)),
    {
        self.cw721_address = Some(address);
    }

    /// Whether `self` and `other` agree in everything but the address of the
    /// token contract.
    pub open spec fn differs_in_address_only(&self, other: Config) -> bool {
        &&& self.owner == other.owner
        &&& self.cw721_code_id == other.cw721_code_id
        &&& self.name == other.name
        &&& self.symbol == other.symbol
        &&& self.base_token_uri == other.base_token_uri
        &&& self.max_tokens == other.max_tokens
        &&& self.max_tokens_per_batch_mint == other.max_tokens_per_batch_mint
        &&& self.max_tokens_per_batch_transfer == other.max_tokens_per_batch_transfer
        &&& self.royalty_percentage == other.royalty_percentage
        &&& self.royalty_payment_address == other.royalty_payment_address
    }
}

/// The state of a minter as contracts see it.
pub ghost struct StateView {
    pub config: Config,
    pub available: Set<int>,
    pub capacity: nat,
}

/// The state of a minter: its parameters and its pool.
#[derive(Debug)]
pub struct State {
    pub config: Config,
    pub pool: MintablePool,
}

impl View for State {
    type V = StateView;

    open spec fn view(&self) -> StateView {
        StateView {
            config: self.config,
            available: self.pool@,
            capacity: self.pool.capacity(),
        }
    }
}

impl State {
    /// What holds of the state of every created minter, whatever has been
    /// done with it since: the limits are in range, and the pool was made
    /// for the configured number of tokens.
    pub open spec fn wf(&self) -> bool {
        &&& self.config.valid()
        &&& self.pool.capacity() == self.config.max_tokens
    }
}

} // verus!
