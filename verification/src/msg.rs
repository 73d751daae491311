//! The messages the minter takes and the answers it gives.

use vstd::prelude::*;
use crate::bindings::transfer_nft_json;
use crate::state::Config;
use crate::text::{decimal_text, token_uri_text};

verus! {

/// The chain's view of the running contract.
#[derive(Debug, PartialEq, Clone)]
pub struct Env {
    pub contract: ContractInfo,
}

/// The contract that is running.
#[derive(Debug, PartialEq, Clone)]
pub struct ContractInfo {
    pub address: String,
}

/// Who sent a message.
#[derive(Debug, PartialEq, Clone)]
pub struct MessageInfo {
    pub sender: String,
}

/// The parameters a minter is created with.
#[derive(Debug, PartialEq, Clone)]
pub struct InstantiateMsg {
    pub cw721_code_id: u64,
    pub name: String,
    pub symbol: String,
    pub base_token_uri: String,
    pub num_tokens: u32,
    pub max_tokens_per_batch_mint: u32,
    pub max_tokens_per_batch_transfer: u32,
    pub royalty_percentage: Option<u64>,
    pub royalty_payment_address: Option<String>,
}

/// The operations of a minter.
#[derive(Debug, PartialEq, Clone)]
pub enum ExecuteMsg {
    Mint { token_id: u32 },
    BatchMint { token_ids: Vec<u32> },
    MintTo { token_id: u32, recipient: String },
    TransferNft { recipient: String, token_id: u32 },
    BatchTransferNft { recipient: String, token_ids: Vec<u32> },
}

/// The questions a minter answers from its own state.
#[derive(Debug, PartialEq, Clone)]
pub enum MinterQueryMsg {
    GetConfig {},
    RoyaltyInfo { sale_price: u128 },
}

/// The royalty fields that go with every token.
#[derive(Debug, PartialEq, Clone)]
pub struct Metadata {
    pub royalty_percentage: Option<u64>,
    pub royalty_payment_address: Option<String>,
}

/// The answer to [`MinterQueryMsg::GetConfig`].
#[derive(Debug, PartialEq, Clone)]
pub struct ConfigResponse {
    pub owner: String,
    pub cw721_code_id: u64,
    pub cw721_address: Option<String>,
    pub max_tokens: u32,
    pub max_tokens_per_mint: u32,
    pub max_tokens_per_batch_transfer: u32,
    pub name: String,
    pub symbol: String,
    pub base_token_uri: String,
    pub extension: Option<Metadata>,
}

/// The answer to [`MinterQueryMsg::RoyaltyInfo`].
#[derive(Debug, PartialEq, Clone)]
pub struct RoyaltiesInfoResponse {
    pub royalty_address: String,
    pub royalty_amount: u128,
}

/// The answer of a minter to a query.
#[derive(Debug, PartialEq, Clone)]
pub enum QueryResponse {
    Config(ConfigResponse),
    RoyaltyInfo(RoyaltiesInfoResponse),
}

/// A page of token identifiers.
#[derive(Clone, PartialEq, Debug)]
pub struct TokensResponse {
    /// Contains all token_ids in lexicographical ordering
    /// If there are more than `limit`, use `start_from` in future queries
    /// to achieve pagination.
    pub tokens: Vec<String>,
}

/// What came back from the request that sets up the token contract.
#[derive(Debug, PartialEq)]
pub struct Reply {
    /// The tag the request was sent with.
    pub id: u64,
    /// What the request handed back, or the error it failed with.
    pub result: Result<SubMsgResponse, String>,
}

/// What a request that succeeded handed back.
#[derive(Debug, PartialEq, Clone)]
pub struct SubMsgResponse {
    pub data: Option<Vec<u8>>,
}

/// The instruction to record a new token with its owner.
#[derive(Debug, PartialEq, Clone)]
pub struct MintMsg {
    pub token_id: String,
    pub owner: String,
    pub token_uri: Option<String>,
    pub extension: Option<Metadata>,
}

/// An instruction for the token contract. Its address is absent until the
/// contract has been set up.
#[derive(Debug, PartialEq, Clone)]
pub enum WasmMsg {
    /// Record a new token.
    Mint { contract_addr: Option<String>, msg: MintMsg },
    /// Run a message that is already encoded.
    Execute { contract_addr: Option<String>, msg: Vec<u8> },
}

/// The request to set up the token contract, and the tag its reply will carry.
#[derive(Debug, PartialEq, Clone)]
pub struct SubMsg {
    pub id: u64,
    pub admin: Option<String>,
    pub code_id: u64,
    pub msg: Vec<u8>,
    pub label: String,
}

/// What creating a minter hands back.
#[derive(Debug, PartialEq, Clone)]
pub struct InstantiateResponse {
    pub owner: String,
    pub submessages: Vec<SubMsg>,
}

/// What an accepted operation hands back: who asked, for whom, which tokens
/// it dealt with, and the instructions for the token contract, one for each
/// token and in the same order.
#[derive(Debug, PartialEq, Clone)]
pub struct Response {
    pub sender: String,
    pub recipient: String,
    pub token_ids: Vec<u32>,
    pub messages: Vec<WasmMsg>,
}

/// The text of an optional string.
pub open spec fn opt_text(s: Option<String>) -> Option<Seq<char>> {
    match s {
        Some(s) => Some(s@),
        None => None,
    }
}

impl Metadata {
    /// Whether these are the royalty fields of `config`.
    pub open spec fn is_of(self, config: Config) -> bool {
        &&& self.royalty_percentage == config.royalty_percentage
        &&& self.royalty_payment_address == config.royalty_payment_address
    }
}

impl WasmMsg {
    /// Whether this instruction records token `id` for `owner` under `config`.
    pub open spec fn is_mint_of(self, config: Config, owner: Seq<char>, id: u32) -> bool {
        &&& self matches WasmMsg::Mint { contract_addr, msg }
        &&& contract_addr == config.cw721_address
        &&& msg.token_id@ == decimal_text(id as nat)
        &&& msg.owner@ == owner
        &&& msg.token_uri matches Some(uri)
        &&& uri@ == token_uri_text(config.base_token_uri@, id)
        &&& msg.extension matches Some(metadata)
        &&& metadata.is_of(config)
    }

    /// Whether this instruction moves token `id` to `recipient` under `config`.
    pub open spec fn is_transfer_of(self, config: Config, recipient: Seq<char>, id: u32) -> bool {
        &&& self matches WasmMsg::Execute { contract_addr, msg }
        &&& contract_addr == config.cw721_address
        &&& transfer_nft_json(recipient, decimal_text(id as nat)) == Some(msg@)
    }
}

} // verus!
