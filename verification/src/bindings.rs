//! The calls this library makes into other crates.
//!
//! Nothing in this file is proved: each contract here is taken from the
//! source of the crate it speaks of, and the proofs elsewhere rest on it.

use vstd::prelude::*;
use crate::msg::Reply;

verus! {

/// [`url::ParseError`], carried from a failed parse to the caller.
#[verifier::external_type_specification]
#[verifier::external_body]
pub struct ExUrlParseError(url::ParseError);

/// [`cosmwasm_std::StdError`], carried from a failed encoding to the caller.
#[verifier::external_type_specification]
#[verifier::external_body]
pub struct ExStdError(cosmwasm_std::StdError);

/// [`cw_utils::ParseReplyError`], the error of a reply that cannot be read.
#[verifier::external_type_specification]
#[verifier::external_body]
pub struct ExParseReplyError(cw_utils::ParseReplyError);

/// The scheme that `url::Url::parse` finds in `input`, as `url::Url::scheme`
/// gives it; `None` where the parse fails.
pub uninterp spec fn url_scheme(input: Seq<char>) -> Option<Seq<char>>;

/// The JSON that `cosmwasm_std::to_json_binary` writes for the message
/// `cw721_base::ExecuteMsg::TransferNft` with these two fields; `None` where
/// it fails.
pub uninterp spec fn transfer_nft_json(recipient: Seq<char>, token_id: Seq<char>) -> Option<
    Seq<u8>,
>;

/// The JSON that `cosmwasm_std::to_json_binary` writes for a
/// `cw721_base::InstantiateMsg` with these three fields; `None` where it
/// fails.
pub uninterp spec fn cw721_instantiate_json(
    name: Seq<char>,
    symbol: Seq<char>,
    minter: Seq<char>,
) -> Option<Seq<u8>>;

/// The contract address that `cw_utils::parse_instantiate_response_data`
/// reads from the data of an instantiate response; `None` where it fails.
pub uninterp spec fn instantiate_response_address(data: Seq<u8>) -> Option<Seq<char>>;

/// Calls `url::Url::parse` on `input` and hands out the scheme of the parsed
/// URL (`url::Url::scheme`), or the parse error. Claimed: the outcome depends
/// on `input` alone.
#[verifier::external_body]
pub(crate) fn parse_url_scheme(input: &str) -> (r: Result<String, url::ParseError>)
    ensures
        match r {
            Ok(scheme) => url_scheme(input@) == Some(scheme@),
            Err(_) => url_scheme(input@) is None,
        },
{
    match url::Url::parse(input) {
        Ok(parsed) => Ok(parsed.scheme().to_owned()),
        Err(e) => Err(e),
    }
}

/// Multiplies `amount` by `cosmwasm_std::Decimal::percent(percent)`, as
/// `cosmwasm_std::Uint128` does. Claimed: the product is
/// `amount * percent / 100` rounded down. The multiplication panics where
/// that does not fit in 128 bits, so such arguments are left out.
#[verifier::external_body]
pub(crate) fn mul_percent(amount: u128, percent: u64) -> (r: u128)
    requires
        amount * percent / 100 <= u128::MAX,
    ensures
        r == amount * percent / 100,
{
    (cosmwasm_std::Uint128::new(amount) * cosmwasm_std::Decimal::percent(percent)).u128()
}

/// Calls `cosmwasm_std::to_json_binary` on the message
/// `cw721_base::ExecuteMsg::TransferNft` with these two fields, and hands out
/// the bytes or the error. Claimed: the outcome depends on the two fields
/// alone.
#[verifier::external_body]
pub(crate) fn encode_transfer_nft(recipient: &str, token_id: &str) -> (r: Result<
    Vec<u8>,
    cosmwasm_std::StdError,
>)
    ensures
        match r {
            Ok(bytes) => transfer_nft_json(recipient@, token_id@) == Some(bytes@),
            Err(_) => transfer_nft_json(recipient@, token_id@) is None,
        },
{
    let msg: cw721_base::ExecuteMsg<cosmwasm_std::Empty> = cw721_base::ExecuteMsg::TransferNft {
        recipient: recipient.to_owned(),
        token_id: token_id.to_owned(),
    };
    match cosmwasm_std::to_json_binary(&msg) {
        Ok(binary) => Ok(binary.0),
        Err(e) => Err(e),
    }
}

/// Calls `cosmwasm_std::to_json_binary` on a `cw721_base::InstantiateMsg`
/// with these three fields, and hands out the bytes or the error. Claimed:
/// the outcome depends on the three fields alone.
#[verifier::external_body]
pub(crate) fn encode_cw721_instantiate(name: &str, symbol: &str, minter: &str) -> (r: Result<
    Vec<u8>,
    cosmwasm_std::StdError,
>)
    ensures
        match r {
            Ok(bytes) => cw721_instantiate_json(name@, symbol@, minter@) == Some(bytes@),
            Err(_) => cw721_instantiate_json(name@, symbol@, minter@) is None,
        },
{
    let msg = cw721_base::InstantiateMsg {
        name: name.to_owned(),
        symbol: symbol.to_owned(),
        minter: minter.to_owned(),
    };
    match cosmwasm_std::to_json_binary(&msg) {
        Ok(binary) => Ok(binary.0),
        Err(e) => Err(e),
    }
}

/// Calls `cw_utils::parse_reply_instantiate_data` on `msg`, and hands out the
/// contract address it reads, or its error. Claimed, from its source: a
/// failed sub-message and a reply without data are errors; otherwise the
/// outcome is that of `cw_utils::parse_instantiate_response_data` on the
/// data, which depends on the data alone.
#[verifier::external_body]
pub(crate) fn parse_reply_instantiate_data(msg: &Reply) -> (r: Result<
    String,
    cw_utils::ParseReplyError,
>)
    ensures
        match msg.result {
            Err(_) => r is Err,
            Ok(response) => match response.data {
                None => r is Err,
                Some(data) => match r {
                    Ok(address) => instantiate_response_address(data@) == Some(address@),
                    Err(_) => instantiate_response_address(data@) is None,
                },
            },
        },
{
    let result = match &msg.result {
        Ok(response) => cosmwasm_std::SubMsgResult::Ok(
            cosmwasm_std::SubMsgResponse {
                events: vec![],
                data: response.data.clone().map(cosmwasm_std::Binary),
            },
        ),
        Err(e) => cosmwasm_std::SubMsgResult::Err(e.clone()),
    };
    cw_utils::parse_reply_instantiate_data(cosmwasm_std::Reply { id: msg.id, result }).map(
        |parsed| parsed.contract_address,
    )
}

} // verus!
