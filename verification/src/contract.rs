//! The operations of the minter.

use vstd::prelude::*;
use crate::allocation::{
    accepted_before, allocates, available_at, batch_window, id_set, lemma_id_set_contains,
    lemma_id_set_next, lemma_id_set_witness, mint_refusal, refusal, refused_at,
};
use crate::bindings::{
    cw721_instantiate_json, encode_cw721_instantiate, encode_transfer_nft,
    instantiate_response_address, mul_percent, parse_reply_instantiate_data, parse_url_scheme,
    transfer_nft_json, url_scheme,
};
use crate::error::ContractError;
use crate::msg::{
    opt_text, ConfigResponse, Env, ExecuteMsg, InstantiateMsg, InstantiateResponse, MessageInfo,
    Metadata, MintMsg, MinterQueryMsg, QueryResponse, Reply, Response, RoyaltiesInfoResponse,
    SubMsg, WasmMsg,
};
use crate::pool::MintablePool;
use crate::state::{
    Config, State, INSTANTIATE_CW721_REPLY_ID, MAX_TOKEN_LIMIT, MAX_TOKEN_PER_BATCH_LIMIT,
};
use crate::text::{decimal_string, decimal_text, token_uri};
use vstd::set_lib::set_int_range;

verus! {

/// A copy of an optional string.
fn clone_opt(s: &Option<String>) -> (copy: Option<String>)
    ensures
        copy == *s,
{
    match s {
        Some(s) => Some(s.clone()),
        None => None,
    }
}

/// Whom a mint is for: the recipient where one is named, else the sender.
pub open spec fn mint_owner(info: MessageInfo, recipient: Option<String>) -> Seq<char> {
    match recipient {
        Some(address) => address@,
        None => info.sender@,
    }
}

/// What a single mint does. A refused mint leaves the state as it was. One
/// that is not refused hands out one identifier, takes it out of the pool,
/// and answers with the instruction that records the token for its owner.
pub open spec fn mint_post(
    before: State,
    after: State,
    info: MessageInfo,
    recipient: Option<String>,
    token_id: Option<u32>,
    r: Result<Response, ContractError>,
) -> bool {
    match mint_refusal(before.pool@, before.config.max_tokens, token_id) {
        Some(e) => r == Err::<Response, ContractError>(e) && after@ == before@,
        None => {
            &&& r matches Ok(response)
            &&& response.token_ids@.len() == 1
            &&& allocates(before.pool@, before.config.max_tokens, token_id, response.token_ids@[0])
            &&& after.config == before.config
            &&& after.pool.capacity() == before.pool.capacity()
            &&& after.pool@ == before.pool@.remove(response.token_ids@[0] as int)
            &&& after.pool@.len() == before.pool@.len() - 1
            &&& response.sender@ == info.sender@
            &&& response.recipient@ == mint_owner(info, recipient)
            &&& response.messages@.len() == 1
            &&& response.messages@[0].is_mint_of(
                before.config,
                mint_owner(info, recipient),
                response.token_ids@[0],
            )
        },
    }
}

/// The instruction that records token `mintable_token_id` for
/// `recipient_addr`.
pub fn _create_cw721_mint(config: &Config, recipient_addr: &str, mintable_token_id: u32) -> (msg:
    WasmMsg)
    ensures
        msg.is_mint_of(*config, recipient_addr@, mintable_token_id),
{
    let mint_msg = MintMsg {
        token_id: decimal_string(mintable_token_id),
        owner: recipient_addr.to_owned(),
        token_uri: Some(token_uri(config.base_token_uri.as_str(), mintable_token_id)),
        extension: Some(
            Metadata {
                royalty_percentage: config.royalty_percentage,
                royalty_payment_address: clone_opt(&config.royalty_payment_address),
            },
        ),
    };
    WasmMsg::Mint { contract_addr: clone_opt(&config.cw721_address), msg: mint_msg }
}

/// Mints one token: the one that `token_id` names, or the lowest one that
/// is left where it names none.
pub fn _execute_mint(
    state: &mut State,
    info: &MessageInfo,
    recipient: Option<String>,
    token_id: Option<u32>,
) -> (r: Result<Response, ContractError>)
    ensures
        mint_post(*old(state), *final(state), *info, recipient, token_id, r),
{
    let recipient_addr = match recipient {
        Some(some_recipient) => some_recipient,
        None => info.sender.clone(),
    };
    let mintable_token_id = match token_id {
        Some(token_id) => {
            if token_id == 0 || token_id > state.config.max_tokens {
                return Err(ContractError::InvalidTokenId {  });
            }
            if !state.pool.contains(token_id) {
                return Err(ContractError::TokenIdAlreadySold { token_id });
            }
            token_id
        },
        None => {
            match state.pool.lowest_available() {
                Some(lowest) => lowest,
                None => {
                    return Err(ContractError::SoldOut {  });
                },
            }
        },
    };
    let mut msgs: Vec<WasmMsg> = Vec::new();
    msgs.push(_create_cw721_mint(&state.config, recipient_addr.as_str(), mintable_token_id));
    let removed = state.pool.remove(mintable_token_id);
    assert(removed is Ok);
    let mut token_ids: Vec<u32> = Vec::new();
    token_ids.push(mintable_token_id);
    Ok(Response { sender: info.sender.clone(), recipient: recipient_addr, token_ids, messages: msgs })
}

/// What a batch mint does. It deals with the identifiers of its window in
/// turn. Where it gets past all of them, it hands them all out and answers
/// with one instruction for each, in the order of the window. Where it is
/// refused at one of them, it answers with that error and the state is as it
/// was before.
pub open spec fn batch_mint_post(
    before: State,
    after: State,
    info: MessageInfo,
    recipient: Option<String>,
    ids: Seq<u32>,
    r: Result<Response, ContractError>,
) -> bool {
    let window = batch_window(ids, before.config.max_tokens_per_batch_mint);
    let owner = mint_owner(info, recipient);
    match r {
        Ok(response) => {
            &&& accepted_before(
                before.pool@,
                before.config.max_tokens,
                window,
                window.len() as int,
            )
            &&& response.token_ids@ == window
            &&& after.config == before.config
            &&& after.pool.capacity() == before.pool.capacity()
            &&& after.pool@ == before.pool@.difference(id_set(window))
            &&& after.pool@.len() == before.pool@.len() - window.len()
            &&& response.sender@ == info.sender@
            &&& response.recipient@ == owner
            &&& response.messages@.len() == window.len()
            &&& forall|k: int|
                0 <= k < window.len() ==> (#[trigger] response.messages@[k]).is_mint_of(
                    before.config,
                    owner,
                    window[k],
                )
        },
        Err(e) => {
            &&& after@ == before@
            &&& exists|k: int| refused_at(before.pool@, before.config.max_tokens, window, k, e)
        },
    }
}

/// Makes the identifiers of `taken` available again.
fn put_back_all(pool: &mut MintablePool, taken: &Vec<u32>)
    requires
        taken@.no_duplicates(),
        forall|i: int|
            0 <= i < taken@.len() ==> 1 <= #[trigger] taken@[i] <= old(pool).capacity() && !old(
                pool,
            )@.contains(taken@[i] as int),
    ensures
        final(pool)@ == old(pool)@.union(id_set(taken@)),
        final(pool).capacity() == old(pool).capacity(),
{
    let ghost before = pool@;
    let ghost capacity = pool.capacity();
    let mut done: usize = 0;
    assert(before.union(id_set(taken@.take(0))) =~= before);
    while done < taken.len()
        invariant
            done <= taken@.len(),
            taken@.no_duplicates(),
            pool.capacity() == capacity,
            forall|i: int|
                0 <= i < taken@.len() ==> 1 <= #[trigger] taken@[i] <= capacity && !before.contains(
                    taken@[i] as int,
                ),
            pool@ == before.union(id_set(taken@.take(done as int))),
        decreases taken@.len() - done,
    {
        let id = taken[done];
        proof {
            lemma_id_set_next(taken@, done as int);
            if id_set(taken@.take(done as int)).contains(id as int) {
                let i = lemma_id_set_witness(taken@.take(done as int), id as int);
                assert(taken@[i] == taken@[done as int]);
            }
            assert(before.union(id_set(taken@.take(done as int))).insert(id as int)
                =~= before.union(id_set(taken@.take(done + 1))));
        }
        pool.put_back(id);
        done = done + 1;
    }
    assert(taken@.take(taken@.len() as int) =~= taken@);
}

/// Mints the tokens of a batch, from the last identifier of
/// `batch_token_ids` towards the first, and no more of them than a batch may
/// mint.
pub fn _execute_batch_mint(
    state: &mut State,
    info: &MessageInfo,
    recipient: Option<String>,
    batch_token_ids: Vec<u32>,
) -> (r: Result<Response, ContractError>)
    ensures
        batch_mint_post(*old(state), *final(state), *info, recipient, batch_token_ids@, r),
{
    let recipient_addr = match recipient {
        Some(some_recipient) => some_recipient,
        None => info.sender.clone(),
    };
    let limit: u32 = state.config.max_tokens_per_batch_mint;
    let max_tokens: u32 = state.config.max_tokens;
    let total: usize = batch_token_ids.len();
    let ghost window = batch_window(batch_token_ids@, limit);
    let ghost available = state.pool@;
    let ghost owner = recipient_addr@;
    let mut count: u32 = 0;
    let mut minted_token_ids: Vec<u32> = Vec::new();
    let mut msgs: Vec<WasmMsg> = Vec::new();
    proof {
        state.pool.lemma_bounded();
        assert(available_at(available, window, 0) =~= available);
        assert(minted_token_ids@ =~= window.take(0));
    }
    while (count as usize) < total && count < limit
        invariant
            total == batch_token_ids@.len(),
            window == batch_window(batch_token_ids@, limit),
            limit == old(state).config.max_tokens_per_batch_mint,
            max_tokens == old(state).config.max_tokens,
            available == old(state).pool@,
            available.finite(),
            owner == recipient_addr@,
            count <= window.len(),
            minted_token_ids@ == window.take(count as int),
            state.config == old(state).config,
            state.pool.capacity() == old(state).pool.capacity(),
            state.pool@ == available_at(available, window, count as int),
            state.pool@.len() == available.len() - count,
            accepted_before(available, max_tokens, window, count as int),
            forall|a: int| 0 <= a < count ==> available.contains(#[trigger] window[a] as int),
            window.take(count as int).no_duplicates(),
            msgs@.len() == count,
            forall|k: int|
                0 <= k < count ==> (#[trigger] msgs@[k]).is_mint_of(
                    old(state).config,
                    owner,
                    window[k],
                ),
        decreases window.len() - count,
    {
        let token_id = batch_token_ids[total - 1 - count as usize];
        assert(token_id == window[count as int]);
        if token_id == 0 || token_id > max_tokens || !state.pool.contains(token_id) {
            let e = if token_id == 0 || token_id > max_tokens {
                ContractError::InvalidTokenId {  }
            } else {
                ContractError::TokenIdAlreadySold { token_id }
            };
            proof {
                assert(refused_at(available, max_tokens, window, count as int, e));
                old(state).pool.lemma_bounded();
                assert forall|i: int| 0 <= i < minted_token_ids@.len() implies 1
                    <= #[trigger] minted_token_ids@[i] <= state.pool.capacity()
                    && !state.pool@.contains(minted_token_ids@[i] as int) by {
                    lemma_id_set_contains(window.take(count as int), i);
                    assert(available.contains(window[i] as int));
                }
            }
            put_back_all(&mut state.pool, &minted_token_ids);
            proof {
                let taken = id_set(window.take(count as int));
                assert forall|x: int| taken.contains(x) implies available.contains(x) by {
                    let i = lemma_id_set_witness(window.take(count as int), x);
                    assert(available.contains(window[i] as int));
                }
                assert(available.difference(taken).union(taken) =~= available);
            }
            return Err(e);
        }
        proof {
            lemma_id_set_next(window, count as int);
            assert(available_at(available, window, count as int).remove(token_id as int)
                =~= available_at(available, window, count + 1));
            assert(window.take(count + 1) =~= window.take(count as int).push(token_id));
            let shorter = window.take(count as int);
            let longer = window.take(count + 1);
            assert forall|a: int, b: int|
                0 <= a < longer.len() && 0 <= b < longer.len() && a != b implies longer[a]
                != longer[b] by {
                if a == count {
                    lemma_id_set_contains(shorter, b);
                } else if b == count {
                    lemma_id_set_contains(shorter, a);
                } else {
                    assert(shorter[a] != shorter[b]);
                }
            }
        }
        msgs.push(_create_cw721_mint(&state.config, recipient_addr.as_str(), token_id));
        let removed = state.pool.remove(token_id);
        assert(removed is Ok);
        minted_token_ids.push(token_id);
        count = count + 1;
    }
    proof {
        assert(window.take(window.len() as int) =~= window);
    }
    Ok(
        Response {
            sender: info.sender.clone(),
            recipient: recipient_addr,
            token_ids: minted_token_ids,
            messages: msgs,
        },
    )
}

/// Wraps an encoded transfer into the instruction for the token contract, or
/// hands the encoder's error on.
pub fn transfer_message(config: &Config, encoded: Result<Vec<u8>, cosmwasm_std::StdError>) -> (r:
    Result<WasmMsg, ContractError>)
    ensures
        match encoded {
            Ok(bytes) => r == Ok::<WasmMsg, ContractError>(
                WasmMsg::Execute { contract_addr: config.cw721_address, msg: bytes },
            ),
            Err(e) => r == Err::<WasmMsg, ContractError>(ContractError::Std(e)),
        },
{
    match encoded {
        Ok(bytes) => Ok(
            WasmMsg::Execute { contract_addr: clone_opt(&config.cw721_address), msg: bytes },
        ),
        Err(e) => Err(ContractError::Std(e)),
    }
}

/// The instruction that moves token `token_id` to `recipient_addr`. It
/// fails only where the transfer cannot be encoded.
pub fn _create_cw721_transfer(config: &Config, recipient_addr: &str, token_id: u32) -> (r: Result<
    WasmMsg,
    ContractError,
>)
    ensures
        match transfer_nft_json(recipient_addr@, decimal_text(token_id as nat)) {
            Some(_) => r matches Ok(msg) && msg.is_transfer_of(
                *config,
                recipient_addr@,
                token_id,
            ),
            None => r matches Err(ContractError::Std(_)),
        },
{
    let token = decimal_string(token_id);
    let encoded = encode_transfer_nft(recipient_addr, token.as_str());
    transfer_message(config, encoded)
}

/// What a transfer does: it answers with the instruction that moves the
/// token, and fails only where that instruction cannot be encoded.
pub open spec fn transfer_post(
    state: State,
    info: MessageInfo,
    recipient: String,
    token_id: u32,
    r: Result<Response, ContractError>,
) -> bool {
    match transfer_nft_json(recipient@, decimal_text(token_id as nat)) {
        None => r matches Err(ContractError::Std(_)),
        Some(_) => {
            &&& r matches Ok(response)
            &&& response.sender@ == info.sender@
            &&& response.recipient@ == recipient@
            &&& response.token_ids@ == seq![token_id]
            &&& response.messages@.len() == 1
            &&& response.messages@[0].is_transfer_of(state.config, recipient@, token_id)
        },
    }
}

/// Transfers one token. Whether the token exists, and whose it is, is for
/// the token contract to say.
pub fn _execute_transfer_nft(
    state: &State,
    info: &MessageInfo,
    recipient: String,
    token_id: u32,
) -> (r: Result<Response, ContractError>)
    ensures
        transfer_post(*state, *info, recipient, token_id, r),
{
    let mut msgs: Vec<WasmMsg> = Vec::new();
    let msg = _create_cw721_transfer(&state.config, recipient.as_str(), token_id);
    let msg_rs = match msg {
        Ok(msg) => msg,
        Err(ctr_err) => {
            return Err(ctr_err);
        },
    };
    msgs.push(msg_rs);
    let mut token_ids: Vec<u32> = Vec::new();
    token_ids.push(token_id);
    Ok(Response { sender: info.sender.clone(), recipient, token_ids, messages: msgs })
}

/// What a batch transfer does. It deals with the identifiers of its window
/// in turn and answers with one instruction for each, in the order of the
/// window. It fails only where one of them cannot be encoded.
pub open spec fn batch_transfer_post(
    state: State,
    info: MessageInfo,
    recipient: String,
    ids: Seq<u32>,
    r: Result<Response, ContractError>,
) -> bool {
    let window = batch_window(ids, state.config.max_tokens_per_batch_transfer);
    match r {
        Ok(response) => {
            &&& forall|k: int|
                0 <= k < window.len() ==> transfer_nft_json(
                    recipient@,
                    decimal_text(#[trigger] window[k] as nat),
                ) is Some
            &&& response.sender@ == info.sender@
            &&& response.recipient@ == recipient@
            &&& response.token_ids@ == window
            &&& response.messages@.len() == window.len()
            &&& forall|k: int|
                0 <= k < window.len() ==> (#[trigger] response.messages@[k]).is_transfer_of(
                    state.config,
                    recipient@,
                    window[k],
                )
        },
        Err(e) => {
            &&& e matches ContractError::Std(_)
            &&& exists|k: int|
                0 <= k < window.len() && transfer_nft_json(
                    recipient@,
                    decimal_text(#[trigger] window[k] as nat),
                ) is None
        },
    }
}

/// Transfers the tokens of a batch, from the last identifier of
/// `batch_token_ids` towards the first, and no more of them than a batch may
/// transfer.
pub fn _execute_batch_transfer_nft(
    state: &State,
    info: &MessageInfo,
    recipient: String,
    batch_token_ids: Vec<u32>,
) -> (r: Result<Response, ContractError>)
    ensures
        batch_transfer_post(*state, *info, recipient, batch_token_ids@, r),
{
    let limit: u32 = state.config.max_tokens_per_batch_transfer;
    let total: usize = batch_token_ids.len();
    let ghost window = batch_window(batch_token_ids@, limit);
    let mut msgs: Vec<WasmMsg> = Vec::new();
    let mut count: u32 = 0;
    let mut transferred_token_ids: Vec<u32> = Vec::new();
    proof {
        assert(transferred_token_ids@ =~= window.take(0));
    }
    while (count as usize) < total && count < limit
        invariant
            total == batch_token_ids@.len(),
            window == batch_window(batch_token_ids@, limit),
            limit == state.config.max_tokens_per_batch_transfer,
            count <= window.len(),
            transferred_token_ids@ == window.take(count as int),
            forall|k: int|
                0 <= k < count ==> transfer_nft_json(
                    recipient@,
                    decimal_text(#[trigger] window[k] as nat),
                ) is Some,
            msgs@.len() == count,
            forall|k: int|
                0 <= k < count ==> (#[trigger] msgs@[k]).is_transfer_of(
                    state.config,
                    recipient@,
                    window[k],
                ),
        decreases window.len() - count,
    {
        let token_id = batch_token_ids[total - 1 - count as usize];
        assert(token_id == window[count as int]);
        let msg = _create_cw721_transfer(&state.config, recipient.as_str(), token_id);
        let msg_rs = match msg {
            Ok(msg) => msg,
            Err(ctr_err) => {
                return Err(ctr_err);
            },
        };
        msgs.push(msg_rs);
        proof {
            assert(window.take(count + 1) =~= window.take(count as int).push(token_id));
        }
        transferred_token_ids.push(token_id);
        count = count + 1;
    }
    proof {
        assert(window.take(window.len() as int) =~= window);
    }
    Ok(
        Response {
            sender: info.sender.clone(),
            recipient,
            token_ids: transferred_token_ids,
            messages: msgs,
        },
    )
}

/// Which limit of `msg` is out of range, if one is: the number of tokens
/// first, then the limit of a batch mint, then that of a batch transfer.
pub open spec fn limits_refusal(msg: InstantiateMsg) -> Option<ContractError> {
    if msg.num_tokens == 0 || msg.num_tokens > MAX_TOKEN_LIMIT {
        Some(ContractError::InvalidNumTokens { min: 1, max: MAX_TOKEN_LIMIT })
    } else if msg.max_tokens_per_batch_mint == 0 || msg.max_tokens_per_batch_mint
        > MAX_TOKEN_PER_BATCH_LIMIT {
        Some(ContractError::InvalidMaxTokensPerBatchMint { min: 1, max: MAX_TOKEN_PER_BATCH_LIMIT })
    } else if msg.max_tokens_per_batch_transfer == 0 || msg.max_tokens_per_batch_transfer
        > MAX_TOKEN_PER_BATCH_LIMIT {
        Some(
            ContractError::InvalidMaxTokensPerBatchTransfer {
                min: 1,
                max: MAX_TOKEN_PER_BATCH_LIMIT,
            },
        )
    } else {
        None
    }
}

/// The minter that `msg` creates for the sender of `info`: its parameters
/// are those of `msg`, the address of the token contract is absent, every
/// identifier of `1..=num_tokens` is available, and the one request it
/// sends out carries `encoded` and the tag by which its reply is known.
pub open spec fn created(
    info: MessageInfo,
    msg: InstantiateMsg,
    encoded: Seq<u8>,
    state: State,
    response: InstantiateResponse,
) -> bool {
    &&& state.config.owner@ == info.sender@
    &&& state.config.cw721_code_id == msg.cw721_code_id
    &&& state.config.cw721_address is None
    &&& state.config.name == msg.name
    &&& state.config.symbol == msg.symbol
    &&& state.config.base_token_uri == msg.base_token_uri
    &&& state.config.max_tokens == msg.num_tokens
    &&& state.config.max_tokens_per_batch_mint == msg.max_tokens_per_batch_mint
    &&& state.config.max_tokens_per_batch_transfer == msg.max_tokens_per_batch_transfer
    &&& state.config.royalty_percentage == msg.royalty_percentage
    &&& state.config.royalty_payment_address == msg.royalty_payment_address
    &&& state.pool@ == set_int_range(1, msg.num_tokens + 1)
    &&& state.pool@.len() == msg.num_tokens
    &&& state.pool.capacity() == msg.num_tokens
    &&& state.wf()
    &&& response.owner@ == info.sender@
    &&& response.submessages@.len() == 1
    &&& response.submessages@[0].id == INSTANTIATE_CW721_REPLY_ID
    &&& opt_text(response.submessages@[0].admin) == Some(info.sender@)
    &&& response.submessages@[0].code_id == msg.cw721_code_id
    &&& response.submessages@[0].msg@ == encoded
    &&& response.submessages@[0].label@ == "Check CW721"@
}

/// Checks the limits of `msg`.
pub fn check_limits(msg: &InstantiateMsg) -> (r: Result<(), ContractError>)
    ensures
        match limits_refusal(*msg) {
            Some(e) => r == Err::<(), ContractError>(e),
            None => r is Ok,
        },
{
    if msg.num_tokens == 0 || msg.num_tokens > MAX_TOKEN_LIMIT {
        return Err(ContractError::InvalidNumTokens { min: 1, max: MAX_TOKEN_LIMIT });
    }
    if msg.max_tokens_per_batch_mint == 0 || msg.max_tokens_per_batch_mint
        > MAX_TOKEN_PER_BATCH_LIMIT {
        return Err(
            ContractError::InvalidMaxTokensPerBatchMint { min: 1, max: MAX_TOKEN_PER_BATCH_LIMIT },
        );
    }
    if msg.max_tokens_per_batch_transfer == 0 || msg.max_tokens_per_batch_transfer
        > MAX_TOKEN_PER_BATCH_LIMIT {
        return Err(
            ContractError::InvalidMaxTokensPerBatchTransfer {
                min: 1,
                max: MAX_TOKEN_PER_BATCH_LIMIT,
            },
        );
    }
    Ok(())
}

/// Creates a minter from `msg`, given the outcome of parsing its base URI
/// (`scheme`) and of encoding the request to the token contract
/// (`encoded`). The limits are checked first, then the URI, then the
/// encoding; the first that fails gives the error.
pub fn instantiate_with(
    info: &MessageInfo,
    msg: InstantiateMsg,
    scheme: Result<String, url::ParseError>,
    encoded: Result<Vec<u8>, cosmwasm_std::StdError>,
) -> (r: Result<(State, InstantiateResponse), ContractError>)
    ensures
        match limits_refusal(msg) {
            Some(e) => r == Err::<(State, InstantiateResponse), ContractError>(e),
            None => match scheme {
                Err(e) => r == Err::<(State, InstantiateResponse), ContractError>(
                    ContractError::ParseError(e),
                ),
                Ok(scheme) => if scheme@ != "ipfs"@ {
                    r == Err::<(State, InstantiateResponse), ContractError>(
                        ContractError::InvalidBaseTokenURI {  },
                    )
                } else {
                    match encoded {
                        Err(e) => r == Err::<(State, InstantiateResponse), ContractError>(
                            ContractError::Std(e),
                        ),
                        Ok(bytes) => r matches Ok(made) && created(
                            *info,
                            msg,
                            bytes@,
                            made.0,
                            made.1,
                        ),
                    }
                },
            },
        },
{
    match check_limits(&msg) {
        Err(e) => {
            return Err(e);
        },
        Ok(_) => {},
    }
    let scheme = match scheme {
        Ok(scheme) => scheme,
        Err(e) => {
            return Err(ContractError::ParseError(e));
        },
    };
    let expected = "ipfs".to_owned();
    if !(scheme == expected) {
        return Err(ContractError::InvalidBaseTokenURI {  });
    }
    let bytes = match encoded {
        Ok(bytes) => bytes,
        Err(e) => {
            return Err(ContractError::Std(e));
        },
    };
    let config = Config {
        owner: info.sender.clone(),
        cw721_code_id: msg.cw721_code_id,
        cw721_address: None,
        name: msg.name,
        symbol: msg.symbol,
        base_token_uri: msg.base_token_uri,
        max_tokens: msg.num_tokens,
        max_tokens_per_batch_mint: msg.max_tokens_per_batch_mint,
        max_tokens_per_batch_transfer: msg.max_tokens_per_batch_transfer,
        royalty_percentage: msg.royalty_percentage,
        royalty_payment_address: msg.royalty_payment_address,
    };
    let pool = MintablePool::initialize(msg.num_tokens);
    let mut sub_msgs: Vec<SubMsg> = Vec::new();
    sub_msgs.push(
        SubMsg {
            id: INSTANTIATE_CW721_REPLY_ID,
            admin: Some(info.sender.clone()),
            code_id: msg.cw721_code_id,
            msg: bytes,
            label: "Check CW721".to_owned(),
        },
    );
    Ok((State { config, pool }, InstantiateResponse { owner: info.sender.clone(), submessages: sub_msgs }))
}

/// Creates a minter: checks the parameters, fills the pool with every
/// identifier of `1..=num_tokens`, and asks for the token contract to be set
/// up, with this contract as its minter and the sender as its admin.
pub fn instantiate(env: &Env, info: &MessageInfo, msg: InstantiateMsg) -> (r: Result<
    (State, InstantiateResponse),
    ContractError,
>)
    ensures
        match limits_refusal(msg) {
            Some(e) => r == Err::<(State, InstantiateResponse), ContractError>(e),
            None => match url_scheme(msg.base_token_uri@) {
                None => r matches Err(ContractError::ParseError(_)),
                Some(scheme) => if scheme != "ipfs"@ {
                    r == Err::<(State, InstantiateResponse), ContractError>(
                        ContractError::InvalidBaseTokenURI {  },
                    )
                } else {
                    match cw721_instantiate_json(msg.name@, msg.symbol@, env.contract.address@) {
                        None => r matches Err(ContractError::Std(_)),
                        Some(bytes) => r matches Ok(made) && created(
                            *info,
                            msg,
                            bytes,
                            made.0,
                            made.1,
                        ),
                    }
                },
            },
        },
{
    let scheme = parse_url_scheme(msg.base_token_uri.as_str());
    let encoded = encode_cw721_instantiate(
        msg.name.as_str(),
        msg.symbol.as_str(),
        env.contract.address.as_str(),
    );
    instantiate_with(info, msg, scheme, encoded)
}

/// The address that a reply carries, if it carries one: a failed request
/// and a reply without data carry none.
pub open spec fn reply_address(msg: Reply) -> Option<Seq<char>> {
    match msg.result {
        Err(_) => None,
        Ok(response) => match response.data {
            None => None,
            Some(data) => instantiate_response_address(data@),
        },
    }
}

/// What a reply does. One with another tag than that of the request is
/// refused and changes nothing. One with the right tag that carries no
/// address is refused and changes nothing. One that carries an address
/// writes that address into the parameters, and nothing else.
pub open spec fn handshake_post(
    before: State,
    after: State,
    id: u64,
    address: Option<Seq<char>>,
    r: Result<(), ContractError>,
) -> bool {
    if id != INSTANTIATE_CW721_REPLY_ID {
        r == Err::<(), ContractError>(ContractError::InvalidReplyID {  }) && after == before
    } else {
        match address {
            None => r == Err::<(), ContractError>(ContractError::InstantiateCW721Error {  })
                && after == before,
            Some(address) => {
                &&& r is Ok
                &&& opt_text(after.config.cw721_address) == Some(address)
                &&& after.config.differs_in_address_only(before.config)
                &&& after.pool == before.pool
            },
        }
    }
}

/// Finishes the handshake with the token contract, given the tag of the
/// reply and what was read from it.
pub fn complete_handshake(
    state: &mut State,
    id: u64,
    parsed: Result<String, cw_utils::ParseReplyError>,
) -> (r: Result<(), ContractError>)
    ensures
        handshake_post(
            *old(state),
            *final(state),
            id,
            match parsed {
                Ok(address) => Some(address@),
                Err(_) => None,
            },
            r,
        ),
{
    if id != INSTANTIATE_CW721_REPLY_ID {
        return Err(ContractError::InvalidReplyID {  });
    }
    match parsed {
        Ok(address) => {
            state.config.set_issuance_address(address);
            Ok(())
        },
        Err(_) => Err(ContractError::InstantiateCW721Error {  }),
    }
}

/// Takes the reply to the request that sets up the token contract.
pub fn reply(state: &mut State, _env: &Env, msg: Reply) -> (r: Result<(), ContractError>)
    ensures
        handshake_post(*old(state), *final(state), msg.id, reply_address(msg), r),
        msg.id != INSTANTIATE_CW721_REPLY_ID ==> r is Err && *final(state) == *old(state),
{
    if msg.id != INSTANTIATE_CW721_REPLY_ID {
        return Err(ContractError::InvalidReplyID {  });
    }
    let parsed = parse_reply_instantiate_data(&msg);
    complete_handshake(state, msg.id, parsed)
}

/// The royalty percentage of `config`; none counts as zero.
pub open spec fn royalty_percentage(config: Config) -> u64 {
    match config.royalty_percentage {
        Some(percentage) => percentage,
        None => 0,
    }
}

/// The royalty on a sale at `sale_price`: the percentage of the price,
/// rounded down.
pub open spec fn royalty_amount(config: Config, sale_price: u128) -> int {
    sale_price * royalty_percentage(config) / 100
}

/// The address royalties are paid to; none counts as the empty text.
pub open spec fn royalty_address(config: Config) -> Seq<char> {
    match config.royalty_payment_address {
        Some(address) => address@,
        None => Seq::<char>::empty(),
    }
}

/// The royalty on a sale, and whom it is paid to.
pub fn query_royalties_info(state: &State, sale_price: u128) -> (r: RoyaltiesInfoResponse)
    requires
        royalty_amount(state.config, sale_price) <= u128::MAX,
    ensures
        r.royalty_amount == royalty_amount(state.config, sale_price),
        r.royalty_address@ == royalty_address(state.config),
{
    let percentage: u64 = match state.config.royalty_percentage {
        Some(percentage) => percentage,
        None => 0,
    };
    let royalty_from_sale_price = mul_percent(sale_price, percentage);
    let royalty_address = match &state.config.royalty_payment_address {
        Some(addr) => addr.clone(),
        None => String::new(),
    };
    RoyaltiesInfoResponse { royalty_address, royalty_amount: royalty_from_sale_price }
}

/// The parameters of the minter, with the royalty fields set apart.
pub fn query_config(state: &State) -> (r: ConfigResponse)
    ensures
        r.owner == state.config.owner,
        r.cw721_code_id == state.config.cw721_code_id,
        r.cw721_address == state.config.cw721_address,
        r.max_tokens == state.config.max_tokens,
        r.max_tokens_per_mint == state.config.max_tokens_per_batch_mint,
        r.max_tokens_per_batch_transfer == state.config.max_tokens_per_batch_transfer,
        r.name == state.config.name,
        r.symbol == state.config.symbol,
        r.base_token_uri == state.config.base_token_uri,
        r.extension matches Some(metadata) && metadata.is_of(state.config),
{
    let config = &state.config;
    ConfigResponse {
        owner: config.owner.clone(),
        cw721_code_id: config.cw721_code_id,
        cw721_address: clone_opt(&config.cw721_address),
        max_tokens: config.max_tokens,
        max_tokens_per_mint: config.max_tokens_per_batch_mint,
        max_tokens_per_batch_transfer: config.max_tokens_per_batch_transfer,
        name: config.name.clone(),
        symbol: config.symbol.clone(),
        base_token_uri: config.base_token_uri.clone(),
        extension: Some(
            Metadata {
                royalty_percentage: config.royalty_percentage,
                royalty_payment_address: clone_opt(&config.royalty_payment_address),
            },
        ),
    }
}

/// Answers a query from the state.
pub fn query(state: &State, _env: &Env, msg: MinterQueryMsg) -> (r: QueryResponse)
    requires
        msg matches MinterQueryMsg::RoyaltyInfo { sale_price } ==> royalty_amount(
            state.config,
            sale_price,
        ) <= u128::MAX,
    ensures
        match msg {
            MinterQueryMsg::GetConfig {  } => {
                &&& r matches QueryResponse::Config(config)
                &&& config.owner == state.config.owner
                &&& config.cw721_code_id == state.config.cw721_code_id
                &&& config.cw721_address == state.config.cw721_address
                &&& config.max_tokens == state.config.max_tokens
                &&& config.max_tokens_per_mint == state.config.max_tokens_per_batch_mint
                &&& config.max_tokens_per_batch_transfer
                    == state.config.max_tokens_per_batch_transfer
                &&& config.name == state.config.name
                &&& config.symbol == state.config.symbol
                &&& config.base_token_uri == state.config.base_token_uri
                &&& config.extension matches Some(metadata) && metadata.is_of(state.config)
            },
            MinterQueryMsg::RoyaltyInfo { sale_price } => {
                &&& r matches QueryResponse::RoyaltyInfo(info)
                &&& info.royalty_amount == royalty_amount(state.config, sale_price)
                &&& info.royalty_address@ == royalty_address(state.config)
            },
        },
{
    match msg {
        MinterQueryMsg::GetConfig {  } => QueryResponse::Config(query_config(state)),
        MinterQueryMsg::RoyaltyInfo { sale_price } => QueryResponse::RoyaltyInfo(
            query_royalties_info(state, sale_price),
        ),
    }
}

/// Mints token `token_id` for the sender.
pub fn execute_mint_sender(state: &mut State, info: &MessageInfo, token_id: u32) -> (r: Result<
    Response,
    ContractError,
>)
    ensures
        mint_post(*old(state), *final(state), *info, Some(info.sender), Some(token_id), r),
{
    let recipient = info.sender.clone();
    _execute_mint(state, info, Some(recipient), Some(token_id))
}

/// Mints a batch of tokens for the sender.
pub fn execute_batch_mint_sender(
    state: &mut State,
    info: &MessageInfo,
    token_ids: Vec<u32>,
) -> (r: Result<Response, ContractError>)
    ensures
        batch_mint_post(*old(state), *final(state), *info, Some(info.sender), token_ids@, r),
{
    let recipient = info.sender.clone();
    _execute_batch_mint(state, info, Some(recipient), token_ids)
}

/// Mints token `token_id` for `recipient`.
pub fn execute_mint_to(
    state: &mut State,
    info: &MessageInfo,
    recipient: String,
    token_id: u32,
) -> (r: Result<Response, ContractError>)
    ensures
        mint_post(*old(state), *final(state), *info, Some(recipient), Some(token_id), r),
{
    _execute_mint(state, info, Some(recipient), Some(token_id))
}

/// Transfers token `token_id` to `recipient`.
pub fn execute_transfer_nft(
    state: &State,
    info: &MessageInfo,
    recipient: String,
    token_id: u32,
) -> (r: Result<Response, ContractError>)
    ensures
        transfer_post(*state, *info, recipient, token_id, r),
{
    _execute_transfer_nft(state, info, recipient, token_id)
}

/// Transfers a batch of tokens to `recipient`.
pub fn execute_batch_transfer_nft(
    state: &State,
    info: &MessageInfo,
    recipient: String,
    token_ids: Vec<u32>,
) -> (r: Result<Response, ContractError>)
    ensures
        batch_transfer_post(*state, *info, recipient, token_ids@, r),
{
    _execute_batch_transfer_nft(state, info, recipient, token_ids)
}

/// What an operation does: what the operation that `msg` names does.
pub open spec fn execute_post(
    before: State,
    after: State,
    info: MessageInfo,
    msg: ExecuteMsg,
    r: Result<Response, ContractError>,
) -> bool {
    match msg {
        ExecuteMsg::Mint { token_id } => mint_post(
            before,
            after,
            info,
            Some(info.sender),
            Some(token_id),
            r,
        ),
        ExecuteMsg::BatchMint { token_ids } => batch_mint_post(
            before,
            after,
            info,
            Some(info.sender),
            token_ids@,
            r,
        ),
        ExecuteMsg::MintTo { token_id, recipient } => mint_post(
            before,
            after,
            info,
            Some(recipient),
            Some(token_id),
            r,
        ),
        ExecuteMsg::TransferNft { recipient, token_id } => after == before && transfer_post(
            before,
            info,
            recipient,
            token_id,
            r,
        ),
        ExecuteMsg::BatchTransferNft { recipient, token_ids } => after == before
            && batch_transfer_post(before, info, recipient, token_ids@, r),
    }
}

/// Carries out the operation that `msg` names.
pub fn execute(state: &mut State, _env: &Env, info: &MessageInfo, msg: ExecuteMsg) -> (r: Result<
    Response,
    ContractError,
>)
    ensures
        execute_post(*old(state), *final(state), *info, msg, r),
{
    match msg {
        ExecuteMsg::Mint { token_id } => execute_mint_sender(state, info, token_id),
        ExecuteMsg::BatchMint { token_ids } => execute_batch_mint_sender(state, info, token_ids),
        ExecuteMsg::MintTo { token_id, recipient } => execute_mint_to(
            state,
            info,
            recipient,
            token_id,
        ),
        ExecuteMsg::TransferNft { recipient, token_id } => execute_transfer_nft(
            state,
            info,
            recipient,
            token_id,
        ),
        ExecuteMsg::BatchTransferNft { recipient, token_ids } => execute_batch_transfer_nft(
            state,
            info,
            recipient,
            token_ids,
        ),
    }
}

/// A batch mint whose window holds an identifier that is not available is
/// refused, and the state after it is the state before it.
pub proof fn lemma_batch_mint_with_sold_id(
    before: State,
    after: State,
    info: MessageInfo,
    recipient: Option<String>,
    ids: Seq<u32>,
    r: Result<Response, ContractError>,
    j: int,
)
    requires
        batch_mint_post(before, after, info, recipient, ids, r),
        0 <= j < batch_window(ids, before.config.max_tokens_per_batch_mint).len(),
        !before.pool@.contains(
            batch_window(ids, before.config.max_tokens_per_batch_mint)[j] as int,
        ),
    ensures
        r is Err,
        after@ == before@,
{
    crate::allocation::lemma_batch_with_sold_id_refused(
        before.pool@,
        before.config.max_tokens,
        batch_window(ids, before.config.max_tokens_per_batch_mint),
        j,
    );
}

/// No operation changes the parameters or the range of identifiers the
/// pool was made for: what holds of the state of a created minter holds
/// after every operation.
pub proof fn lemma_execute_keeps_wf(
    before: State,
    after: State,
    info: MessageInfo,
    msg: ExecuteMsg,
    r: Result<Response, ContractError>,
)
    requires
        before.wf(),
        execute_post(before, after, info, msg, r),
    ensures
        after.wf(),
        after.config == before.config,
        after.pool@.subset_of(before.pool@),
{
}

/// A reply changes nothing but the address of the token contract.
pub proof fn lemma_reply_keeps_wf(
    before: State,
    after: State,
    id: u64,
    address: Option<Seq<char>>,
    r: Result<(), ContractError>,
)
    requires
        before.wf(),
        handshake_post(before, after, id, address, r),
    ensures
        after.wf(),
        after.pool == before.pool,
        after.config.differs_in_address_only(before.config),
        r is Err ==> after.config.pending() == before.config.pending(),
        r is Ok ==> !after.config.pending(),
{
}

/// A batch mint of identifiers that lie in `1..=max_tokens`, are available
/// and differ from one another is not refused. It hands out the last
/// identifiers of the list, last first, as many as a batch may mint or all
/// of them where they are fewer; those before them stay available.
pub proof fn lemma_batch_mint_of_valid_ids(
    before: State,
    after: State,
    info: MessageInfo,
    recipient: Option<String>,
    ids: Seq<u32>,
    r: Result<Response, ContractError>,
)
    requires
        batch_mint_post(before, after, info, recipient, ids, r),
        forall|i: int|
            0 <= i < ids.len() ==> 1 <= #[trigger] ids[i] <= before.config.max_tokens
                && before.pool@.contains(ids[i] as int),
        ids.no_duplicates(),
    ensures
        r is Ok,
        ({
            let minted = r->Ok_0.token_ids@;
            let limit = before.config.max_tokens_per_batch_mint;
            &&& ids.len() <= limit ==> minted.len() == ids.len()
            &&& ids.len() > limit ==> minted.len() == limit
            &&& forall|k: int| 0 <= k < minted.len() ==> #[trigger] minted[k] == ids[ids.len() - 1 - k]
            &&& forall|k: int|
                0 <= k < minted.len() ==> !after.pool@.contains(#[trigger] minted[k] as int)
            &&& forall|i: int|
                0 <= i < ids.len() - minted.len() ==> after.pool@.contains(#[trigger] ids[i] as int)
            &&& after.pool@.len() == before.pool@.len() - minted.len()
        }),
{
    let window = batch_window(ids, before.config.max_tokens_per_batch_mint);
    crate::allocation::lemma_batch_of_valid_ids(
        before.pool@,
        before.config.max_tokens,
        ids,
        before.config.max_tokens_per_batch_mint,
    );
    assert(window.take(window.len() as int) =~= window);
    if r is Err {
        let k = choose|k: int|
            refused_at(before.pool@, before.config.max_tokens, window, k, r->Err_0);
        assert(refusal(
            available_at(before.pool@, window, k),
            before.config.max_tokens,
            window[k],
        ) is None);
    }
    assert forall|k: int| 0 <= k < window.len() implies !after.pool@.contains(
        #[trigger] window[k] as int,
    ) by {
        lemma_id_set_contains(window, k);
    }
}

/// Whether `states` are the states that a run of single mints goes through,
/// one call after the other: call `k` finds `states[k]`, leaves
/// `states[k + 1]` and answers `results[k]`.
pub open spec fn mint_run(
    states: Seq<State>,
    infos: Seq<MessageInfo>,
    recipients: Seq<Option<String>>,
    requests: Seq<Option<u32>>,
    results: Seq<Result<Response, ContractError>>,
) -> bool {
    &&& states.len() == results.len() + 1
    &&& infos.len() == results.len()
    &&& recipients.len() == results.len()
    &&& requests.len() == results.len()
    &&& forall|k: int|
        0 <= k < results.len() ==> mint_post(
            states[k],
            states[k + 1],
            infos[k],
            recipients[k],
            requests[k],
            #[trigger] results[k],
        )
}

/// Along a run of mints the pool only loses identifiers, and the parameters
/// stay as they are.
pub proof fn lemma_mint_run_shrinks(
    states: Seq<State>,
    infos: Seq<MessageInfo>,
    recipients: Seq<Option<String>>,
    requests: Seq<Option<u32>>,
    results: Seq<Result<Response, ContractError>>,
    i: int,
    j: int,
)
    requires
        mint_run(states, infos, recipients, requests, results),
        0 <= i <= j <= results.len(),
    ensures
        states[j].pool@.subset_of(states[i].pool@),
        states[j].config == states[i].config,
    decreases j - i,
{
    if i < j {
        lemma_mint_run_shrinks(states, infos, recipients, requests, results, i, j - 1);
        assert(mint_post(
            states[j - 1],
            states[j - 1 + 1],
            infos[j - 1],
            recipients[j - 1],
            requests[j - 1],
            results[j - 1],
        ));
    }
}

/// No two mints of a run that are not refused hand out the same identifier,
/// and each of them leaves one identifier fewer than it found.
pub proof fn lemma_mints_never_repeat(
    states: Seq<State>,
    infos: Seq<MessageInfo>,
    recipients: Seq<Option<String>>,
    requests: Seq<Option<u32>>,
    results: Seq<Result<Response, ContractError>>,
    i: int,
    j: int,
)
    requires
        mint_run(states, infos, recipients, requests, results),
        0 <= i < j < results.len(),
        results[i] is Ok,
        results[j] is Ok,
    ensures
        results[i]->Ok_0.token_ids@.len() == 1,
        results[j]->Ok_0.token_ids@.len() == 1,
        results[i]->Ok_0.token_ids@[0] != results[j]->Ok_0.token_ids@[0],
        states[i + 1].pool@.len() == states[i].pool@.len() - 1,
        states[j + 1].pool@.len() == states[j].pool@.len() - 1,
{
    assert(mint_post(states[i], states[i + 1], infos[i], recipients[i], requests[i], results[i]));
    assert(mint_post(states[j], states[j + 1], infos[j], recipients[j], requests[j], results[j]));
    lemma_mint_run_shrinks(states, infos, recipients, requests, results, i + 1, j);
}

/// A run of mints that name no identifier, none of them refused but the
/// last, which is refused as sold out, hands out as many identifiers as were
/// available when it began, and leaves none.
pub proof fn lemma_mint_run_until_sold_out(
    states: Seq<State>,
    infos: Seq<MessageInfo>,
    recipients: Seq<Option<String>>,
    results: Seq<Result<Response, ContractError>>,
)
    requires
        results.len() >= 1,
        mint_run(
            states,
            infos,
            recipients,
            Seq::new(results.len(), |k: int| None::<u32>),
            results,
        ),
        forall|k: int| 0 <= k < results.len() - 1 ==> (#[trigger] results[k]) is Ok,
        results.last() == Err::<Response, ContractError>(ContractError::SoldOut {  }),
    ensures
        results.len() - 1 == states[0].pool@.len(),
        states.last().pool@.len() == 0,
{
    let requests = Seq::new(results.len(), |k: int| None::<u32>);
    let n = results.len() - 1;
    lemma_mint_run_count(states, infos, recipients, results, n);
    assert(mint_post(states[n], states[n + 1], infos[n], recipients[n], requests[n], results[n]));
    states[n].pool.lemma_bounded();
    assert(states[n].pool@ == Set::<int>::empty());
    assert(states[n + 1]@ == states[n]@);
}

proof fn lemma_mint_run_count(
    states: Seq<State>,
    infos: Seq<MessageInfo>,
    recipients: Seq<Option<String>>,
    results: Seq<Result<Response, ContractError>>,
    k: int,
)
    requires
        mint_run(
            states,
            infos,
            recipients,
            Seq::new(results.len(), |k: int| None::<u32>),
            results,
        ),
        0 <= k < results.len(),
        forall|i: int| 0 <= i < results.len() - 1 ==> (#[trigger] results[i]) is Ok,
    ensures
        states[k].pool@.len() == states[0].pool@.len() - k,
    decreases k,
{
    let requests = Seq::new(results.len(), |k: int| None::<u32>);
    if k > 0 {
        lemma_mint_run_count(states, infos, recipients, results, k - 1);
        assert(results[k - 1] is Ok);
        assert(mint_post(
            states[k - 1],
            states[k - 1 + 1],
            infos[k - 1],
            recipients[k - 1],
            requests[k - 1],
            results[k - 1],
        ));
    }
}

/// With a percentage of at most 100 the royalty is at most the price, so it
/// fits wherever the price does.
pub proof fn lemma_royalty_within_price(config: Config, sale_price: u128)
    requires
        royalty_percentage(config) <= 100,
    ensures
        0 <= royalty_amount(config, sale_price) <= sale_price,
{
    let percentage = royalty_percentage(config) as int;
    let price = sale_price as int;
    assert(0 <= price * percentage <= price * 100) by (nonlinear_arith)
        requires
            0 <= price,
            0 <= percentage <= 100,
    ;
}

/// Whether the royalty on a sale at `sale_price` fits in 128 bits.
pub fn royalty_fits(config: &Config, sale_price: u128) -> (fits: bool)
    ensures
        fits == (royalty_amount(*config, sale_price) <= u128::MAX),
{
    let percentage: u64 = match config.royalty_percentage {
        Some(percentage) => percentage,
        None => 0,
    };
    if percentage <= 100 {
        proof {
            lemma_royalty_within_price(*config, sale_price);
        }
        return true;
    }
    let p: u128 = percentage as u128;
    let whole: u128 = u128::MAX / p;
    let left: u128 = u128::MAX % p;
    proof {
        assert(u128::MAX == p * whole + left && 0 <= left < p) by (nonlinear_arith)
            requires
                p > 0,
                whole == u128::MAX / p,
                left == u128::MAX % p,
        ;
        assert(100 * whole <= u128::MAX) by (nonlinear_arith)
            requires
                p > 100,
                p * whole <= u128::MAX,
                whole >= 0,
        ;
    }
    let part: u128 = (100 * left + 99) / p;
    proof {
        assert(100 * whole + part <= u128::MAX) by (nonlinear_arith)
            requires
                p > 100,
                u128::MAX == p * whole + left,
                0 <= left < p,
                whole >= 0,
                part == (100 * left + 99) / (p as int),
        ;
    }
    let bound: u128 = 100 * whole + part;
    proof {
        let a = sale_price as int;
        let pp = p as int;
        let b = bound as int;
        let top = 100 * (u128::MAX as int) + 99;
        assert(b * pp <= top < (b + 1) * pp) by (nonlinear_arith)
            requires
                pp > 100,
                u128::MAX == pp * whole + left,
                0 <= left < pp,
                part == (100 * left + 99) / pp,
                b == 100 * whole + part,
                top == 100 * (u128::MAX as int) + 99,
        ;
        if a <= b {
            assert(a * pp <= top) by (nonlinear_arith)
                requires
                    0 <= a <= b,
                    pp > 0,
                    b * pp <= top,
            ;
            assert(a * pp / 100 <= u128::MAX) by (nonlinear_arith)
                requires
                    a * pp <= top,
                    top == 100 * (u128::MAX as int) + 99,
            ;
        } else {
            assert(a * pp > top) by (nonlinear_arith)
                requires
                    a >= b + 1,
                    pp > 0,
                    top < (b + 1) * pp,
            ;
            assert(a * pp / 100 > u128::MAX) by (nonlinear_arith)
                requires
                    a * pp > top,
                    top == 100 * (u128::MAX as int) + 99,
            ;
        }
    }
    sale_price <= bound
}

/// The royalty on a sale, and whom it is paid to; `None` where the royalty
/// does not fit in 128 bits.
pub fn try_query_royalties_info(state: &State, sale_price: u128) -> (r: Option<
    RoyaltiesInfoResponse,
>)
    ensures
        r is Some <==> royalty_amount(state.config, sale_price) <= u128::MAX,
        r matches Some(info) ==> info.royalty_amount == royalty_amount(state.config, sale_price)
            && info.royalty_address@ == royalty_address(state.config),
{
    if royalty_fits(&state.config, sale_price) {
        Some(query_royalties_info(state, sale_price))
    } else {
        None
    }
}

} // verus!
