use minter::contract::{
    _create_cw721_mint, _create_cw721_transfer, _execute_batch_mint,
    _execute_batch_transfer_nft, _execute_mint, _execute_transfer_nft, check_limits,
    complete_handshake, execute, execute_batch_mint_sender, execute_batch_transfer_nft,
    execute_mint_sender, execute_mint_to, execute_transfer_nft, instantiate, query, query_config,
    query_royalties_info, reply, royalty_fits, try_query_royalties_info,
};
use minter::error::ContractError;
use minter::msg::{
    ContractInfo, Env, ExecuteMsg, InstantiateMsg, MessageInfo, Metadata, MintMsg,
    MinterQueryMsg, QueryResponse, Reply, SubMsgResponse, TokensResponse, WasmMsg,
};
use minter::state::{State, INSTANTIATE_CW721_REPLY_ID, MAX_TOKEN_LIMIT, MAX_TOKEN_PER_BATCH_LIMIT};

fn env() -> Env {
    Env { contract: ContractInfo { address: String::from("minter-contract") } }
}

fn info(sender: &str) -> MessageInfo {
    MessageInfo { sender: String::from(sender) }
}

fn init_msg(num_tokens: u32, batch_mint: u32, batch_transfer: u32) -> InstantiateMsg {
    InstantiateMsg {
        cw721_code_id: 10,
        name: String::from("Collection"),
        symbol: String::from("COL"),
        base_token_uri: String::from("ipfs://QmBase"),
        num_tokens,
        max_tokens_per_batch_mint: batch_mint,
        max_tokens_per_batch_transfer: batch_transfer,
        royalty_percentage: Some(5),
        royalty_payment_address: Some(String::from("royalty-address")),
    }
}

fn fresh(num_tokens: u32, batch_mint: u32, batch_transfer: u32) -> State {
    instantiate(&env(), &info("creator"), init_msg(num_tokens, batch_mint, batch_transfer))
        .unwrap()
        .0
}

fn ready(num_tokens: u32, batch_mint: u32, batch_transfer: u32) -> State {
    let mut state = fresh(num_tokens, batch_mint, batch_transfer);
    state.config.set_issuance_address(String::from("cw721-contract"));
    state
}

fn available(state: &State) -> Vec<u32> {
    (0..=state.config.max_tokens + 1).filter(|id| state.pool.contains(*id)).collect()
}

fn instantiate_data(address: &str) -> Vec<u8> {
    let mut data = vec![0x0a, address.len() as u8];
    data.extend_from_slice(address.as_bytes());
    data
}

#[test]
fn instantiate_fills_the_pool() {
    let (state, response) = instantiate(&env(), &info("creator"), init_msg(100, 20, 30)).unwrap();
    assert_eq!(state.pool.remaining(), 100);
    assert_eq!(available(&state), (1..=100).collect::<Vec<u32>>());
    assert_eq!(state.config.owner, "creator");
    assert_eq!(state.config.cw721_code_id, 10);
    assert_eq!(state.config.cw721_address, None);
    assert_eq!(state.config.name, "Collection");
    assert_eq!(state.config.symbol, "COL");
    assert_eq!(state.config.base_token_uri, "ipfs://QmBase");
    assert_eq!(state.config.max_tokens, 100);
    assert_eq!(state.config.max_tokens_per_batch_mint, 20);
    assert_eq!(state.config.max_tokens_per_batch_transfer, 30);
    assert_eq!(state.config.royalty_percentage, Some(5));
    assert_eq!(state.config.royalty_payment_address, Some(String::from("royalty-address")));
    assert_eq!(response.owner, "creator");
    assert_eq!(response.submessages.len(), 1);
    let sub = &response.submessages[0];
    assert_eq!(sub.id, INSTANTIATE_CW721_REPLY_ID);
    assert_eq!(sub.id, 1);
    assert_eq!(sub.admin, Some(String::from("creator")));
    assert_eq!(sub.code_id, 10);
    assert_eq!(sub.label, "Check CW721");
    assert_eq!(
        String::from_utf8(sub.msg.clone()).unwrap(),
        "{\"name\":\"Collection\",\"symbol\":\"COL\",\"minter\":\"minter-contract\"}"
    );
}

#[test]
fn instantiate_accepts_the_largest_limits() {
    let state = fresh(MAX_TOKEN_LIMIT, MAX_TOKEN_PER_BATCH_LIMIT, MAX_TOKEN_PER_BATCH_LIMIT);
    assert_eq!(state.pool.remaining(), 10000);
    assert!(state.pool.contains(10000));
    assert!(!state.pool.contains(10001));
    let state = fresh(1, 1, 1);
    assert_eq!(state.pool.remaining(), 1);
}

#[test]
fn instantiate_refuses_bad_capacity() {
    let expected = ContractError::InvalidNumTokens { min: 1, max: 10000 };
    assert_eq!(instantiate(&env(), &info("creator"), init_msg(0, 20, 30)).unwrap_err(), expected);
    assert_eq!(
        instantiate(&env(), &info("creator"), init_msg(10001, 20, 30)).unwrap_err(),
        expected
    );
}

#[test]
fn instantiate_refuses_bad_batch_mint_limit() {
    let expected = ContractError::InvalidMaxTokensPerBatchMint { min: 1, max: 200 };
    assert_eq!(instantiate(&env(), &info("creator"), init_msg(100, 0, 30)).unwrap_err(), expected);
    assert_eq!(
        instantiate(&env(), &info("creator"), init_msg(100, 201, 30)).unwrap_err(),
        expected
    );
}

#[test]
fn instantiate_refuses_bad_batch_transfer_limit() {
    let expected = ContractError::InvalidMaxTokensPerBatchTransfer { min: 1, max: 200 };
    assert_eq!(instantiate(&env(), &info("creator"), init_msg(100, 20, 0)).unwrap_err(), expected);
    assert_eq!(
        instantiate(&env(), &info("creator"), init_msg(100, 20, 201)).unwrap_err(),
        expected
    );
}

#[test]
fn instantiate_checks_limits_before_the_uri() {
    let mut msg = init_msg(0, 0, 0);
    msg.base_token_uri = String::from("not a url");
    assert_eq!(
        instantiate(&env(), &info("creator"), msg).unwrap_err(),
        ContractError::InvalidNumTokens { min: 1, max: 10000 }
    );
    let mut msg = init_msg(5, 0, 0);
    msg.base_token_uri = String::from("not a url");
    assert_eq!(
        instantiate(&env(), &info("creator"), msg).unwrap_err(),
        ContractError::InvalidMaxTokensPerBatchMint { min: 1, max: 200 }
    );
}

#[test]
fn instantiate_refuses_other_schemes() {
    let mut msg = init_msg(100, 20, 30);
    msg.base_token_uri = String::from("https://example.com/tokens");
    assert_eq!(
        instantiate(&env(), &info("creator"), msg).unwrap_err(),
        ContractError::InvalidBaseTokenURI {}
    );
}

#[test]
fn instantiate_takes_the_scheme_in_any_case() {
    let mut msg = init_msg(100, 20, 30);
    msg.base_token_uri = String::from("IPFS://QmBase");
    assert!(instantiate(&env(), &info("creator"), msg).is_ok());
}

#[test]
fn instantiate_refuses_what_is_no_url() {
    let mut msg = init_msg(100, 20, 30);
    msg.base_token_uri = String::from("no scheme here");
    let err = instantiate(&env(), &info("creator"), msg).unwrap_err();
    assert!(matches!(err, ContractError::ParseError(_)));
}

#[test]
fn check_limits_accepts_limits_in_range() {
    assert_eq!(check_limits(&init_msg(1, 1, 1)), Ok(()));
    assert_eq!(check_limits(&init_msg(10000, 200, 200)), Ok(()));
}

#[test]
fn mint_hands_out_the_requested_id() {
    let mut state = ready(10, 5, 5);
    let response = execute_mint_sender(&mut state, &info("alice"), 4).unwrap();
    assert_eq!(response.sender, "alice");
    assert_eq!(response.recipient, "alice");
    assert_eq!(response.token_ids, vec![4]);
    assert_eq!(state.pool.remaining(), 9);
    assert!(!state.pool.contains(4));
    assert_eq!(
        response.messages,
        vec![WasmMsg::Mint {
            contract_addr: Some(String::from("cw721-contract")),
            msg: MintMsg {
                token_id: String::from("4"),
                owner: String::from("alice"),
                token_uri: Some(String::from("ipfs://QmBase/4")),
                extension: Some(Metadata {
                    royalty_percentage: Some(5),
                    royalty_payment_address: Some(String::from("royalty-address")),
                }),
            },
        }]
    );
}

#[test]
fn mint_runs_before_the_token_contract_is_known() {
    let mut state = fresh(10, 5, 5);
    let response = execute_mint_sender(&mut state, &info("alice"), 4).unwrap();
    match &response.messages[0] {
        WasmMsg::Mint { contract_addr, .. } => assert_eq!(*contract_addr, None),
        other => panic!("unexpected message {:?}", other),
    }
    assert_eq!(state.pool.remaining(), 9);
}

#[test]
fn mint_refuses_a_sold_id() {
    let mut state = ready(10, 5, 5);
    execute_mint_sender(&mut state, &info("alice"), 4).unwrap();
    let err = execute_mint_sender(&mut state, &info("bob"), 4).unwrap_err();
    assert_eq!(err, ContractError::TokenIdAlreadySold { token_id: 4 });
    assert_eq!(state.pool.remaining(), 9);
}

#[test]
fn mint_refuses_ids_out_of_range() {
    let mut state = ready(10, 5, 5);
    assert_eq!(
        execute_mint_sender(&mut state, &info("alice"), 0).unwrap_err(),
        ContractError::InvalidTokenId {}
    );
    assert_eq!(
        execute_mint_sender(&mut state, &info("alice"), 11).unwrap_err(),
        ContractError::InvalidTokenId {}
    );
    assert_eq!(state.pool.remaining(), 10);
    assert!(execute_mint_sender(&mut state, &info("alice"), 10).is_ok());
    assert!(execute_mint_sender(&mut state, &info("alice"), 1).is_ok());
}

#[test]
fn mint_to_names_the_recipient() {
    let mut state = ready(10, 5, 5);
    let response = execute_mint_to(&mut state, &info("alice"), String::from("bob"), 2).unwrap();
    assert_eq!(response.sender, "alice");
    assert_eq!(response.recipient, "bob");
    match &response.messages[0] {
        WasmMsg::Mint { msg, .. } => assert_eq!(msg.owner, "bob"),
        other => panic!("unexpected message {:?}", other),
    }
}

#[test]
fn mint_without_recipient_is_for_the_sender() {
    let mut state = ready(10, 5, 5);
    let response = _execute_mint(&mut state, &info("alice"), None, Some(3)).unwrap();
    assert_eq!(response.recipient, "alice");
}

#[test]
fn mint_without_id_picks_the_lowest() {
    let mut state = ready(5, 5, 5);
    execute_mint_sender(&mut state, &info("alice"), 1).unwrap();
    execute_mint_sender(&mut state, &info("alice"), 3).unwrap();
    let response = _execute_mint(&mut state, &info("alice"), None, None).unwrap();
    assert_eq!(response.token_ids, vec![2]);
    let response = _execute_mint(&mut state, &info("alice"), None, None).unwrap();
    assert_eq!(response.token_ids, vec![4]);
}

#[test]
fn successive_mints_never_repeat_an_id() {
    let mut state = ready(6, 5, 5);
    let requests = [Some(5), None, Some(2), None, None, Some(6)];
    let mut seen: Vec<u32> = Vec::new();
    for (done, request) in requests.iter().enumerate() {
        let response = _execute_mint(&mut state, &info("alice"), None, *request).unwrap();
        let id = response.token_ids[0];
        assert!(!seen.contains(&id));
        seen.push(id);
        assert_eq!(state.pool.remaining() as usize, 6 - (done + 1));
    }
    assert_eq!(seen, vec![5, 1, 2, 3, 4, 6]);
}

#[test]
fn minting_until_sold_out_hands_out_every_id() {
    let capacity = 37;
    let mut state = ready(capacity, 5, 5);
    let mut seen: Vec<u32> = Vec::new();
    loop {
        match _execute_mint(&mut state, &info("alice"), None, None) {
            Ok(response) => seen.push(response.token_ids[0]),
            Err(err) => {
                assert_eq!(err, ContractError::SoldOut {});
                break;
            }
        }
    }
    assert_eq!(seen, (1..=capacity).collect::<Vec<u32>>());
    assert_eq!(state.pool.remaining(), 0);
    assert_eq!(
        _execute_mint(&mut state, &info("alice"), None, None).unwrap_err(),
        ContractError::SoldOut {}
    );
}

#[test]
fn batch_mint_goes_from_the_last_id_to_the_first() {
    let mut state = ready(10, 5, 5);
    let response = execute_batch_mint_sender(&mut state, &info("alice"), vec![3, 7, 1]).unwrap();
    assert_eq!(response.token_ids, vec![1, 7, 3]);
    assert_eq!(response.sender, "alice");
    assert_eq!(response.recipient, "alice");
    assert_eq!(response.messages.len(), 3);
    let ids: Vec<String> = response
        .messages
        .iter()
        .map(|m| match m {
            WasmMsg::Mint { msg, .. } => msg.token_id.clone(),
            other => panic!("unexpected message {:?}", other),
        })
        .collect();
    assert_eq!(ids, vec!["1", "7", "3"]);
    assert_eq!(state.pool.remaining(), 7);
    assert_eq!(available(&state), vec![2, 4, 5, 6, 8, 9, 10]);
}

#[test]
fn batch_mint_stops_at_the_limit() {
    let mut state = ready(10, 3, 5);
    let response =
        execute_batch_mint_sender(&mut state, &info("alice"), vec![1, 2, 3, 4, 5]).unwrap();
    assert_eq!(response.token_ids, vec![5, 4, 3]);
    assert_eq!(response.messages.len(), 3);
    assert_eq!(state.pool.remaining(), 7);
    assert!(state.pool.contains(1));
    assert!(state.pool.contains(2));
}

#[test]
fn batch_mint_of_exactly_the_limit_takes_all() {
    let mut state = ready(10, 3, 5);
    let response = execute_batch_mint_sender(&mut state, &info("alice"), vec![8, 9, 10]).unwrap();
    assert_eq!(response.token_ids, vec![10, 9, 8]);
    assert_eq!(state.pool.remaining(), 7);
}

#[test]
fn batch_mint_does_not_look_past_the_limit() {
    let mut state = ready(10, 2, 5);
    let response =
        execute_batch_mint_sender(&mut state, &info("alice"), vec![0, 99, 4, 5]).unwrap();
    assert_eq!(response.token_ids, vec![5, 4]);
}

#[test]
fn batch_mint_with_a_sold_id_changes_nothing() {
    let mut state = ready(10, 5, 5);
    execute_mint_sender(&mut state, &info("alice"), 4).unwrap();
    let before = available(&state);
    let err = execute_batch_mint_sender(&mut state, &info("bob"), vec![4, 5, 6]).unwrap_err();
    assert_eq!(err, ContractError::TokenIdAlreadySold { token_id: 4 });
    assert_eq!(available(&state), before);
    assert_eq!(state.pool.remaining(), 9);
}

#[test]
fn batch_mint_with_a_repeated_id_changes_nothing() {
    let mut state = ready(10, 5, 5);
    let err = execute_batch_mint_sender(&mut state, &info("bob"), vec![2, 3, 2]).unwrap_err();
    assert_eq!(err, ContractError::TokenIdAlreadySold { token_id: 2 });
    assert_eq!(available(&state), (1..=10).collect::<Vec<u32>>());
    assert_eq!(state.pool.remaining(), 10);
}

#[test]
fn batch_mint_with_an_invalid_id_changes_nothing() {
    let mut state = ready(10, 5, 5);
    let err = execute_batch_mint_sender(&mut state, &info("bob"), vec![11, 3, 2]).unwrap_err();
    assert_eq!(err, ContractError::InvalidTokenId {});
    assert_eq!(state.pool.remaining(), 10);
    let err = execute_batch_mint_sender(&mut state, &info("bob"), vec![3, 0]).unwrap_err();
    assert_eq!(err, ContractError::InvalidTokenId {});
    assert_eq!(available(&state), (1..=10).collect::<Vec<u32>>());
}

#[test]
fn batch_mint_reports_the_first_refusal_from_the_end() {
    let mut state = ready(10, 5, 5);
    execute_mint_sender(&mut state, &info("alice"), 4).unwrap();
    let err = execute_batch_mint_sender(&mut state, &info("bob"), vec![0, 4, 5]).unwrap_err();
    assert_eq!(err, ContractError::TokenIdAlreadySold { token_id: 4 });
}

#[test]
fn empty_batch_mint_does_nothing() {
    let mut state = ready(10, 5, 5);
    let response = _execute_batch_mint(&mut state, &info("alice"), None, vec![]).unwrap();
    assert_eq!(response.token_ids, Vec::<u32>::new());
    assert!(response.messages.is_empty());
    assert_eq!(response.recipient, "alice");
    assert_eq!(state.pool.remaining(), 10);
}

#[test]
fn create_mint_binds_recipient_id_and_uri() {
    let state = ready(10, 5, 5);
    let msg = _create_cw721_mint(&state.config, "carol", 10);
    assert_eq!(
        msg,
        WasmMsg::Mint {
            contract_addr: Some(String::from("cw721-contract")),
            msg: MintMsg {
                token_id: String::from("10"),
                owner: String::from("carol"),
                token_uri: Some(String::from("ipfs://QmBase/10")),
                extension: Some(Metadata {
                    royalty_percentage: Some(5),
                    royalty_payment_address: Some(String::from("royalty-address")),
                }),
            },
        }
    );
}

#[test]
fn transfer_gives_the_encoded_instruction() {
    let state = ready(10, 5, 5);
    let response =
        execute_transfer_nft(&state, &info("alice"), String::from("bob"), 5).unwrap();
    assert_eq!(response.sender, "alice");
    assert_eq!(response.recipient, "bob");
    assert_eq!(response.token_ids, vec![5]);
    assert_eq!(response.messages.len(), 1);
    match &response.messages[0] {
        WasmMsg::Execute { contract_addr, msg } => {
            assert_eq!(*contract_addr, Some(String::from("cw721-contract")));
            assert_eq!(
                String::from_utf8(msg.clone()).unwrap(),
                "{\"transfer_nft\":{\"recipient\":\"bob\",\"token_id\":\"5\"}}"
            );
        }
        other => panic!("unexpected message {:?}", other),
    }
    assert_eq!(state.pool.remaining(), 10);
}

#[test]
fn transfer_does_not_ask_whether_the_token_exists() {
    let state = ready(10, 5, 5);
    assert!(_execute_transfer_nft(&state, &info("alice"), String::from("bob"), 0).is_ok());
    assert!(_execute_transfer_nft(&state, &info("alice"), String::from("bob"), 999).is_ok());
}

#[test]
fn create_transfer_encodes_recipient_and_id() {
    let state = ready(10, 5, 5);
    let msg = _create_cw721_transfer(&state.config, "dave", 123).unwrap();
    assert_eq!(
        msg,
        WasmMsg::Execute {
            contract_addr: Some(String::from("cw721-contract")),
            msg: b"{\"transfer_nft\":{\"recipient\":\"dave\",\"token_id\":\"123\"}}".to_vec(),
        }
    );
}

#[test]
fn batch_transfer_goes_from_the_last_id_and_stops_at_the_limit() {
    let state = ready(10, 5, 2);
    let response = execute_batch_transfer_nft(
        &state,
        &info("alice"),
        String::from("bob"),
        vec![1, 2, 3, 3],
    )
    .unwrap();
    assert_eq!(response.token_ids, vec![3, 3]);
    assert_eq!(response.messages.len(), 2);
    let response =
        _execute_batch_transfer_nft(&state, &info("alice"), String::from("bob"), vec![7, 8])
            .unwrap();
    assert_eq!(response.token_ids, vec![8, 7]);
    match &response.messages[1] {
        WasmMsg::Execute { msg, .. } => assert_eq!(
            String::from_utf8(msg.clone()).unwrap(),
            "{\"transfer_nft\":{\"recipient\":\"bob\",\"token_id\":\"7\"}}"
        ),
        other => panic!("unexpected message {:?}", other),
    }
    assert_eq!(state.pool.remaining(), 10);
}

#[test]
fn execute_dispatches_each_operation() {
    let mut state = ready(10, 5, 5);
    let r = execute(&mut state, &env(), &info("alice"), ExecuteMsg::Mint { token_id: 1 }).unwrap();
    assert_eq!(r.token_ids, vec![1]);
    let r = execute(
        &mut state,
        &env(),
        &info("alice"),
        ExecuteMsg::BatchMint { token_ids: vec![2, 3] },
    )
    .unwrap();
    assert_eq!(r.token_ids, vec![3, 2]);
    let r = execute(
        &mut state,
        &env(),
        &info("alice"),
        ExecuteMsg::MintTo { token_id: 4, recipient: String::from("bob") },
    )
    .unwrap();
    assert_eq!(r.recipient, "bob");
    assert_eq!(state.pool.remaining(), 6);
    let r = execute(
        &mut state,
        &env(),
        &info("alice"),
        ExecuteMsg::TransferNft { recipient: String::from("bob"), token_id: 1 },
    )
    .unwrap();
    assert_eq!(r.token_ids, vec![1]);
    let r = execute(
        &mut state,
        &env(),
        &info("alice"),
        ExecuteMsg::BatchTransferNft { recipient: String::from("bob"), token_ids: vec![2, 3] },
    )
    .unwrap();
    assert_eq!(r.token_ids, vec![3, 2]);
    assert_eq!(state.pool.remaining(), 6);
    let err =
        execute(&mut state, &env(), &info("alice"), ExecuteMsg::Mint { token_id: 1 }).unwrap_err();
    assert_eq!(err, ContractError::TokenIdAlreadySold { token_id: 1 });
}

#[test]
fn royalty_is_the_percentage_rounded_down() {
    let state = ready(10, 5, 5);
    let r = query_royalties_info(&state, 10000);
    assert_eq!(r.royalty_amount, 500);
    assert_eq!(r.royalty_address, "royalty-address");
    assert_eq!(query_royalties_info(&state, 99).royalty_amount, 4);
    assert_eq!(query_royalties_info(&state, 19).royalty_amount, 0);
    assert_eq!(query_royalties_info(&state, 0).royalty_amount, 0);
    assert_eq!(
        query_royalties_info(&state, u128::MAX).royalty_amount,
        17014118346046923173168730371588410572
    );
}

#[test]
fn royalty_without_percentage_is_zero() {
    let mut msg = init_msg(10, 5, 5);
    msg.royalty_percentage = None;
    msg.royalty_payment_address = None;
    let state = instantiate(&env(), &info("creator"), msg).unwrap().0;
    let r = query_royalties_info(&state, 10000);
    assert_eq!(r.royalty_amount, 0);
    assert_eq!(r.royalty_address, "");
}

#[test]
fn royalty_of_the_whole_price() {
    let mut state = ready(10, 5, 5);
    state.config.royalty_percentage = Some(100);
    assert_eq!(query_royalties_info(&state, u128::MAX).royalty_amount, u128::MAX);
    state.config.royalty_percentage = Some(0);
    assert_eq!(query_royalties_info(&state, u128::MAX).royalty_amount, 0);
}

#[test]
fn royalty_that_does_not_fit_is_told_apart() {
    let mut state = ready(10, 5, 5);
    state.config.royalty_percentage = Some(200);
    assert!(royalty_fits(&state.config, u128::MAX / 2));
    assert!(!royalty_fits(&state.config, u128::MAX / 2 + 1));
    assert_eq!(
        try_query_royalties_info(&state, u128::MAX / 2).unwrap().royalty_amount,
        u128::MAX - 1
    );
    assert_eq!(try_query_royalties_info(&state, u128::MAX / 2 + 1), None);
    assert_eq!(try_query_royalties_info(&state, 50).unwrap().royalty_amount, 100);
    state.config.royalty_percentage = Some(u64::MAX);
    assert!(royalty_fits(&state.config, 1844674407370955161700));
    assert!(!royalty_fits(&state.config, 1844674407370955161701));
    state.config.royalty_percentage = Some(101);
    assert!(royalty_fits(&state.config, 336913234575186597488489710328483377679));
    assert!(!royalty_fits(&state.config, 336913234575186597488489710328483377680));
}

#[test]
fn query_config_shows_the_parameters() {
    let state = ready(10, 5, 6);
    let r = query_config(&state);
    assert_eq!(r.owner, "creator");
    assert_eq!(r.cw721_code_id, 10);
    assert_eq!(r.cw721_address, Some(String::from("cw721-contract")));
    assert_eq!(r.max_tokens, 10);
    assert_eq!(r.max_tokens_per_mint, 5);
    assert_eq!(r.max_tokens_per_batch_transfer, 6);
    assert_eq!(r.name, "Collection");
    assert_eq!(r.symbol, "COL");
    assert_eq!(r.base_token_uri, "ipfs://QmBase");
    assert_eq!(
        r.extension,
        Some(Metadata {
            royalty_percentage: Some(5),
            royalty_payment_address: Some(String::from("royalty-address")),
        })
    );
}

#[test]
fn query_dispatches_each_question() {
    let state = ready(10, 5, 6);
    match query(&state, &env(), MinterQueryMsg::GetConfig {}) {
        QueryResponse::Config(config) => assert_eq!(config, query_config(&state)),
        other => panic!("unexpected answer {:?}", other),
    }
    match query(&state, &env(), MinterQueryMsg::RoyaltyInfo { sale_price: 10000 }) {
        QueryResponse::RoyaltyInfo(r) => assert_eq!(r.royalty_amount, 500),
        other => panic!("unexpected answer {:?}", other),
    }
}

#[test]
fn reply_sets_the_address() {
    let mut state = fresh(10, 5, 5);
    let msg = Reply {
        id: 1,
        result: Ok(SubMsgResponse { data: Some(instantiate_data("cw721-contract")) }),
    };
    assert_eq!(reply(&mut state, &env(), msg), Ok(()));
    assert_eq!(state.config.cw721_address, Some(String::from("cw721-contract")));
    assert_eq!(state.config.owner, "creator");
    assert_eq!(state.config.max_tokens, 10);
    assert_eq!(state.pool.remaining(), 10);
}

#[test]
fn reply_with_another_tag_changes_nothing() {
    let mut state = fresh(10, 5, 5);
    let before = state.config.clone();
    for id in [0u64, 2, u64::MAX] {
        let msg = Reply {
            id,
            result: Ok(SubMsgResponse { data: Some(instantiate_data("cw721-contract")) }),
        };
        assert_eq!(reply(&mut state, &env(), msg), Err(ContractError::InvalidReplyID {}));
        assert_eq!(state.config, before);
        let msg = Reply { id, result: Err(String::from("failed")) };
        assert_eq!(reply(&mut state, &env(), msg), Err(ContractError::InvalidReplyID {}));
        assert_eq!(state.config, before);
    }
    assert_eq!(state.pool.remaining(), 10);
}

#[test]
fn reply_of_a_failed_request_changes_nothing() {
    let mut state = fresh(10, 5, 5);
    let before = state.config.clone();
    let msg = Reply { id: 1, result: Err(String::from("out of gas")) };
    assert_eq!(reply(&mut state, &env(), msg), Err(ContractError::InstantiateCW721Error {}));
    assert_eq!(state.config, before);
    let msg = Reply { id: 1, result: Ok(SubMsgResponse { data: None }) };
    assert_eq!(reply(&mut state, &env(), msg), Err(ContractError::InstantiateCW721Error {}));
    assert_eq!(state.config, before);
}

#[test]
fn reply_that_cannot_be_read_changes_nothing() {
    let mut state = fresh(10, 5, 5);
    let before = state.config.clone();
    let msg = Reply { id: 1, result: Ok(SubMsgResponse { data: Some(vec![0x12, 0x01, 0x41]) }) };
    assert_eq!(reply(&mut state, &env(), msg), Err(ContractError::InstantiateCW721Error {}));
    assert_eq!(state.config, before);
    let msg = Reply { id: 1, result: Ok(SubMsgResponse { data: Some(vec![0x0a, 0x05, 0x41]) }) };
    assert_eq!(reply(&mut state, &env(), msg), Err(ContractError::InstantiateCW721Error {}));
    assert_eq!(state.config, before);
}

#[test]
fn complete_handshake_checks_the_tag_first() {
    let mut state = fresh(10, 5, 5);
    assert_eq!(
        complete_handshake(&mut state, 7, Ok(String::from("addr"))),
        Err(ContractError::InvalidReplyID {})
    );
    assert_eq!(state.config.cw721_address, None);
    assert_eq!(complete_handshake(&mut state, 1, Ok(String::from("addr"))), Ok(()));
    assert_eq!(state.config.cw721_address, Some(String::from("addr")));
}

#[test]
fn tokens_response_holds_its_tokens() {
    let page = TokensResponse { tokens: vec![String::from("1"), String::from("2")] };
    assert_eq!(page.clone(), page);
    assert_eq!(page.tokens.len(), 2);
}
