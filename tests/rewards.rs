use authzpp::coins::{coin, coins, Decimal};
use authzpp::contract_msgs::{query_version, GrantSpecData, GrantStructure, QueryMsg};
use authzpp::error::ContractError;
use authzpp::grants::{AuthorizationType, GrantRequirement, RevokeRequirement, Timestamp};
use authzpp::msgs::{create_withdraw_rewards_exec_msg, CosmosMsg};
use authzpp::rewards::{
    execute_rewards_withdraw, generate_reward_withdrawl_msgs, query_active_grants_by_delegator,
    query_active_grants_by_grantee, AllPendingRewards, AllowedWithdrawlSettings, PendingReward,
    RewardExecutionMsgs,
};
use authzpp::store::GrantStore;
use cosmos_sdk_proto::cosmos::authz::v1beta1::MsgExec;
use cosmos_sdk_proto::cosmos::distribution::v1beta1::{
    MsgSetWithdrawAddress, MsgWithdrawDelegatorReward,
};
use cosmos_sdk_proto::traits::{Message, MessageExt};

fn s(x: &str) -> String {
    x.to_string()
}

fn set_withdraw(delegator: &str, withdraw: &str) -> cosmos_sdk_proto::Any {
    MsgSetWithdrawAddress { delegator_address: s(delegator), withdraw_address: s(withdraw) }
        .to_any()
        .unwrap()
}

fn claim(delegator: &str, validator: &str) -> cosmos_sdk_proto::Any {
    MsgWithdrawDelegatorReward { delegator_address: s(delegator), validator_address: s(validator) }
        .to_any()
        .unwrap()
}

fn exec(grantee: &str, msgs: Vec<cosmos_sdk_proto::Any>) -> CosmosMsg {
    CosmosMsg::Stargate {
        type_url: s("/cosmos.authz.v1beta1.MsgExec"),
        value: MsgExec { grantee: s(grantee), msgs }.encode_to_vec(),
    }
}

fn claim_bundle(granter: &str, contract: &str, validator: &str) -> CosmosMsg {
    exec(
        contract,
        vec![
            set_withdraw(granter, contract),
            claim(granter, validator),
            set_withdraw(granter, granter),
        ],
    )
}

fn pending(amount: u128) -> AllPendingRewards {
    AllPendingRewards {
        rewards: vec![PendingReward { amount: coins(amount, "ujuno"), validator: s("validator1") }],
        total: coins(amount, "ujuno"),
    }
}

fn settings(max_percent: u64) -> AllowedWithdrawlSettings {
    AllowedWithdrawlSettings {
        grantee: s("grantee"),
        taxation_address: s("take_rate"),
        max_fee_percentage: Decimal::percent(max_percent),
        expiration: Timestamp::from_seconds(1000),
    }
}

#[test]
fn withdraw_to_contract_msgs() {
    let generated = create_withdraw_rewards_exec_msg(&s("granter"), &s("contract"), &vec![s("validator1")])
        .unwrap();
    assert_eq!(generated, claim_bundle("granter", "contract", "validator1"));
    match generated {
        CosmosMsg::Stargate { type_url, value } => {
            assert_eq!(type_url, "/cosmos.authz.v1beta1.MsgExec");
            assert!(!value.is_empty());
        }
        _ => panic!("expected an authz execution"),
    }
}

#[test]
fn gen_reward_withdrawl_msgs() {
    let generated = generate_reward_withdrawl_msgs(
        pending(100),
        settings(15),
        &s("grantee"),
        &s("contract"),
        &s("granter"),
        None,
    )
    .unwrap();
    let expected = RewardExecutionMsgs {
        msgs: vec![
            claim_bundle("granter", "contract", "validator1"),
            CosmosMsg::BankSend { to_address: s("take_rate"), amount: coins(15, "ujuno") },
            CosmosMsg::BankSend { to_address: s("granter"), amount: coins(85, "ujuno") },
        ],
        grantee: s("grantee"),
    };
    assert_eq!(generated, expected);
}

#[test]
fn generate_rewards_msgs_without_rewards() {
    let generated = generate_reward_withdrawl_msgs(
        pending(1),
        settings(15),
        &s("grantee"),
        &s("contract"),
        &s("granter"),
        None,
    )
    .unwrap();
    let expected = RewardExecutionMsgs {
        msgs: vec![
            claim_bundle("granter", "contract", "validator1"),
            CosmosMsg::BankSend { to_address: s("granter"), amount: coins(1, "ujuno") },
        ],
        grantee: s("grantee"),
    };
    assert_eq!(generated, expected);
}

#[test]
fn gen_reward_withdrawl_msgs_zero_fee() {
    let generated = generate_reward_withdrawl_msgs(
        pending(100),
        settings(15),
        &s("grantee"),
        &s("contract"),
        &s("granter"),
        Some(Decimal::zero()),
    )
    .unwrap();
    let expected = RewardExecutionMsgs {
        msgs: vec![
            claim_bundle("granter", "contract", "validator1"),
            CosmosMsg::BankSend { to_address: s("granter"), amount: coins(100, "ujuno") },
        ],
        grantee: s("grantee"),
    };
    assert_eq!(generated, expected);
}

#[test]
fn strangers_are_unauthorized() {
    let r = generate_reward_withdrawl_msgs(
        pending(100),
        settings(15),
        &s("stranger"),
        &s("contract"),
        &s("granter"),
        None,
    );
    assert!(matches!(r, Err(ContractError::Unauthorized {})));
    let by_granter = generate_reward_withdrawl_msgs(
        pending(100),
        settings(15),
        &s("granter"),
        &s("contract"),
        &s("granter"),
        None,
    );
    assert!(by_granter.is_ok());
}

#[test]
fn claims_one_message_per_validator() {
    let all = AllPendingRewards {
        rewards: vec![
            PendingReward { validator: s("v1"), amount: coins(3, "ujuno") },
            PendingReward { validator: s("v2"), amount: vec![coin(4, "ujuno"), coin(1, "uosmo")] },
        ],
        total: vec![coin(7, "ujuno"), coin(1, "uosmo")],
    };
    let generated =
        generate_reward_withdrawl_msgs(all, settings(50), &s("grantee"), &s("contract"), &s("granter"), None)
            .unwrap();
    let bundle = exec(
        "contract",
        vec![
            set_withdraw("granter", "contract"),
            claim("granter", "v1"),
            claim("granter", "v2"),
            set_withdraw("granter", "granter"),
        ],
    );
    assert_eq!(
        generated.msgs,
        vec![
            bundle,
            CosmosMsg::BankSend { to_address: s("take_rate"), amount: vec![coin(3, "ujuno"), coin(0, "uosmo")] },
            CosmosMsg::BankSend { to_address: s("granter"), amount: vec![coin(4, "ujuno"), coin(1, "uosmo")] },
        ]
    );
}

fn store_with(granter: &str, settings: AllowedWithdrawlSettings) -> GrantStore<String, AllowedWithdrawlSettings> {
    let mut store = GrantStore::new();
    store.save(s(granter), settings);
    store
}

#[test]
fn execute_requires_an_active_grant_and_rewards() {
    let store = store_with("granter", settings(15));
    let late = Timestamp::from_seconds(1001);
    let r = execute_rewards_withdraw(&store, late, &s("grantee"), &s("granter"), &s("contract"), None, pending(100));
    match r {
        Err(ContractError::NoActiveGrant(g)) => assert_eq!(g, "granter"),
        other => panic!("unexpected {:?}", other),
    }

    let now = Timestamp::from_seconds(1000);
    let empty = AllPendingRewards { rewards: vec![], total: vec![] };
    let r = execute_rewards_withdraw(&store, now, &s("grantee"), &s("granter"), &s("contract"), None, empty);
    assert!(matches!(r, Err(ContractError::NoPendingRewards(_))));

    let r = execute_rewards_withdraw(&store, now, &s("other"), &s("granter"), &s("contract"), None, pending(100));
    assert!(matches!(r, Err(ContractError::Unauthorized {})));

    // the sender is refused before the empty pool is looked at
    let empty = AllPendingRewards { rewards: vec![], total: vec![] };
    let r = execute_rewards_withdraw(&store, now, &s("other"), &s("granter"), &s("contract"), None, empty);
    assert!(matches!(r, Err(ContractError::Unauthorized {})));

    let r = execute_rewards_withdraw(&store, now, &s("grantee"), &s("granter"), &s("contract"), None, pending(100))
        .unwrap();
    assert_eq!(r.msgs.len(), 3);
    assert_eq!(r.msgs[1], CosmosMsg::BankSend { to_address: s("take_rate"), amount: coins(15, "ujuno") });
}

#[test]
fn grant_queries_filter_by_activity_and_grantee() {
    let mut store = store_with("granter", settings(15));
    let mut other = settings(10);
    other.grantee = s("someone");
    store.save(s("granter2"), other);
    let now = Timestamp::from_seconds(10);
    let found = query_active_grants_by_delegator(&store, now, &s("granter")).unwrap();
    assert_eq!(found.delegator_addr, "granter");
    assert_eq!(found.allowed_withdrawls.taxation_address, "take_rate");
    assert!(query_active_grants_by_delegator(&store, Timestamp::from_seconds(2000), &s("granter")).is_none());
    let by_grantee = query_active_grants_by_grantee(&store, now, &s("grantee"));
    assert_eq!(by_grantee.len(), 1);
    assert_eq!(by_grantee[0].delegator_addr, "granter");
}

#[test]
fn grant_and_revoke_requirements() {
    let grant = GrantStructure {
        granter: s("granter"),
        grantee: s("grantee"),
        expiration: Timestamp::from_seconds(5),
        grant_contract: s("contract"),
        grant_data: GrantSpecData { max_fee_percentage: Decimal::percent(5), taxation_addr: s("tax") },
    };
    let settings = QueryMsg::grant_settings(&grant);
    assert_eq!(settings.taxation_address, "tax");
    let reqs = QueryMsg::query_grants(grant.clone(), vec![9]);
    assert_eq!(
        reqs,
        vec![
            GrantRequirement::GrantSpec {
                grant_type: AuthorizationType::GenericAuthorization {
                    msg: s("/cosmos.distribution.v1beta1.MsgWithdrawDelegatorReward")
                },
                granter: s("granter"),
                grantee: s("contract"),
                expiration: Timestamp::from_seconds(5),
            },
            GrantRequirement::GrantSpec {
                grant_type: AuthorizationType::GenericAuthorization {
                    msg: s("/cosmos.distribution.v1beta1.MsgSetWithdrawAddress")
                },
                granter: s("granter"),
                grantee: s("contract"),
                expiration: Timestamp::from_seconds(5),
            },
            GrantRequirement::ContractExec { contract_addr: s("contract"), msg: vec![9], sender: s("granter") },
        ]
    );
    let revokes = QueryMsg::query_revokes(grant, vec![4]);
    let from_grants: Vec<RevokeRequirement> = reqs.into_iter().take(2).map(|r| r.into()).collect();
    assert_eq!(revokes[..2].to_vec(), from_grants);
    assert_eq!(
        revokes[2],
        RevokeRequirement::ContractExec { contract_addr: s("contract"), msg: vec![4], sender: s("granter") }
    );
    assert_eq!(query_version("0.1.0").version, "0.1.0");
}

#[test]
fn composer_refuses_an_empty_pool() {
    let empty = AllPendingRewards { rewards: vec![], total: vec![] };
    let r = generate_reward_withdrawl_msgs(
        empty.clone(),
        settings(15),
        &s("grantee"),
        &s("contract"),
        &s("granter"),
        None,
    );
    match r {
        Err(ContractError::NoPendingRewards(d)) => assert_eq!(d, "granter"),
        other => panic!("unexpected {:?}", other),
    }
    let r = generate_reward_withdrawl_msgs(empty, settings(15), &s("x"), &s("contract"), &s("granter"), None);
    assert!(matches!(r, Err(ContractError::Unauthorized {})));
}
