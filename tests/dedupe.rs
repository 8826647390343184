use authzpp::coins::{coin, coins};
use authzpp::dedupe::{combine_contract_execution_settings, dedupe_grant_reqs};
use authzpp::grants::{
    revoke_requirement, AuthorizationType, ContractExecutionAuthorizationFilter,
    ContractExecutionAuthorizationLimit, ContractExecutionSetting, GrantBase, GrantRequirement,
    RevokeRequirement, StakeAuthorizationPolicy, StakeAuthorizationType,
    StakeAuthorizationValidators, Timestamp,
};

fn s(x: &str) -> String {
    x.to_string()
}

fn stake(
    granter: &str,
    grantee: &str,
    validators: Option<StakeAuthorizationPolicy>,
    seconds: u64,
) -> GrantRequirement {
    GrantRequirement::GrantSpec {
        grant_type: AuthorizationType::StakeAuthorization {
            max_tokens: None,
            authorization_type: StakeAuthorizationType::Delegate,
            validators,
        },
        granter: s(granter),
        grantee: s(grantee),
        expiration: Timestamp::from_seconds(seconds),
    }
}

fn allow(validators: &[&str]) -> Option<StakeAuthorizationPolicy> {
    Some(StakeAuthorizationPolicy::AllowList(StakeAuthorizationValidators {
        address: validators.iter().map(|v| s(v)).collect(),
    }))
}

fn send(
    granter: &str,
    grantee: &str,
    spend_limit: Option<Vec<authzpp::coins::Coin>>,
    allow_list: Option<Vec<String>>,
) -> GrantRequirement {
    GrantRequirement::GrantSpec {
        grant_type: AuthorizationType::SendAuthorization { spend_limit, allow_list },
        granter: s(granter),
        grantee: s(grantee),
        expiration: Timestamp::from_seconds(0),
    }
}

fn keys_setting(contract: &str, key: &str) -> ContractExecutionSetting {
    ContractExecutionSetting {
        contract_addr: s(contract),
        limit: ContractExecutionAuthorizationLimit::MaxCallsLimit { remaining: u64::MAX },
        filter: ContractExecutionAuthorizationFilter::AcceptedMessageKeysFilter {
            keys: vec![s(key)],
        },
    }
}

fn contract_auth(granter: &str, grantee: &str, settings: Vec<ContractExecutionSetting>) -> GrantRequirement {
    GrantRequirement::GrantSpec {
        grant_type: AuthorizationType::ContractExecutionAuthorization(settings),
        granter: s(granter),
        grantee: s(grantee),
        expiration: Timestamp::from_seconds(0),
    }
}

fn basic_grants_cases() {
    // two identical stake grants collapse into one
    assert_eq!(
        dedupe_grant_reqs(vec![
            stake("granter1", "grantee1", None, 0),
            stake("granter1", "grantee1", None, 0)
        ]),
        vec![stake("granter1", "grantee1", None, 0)]
    );

    // allow lists of one target are united
    assert_eq!(
        dedupe_grant_reqs(vec![
            stake("granter1", "grantee1", allow(&["validator1"]), 0),
            stake("granter1", "grantee1", allow(&["validator2"]), 0)
        ]),
        vec![stake("granter1", "grantee1", allow(&["validator1", "validator2"]), 0)]
    );

    // allow lists of send grants are united per target
    assert_eq!(
        dedupe_grant_reqs(vec![
            send("granter1", "grantee1", None, Some(vec![s("grantee1"), s("validator1")])),
            send("granter1", "grantee1", None, Some(vec![s("grantee2"), s("validator1")])),
            send("granter1", "grantee2", None, Some(vec![s("validator2")])),
        ]),
        vec![
            send(
                "granter1",
                "grantee1",
                None,
                Some(vec![s("grantee1"), s("validator1"), s("grantee2")])
            ),
            send("granter1", "grantee2", None, Some(vec![s("validator2")])),
        ]
    );
}

#[test]
fn dedupe__basic_grants() {
    basic_grants_cases();
}

#[test]
fn dedupe_basic_grants() {
    basic_grants_cases();
}

#[test]
fn tests_dedupe_contract_auth_grants() {
    assert_eq!(
        dedupe_grant_reqs(vec![
            contract_auth("user1", "grantee1", vec![keys_setting("contract1", "key1")]),
            contract_auth("user1", "grantee1", vec![keys_setting("contract1", "key2")]),
        ]),
        vec![contract_auth(
            "user1",
            "grantee1",
            vec![keys_setting("contract1", "key2"), keys_setting("contract1", "key1")]
        )]
    );
}

#[test]
fn dedupe_send_auth_grants() {
    assert_eq!(
        dedupe_grant_reqs(vec![
            send(
                "granter1",
                "grantee1",
                Some(vec![coin(100, "ubtc"), coin(200, "aeth")]),
                Some(vec![s("receiver1")])
            ),
            send("granter1", "grantee1", Some(coins(200, "ubtc")), Some(vec![s("receiver2")])),
        ]),
        vec![send(
            "granter1",
            "grantee1",
            Some(vec![coin(100, "ubtc"), coin(200, "aeth"), coin(200, "ubtc")]),
            Some(vec![s("receiver1"), s("receiver2")])
        )]
    );
}

#[test]
fn dedupe_unbounded_side_wins() {
    assert_eq!(
        dedupe_grant_reqs(vec![
            send("g", "e", Some(coins(5, "ubtc")), Some(vec![s("r1")])),
            send("g", "e", None, None),
        ]),
        vec![send("g", "e", None, None)]
    );
}

#[test]
fn dedupe_groups_by_category_and_keeps_calls() {
    let call1 = GrantRequirement::ContractExec {
        contract_addr: s("c"),
        msg: vec![1, 2],
        sender: s("g"),
    };
    let call2 = call1.clone();
    let generic = GrantRequirement::generic_auth(
        GrantBase { granter: s("g"), grantee: s("e"), expiration: Timestamp::from_seconds(1) },
        "/cosmos.bank.v1beta1.MsgSend",
    );
    let out = dedupe_grant_reqs(vec![
        call1.clone(),
        stake("g", "e", None, 5),
        generic.clone(),
        stake("g", "e", allow(&["v"]), 9),
        call2.clone(),
        generic.clone(),
        contract_auth("g", "e", vec![keys_setting("c", "k")]),
    ]);
    assert_eq!(
        out,
        vec![
            contract_auth("g", "e", vec![keys_setting("c", "k")]),
            generic,
            stake("g", "e", allow(&["v"]), 9),
            call1,
            call2,
        ]
    );
}

#[test]
fn dedupe_stake_merge_drops_cap_and_takes_later_expiration() {
    let capped = GrantRequirement::GrantSpec {
        grant_type: AuthorizationType::StakeAuthorization {
            max_tokens: Some(coin(10, "ujuno")),
            authorization_type: StakeAuthorizationType::Delegate,
            validators: allow(&["v1"]),
        },
        granter: s("g"),
        grantee: s("e"),
        expiration: Timestamp::from_seconds(100),
    };
    let out = dedupe_grant_reqs(vec![capped, stake("g", "e", allow(&["v1", "v2"]), 50)]);
    assert_eq!(out, vec![stake("g", "e", allow(&["v1", "v2"]), 100)]);
}

#[test]
fn dedupe_keeps_different_stake_kinds_apart() {
    let undelegate = GrantRequirement::GrantSpec {
        grant_type: AuthorizationType::StakeAuthorization {
            max_tokens: None,
            authorization_type: StakeAuthorizationType::Undelegate,
            validators: None,
        },
        granter: s("g"),
        grantee: s("e"),
        expiration: Timestamp::from_seconds(0),
    };
    let out = dedupe_grant_reqs(vec![stake("g", "e", None, 0), undelegate.clone()]);
    assert_eq!(out, vec![stake("g", "e", None, 0), undelegate]);
}

#[test]
fn dedupe_is_idempotent_on_examples() {
    let inputs = vec![
        vec![],
        vec![
            stake("a", "b", allow(&["v1"]), 1),
            stake("a", "b", allow(&["v2", "v1"]), 3),
            send("a", "b", None, Some(vec![s("x"), s("x")])),
            send("a", "b", None, Some(vec![s("y")])),
            contract_auth("a", "b", vec![keys_setting("c", "k")]),
            contract_auth("a", "b", vec![keys_setting("c", "k")]),
            contract_auth("a", "c", vec![keys_setting("c", "j")]),
        ],
    ];
    for input in inputs {
        let once = dedupe_grant_reqs(input);
        let twice = dedupe_grant_reqs(once.clone());
        assert_eq!(once, twice);
    }
}

#[test]
fn dedupe_never_narrows_allow_lists() {
    let out = dedupe_grant_reqs(vec![
        stake("g", "e", allow(&["v1"]), 0),
        stake("g", "e", allow(&["v2"]), 0),
    ]);
    assert_eq!(out, vec![stake("g", "e", allow(&["v1", "v2"]), 0)]);
}

#[test]
fn combined_settings_join_limits_and_filters() {
    let a = ContractExecutionSetting {
        contract_addr: s("c"),
        limit: ContractExecutionAuthorizationLimit::MaxCallsLimit { remaining: u64::MAX },
        filter: ContractExecutionAuthorizationFilter::AcceptedMessageKeysFilter { keys: vec![s("k1")] },
    };
    let b = ContractExecutionSetting {
        contract_addr: s("c"),
        limit: ContractExecutionAuthorizationLimit::MaxFundsLimit { amounts: coins(5, "ujuno") },
        filter: ContractExecutionAuthorizationFilter::AcceptedMessagesFilter { messages: vec![vec![7]] },
    };
    let out = combine_contract_execution_settings(a, b);
    let limit = ContractExecutionAuthorizationLimit::CombinedLimit {
        calls_remaining: u64::MAX,
        amounts: coins(5, "ujuno"),
    };
    assert_eq!(out.len(), 2);
    assert_eq!(
        format!("{:?}", out[0]),
        format!(
            "{:?}",
            ContractExecutionSetting {
                contract_addr: s("c"),
                limit: limit.clone(),
                filter: ContractExecutionAuthorizationFilter::AcceptedMessageKeysFilter {
                    keys: vec![s("k1")]
                },
            }
        )
    );
    assert_eq!(
        format!("{:?}", out[1]),
        format!(
            "{:?}",
            ContractExecutionSetting {
                contract_addr: s("c"),
                limit,
                filter: ContractExecutionAuthorizationFilter::AcceptedMessagesFilter {
                    messages: vec![vec![7]]
                },
            }
        )
    );
}

#[test]
fn combined_settings_allow_all_wins() {
    let a = ContractExecutionSetting {
        contract_addr: s("c"),
        limit: ContractExecutionAuthorizationLimit::MaxFundsLimit { amounts: coins(1, "a") },
        filter: ContractExecutionAuthorizationFilter::AllowAllMessagesFilter,
    };
    let b = ContractExecutionSetting {
        contract_addr: s("c"),
        limit: ContractExecutionAuthorizationLimit::MaxFundsLimit { amounts: coins(2, "b") },
        filter: ContractExecutionAuthorizationFilter::AcceptedMessageKeysFilter { keys: vec![s("k")] },
    };
    let out = combine_contract_execution_settings(a, b);
    assert_eq!(
        format!("{:?}", out),
        format!(
            "{:?}",
            vec![ContractExecutionSetting {
                contract_addr: s("c"),
                limit: ContractExecutionAuthorizationLimit::MaxFundsLimit {
                    amounts: vec![coin(1, "a"), coin(2, "b")]
                },
                filter: ContractExecutionAuthorizationFilter::AllowAllMessagesFilter,
            }]
        )
    );
}

#[test]
fn msg_type_urls_by_category() {
    assert_eq!(
        AuthorizationType::SendAuthorization { spend_limit: None, allow_list: None }.msg_type_url(),
        "/cosmos.bank.v1beta1.MsgSend"
    );
    assert_eq!(
        AuthorizationType::ContractExecutionAuthorization(vec![]).msg_type_url(),
        "/cosmwasm.wasm.v1.MsgExecuteContract"
    );
    assert_eq!(
        AuthorizationType::TransferAuthorization(vec![]).msg_type_url(),
        "/ibc.applications.transfer.v1.MsgTransfer"
    );
    assert_eq!(
        AuthorizationType::GenericAuthorization { msg: s("/x.y") }.msg_type_url(),
        "/x.y"
    );
    assert_eq!(stake_url(), "/cosmos.staking.v1beta1.MsgDelegate");
}

fn stake_url() -> String {
    AuthorizationType::StakeAuthorization {
        max_tokens: None,
        authorization_type: StakeAuthorizationType::Delegate,
        validators: None,
    }
    .msg_type_url()
}

#[test]
fn revoke_requirement_keeps_what_identifies_the_grant() {
    let r: RevokeRequirement = stake("g", "e", allow(&["v"]), 9).into();
    assert_eq!(
        r,
        RevokeRequirement::RevokeSpec {
            grant_type: s("/cosmos.staking.v1beta1.MsgDelegate"),
            granter: s("g"),
            grantee: s("e"),
        }
    );
    let call = GrantRequirement::ContractExec { contract_addr: s("c"), msg: vec![3], sender: s("g") };
    assert_eq!(
        revoke_requirement(call),
        RevokeRequirement::ContractExec { contract_addr: s("c"), msg: vec![3], sender: s("g") }
    );
}

#[test]
fn constructors_build_single_setting_grants() {
    let base = GrantBase { granter: s("g"), grantee: s("e"), expiration: Timestamp::from_seconds(2) };
    let r = GrantRequirement::default_contract_exec_auth(base.clone(), s("c"), vec![s("k")], Some("ujuno"));
    assert_eq!(
        r,
        contract_auth_at(
            vec![ContractExecutionSetting {
                contract_addr: s("c"),
                limit: ContractExecutionAuthorizationLimit::MaxFundsLimit { amounts: coins(u128::MAX, "ujuno") },
                filter: ContractExecutionAuthorizationFilter::AcceptedMessageKeysFilter { keys: vec![s("k")] },
            }],
            2
        )
    );
    let r = GrantRequirement::contract_exec_messages_mutlidenoms_auth(
        base.clone(),
        s("c"),
        vec![vec![1]],
        vec![s("a"), s("b")],
    );
    assert_eq!(
        r,
        contract_auth_at(
            vec![ContractExecutionSetting {
                contract_addr: s("c"),
                limit: ContractExecutionAuthorizationLimit::MaxFundsLimit {
                    amounts: vec![coin(u128::MAX, "a"), coin(u128::MAX, "b")]
                },
                filter: ContractExecutionAuthorizationFilter::AcceptedMessagesFilter { messages: vec![vec![1]] },
            }],
            2
        )
    );
    let r = GrantRequirement::delegation_authorization(base, Some(s("v")), Some(coin(7, "ujuno")));
    assert_eq!(
        r,
        GrantRequirement::GrantSpec {
            grant_type: AuthorizationType::StakeAuthorization {
                max_tokens: Some(coin(7, "ujuno")),
                authorization_type: StakeAuthorizationType::Delegate,
                validators: allow(&["v"]),
            },
            granter: s("g"),
            grantee: s("e"),
            expiration: Timestamp::from_seconds(2),
        }
    );
}

fn contract_auth_at(settings: Vec<ContractExecutionSetting>, seconds: u64) -> GrantRequirement {
    GrantRequirement::GrantSpec {
        grant_type: AuthorizationType::ContractExecutionAuthorization(settings),
        granter: s("g"),
        grantee: s("e"),
        expiration: Timestamp::from_seconds(seconds),
    }
}

#[test]
fn revoke_from_keeps_the_message_type() {
    let r: RevokeRequirement = send("g", "e", None, None).into();
    assert_eq!(
        r,
        RevokeRequirement::RevokeSpec {
            grant_type: s("/cosmos.bank.v1beta1.MsgSend"),
            granter: s("g"),
            grantee: s("e"),
        }
    );
}
