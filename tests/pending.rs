use authzpp::coins::{checked_sum_coins, coin, coins};
use authzpp::error::ContractError;
use authzpp::pending::{
    dec_coin_to_coin, process_delegation_total_rewards_response, DecCoin,
    DelegationDelegatorReward, QueryDelegationTotalRewardsResponse,
};
use authzpp::rewards::{collect_pending_rewards, AllPendingRewards, PendingReward};

fn dec(denom: &str, amount: &str) -> DecCoin {
    DecCoin { denom: denom.to_string(), amount: amount.to_string() }
}

fn entry(validator: &str, reward: Vec<DecCoin>) -> DelegationDelegatorReward {
    DelegationDelegatorReward { validator_address: validator.to_string(), reward }
}

#[test]
fn test_deccoin_to_coin_fn() {
    assert_eq!(dec_coin_to_coin(&dec("ubtc", "2000000000000000000")).unwrap(), coin(2, "ubtc"));
}

#[test]
fn dec_coin_amounts_round_down_and_reject_bad_text() {
    assert_eq!(dec_coin_to_coin(&dec("u", "1999999999999999999")).unwrap(), coin(1, "u"));
    assert_eq!(dec_coin_to_coin(&dec("u", "+3000000000000000000")).unwrap(), coin(3, "u"));
    assert_eq!(dec_coin_to_coin(&dec("u", "0")).unwrap(), coin(0, "u"));
    for bad in ["", "1.5", "-1", " 1", "abc", "340282366920938463463374607431768211456"] {
        assert!(matches!(dec_coin_to_coin(&dec("u", bad)), Err(ContractError::InvalidAmount(_))));
    }
}

#[test]
fn test_delegation_total_rewards_response() {
    let response = QueryDelegationTotalRewardsResponse {
        rewards: vec![
            entry("vali1", vec![dec("ubtc", "2500000000000000000000")]),
            entry("vali2", vec![dec("ubtc", "0")]),
        ],
        total: vec![dec("ubtc", "2500000000000000000000")],
    };
    let expected = AllPendingRewards {
        rewards: vec![PendingReward { validator: "vali1".to_string(), amount: vec![coin(2_500, "ubtc")] }],
        total: coins(2_500, "ubtc"),
    };
    assert_eq!(process_delegation_total_rewards_response(response).unwrap(), expected);

    let response = QueryDelegationTotalRewardsResponse {
        rewards: vec![
            entry("vali0", vec![dec("ubtc", "0")]),
            entry("vali1", vec![dec("ubtc", "2500000000000000000000")]),
            entry("vali2", vec![dec("ubtc", "0")]),
            entry("vali3", vec![dec("ubtc", "12500000000000000000000")]),
        ],
        total: vec![dec("ubtc", "15000000000000000000000")],
    };
    let expected = AllPendingRewards {
        rewards: vec![
            PendingReward { validator: "vali1".to_string(), amount: vec![coin(2_500, "ubtc")] },
            PendingReward { validator: "vali3".to_string(), amount: vec![coin(12_500, "ubtc")] },
        ],
        total: coins(15_000, "ubtc"),
    };
    assert_eq!(process_delegation_total_rewards_response(response).unwrap(), expected);
}

#[test]
fn reward_report_with_bad_amount_fails() {
    let response = QueryDelegationTotalRewardsResponse {
        rewards: vec![entry("v", vec![dec("ubtc", "x")])],
        total: vec![],
    };
    assert!(matches!(
        process_delegation_total_rewards_response(response),
        Err(ContractError::InvalidAmount(_))
    ));
}

#[test]
fn collecting_rewards_sums_and_drops_empty_validators() {
    let delegations = vec![
        PendingReward { validator: "v0".to_string(), amount: vec![] },
        PendingReward { validator: "v1".to_string(), amount: vec![coin(5, "ujuno"), coin(0, "uosmo")] },
        PendingReward { validator: "v2".to_string(), amount: vec![coin(7, "ujuno")] },
    ];
    let collected = collect_pending_rewards(delegations).unwrap();
    assert_eq!(
        collected,
        AllPendingRewards {
            rewards: vec![
                PendingReward { validator: "v1".to_string(), amount: vec![coin(5, "ujuno"), coin(0, "uosmo")] },
                PendingReward { validator: "v2".to_string(), amount: vec![coin(7, "ujuno")] },
            ],
            total: coins(12, "ujuno"),
        }
    );
    let overflowing = vec![
        PendingReward { validator: "v1".to_string(), amount: coins(u128::MAX, "ujuno") },
        PendingReward { validator: "v2".to_string(), amount: coins(1, "ujuno") },
    ];
    assert!(collect_pending_rewards(overflowing).is_none());
}

#[test]
fn checked_sum_reports_overflow() {
    assert!(checked_sum_coins(coins(u128::MAX, "a"), coins(1, "a")).is_none());
    assert_eq!(
        checked_sum_coins(coins(u128::MAX, "a"), coins(1, "b")).unwrap(),
        vec![coin(u128::MAX, "a"), coin(1, "b")]
    );
}
