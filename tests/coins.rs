use authzpp::coins::{
    coin, coins, filter_empty_coins, mul_floor, partition_coins_by_percentage, split_rewards,
    sum_coins, Decimal,
};

#[test]
fn unit_tests_sum_coins_test() {
    let xs = vec![coin(100, "ujuno"), coin(100, "uosmo")];
    let ys = vec![coin(100, "ujuno"), coin(100, "uosmo")];
    let expected = vec![coin(200, "ujuno"), coin(200, "uosmo")];
    assert_eq!(sum_coins(xs, ys), expected);

    let xs = vec![coin(100, "ujuno"), coin(100, "uosmo")];
    let ys = vec![coin(100, "ujuno"), coin(100, "ubtc")];
    let expected = vec![coin(200, "ujuno"), coin(100, "uosmo"), coin(100, "ubtc")];
    assert_eq!(sum_coins(xs, ys), expected);
}

#[test]
fn unit_tests_partition_coins() {
    let input = vec![coin(100, "ujuno"), coin(200, "uosmo")];
    let (coins_to_send, coins_to_remain) =
        partition_coins_by_percentage(Decimal::percent(25), input);
    assert_eq!(coins_to_send, vec![coin(25, "ujuno"), coin(50, "uosmo")]);
    assert_eq!(coins_to_remain, vec![coin(75, "ujuno"), coin(150, "uosmo")]);

    // rounding goes to the remainder
    let input = vec![coin(10, "ujuno")];
    let (coins_to_send, coins_to_remain) =
        partition_coins_by_percentage(Decimal::percent(33), input);
    assert_eq!(coins_to_send, vec![coin(3, "ujuno")]);
    assert_eq!(coins_to_remain, vec![coin(7, "ujuno")]);
}

#[test]
fn split_rewards_test() {
    let rewards = vec![coin(100, "ujuno"), coin(200, "uosmo")];
    let sim = split_rewards(rewards, Decimal::percent(5), &Some(Decimal::percent(5)));
    assert_eq!(sim.delegator_rewards, vec![coin(95, "ujuno"), coin(190, "uosmo")]);
    assert_eq!(sim.taxation_address_rewards, vec![coin(5, "ujuno"), coin(10, "uosmo")]);

    // rounding
    let rewards = vec![coin(10, "ujuno")];
    let sim = split_rewards(rewards.clone(), Decimal::percent(33), &Some(Decimal::percent(33)));
    assert_eq!(sim.delegator_rewards, vec![coin(7, "ujuno")]);
    assert_eq!(sim.taxation_address_rewards, vec![coin(3, "ujuno")]);

    // falling back to the max percentage
    let sim = split_rewards(rewards.clone(), Decimal::percent(33), &None);
    assert_eq!(sim.delegator_rewards, vec![coin(7, "ujuno")]);
    assert_eq!(sim.taxation_address_rewards, vec![coin(3, "ujuno")]);

    // a percentage below the maximum
    let sim = split_rewards(rewards.clone(), Decimal::percent(33), &Some(Decimal::percent(10)));
    assert_eq!(sim.delegator_rewards, vec![coin(9, "ujuno")]);
    assert_eq!(sim.taxation_address_rewards, vec![coin(1, "ujuno")]);

    // a percentage above the maximum
    let sim = split_rewards(rewards, Decimal::percent(33), &Some(Decimal::percent(50)));
    assert_eq!(sim.delegator_rewards, vec![coin(7, "ujuno")]);
    assert_eq!(sim.taxation_address_rewards, vec![coin(3, "ujuno")]);
}

#[test]
fn split_defaults_to_the_maximum() {
    let sim = split_rewards(coins(100, "ujuno"), Decimal::percent(5), &None);
    assert_eq!(sim.taxation_address_rewards, coins(5, "ujuno"));
    assert_eq!(sim.delegator_rewards, coins(95, "ujuno"));
}

#[test]
fn partition_never_loses_tokens() {
    let amounts: [u128; 7] = [0, 1, 7, 10, 99, 1_000_000_007, u128::MAX];
    let percents: [u64; 6] = [0, 1, 33, 50, 99, 100];
    for a in amounts {
        for p in percents {
            let (share, rest) = partition_coins_by_percentage(Decimal::percent(p), vec![coin(a, "ujuno")]);
            assert_eq!(share.len(), 1);
            assert_eq!(rest.len(), 1);
            assert_eq!(share[0].denom, "ujuno");
            assert_eq!(rest[0].denom, "ujuno");
            assert_eq!(share[0].amount + rest[0].amount, a);
        }
    }
}

#[test]
fn partition_keeps_zero_entries() {
    let (share, rest) = partition_coins_by_percentage(Decimal::percent(10), vec![coin(5, "ujuno")]);
    assert_eq!(share, vec![coin(0, "ujuno")]);
    assert_eq!(rest, vec![coin(5, "ujuno")]);
}

#[test]
fn sum_coins_appends_new_denoms_in_order() {
    assert_eq!(
        sum_coins(vec![coin(100, "ujuno")], vec![coin(100, "ubtc")]),
        vec![coin(100, "ujuno"), coin(100, "ubtc")]
    );
    assert_eq!(sum_coins(vec![], vec![]), vec![]);
    assert_eq!(
        sum_coins(vec![], vec![coin(1, "a"), coin(2, "b"), coin(3, "a")]),
        vec![coin(4, "a"), coin(2, "b")]
    );
}

#[test]
fn filter_empty_coins_drops_zero_amounts() {
    assert_eq!(
        filter_empty_coins(vec![coin(0, "a"), coin(3, "b"), coin(0, "c"), coin(1, "d")]),
        vec![coin(3, "b"), coin(1, "d")]
    );
    assert_eq!(filter_empty_coins(vec![coin(0, "a")]), vec![]);
}

#[test]
fn mul_floor_is_exact_on_large_amounts() {
    assert_eq!(mul_floor(u128::MAX, Decimal::one()), u128::MAX);
    assert_eq!(mul_floor(u128::MAX, Decimal::zero()), 0);
    assert_eq!(mul_floor(u128::MAX, Decimal::percent(50)), u128::MAX / 2);
    assert_eq!(mul_floor(10, Decimal::raw(333_333_333_333_333_333)), 3);
    assert_eq!(Decimal::percent(15).atomics, 150_000_000_000_000_000);
}

#[test]
fn split_with_a_ceiling_above_one_uses_the_request() {
    let sim = split_rewards(coins(100, "ujuno"), Decimal::percent(150), &Some(Decimal::percent(10)));
    assert_eq!(sim.taxation_address_rewards, coins(10, "ujuno"));
    assert_eq!(sim.delegator_rewards, coins(90, "ujuno"));
}
