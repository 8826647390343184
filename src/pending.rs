//! Reading a delegator's pending rewards from the chain's reward report,
//! whose amounts are decimal strings with eighteen fractional digits.

use vstd::prelude::*;

use crate::coins::{filter_empty_coins, nonzero_coins, Coin, CoinModel, DECIMAL_FRACTIONAL};
use crate::error::ContractError;
use crate::rewards::{AllPendingRewards, PendingReward, PendingRewardModel};

verus! {

/// The numeric value of a decimal digit character.
pub open spec fn digit_value(c: char) -> nat {
    ((c as int) - ('0' as int)) as nat
}

/// The number that a string of decimal digits spells.
pub open spec fn decimal_value(s: Seq<char>) -> nat
    decreases s.len(),
{
    if s.len() == 0 {
        0
    } else {
        decimal_value(s.drop_last()) * 10 + digit_value(s.last())
    }
}

/// One or more decimal digits and nothing else.
pub open spec fn is_digits(s: Seq<char>) -> bool {
    s.len() > 0 && forall|i: int| 0 <= i < s.len() ==> '0' <= #[trigger] s[i] <= '9'
}

/// The text after an optional leading `+`.
pub open spec fn unsigned_body(s: Seq<char>) -> Seq<char> {
    if s.len() > 0 && s[0] == '+' {
        s.drop_first()
    } else {
        s
    }
}

/// The value `u128`'s decimal parser reads from `s`: an optional `+`, then
/// digits only, of a value that fits.
pub open spec fn parsed_u128(s: Seq<char>) -> Option<u128> {
    let body = unsigned_body(s);
    if is_digits(body) && decimal_value(body) <= u128::MAX {
        Some(decimal_value(body) as u128)
    } else {
        None
    }
}

/// Relies on cosmwasm_std's `Uint128::from_str`, which reads the string with
/// `u128::from_str`: an optional `+` followed by decimal digits only, failing
/// on anything else, on an empty string and on overflow.
#[verifier::external_body]
fn parse_uint128(s: &String) -> (r: Option<u128>)
    ensures
        r == parsed_u128(s@),
{
    match <cosmwasm_std::Uint128 as std::str::FromStr>::from_str(s) {
        Ok(v) => Some(v.u128()),
        Err(_) => None,
    }
}

/// A decimal coin as the reward report gives it.
#[derive(Debug, Clone)]
pub struct DecCoin {
    pub denom: String,
    /// The amount times `10^18`, in decimal digits.
    pub amount: String,
}

impl DeepView for DecCoin {
    type V = (Seq<char>, Seq<char>);

    open spec fn deep_view(&self) -> (Seq<char>, Seq<char>) {
        (self.denom@, self.amount@)
    }
}

/// The whole-unit coin of a decimal coin, when its amount parses.
pub open spec fn coin_of_dec(d: (Seq<char>, Seq<char>)) -> Option<CoinModel> {
    match parsed_u128(d.1) {
        Some(v) => Some(CoinModel { denom: d.0, amount: (v / DECIMAL_FRACTIONAL) as nat }),
        None => None,
    }
}

/// Converts a decimal coin to whole units, rounding down.
pub fn dec_coin_to_coin(dec_coin: &DecCoin) -> (r: Result<Coin, ContractError>)
    ensures
        match coin_of_dec(dec_coin.deep_view()) {
            Some(c) => r matches Ok(x) && x.deep_view() == c,
            None => r matches Err(ContractError::InvalidAmount(_)),
        },
{
    match parse_uint128(&dec_coin.amount) {
        Some(v) => Ok(Coin { denom: dec_coin.denom.clone(), amount: v / DECIMAL_FRACTIONAL }),
        None => Err(ContractError::InvalidAmount(dec_coin.amount.clone())),
    }
}

/// Every amount of the list parses.
pub open spec fn dec_coins_parse(s: Seq<(Seq<char>, Seq<char>)>) -> bool {
    forall|i: int| 0 <= i < s.len() ==> (#[trigger] coin_of_dec(s[i])) is Some
}

/// The whole-unit coins of a list of decimal coins that all parse.
pub open spec fn coins_of_dec(s: Seq<(Seq<char>, Seq<char>)>) -> Seq<CoinModel> {
    s.map_values(|d: (Seq<char>, Seq<char>)| coin_of_dec(d)->Some_0)
}

fn dec_coins_to_coins(coins: &Vec<DecCoin>) -> (r: Result<Vec<Coin>, ContractError>)
    ensures
        match r {
            Ok(v) => dec_coins_parse(coins.deep_view()) && v.deep_view() == coins_of_dec(
                coins.deep_view(),
            ),
            Err(e) => !dec_coins_parse(coins.deep_view()) && e is InvalidAmount,
        },
{
    let mut out: Vec<Coin> = Vec::new();
    let mut i: usize = 0;
    while i < coins.len()
        invariant
            i <= coins.len(),
            dec_coins_parse(coins.deep_view().take(i as int)),
            out.deep_view() == coins_of_dec(coins.deep_view().take(i as int)),
        decreases coins.len() - i,
    {
        let ghost before = out.deep_view();
        let ghost d = coins.deep_view()[i as int];
        assert(coins[i as int].deep_view() == d);
        match dec_coin_to_coin(&coins[i]) {
            Ok(c) => {
                out.push(c);
                assert(out.deep_view() =~= before.push(coin_of_dec(d)->Some_0));
            },
            Err(e) => {
                assert(!dec_coins_parse(coins.deep_view()));
                return Err(e);
            },
        }
        let ghost next = coins.deep_view().take(i as int + 1);
        assert(next =~= coins.deep_view().take(i as int).push(d));
        i = i + 1;
        assert(out.deep_view() =~= coins_of_dec(next));
    }
    assert(coins.deep_view().take(coins.len() as int) =~= coins.deep_view());
    Ok(out)
}

/// A validator's entry in the reward report.
#[derive(Debug, Clone)]
pub struct DelegationDelegatorReward {
    pub validator_address: String,
    pub reward: Vec<DecCoin>,
}

impl DeepView for DelegationDelegatorReward {
    type V = (Seq<char>, Seq<(Seq<char>, Seq<char>)>);

    open spec fn deep_view(&self) -> (Seq<char>, Seq<(Seq<char>, Seq<char>)>) {
        (self.validator_address@, self.reward.deep_view())
    }
}

/// The reward report of a delegator: per validator, and in total.
#[derive(Debug, Clone)]
pub struct QueryDelegationTotalRewardsResponse {
    pub rewards: Vec<DelegationDelegatorReward>,
    pub total: Vec<DecCoin>,
}

/// Every amount of the report parses.
pub open spec fn report_parses(
    rewards: Seq<(Seq<char>, Seq<(Seq<char>, Seq<char>)>)>,
    total: Seq<(Seq<char>, Seq<char>)>,
) -> bool {
    &&& forall|i: int| 0 <= i < rewards.len() ==> dec_coins_parse(#[trigger] rewards[i].1)
    &&& dec_coins_parse(total)
}

/// The validators with a nonzero reward, each with its nonzero coins.
pub open spec fn pending_of_report(rewards: Seq<(Seq<char>, Seq<(Seq<char>, Seq<char>)>)>) -> Seq<
    PendingRewardModel,
>
    decreases rewards.len(),
{
    if rewards.len() == 0 {
        Seq::empty()
    } else {
        let rest = pending_of_report(rewards.drop_last());
        let last = rewards.last();
        let amount = nonzero_coins(coins_of_dec(last.1));
        if amount.len() > 0 {
            rest.push(PendingRewardModel { validator: last.0, amount })
        } else {
            rest
        }
    }
}

/// Reads the reward report: amounts are turned into whole units, zero coins
/// dropped, and validators left with no coin dropped.
pub fn process_delegation_total_rewards_response(
    response: QueryDelegationTotalRewardsResponse,
) -> (r: Result<AllPendingRewards, ContractError>)
    ensures
        report_parses(response.rewards.deep_view(), response.total.deep_view()) <==> r is Ok,
        match r {
            Ok(p) => p.rewards.deep_view() == pending_of_report(response.rewards.deep_view())
                && p.total.deep_view() == nonzero_coins(coins_of_dec(response.total.deep_view())),
            Err(e) => e is InvalidAmount,
        },
{
    let ghost rv = response.rewards.deep_view();
    let mut rewards: Vec<PendingReward> = Vec::new();
    let mut i: usize = 0;
    while i < response.rewards.len()
        invariant
            i <= response.rewards.len(),
            rv == response.rewards.deep_view(),
            forall|k: int| 0 <= k < i ==> dec_coins_parse(#[trigger] rv[k].1),
            rewards.deep_view() == pending_of_report(rv.take(i as int)),
        decreases response.rewards.len() - i,
    {
        let entry = &response.rewards[i];
        assert(entry.deep_view() == rv[i as int]);
        let coins = match dec_coins_to_coins(&entry.reward) {
            Ok(c) => c,
            Err(e) => {
                assert(!dec_coins_parse(rv[i as int].1));
                return Err(e);
            },
        };
        let amount = filter_empty_coins(coins);
        let ghost before = rewards.deep_view();
        let ghost next = rv.take(i as int + 1);
        assert(next.drop_last() =~= rv.take(i as int));
        assert(next.last() == rv[i as int]);
        if amount.len() > 0 {
            rewards.push(PendingReward { validator: entry.validator_address.clone(), amount });
            assert(rewards.deep_view() =~= before.push(
                PendingRewardModel {
                    validator: rv[i as int].0,
                    amount: nonzero_coins(coins_of_dec(rv[i as int].1)),
                },
            ));
        }
        i = i + 1;
    }
    assert(rv.take(rv.len() as int) =~= rv);
    let total = match dec_coins_to_coins(&response.total) {
        Ok(c) => filter_empty_coins(c),
        Err(e) => {
            return Err(e);
        },
    };
    Ok(AllPendingRewards { rewards, total })
}

} // verus!
