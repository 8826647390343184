//! Withdrawing staking rewards under a grant and splitting them between the
//! fee address and the granter.

use vstd::prelude::*;

use crate::coins::{
    amounts_fit, checked_sum_coins, dominated, effective_percentage, filter_empty_coins,
    lemma_dominated_trans, lemma_sum_dominates, nonzero_coins, remainder_of, share_of,
    split_rewards, sum_coins_spec, Coin, CoinModel, Decimal,
};
use crate::deep_eq::DeepEq;
use crate::error::ContractError;
use crate::grants::Timestamp;
use crate::msgs::{
    claim_bundle, create_withdraw_rewards_exec_msg, exec_msg_model, CosmosMsg, MsgModel,
};
use crate::deep_eq::Duplicate;
use crate::store::{active_for_grantee, active_grant, Expirable, GrantStore};

verus! {

/// Rewards accrued with one validator.
#[derive(Debug, Clone)]
pub struct PendingReward {
    pub validator: String,
    pub amount: Vec<Coin>,
}

/// What a validator's pending reward denotes.
pub struct PendingRewardModel {
    pub validator: Seq<char>,
    pub amount: Seq<CoinModel>,
}

impl DeepView for PendingReward {
    type V = PendingRewardModel;

    open spec fn deep_view(&self) -> PendingRewardModel {
        PendingRewardModel { validator: self.validator@, amount: self.amount.deep_view() }
    }
}

impl DeepEq for PendingReward {
    fn deep_eq(&self, other: &Self) -> (r: bool) {
        self.validator == other.validator && self.amount.deep_eq(&other.amount)
    }
}

impl PartialEq for PendingReward {
    fn eq(&self, other: &PendingReward) -> (r: bool) {
        self.deep_eq(other)
    }
}

impl vstd::std_specs::cmp::PartialEqSpecImpl for PendingReward {
    open spec fn obeys_eq_spec() -> bool {
        true
    }

    open spec fn eq_spec(&self, other: &PendingReward) -> bool {
        self.deep_view() == other.deep_view()
    }
}

/// All of a delegator's pending rewards, per validator and in total.
#[derive(Debug, Clone)]
pub struct AllPendingRewards {
    pub rewards: Vec<PendingReward>,
    pub total: Vec<Coin>,
}

impl PartialEq for AllPendingRewards {
    fn eq(&self, other: &AllPendingRewards) -> (r: bool) {
        self.rewards.deep_eq(&other.rewards) && self.total.deep_eq(&other.total)
    }
}

impl vstd::std_specs::cmp::PartialEqSpecImpl for AllPendingRewards {
    open spec fn obeys_eq_spec() -> bool {
        true
    }

    open spec fn eq_spec(&self, other: &AllPendingRewards) -> bool {
        self.rewards.deep_view() == other.rewards.deep_view() && self.total.deep_view()
            == other.total.deep_view()
    }
}

/// The terms of a reward-splitting grant.
#[derive(Debug, Clone)]
pub struct AllowedWithdrawlSettings {
    /// The address that may execute the withdrawal besides the granter.
    pub grantee: String,
    /// The address that receives the fee share.
    pub taxation_address: String,
    /// The largest share of the rewards that may go to the fee address.
    pub max_fee_percentage: Decimal,
    /// When the grant lapses.
    pub expiration: Timestamp,
}

/// What reward-splitting grant terms denote.
pub struct WithdrawlSettingsModel {
    pub grantee: Seq<char>,
    pub taxation_address: Seq<char>,
    pub max_fee_percentage: Decimal,
    pub expiration: Timestamp,
}

impl DeepView for AllowedWithdrawlSettings {
    type V = WithdrawlSettingsModel;

    open spec fn deep_view(&self) -> WithdrawlSettingsModel {
        WithdrawlSettingsModel {
            grantee: self.grantee@,
            taxation_address: self.taxation_address@,
            max_fee_percentage: self.max_fee_percentage,
            expiration: self.expiration,
        }
    }
}

impl Duplicate for AllowedWithdrawlSettings {
    fn duplicate(&self) -> (r: Self) {
        AllowedWithdrawlSettings {
            grantee: self.grantee.clone(),
            taxation_address: self.taxation_address.clone(),
            max_fee_percentage: self.max_fee_percentage,
            expiration: self.expiration,
        }
    }
}

impl Expirable for AllowedWithdrawlSettings {
    open spec fn expiration_nanos(&self) -> u64 {
        self.expiration.nanos
    }

    open spec fn grantee_address(&self) -> Seq<char> {
        self.grantee@
    }

    fn expiration(&self) -> (r: Timestamp) {
        self.expiration
    }

    fn is_for_grantee(&self, grantee: &String) -> (r: bool) {
        self.grantee == *grantee
    }

    fn is_expired(&self, now: Timestamp) -> (r: bool) {
        now.nanos > self.expiration.nanos
    }

    fn is_not_expired(&self, now: Timestamp) -> (r: bool) {
        now.nanos <= self.expiration.nanos
    }
}

/// The instructions of a reward withdrawal, and the grantee it ran under.
#[derive(Debug, Clone)]
pub struct RewardExecutionMsgs {
    pub msgs: Vec<CosmosMsg>,
    pub grantee: String,
}

impl PartialEq for RewardExecutionMsgs {
    fn eq(&self, other: &RewardExecutionMsgs) -> (r: bool) {
        self.msgs.deep_eq(&other.msgs) && self.grantee == other.grantee
    }
}

impl vstd::std_specs::cmp::PartialEqSpecImpl for RewardExecutionMsgs {
    open spec fn obeys_eq_spec() -> bool {
        true
    }

    open spec fn eq_spec(&self, other: &RewardExecutionMsgs) -> bool {
        self.msgs.deep_view() == other.msgs.deep_view() && self.grantee@ == other.grantee@
    }
}

/// Some coin of the bag has a nonzero amount.
pub open spec fn has_nonzero_amount(s: Seq<CoinModel>) -> bool {
    exists|i: int| 0 <= i < s.len() && s[i].amount != 0
}

/// A transfer of `amount` to `to`, unless every amount in it is zero.
pub open spec fn transfer_unless_empty(to: Seq<char>, amount: Seq<CoinModel>) -> Seq<MsgModel> {
    if has_nonzero_amount(amount) {
        seq![MsgModel::BankSend { to_address: to, amount }]
    } else {
        Seq::empty()
    }
}

fn any_nonzero(coins: &Vec<Coin>) -> (r: bool)
    ensures
        r == has_nonzero_amount(coins.deep_view()),
{
    let mut i: usize = 0;
    while i < coins.len()
        invariant
            i <= coins.len(),
            forall|k: int| 0 <= k < i ==> coins.deep_view()[k].amount == 0,
        decreases coins.len() - i,
    {
        if coins[i].amount != 0 {
            assert(coins.deep_view()[i as int].amount != 0);
            return true;
        }
        i = i + 1;
    }
    false
}

/// The instructions that follow the claim: the claim itself, then a transfer
/// of the fee share and one of the granter's share, each only when it holds
/// a nonzero amount.
pub fn reward_distribution_msgs(
    withdraw_rewards_exec_msg: CosmosMsg,
    taxation_address: String,
    taxation_address_rewards: Vec<Coin>,
    delegator_addr: &String,
    delegator_rewards: Vec<Coin>,
) -> (r: Vec<CosmosMsg>)
    ensures
        r.deep_view() == seq![withdraw_rewards_exec_msg.deep_view()] + transfer_unless_empty(
            taxation_address@,
            taxation_address_rewards.deep_view(),
        ) + transfer_unless_empty(delegator_addr@, delegator_rewards.deep_view()),
{
    let ghost first = withdraw_rewards_exec_msg.deep_view();
    let ghost fee = transfer_unless_empty(taxation_address@, taxation_address_rewards.deep_view());
    let ghost own = transfer_unless_empty(delegator_addr@, delegator_rewards.deep_view());
    let mut msgs: Vec<CosmosMsg> = Vec::new();
    msgs.push(withdraw_rewards_exec_msg);
    assert(msgs.deep_view() =~= seq![first]);
    if any_nonzero(&taxation_address_rewards) {
        msgs.push(CosmosMsg::BankSend { to_address: taxation_address, amount: taxation_address_rewards });
    }
    assert(msgs.deep_view() =~= seq![first] + fee);
    let ghost with_fee = msgs.deep_view();
    if any_nonzero(&delegator_rewards) {
        msgs.push(CosmosMsg::BankSend { to_address: delegator_addr.clone(), amount: delegator_rewards });
    }
    assert(msgs.deep_view() =~= with_fee + own);
    msgs
}

/// The validators of the pending rewards, in order.
pub open spec fn validators_of(rewards: Seq<PendingRewardModel>) -> Seq<Seq<char>> {
    rewards.map_values(|r: PendingRewardModel| r.validator)
}

fn validators(rewards: &Vec<PendingReward>) -> (r: Vec<String>)
    ensures
        r.deep_view() == validators_of(rewards.deep_view()),
{
    let mut out: Vec<String> = Vec::new();
    let mut i: usize = 0;
    while i < rewards.len()
        invariant
            i <= rewards.len(),
            out.deep_view() == validators_of(rewards.deep_view().take(i as int)),
        decreases rewards.len() - i,
    {
        let ghost before = out.deep_view();
        out.push(rewards[i].validator.clone());
        assert(out.deep_view() =~= before.push(rewards.deep_view()[i as int].validator));
        assert(rewards.deep_view().take(i as int + 1) =~= rewards.deep_view().take(i as int).push(
            rewards.deep_view()[i as int],
        ));
        i = i + 1;
        assert(out.deep_view() =~= validators_of(rewards.deep_view().take(i as int)));
    }
    assert(rewards.deep_view().take(rewards.len() as int) =~= rewards.deep_view());
    out
}

/// The full instruction list of a withdrawal: the claim bundle executed by
/// the contract, then the transfers of both shares that are not empty.
pub open spec fn withdrawal_msgs(
    pending: Seq<PendingRewardModel>,
    total: Seq<CoinModel>,
    settings: WithdrawlSettingsModel,
    contract: Seq<char>,
    delegator: Seq<char>,
    percentage: Option<Decimal>,
) -> Seq<MsgModel> {
    let pct = effective_percentage(settings.max_fee_percentage, percentage);
    seq![exec_msg_model(contract, claim_bundle(delegator, contract, validators_of(pending)))]
        + transfer_unless_empty(
        settings.taxation_address,
        total.map_values(|c: CoinModel| share_of(c, pct)),
    ) + transfer_unless_empty(delegator, total.map_values(|c: CoinModel| remainder_of(c, pct)))
}

/// The outcome of a reward withdrawal under grant terms `settings`: a sender
/// who is neither the granter nor the grantee is refused first; then a pool
/// with no coin is refused; otherwise the withdrawal's instructions.
pub open spec fn withdrawal_result(
    r: Result<RewardExecutionMsgs, ContractError>,
    pending: AllPendingRewards,
    settings: WithdrawlSettingsModel,
    sender: Seq<char>,
    contract: Seq<char>,
    delegator: Seq<char>,
    percentage: Option<Decimal>,
) -> bool {
    if sender != delegator && sender != settings.grantee {
        r matches Err(ContractError::Unauthorized {  })
    } else if pending.total.len() == 0 {
        r matches Err(ContractError::NoPendingRewards(d)) && d@ == delegator
    } else {
        r matches Ok(out) && out.grantee@ == settings.grantee && out.msgs.deep_view()
            == withdrawal_msgs(
            pending.rewards.deep_view(),
            pending.total.deep_view(),
            settings,
            contract,
            delegator,
            percentage,
        )
    }
}

/// Builds the instructions of a reward withdrawal: only the granter
/// (`delegator_addr`) or the grant's grantee may run it, and only when there
/// are rewards; the rewards are claimed into the contract and split by the
/// requested fee percentage, capped at the grant's maximum.
pub fn generate_reward_withdrawl_msgs(
    all_pending_rewards: AllPendingRewards,
    grant_settings: AllowedWithdrawlSettings,
    sender_addr: &String,
    contract_addr: &String,
    delegator_addr: &String,
    percentage: Option<Decimal>,
) -> (r: Result<RewardExecutionMsgs, ContractError>)
    requires
        (sender_addr@ == delegator_addr@ || sender_addr@ == grant_settings.grantee@)
            && all_pending_rewards.total.len() > 0 ==> effective_percentage(
            grant_settings.max_fee_percentage,
            percentage,
        ).is_fraction(),
    ensures
        withdrawal_result(
            r,
            all_pending_rewards,
            grant_settings.deep_view(),
            sender_addr@,
            contract_addr@,
            delegator_addr@,
            percentage,
        ),
{
    if *sender_addr != *delegator_addr && *sender_addr != grant_settings.grantee {
        return Err(ContractError::Unauthorized {  });
    }
    if all_pending_rewards.total.len() == 0 {
        return Err(ContractError::NoPendingRewards(delegator_addr.clone()));
    }
    let ghost pending = all_pending_rewards;
    let AllowedWithdrawlSettings { grantee, taxation_address, max_fee_percentage, .. } =
        grant_settings;
    let AllPendingRewards { rewards, total: all_pending } = all_pending_rewards;
    let split = split_rewards(all_pending, max_fee_percentage, &percentage);
    let validator_list = validators(&rewards);
    let withdraw_rewards_exec_msg = create_withdraw_rewards_exec_msg(
        delegator_addr,
        contract_addr,
        &validator_list,
    )?;
    let msgs = reward_distribution_msgs(
        withdraw_rewards_exec_msg,
        taxation_address,
        split.taxation_address_rewards,
        delegator_addr,
        split.delegator_rewards,
    );
    let r = RewardExecutionMsgs { msgs, grantee };
    assert(pending.total.len() > 0);
    Ok(r)
}

/// Runs a reward withdrawal for `granter_addr` under its stored grant: fails
/// when no grant is active at `now`; otherwise as
/// `generate_reward_withdrawl_msgs` under that grant.
pub fn execute_rewards_withdraw(
    store: &GrantStore<String, AllowedWithdrawlSettings>,
    now: Timestamp,
    sender: &String,
    granter_addr: &String,
    contract_addr: &String,
    percentage: Option<Decimal>,
    pending_rewards: AllPendingRewards,
) -> (r: Result<RewardExecutionMsgs, ContractError>)
    requires
        store.wf(),
        match active_grant(store.records(), granter_addr@, now) {
            Some(grant) => (sender@ == granter_addr@ || sender@ == grant.grantee@)
                && pending_rewards.total.len() > 0 ==> effective_percentage(
                grant.max_fee_percentage,
                percentage,
            ).is_fraction(),
            None => true,
        },
    ensures
        match active_grant(store.records(), granter_addr@, now) {
            None => r matches Err(ContractError::NoActiveGrant(g)) && g@ == granter_addr@,
            Some(grant) => withdrawal_result(
                r,
                pending_rewards,
                grant.deep_view(),
                sender@,
                contract_addr@,
                granter_addr@,
                percentage,
            ),
        },
{
    let grant = match store.load_active(granter_addr, now) {
        Some(g) => {
            g.duplicate()
        },
        None => {
            return Err(ContractError::NoActiveGrant(granter_addr.clone()));
        },
    };
    generate_reward_withdrawl_msgs(
        pending_rewards,
        grant,
        sender,
        contract_addr,
        granter_addr,
        percentage,
    )
}

/// A grant and the granter it belongs to.
#[derive(Debug, Clone)]
pub struct GrantQueryResponse {
    pub delegator_addr: String,
    pub allowed_withdrawls: AllowedWithdrawlSettings,
}

/// The active grant of `delegator_addr`, if any.
pub fn query_active_grants_by_delegator(
    store: &GrantStore<String, AllowedWithdrawlSettings>,
    now: Timestamp,
    delegator_addr: &String,
) -> (r: Option<GrantQueryResponse>)
    requires
        store.wf(),
    ensures
        match active_grant(store.records(), delegator_addr@, now) {
            None => r is None,
            Some(grant) => r matches Some(resp) && resp.delegator_addr@ == delegator_addr@
                && resp.allowed_withdrawls.deep_view() == grant.deep_view(),
        },
{
    match store.load_active(delegator_addr, now) {
        Some(g) => Some(
            GrantQueryResponse { delegator_addr: delegator_addr.clone(), allowed_withdrawls: g.duplicate() },
        ),
        None => None,
    }
}

/// Every grant active at `now` whose grantee is `grantee`, with its granter.
pub fn query_active_grants_by_grantee(
    store: &GrantStore<String, AllowedWithdrawlSettings>,
    now: Timestamp,
    grantee: &String,
) -> (r: Vec<GrantQueryResponse>)
    ensures
        r.len() == active_for_grantee(store.records(), grantee@, now).len(),
        forall|i: int|
            0 <= i < r.len() ==> r[i].delegator_addr@ == active_for_grantee(
                store.records(),
                grantee@,
                now,
            )[i].0 && r[i].allowed_withdrawls.deep_view() == active_for_grantee(
                store.records(),
                grantee@,
                now,
            )[i].1.deep_view(),
{
    let found = store.list_active_by_grantee(grantee, now);
    let ghost fv = found.deep_view();
    let mut rest = found;
    let mut out: Vec<GrantQueryResponse> = Vec::new();
    let n = rest.len();
    let mut k: usize = 0;
    while rest.len() > 0
        invariant
            k + rest.len() == n,
            fv.len() == n,
            rest.deep_view() == fv.subrange(k as int, n as int),
            out.len() == k,
            forall|i: int|
                0 <= i < k ==> out[i].delegator_addr@ == fv[i].0
                    && out[i].allowed_withdrawls.deep_view() == fv[i].1,
        decreases rest.len(),
    {
        let ghost rv = rest.deep_view();
        assert(rv[0] == fv[k as int]);
        let (granter, settings) = rest.remove(0);
        assert(rest.deep_view() =~= rv.subrange(1, rv.len() as int));
        out.push(GrantQueryResponse { delegator_addr: granter, allowed_withdrawls: settings });
        k = k + 1;
    }
    let ghost a = active_for_grantee(store.records(), grantee@, now);
    assert forall|i: int| 0 <= i < out.len() implies out[i].delegator_addr@ == a[i].0
        && out[i].allowed_withdrawls.deep_view() == a[i].1.deep_view() by {
        assert(fv[i] == (a[i].0, a[i].1.deep_view()));
    }
    out
}


/// The coin-wise sum of the rewards of all validators, in order.
pub open spec fn rewards_sum(rs: Seq<PendingRewardModel>) -> Seq<CoinModel>
    decreases rs.len(),
{
    if rs.len() == 0 {
        Seq::empty()
    } else {
        sum_coins_spec(rewards_sum(rs.drop_last()), rs.last().amount)
    }
}

/// The validators that have accrued some reward, in order.
pub open spec fn with_rewards(rs: Seq<PendingRewardModel>) -> Seq<PendingRewardModel>
    decreases rs.len(),
{
    if rs.len() == 0 {
        rs
    } else {
        let r = with_rewards(rs.drop_last());
        if rs.last().amount.len() > 0 {
            r.push(rs.last())
        } else {
            r
        }
    }
}

proof fn lemma_rewards_sum_prefix(rs: Seq<PendingRewardModel>, k: int)
    requires
        0 <= k <= rs.len(),
    ensures
        dominated(rewards_sum(rs.take(k)), rewards_sum(rs)),
    decreases rs.len(),
{
    if k == rs.len() {
        assert(rs.take(k) =~= rs);
        assert forall|i: int| 0 <= i < rewards_sum(rs).len() implies #[trigger] rewards_sum(rs)[i].amount
            <= rewards_sum(rs)[i].amount by {}
    } else {
        let d = rs.drop_last();
        assert(d.take(k) =~= rs.take(k));
        lemma_rewards_sum_prefix(d, k);
        lemma_sum_dominates(rewards_sum(d), rs.last().amount);
        lemma_dominated_trans(rewards_sum(d), rewards_sum(rs), rewards_sum(rs.take(k)));
    }
}

/// Gathers the pending rewards of a delegator's delegations: validators with
/// no reward are dropped, and the total is the coin-wise sum without zero
/// coins; `None` when an amount of the total would not fit in a `u128`.
pub fn collect_pending_rewards(delegations: Vec<PendingReward>) -> (r: Option<AllPendingRewards>)
    ensures
        match r {
            Some(p) => amounts_fit(rewards_sum(delegations.deep_view())) && p.rewards.deep_view()
                == with_rewards(delegations.deep_view()) && p.total.deep_view() == nonzero_coins(
                rewards_sum(delegations.deep_view()),
            ),
            None => !amounts_fit(rewards_sum(delegations.deep_view())),
        },
{
    let ghost dv = delegations.deep_view();
    let n = delegations.len();
    let mut rest = delegations;
    let mut rewards: Vec<PendingReward> = Vec::new();
    let mut total: Vec<Coin> = Vec::new();
    let mut k: usize = 0;
    assert(dv.take(0) =~= Seq::<PendingRewardModel>::empty());
    while rest.len() > 0
        invariant
            k + rest.len() == n,
            dv.len() == n,
            dv == delegations.deep_view(),
            rest.deep_view() == dv.subrange(k as int, n as int),
            rewards.deep_view() == with_rewards(dv.take(k as int)),
            total.deep_view() == rewards_sum(dv.take(k as int)),
        decreases rest.len(),
    {
        let ghost rv = rest.deep_view();
        assert(rv[0] == dv[k as int]);
        let reward = rest.remove(0);
        assert(reward.deep_view() == dv[k as int]);
        assert(rest.deep_view() =~= rv.subrange(1, rv.len() as int));
        let ghost next = dv.take(k as int + 1);
        assert(next.drop_last() =~= dv.take(k as int));
        assert(next.last() == dv[k as int]);
        total = match checked_sum_coins(total, reward.amount.duplicate()) {
            Some(v) => v,
            None => {
                proof {
                    lemma_rewards_sum_prefix(dv, k as int + 1);
                    let s = rewards_sum(next);
                    let j = choose|j: int| 0 <= j < s.len() && !(s[j].amount <= u128::MAX);
                    assert(rewards_sum(dv)[j].amount >= s[j].amount);
                    assert(!amounts_fit(rewards_sum(dv)));
                }
                return None;
            },
        };
        let ghost before = rewards.deep_view();
        if reward.amount.len() > 0 {
            rewards.push(reward);
            assert(rewards.deep_view() =~= before.push(dv[k as int]));
        }
        k = k + 1;
    }
    assert(dv.take(n as int) =~= dv);
    let total = filter_empty_coins(total);
    Some(AllPendingRewards { rewards, total })
}

} // verus!
