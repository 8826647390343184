//! Merging overlapping grant requirements into a minimal equivalent list.

use vstd::prelude::*;

use crate::coins::{Coin, CoinModel};
use crate::deep_eq::{distinct, push_distinct, unique};
use crate::deep_eq::Duplicate;
use crate::grants::{
    later, AuthorizationModel, AuthorizationType, ContractExecutionAuthorizationFilter,
    ContractExecutionAuthorizationLimit, ContractExecutionSetting, FilterModel, LimitModel,
    GrantRequirement, GrantRequirementModel, PolicyModel, SettingModel, StakeAuthorizationPolicy,
    StakeAuthorizationValidators,
};

verus! {

/// The groups that requirements are sorted into, in output order.
#[derive(Debug, Clone, Copy, PartialEq, Eq, Structural)]
pub enum Category {
    ContractAuthorization,
    Generic,
    Send,
    Stake,
    ContractCall,
    Transfer,
}

/// The group of a requirement.
pub open spec fn category(g: GrantRequirementModel) -> Category {
    match g {
        GrantRequirementModel::GrantSpec { grant_type, .. } => match grant_type {
            AuthorizationModel::GenericAuthorization { .. } => Category::Generic,
            AuthorizationModel::SendAuthorization { .. } => Category::Send,
            AuthorizationModel::StakeAuthorization { .. } => Category::Stake,
            AuthorizationModel::ContractExecutionAuthorization(_) => Category::ContractAuthorization,
            AuthorizationModel::TransferAuthorization(_) => Category::Transfer,
        },
        GrantRequirementModel::ContractExec { .. } => Category::ContractCall,
    }
}

/// The requirements of group `c`, in input order.
pub open spec fn select(s: Seq<GrantRequirementModel>, c: Category) -> Seq<GrantRequirementModel>
    decreases s.len(),
{
    if s.len() == 0 {
        s
    } else {
        let r = select(s.drop_last(), c);
        if category(s.last()) == c {
            r.push(s.last())
        } else {
            r
        }
    }
}

/// Two stake authorizations are for the same kind of staking action; any two
/// other authorizations always agree.
pub open spec fn stake_kind_matches(a: AuthorizationModel, b: AuthorizationModel) -> bool {
    match (a, b) {
        (
            AuthorizationModel::StakeAuthorization { authorization_type: x, .. },
            AuthorizationModel::StakeAuthorization { authorization_type: y, .. },
        ) => x == y,
        _ => true,
    }
}

/// Two permission requirements aim at the same grant: same granter and
/// grantee, and for staking the same kind of action. Direct calls never do.
pub open spec fn same_target(a: GrantRequirementModel, b: GrantRequirementModel) -> bool {
    match (a, b) {
        (
            GrantRequirementModel::GrantSpec { grant_type: ta, granter: ga, grantee: ea, .. },
            GrantRequirementModel::GrantSpec { grant_type: tb, granter: gb, grantee: eb, .. },
        ) => ga == gb && ea == eb && stake_kind_matches(ta, tb),
        _ => false,
    }
}

/// How two validator filters of one target combine.
pub open spec fn combine_policies(a: Option<PolicyModel>, b: Option<PolicyModel>) -> Option<
    PolicyModel,
> {
    match (a, b) {
        (Some(PolicyModel::AllowList(x)), Some(PolicyModel::AllowList(y))) => Some(
            PolicyModel::AllowList(distinct(x + y)),
        ),
        (Some(PolicyModel::DenyList(x)), Some(PolicyModel::DenyList(y))) => Some(
            PolicyModel::DenyList(x + y),
        ),
        (Some(PolicyModel::AllowList(x)), Some(PolicyModel::DenyList(_))) => Some(
            PolicyModel::AllowList(x),
        ),
        (Some(PolicyModel::DenyList(_)), Some(PolicyModel::AllowList(y))) => Some(
            PolicyModel::AllowList(y),
        ),
        (Some(x), None) => Some(x),
        (None, y) => y,
    }
}

/// How two send authorizations of one target combine: limits are kept only
/// when both sides have one.
pub open spec fn combine_send(
    a_spend_limit: Option<Seq<CoinModel>>,
    a_allow_list: Option<Seq<Seq<char>>>,
    b_spend_limit: Option<Seq<CoinModel>>,
    b_allow_list: Option<Seq<Seq<char>>>,
) -> AuthorizationModel {
    AuthorizationModel::SendAuthorization {
        spend_limit: match (a_spend_limit, b_spend_limit) {
            (Some(x), Some(y)) => Some(x + y),
            _ => None,
        },
        allow_list: match (a_allow_list, b_allow_list) {
            (Some(x), Some(y)) => Some(distinct(x + y)),
            _ => None,
        },
    }
}

/// How the authorization `b` is folded into an earlier one, `a`, of the same
/// target.
pub open spec fn combine_types(a: AuthorizationModel, b: AuthorizationModel) -> AuthorizationModel {
    match (a, b) {
        (
            AuthorizationModel::StakeAuthorization { validators: va, .. },
            AuthorizationModel::StakeAuthorization { authorization_type, validators: vb, .. },
        ) => AuthorizationModel::StakeAuthorization {
            max_tokens: None,
            authorization_type,
            validators: combine_policies(va, vb),
        },
        (
            AuthorizationModel::SendAuthorization { spend_limit: sa, allow_list: la },
            AuthorizationModel::SendAuthorization { spend_limit: sb, allow_list: lb },
        ) => combine_send(sa, la, sb, lb),
        (
            AuthorizationModel::ContractExecutionAuthorization(x),
            AuthorizationModel::ContractExecutionAuthorization(y),
        ) => AuthorizationModel::ContractExecutionAuthorization(y + x),
        _ => a,
    }
}

/// The requirement `b` folded into an earlier one, `a`: combined
/// authorization, the later expiration.
pub open spec fn combine(a: GrantRequirementModel, b: GrantRequirementModel) -> GrantRequirementModel {
    match (a, b) {
        (
            GrantRequirementModel::GrantSpec { grant_type: ta, granter, grantee, expiration: xa },
            GrantRequirementModel::GrantSpec { grant_type: tb, expiration: xb, .. },
        ) => GrantRequirementModel::GrantSpec {
            grant_type: combine_types(ta, tb),
            granter,
            grantee,
            expiration: later(xa, xb),
        },
        _ => a,
    }
}

/// `i` is the first position in `acc` with the target of `g`.
pub open spec fn first_target_at(
    acc: Seq<GrantRequirementModel>,
    g: GrantRequirementModel,
    i: int,
) -> bool {
    &&& 0 <= i < acc.len()
    &&& same_target(acc[i], g)
    &&& forall|k: int| 0 <= k < i ==> !same_target(acc[k], g)
}

/// Folds `g` into the first requirement of `acc` with its target, or appends it.
pub open spec fn merge_into(acc: Seq<GrantRequirementModel>, g: GrantRequirementModel) -> Seq<
    GrantRequirementModel,
> {
    if exists|i: int| 0 <= i < acc.len() && same_target(acc[i], g) {
        let i = choose|i: int| first_target_at(acc, g, i);
        acc.update(i, combine(acc[i], g))
    } else {
        acc.push(g)
    }
}

/// Folds each requirement of `s`, in order, into those before it.
pub open spec fn merge_all(s: Seq<GrantRequirementModel>) -> Seq<GrantRequirementModel>
    decreases s.len(),
{
    if s.len() == 0 {
        s
    } else {
        merge_into(merge_all(s.drop_last()), s.last())
    }
}

/// The deduplicated list: grouped by category in a fixed order, exact repeats
/// dropped, and contract-execution, send and stake authorizations of one
/// target merged; direct calls are kept as they come.
pub open spec fn dedupe_spec(s: Seq<GrantRequirementModel>) -> Seq<GrantRequirementModel> {
    merge_all(distinct(select(s, Category::ContractAuthorization))) + distinct(
        select(s, Category::Generic),
    ) + merge_all(distinct(select(s, Category::Send))) + merge_all(
        distinct(select(s, Category::Stake)),
    ) + select(s, Category::ContractCall) + distinct(select(s, Category::Transfer))
}


fn concat_vecs<T: DeepView>(a: Vec<T>, b: Vec<T>) -> (r: Vec<T>)
    ensures
        r.deep_view() == a.deep_view() + b.deep_view(),
{
    let ghost av = a.deep_view();
    let ghost bv = b.deep_view();
    let mut all = a;
    let mut other = b;
    all.append(&mut other);
    assert(all.deep_view() =~= av + bv);
    all
}

/// Combines the validator filters of two stake authorizations of one target:
/// allow lists are united without repeats, deny lists concatenated, an allow
/// list wins over a deny list, and a missing filter yields to the other.
fn combine_stake_auth_policies(
    a: Option<StakeAuthorizationPolicy>,
    b: Option<StakeAuthorizationPolicy>,
) -> (r: Option<StakeAuthorizationPolicy>)
    ensures
        r.deep_view() == combine_policies(a.deep_view(), b.deep_view()),
{
    match (a, b) {
        (
            Some(StakeAuthorizationPolicy::AllowList(x)),
            Some(StakeAuthorizationPolicy::AllowList(y)),
        ) => Some(
            StakeAuthorizationPolicy::AllowList(
                StakeAuthorizationValidators { address: unique(concat_vecs(x.address, y.address)) },
            ),
        ),
        (
            Some(StakeAuthorizationPolicy::DenyList(x)),
            Some(StakeAuthorizationPolicy::DenyList(y)),
        ) => Some(
            StakeAuthorizationPolicy::DenyList(
                StakeAuthorizationValidators { address: concat_vecs(x.address, y.address) },
            ),
        ),
        (
            Some(StakeAuthorizationPolicy::AllowList(x)),
            Some(StakeAuthorizationPolicy::DenyList(_)),
        ) => Some(StakeAuthorizationPolicy::AllowList(x)),
        (
            Some(StakeAuthorizationPolicy::DenyList(_)),
            Some(StakeAuthorizationPolicy::AllowList(y)),
        ) => Some(StakeAuthorizationPolicy::AllowList(y)),
        (Some(x), None) => Some(x),
        (None, y) => y,
    }
}

/// Combines two send authorizations of one target: spend limits are
/// concatenated and allow lists united without repeats when both sides have
/// one; a side without a limit leaves the result without it.
fn combine_send_auths(
    a_spend_limit: Option<Vec<Coin>>,
    a_allow_list: Option<Vec<String>>,
    b_spend_limit: Option<Vec<Coin>>,
    b_allow_list: Option<Vec<String>>,
) -> (r: AuthorizationType)
    ensures
        r.deep_view() == combine_send(
            a_spend_limit.deep_view(),
            a_allow_list.deep_view(),
            b_spend_limit.deep_view(),
            b_allow_list.deep_view(),
        ),
{
    let spend_limit = match (a_spend_limit, b_spend_limit) {
        (Some(x), Some(y)) => Some(concat_vecs(x, y)),
        _ => None,
    };
    let allow_list = match (a_allow_list, b_allow_list) {
        (Some(x), Some(y)) => Some(unique(concat_vecs(x, y))),
        _ => None,
    };
    AuthorizationType::SendAuthorization { spend_limit, allow_list }
}

/// Joins the settings of two contract-execution authorizations.
fn combine_contract_execute_auths(
    a_auths: Vec<ContractExecutionSetting>,
    b_auths: Vec<ContractExecutionSetting>,
) -> (r: AuthorizationType)
    ensures
        r.deep_view() == AuthorizationModel::ContractExecutionAuthorization(
            a_auths.deep_view() + b_auths.deep_view(),
        ),
{
    AuthorizationType::ContractExecutionAuthorization(concat_vecs(a_auths, b_auths))
}

/// Folds the requirement `additional` into the earlier `existing` one.
fn combine_requirements(existing: GrantRequirement, additional: GrantRequirement) -> (r:
    GrantRequirement)
    ensures
        r.deep_view() == combine(existing.deep_view(), additional.deep_view()),
{
    match (existing, additional) {
        (
            GrantRequirement::GrantSpec { grant_type: ta, granter, grantee, expiration: xa },
            GrantRequirement::GrantSpec { grant_type: tb, expiration: xb, .. },
        ) => {
            let grant_type = match (ta, tb) {
                (
                    AuthorizationType::StakeAuthorization { validators: va, .. },
                    AuthorizationType::StakeAuthorization {
                        authorization_type,
                        validators: vb,
                        ..
                    },
                ) => AuthorizationType::StakeAuthorization {
                    max_tokens: None,
                    authorization_type,
                    validators: combine_stake_auth_policies(va, vb),
                },
                (
                    AuthorizationType::SendAuthorization { spend_limit: sa, allow_list: la },
                    AuthorizationType::SendAuthorization { spend_limit: sb, allow_list: lb },
                ) => combine_send_auths(sa, la, sb, lb),
                (
                    AuthorizationType::ContractExecutionAuthorization(x),
                    AuthorizationType::ContractExecutionAuthorization(y),
                ) => combine_contract_execute_auths(y, x),
                (ta, _) => ta,
            };
            GrantRequirement::GrantSpec {
                grant_type,
                granter,
                grantee,
                expiration: xa.max(xb),
            }
        },
        (existing, _) => existing,
    }
}


proof fn lemma_select_step(s: Seq<GrantRequirementModel>, k: int, c: Category)
    requires
        0 <= k < s.len(),
    ensures
        select(s.take(k + 1), c) == if category(s[k]) == c {
            select(s.take(k), c).push(s[k])
        } else {
            select(s.take(k), c)
        },
{
    assert(s.take(k + 1).drop_last() =~= s.take(k));
    assert(s.take(k + 1).last() == s[k]);
}

proof fn lemma_distinct_push<T>(s: Seq<T>, x: T)
    ensures
        distinct(s.push(x)) == if distinct(s).contains(x) {
            distinct(s)
        } else {
            distinct(s).push(x)
        },
{
    assert(s.push(x).drop_last() =~= s);
}

/// The group of a requirement.
pub fn category_of(g: &GrantRequirement) -> (c: Category)
    ensures
        c == category(g.deep_view()),
{
    match g {
        GrantRequirement::GrantSpec { grant_type, .. } => match grant_type {
            AuthorizationType::GenericAuthorization { .. } => Category::Generic,
            AuthorizationType::SendAuthorization { .. } => Category::Send,
            AuthorizationType::StakeAuthorization { .. } => Category::Stake,
            AuthorizationType::ContractExecutionAuthorization(_) => Category::ContractAuthorization,
            AuthorizationType::TransferAuthorization(_) => Category::Transfer,
        },
        GrantRequirement::ContractExec { .. } => Category::ContractCall,
    }
}

fn targets_match(a: &GrantRequirement, b: &GrantRequirement) -> (r: bool)
    ensures
        r == same_target(a.deep_view(), b.deep_view()),
{
    match (a, b) {
        (
            GrantRequirement::GrantSpec { grant_type: ta, granter: ga, grantee: ea, .. },
            GrantRequirement::GrantSpec { grant_type: tb, granter: gb, grantee: eb, .. },
        ) => {
            let kinds = match (ta, tb) {
                (
                    AuthorizationType::StakeAuthorization { authorization_type: x, .. },
                    AuthorizationType::StakeAuthorization { authorization_type: y, .. },
                ) => *x == *y,
                _ => true,
            };
            *ga == *gb && *ea == *eb && kinds
        },
        _ => false,
    }
}

/// Folds `g` into the first requirement of `acc` with the same target, or
/// appends it.
fn merge_requirement(acc: &mut Vec<GrantRequirement>, g: GrantRequirement)
    ensures
        final(acc).deep_view() == merge_into(old(acc).deep_view(), g.deep_view()),
{
    let ghost before = acc.deep_view();
    let ghost gv = g.deep_view();
    let mut j: usize = 0;
    let mut found = false;
    while !found && j < acc.len()
        invariant
            j <= acc.len(),
            acc.deep_view() == before,
            gv == g.deep_view(),
            found ==> j < acc.len() && first_target_at(before, gv, j as int),
            forall|m: int| 0 <= m < j ==> !same_target(before[m], gv),
        decreases acc.len() - j + if found { 0int } else { 1int },
    {
        assert(acc.deep_view()[j as int] == acc@[j as int].deep_view());
        let m = targets_match(&acc[j], &g);
        assert(m == same_target(before[j as int], g.deep_view()));
        if m {
            found = true;
        } else {
            j = j + 1;
        }
    }
    if found {
        proof {
            assert forall|i: int| first_target_at(before, gv, i) implies i == j by {
                if i < j {
                } else if i > j {
                }
            }
        }
        let existing = acc.remove(j);
        assert(existing.deep_view() == before[j as int]);
        let merged = combine_requirements(existing, g);
        acc.insert(j, merged);
        assert(acc.deep_view() =~= before.update(j as int, combine(before[j as int], gv)));
    } else {
        acc.push(g);
        assert(acc.deep_view() =~= before.push(gv));
    }
}

/// Folds each requirement, in order, into the earlier ones with its target.
fn merge_same_targets(grants: Vec<GrantRequirement>) -> (r: Vec<GrantRequirement>)
    ensures
        r.deep_view() == merge_all(grants.deep_view()),
{
    let ghost input = grants.deep_view();
    let n = grants.len();
    let mut rest = grants;
    let mut out: Vec<GrantRequirement> = Vec::new();
    let mut k: usize = 0;
    assert(input.take(0) =~= Seq::<GrantRequirementModel>::empty());
    while rest.len() > 0
        invariant
            k + rest.len() == input.len(),
            input.len() == n,
            rest.deep_view() == input.subrange(k as int, input.len() as int),
            out.deep_view() == merge_all(input.take(k as int)),
        decreases rest.len(),
    {
        let ghost before_rest = rest.deep_view();
        assert(before_rest[0] == input[k as int]);
        let g = rest.remove(0);
        assert(g.deep_view() == before_rest[0]);
        assert(rest.deep_view() =~= before_rest.subrange(1, before_rest.len() as int));
        assert(rest.deep_view() =~= input.subrange(k as int + 1, input.len() as int));
        let ghost next = input.take(k as int + 1);
        assert(next.drop_last() =~= input.take(k as int));
        assert(next.last() == input[k as int]);
        merge_requirement(&mut out, g);
        k = k + 1;
    }
    assert(input.take(input.len() as int) =~= input);
    out
}

/// Merges a list of requirements into a minimal equivalent one: grouped by
/// category (contract-execution authorizations, generic, send, stake, direct
/// calls, transfer), exact repeats dropped, authorizations of one target
/// merged, and direct calls kept in the order they come.
pub fn dedupe_grant_reqs(grants: Vec<GrantRequirement>) -> (r: Vec<GrantRequirement>)
    ensures
        r.deep_view() == dedupe_spec(grants.deep_view()),
{
    let ghost input = grants.deep_view();
    let n = grants.len();
    let mut rest = grants;
    let mut stake_authorizations: Vec<GrantRequirement> = Vec::new();
    let mut generic_authorizations: Vec<GrantRequirement> = Vec::new();
    let mut send_authorizations: Vec<GrantRequirement> = Vec::new();
    let mut contract_execute_authorizations: Vec<GrantRequirement> = Vec::new();
    let mut transfer_authorizations: Vec<GrantRequirement> = Vec::new();
    let mut contract_executions: Vec<GrantRequirement> = Vec::new();
    let mut k: usize = 0;
    assert(input.take(0) =~= Seq::<GrantRequirementModel>::empty());
    while rest.len() > 0
        invariant
            k + rest.len() == input.len(),
            input.len() == n,
            rest.deep_view() == input.subrange(k as int, input.len() as int),
            stake_authorizations.deep_view() == distinct(
                select(input.take(k as int), Category::Stake),
            ),
            generic_authorizations.deep_view() == distinct(
                select(input.take(k as int), Category::Generic),
            ),
            send_authorizations.deep_view() == distinct(
                select(input.take(k as int), Category::Send),
            ),
            contract_execute_authorizations.deep_view() == distinct(
                select(input.take(k as int), Category::ContractAuthorization),
            ),
            transfer_authorizations.deep_view() == distinct(
                select(input.take(k as int), Category::Transfer),
            ),
            contract_executions.deep_view() == select(
                input.take(k as int),
                Category::ContractCall,
            ),
        decreases rest.len(),
    {
        let ghost before_rest = rest.deep_view();
        assert(before_rest[0] == input[k as int]);
        let grant = rest.remove(0);
        assert(grant.deep_view() == before_rest[0]);
        assert(rest.deep_view() =~= before_rest.subrange(1, before_rest.len() as int));
        assert(rest.deep_view() =~= input.subrange(k as int + 1, input.len() as int));
        let ghost next = input.take(k as int + 1);
        assert(next.drop_last() =~= input.take(k as int));
        assert(next.last() == input[k as int]);
        proof {
            lemma_select_step(input, k as int, Category::Stake);
            lemma_select_step(input, k as int, Category::Generic);
            lemma_select_step(input, k as int, Category::Send);
            lemma_select_step(input, k as int, Category::ContractAuthorization);
            lemma_select_step(input, k as int, Category::Transfer);
            lemma_select_step(input, k as int, Category::ContractCall);
            let gv = input[k as int];
            lemma_distinct_push(select(input.take(k as int), Category::Stake), gv);
            lemma_distinct_push(select(input.take(k as int), Category::Generic), gv);
            lemma_distinct_push(select(input.take(k as int), Category::Send), gv);
            lemma_distinct_push(select(input.take(k as int), Category::ContractAuthorization), gv);
            lemma_distinct_push(select(input.take(k as int), Category::Transfer), gv);
        }
        let c = category_of(&grant);
        match c {
            Category::Stake => push_distinct(&mut stake_authorizations, grant),
            Category::Generic => push_distinct(&mut generic_authorizations, grant),
            Category::Send => push_distinct(&mut send_authorizations, grant),
            Category::ContractAuthorization => push_distinct(
                &mut contract_execute_authorizations,
                grant,
            ),
            Category::Transfer => push_distinct(&mut transfer_authorizations, grant),
            Category::ContractCall => {
                let ghost before = contract_executions.deep_view();
                let ghost gv = grant.deep_view();
                contract_executions.push(grant);
                assert(contract_executions.deep_view() =~= before.push(gv));
            },
        }
        k = k + 1;
    }
    assert(input.take(input.len() as int) =~= input);
    let mut out = merge_same_targets(contract_execute_authorizations);
    out = concat_vecs(out, generic_authorizations);
    out = concat_vecs(out, merge_same_targets(send_authorizations));
    out = concat_vecs(out, merge_same_targets(stake_authorizations));
    out = concat_vecs(out, contract_executions);
    out = concat_vecs(out, transfer_authorizations);
    out
}


/// A call limit as a count of calls and a list of fund caps; a funds-only
/// limit counts zero calls.
pub open spec fn limit_parts(l: LimitModel) -> (u64, Seq<CoinModel>) {
    match l {
        LimitModel::CombinedLimit { calls_remaining, amounts } => (calls_remaining, amounts),
        LimitModel::MaxCallsLimit { remaining } => (remaining, Seq::empty()),
        LimitModel::MaxFundsLimit { amounts } => (0, amounts),
    }
}

/// The limit of two settings for one contract taken together: fund caps
/// concatenated, call counts added (saturating).
pub open spec fn combine_limits(a: LimitModel, b: LimitModel) -> LimitModel {
    let (a_calls, a_amounts) = limit_parts(a);
    let (b_calls, b_amounts) = limit_parts(b);
    if a_calls == 0 && b_calls == 0 {
        LimitModel::MaxFundsLimit { amounts: a_amounts + b_amounts }
    } else if a_amounts.len() == 0 && b_amounts.len() == 0 {
        LimitModel::MaxCallsLimit { remaining: a_calls.saturating_add(b_calls) }
    } else {
        LimitModel::CombinedLimit {
            calls_remaining: a_calls.saturating_add(b_calls),
            amounts: a_amounts + b_amounts,
        }
    }
}

/// The filters of two settings for one contract taken together: allowing all
/// wins, filters of one kind are joined, and filters of the two other kinds
/// are both kept.
pub open spec fn combine_filters(a: FilterModel, b: FilterModel) -> Seq<FilterModel> {
    match (a, b) {
        (FilterModel::AllowAllMessagesFilter, _) => seq![FilterModel::AllowAllMessagesFilter],
        (_, FilterModel::AllowAllMessagesFilter) => seq![FilterModel::AllowAllMessagesFilter],
        (
            FilterModel::AcceptedMessageKeysFilter { keys: x },
            FilterModel::AcceptedMessageKeysFilter { keys: y },
        ) => seq![FilterModel::AcceptedMessageKeysFilter { keys: x + y }],
        (
            FilterModel::AcceptedMessagesFilter { messages: x },
            FilterModel::AcceptedMessagesFilter { messages: y },
        ) => seq![FilterModel::AcceptedMessagesFilter { messages: x + y }],
        (
            FilterModel::AcceptedMessageKeysFilter { keys },
            FilterModel::AcceptedMessagesFilter { messages },
        ) => seq![
            FilterModel::AcceptedMessageKeysFilter { keys },
            FilterModel::AcceptedMessagesFilter { messages },
        ],
        (
            FilterModel::AcceptedMessagesFilter { messages },
            FilterModel::AcceptedMessageKeysFilter { keys },
        ) => seq![
            FilterModel::AcceptedMessageKeysFilter { keys },
            FilterModel::AcceptedMessagesFilter { messages },
        ],
    }
}

fn limit_parts_of(l: ContractExecutionAuthorizationLimit) -> (r: (u64, Vec<Coin>))
    ensures
        (r.0, r.1.deep_view()) == limit_parts(l.deep_view()),
{
    match l {
        ContractExecutionAuthorizationLimit::CombinedLimit { calls_remaining, amounts } => (
            calls_remaining,
            amounts,
        ),
        ContractExecutionAuthorizationLimit::MaxCallsLimit { remaining } => {
            let v: Vec<Coin> = Vec::new();
            assert(v.deep_view() =~= Seq::<CoinModel>::empty());
            (remaining, v)
        },
        ContractExecutionAuthorizationLimit::MaxFundsLimit { amounts } => (0, amounts),
    }
}

/// Merges two settings for the same contract into one setting per resulting
/// filter, all with the combined limit and the first setting's address.
/// The deduplication engine does not apply it: settings are only
/// concatenated there.
pub fn combine_contract_execution_settings(
    a: ContractExecutionSetting,
    b: ContractExecutionSetting,
) -> (r: Vec<ContractExecutionSetting>)
    ensures
        r.deep_view() == combine_filters(a.filter.deep_view(), b.filter.deep_view()).map_values(
            |f: FilterModel|
                SettingModel {
                    contract_addr: a.contract_addr@,
                    limit: combine_limits(a.limit.deep_view(), b.limit.deep_view()),
                    filter: f,
                },
        ),
{
    let ghost lim = combine_limits(a.limit.deep_view(), b.limit.deep_view());
    let ghost filters = combine_filters(a.filter.deep_view(), b.filter.deep_view());
    let ghost addr = a.contract_addr@;
    let ContractExecutionSetting { contract_addr, limit: a_limit, filter: a_filter } = a;
    let ContractExecutionSetting { limit: b_limit, filter: b_filter, .. } = b;
    let (a_calls, a_amounts) = limit_parts_of(a_limit);
    let (b_calls, b_amounts) = limit_parts_of(b_limit);
    let limit = if a_calls == 0 && b_calls == 0 {
        ContractExecutionAuthorizationLimit::MaxFundsLimit { amounts: concat_vecs(a_amounts, b_amounts) }
    } else if a_amounts.len() == 0 && b_amounts.len() == 0 {
        ContractExecutionAuthorizationLimit::MaxCallsLimit { remaining: a_calls.saturating_add(b_calls) }
    } else {
        ContractExecutionAuthorizationLimit::CombinedLimit {
            calls_remaining: a_calls.saturating_add(b_calls),
            amounts: concat_vecs(a_amounts, b_amounts),
        }
    };
    assert(limit.deep_view() == lim);
    let mut out: Vec<ContractExecutionSetting> = Vec::new();
    match (a_filter, b_filter) {
        (ContractExecutionAuthorizationFilter::AllowAllMessagesFilter, _) | (
            _,
            ContractExecutionAuthorizationFilter::AllowAllMessagesFilter,
        ) => {
            out.push(
                ContractExecutionSetting {
                    contract_addr,
                    limit,
                    filter: ContractExecutionAuthorizationFilter::AllowAllMessagesFilter,
                },
            );
        },
        (
            ContractExecutionAuthorizationFilter::AcceptedMessageKeysFilter { keys },
            ContractExecutionAuthorizationFilter::AcceptedMessageKeysFilter { keys: keys_b },
        ) => {
            out.push(
                ContractExecutionSetting {
                    contract_addr,
                    limit,
                    filter: ContractExecutionAuthorizationFilter::AcceptedMessageKeysFilter {
                        keys: concat_vecs(keys, keys_b),
                    },
                },
            );
        },
        (
            ContractExecutionAuthorizationFilter::AcceptedMessagesFilter { messages },
            ContractExecutionAuthorizationFilter::AcceptedMessagesFilter { messages: messages_b },
        ) => {
            out.push(
                ContractExecutionSetting {
                    contract_addr,
                    limit,
                    filter: ContractExecutionAuthorizationFilter::AcceptedMessagesFilter {
                        messages: concat_vecs(messages, messages_b),
                    },
                },
            );
        },
        (
            ContractExecutionAuthorizationFilter::AcceptedMessageKeysFilter { keys },
            ContractExecutionAuthorizationFilter::AcceptedMessagesFilter { messages },
        ) | (
            ContractExecutionAuthorizationFilter::AcceptedMessagesFilter { messages },
            ContractExecutionAuthorizationFilter::AcceptedMessageKeysFilter { keys },
        ) => {
            let second_limit = limit.duplicate();
            out.push(
                ContractExecutionSetting {
                    contract_addr: contract_addr.clone(),
                    limit,
                    filter: ContractExecutionAuthorizationFilter::AcceptedMessageKeysFilter { keys },
                },
            );
            out.push(
                ContractExecutionSetting {
                    contract_addr,
                    limit: second_limit,
                    filter: ContractExecutionAuthorizationFilter::AcceptedMessagesFilter { messages },
                },
            );
        },
    }
    assert(out.deep_view() =~= filters.map_values(
        |f: FilterModel| SettingModel { contract_addr: addr, limit: lim, filter: f },
    ));
    out
}

/// Every requirement of `x` is in group `c`.
pub open spec fn all_in(x: Seq<GrantRequirementModel>, c: Category) -> bool {
    forall|i: int| 0 <= i < x.len() ==> category(#[trigger] x[i]) == c
}

/// No value occurs twice in `x`.
pub open spec fn no_repeats<T>(x: Seq<T>) -> bool {
    forall|i: int, j: int| 0 <= i < j < x.len() ==> x[i] != x[j]
}

/// No two requirements of `x` aim at the same grant.
pub open spec fn targets_distinct(x: Seq<GrantRequirementModel>) -> bool {
    forall|i: int, j: int| 0 <= i < j < x.len() ==> !same_target(x[i], x[j])
}

proof fn lemma_select_concat(a: Seq<GrantRequirementModel>, b: Seq<GrantRequirementModel>, c: Category)
    ensures
        select(a + b, c) == select(a, c) + select(b, c),
    decreases b.len(),
{
    if b.len() == 0 {
        assert(a + b =~= a);
        assert(select(b, c) =~= Seq::<GrantRequirementModel>::empty());
        assert(select(a, c) + select(b, c) =~= select(a, c));
    } else {
        lemma_select_concat(a, b.drop_last(), c);
        assert((a + b).drop_last() =~= a + b.drop_last());
        assert((a + b).last() == b.last());
        let r = select(b.drop_last(), c);
        assert((select(a, c) + r).push(b.last()) =~= select(a, c) + r.push(b.last()));
    }
}

proof fn lemma_select_all_in(x: Seq<GrantRequirementModel>, d: Category, c: Category)
    requires
        all_in(x, d),
    ensures
        select(x, c) == if d == c {
            x
        } else {
            Seq::<GrantRequirementModel>::empty()
        },
    decreases x.len(),
{
    if x.len() == 0 {
        if d != c {
            assert(x =~= Seq::<GrantRequirementModel>::empty());
        }
    } else {
        lemma_select_all_in(x.drop_last(), d, c);
        assert(category(x[x.len() - 1]) == d);
        if d == c {
            assert(x.drop_last().push(x.last()) =~= x);
        }
    }
}

proof fn lemma_select_in(x: Seq<GrantRequirementModel>, c: Category)
    ensures
        all_in(select(x, c), c),
    decreases x.len(),
{
    if x.len() > 0 {
        lemma_select_in(x.drop_last(), c);
    }
}

proof fn lemma_distinct_from<T>(x: Seq<T>, e: T)
    requires
        distinct(x).contains(e),
    ensures
        x.contains(e),
    decreases x.len(),
{
    if x.len() > 0 {
        let d = distinct(x.drop_last());
        if d.contains(e) {
            lemma_distinct_from(x.drop_last(), e);
            let j = choose|j: int| 0 <= j < x.drop_last().len() && x.drop_last()[j] == e;
            assert(x[j] == e);
        } else {
            assert(e == x.last());
            assert(x[x.len() - 1] == e);
        }
    }
}

proof fn lemma_distinct_in(x: Seq<GrantRequirementModel>, c: Category)
    requires
        all_in(x, c),
    ensures
        all_in(distinct(x), c),
{
    assert forall|i: int| 0 <= i < distinct(x).len() implies category(#[trigger] distinct(x)[i]) == c by {
        assert(distinct(x).contains(distinct(x)[i]));
        lemma_distinct_from(x, distinct(x)[i]);
    }
}

proof fn lemma_distinct_no_repeats<T>(x: Seq<T>)
    ensures
        no_repeats(distinct(x)),
    decreases x.len(),
{
    if x.len() > 0 {
        lemma_distinct_no_repeats(x.drop_last());
    }
}

proof fn lemma_distinct_fixed<T>(x: Seq<T>)
    requires
        no_repeats(x),
    ensures
        distinct(x) == x,
    decreases x.len(),
{
    if x.len() > 0 {
        let d = x.drop_last();
        lemma_distinct_fixed(d);
        assert(!d.contains(x.last()));
        assert(d.push(x.last()) =~= x);
    }
}

proof fn lemma_combine_keeps(a: GrantRequirementModel, g: GrantRequirementModel)
    requires
        same_target(a, g),
    ensures
        category(combine(a, g)) == category(a),
        forall|y: GrantRequirementModel|
            same_target(#[trigger] combine(a, g), y) == same_target(a, y) && same_target(
                y,
                combine(a, g),
            ) == same_target(y, a),
{
}

proof fn lemma_combine_category(a: GrantRequirementModel, g: GrantRequirementModel)
    ensures
        category(combine(a, g)) == category(a),
{
}

proof fn lemma_merge_all_in(x: Seq<GrantRequirementModel>, c: Category)
    requires
        all_in(x, c),
    ensures
        all_in(merge_all(x), c),
    decreases x.len(),
{
    if x.len() > 0 {
        let d = x.drop_last();
        lemma_merge_all_in(d, c);
        let m = merge_all(d);
        let g = x.last();
        assert(category(g) == c);
        if exists|i: int| 0 <= i < m.len() && same_target(m[i], g) {
            let i = choose|i: int| first_target_at(m, g, i);
            lemma_first_target_exists(m, g);
            lemma_combine_category(m[i], g);
        }
    }
}

proof fn lemma_first_target_exists(acc: Seq<GrantRequirementModel>, g: GrantRequirementModel)
    requires
        exists|i: int| 0 <= i < acc.len() && same_target(acc[i], g),
    ensures
        exists|i: int| first_target_at(acc, g, i),
    decreases acc.len(),
{
    if same_target(acc[0], g) {
        assert(first_target_at(acc, g, 0));
    } else {
        let j = choose|i: int| 0 <= i < acc.len() && same_target(acc[i], g);
        let rest = acc.drop_first();
        assert(same_target(rest[j - 1], g));
        lemma_first_target_exists(rest, g);
        let k = choose|i: int| first_target_at(rest, g, i);
        assert forall|m: int| 0 <= m < k + 1 implies !same_target(acc[m], g) by {
            if m > 0 {
                assert(acc[m] == rest[m - 1]);
            }
        }
        assert(first_target_at(acc, g, k + 1));
    }
}

proof fn lemma_merge_all_distinct(x: Seq<GrantRequirementModel>)
    ensures
        targets_distinct(merge_all(x)),
    decreases x.len(),
{
    if x.len() > 0 {
        let d = x.drop_last();
        lemma_merge_all_distinct(d);
        let m = merge_all(d);
        let g = x.last();
        if exists|i: int| 0 <= i < m.len() && same_target(m[i], g) {
            lemma_first_target_exists(m, g);
            let i = choose|i: int| first_target_at(m, g, i);
            lemma_combine_keeps(m[i], g);
            let u = m.update(i, combine(m[i], g));
            assert forall|p: int, q: int| 0 <= p < q < u.len() implies !same_target(u[p], u[q]) by {
                if p == i {
                    assert(same_target(u[p], u[q]) == same_target(m[i], m[q]));
                } else if q == i {
                    assert(same_target(u[p], u[q]) == same_target(m[p], m[i]));
                }
            }
        } else {
            let u = m.push(g);
            assert forall|p: int, q: int| 0 <= p < q < u.len() implies !same_target(u[p], u[q]) by {
                if q == m.len() {
                    assert(!same_target(m[p], g));
                }
            }
        }
    }
}

proof fn lemma_merge_all_fixed(x: Seq<GrantRequirementModel>)
    requires
        targets_distinct(x),
    ensures
        merge_all(x) == x,
    decreases x.len(),
{
    if x.len() > 0 {
        let d = x.drop_last();
        assert(targets_distinct(d));
        lemma_merge_all_fixed(d);
        assert(!(exists|i: int| 0 <= i < d.len() && same_target(d[i], x.last())));
        assert(d.push(x.last()) =~= x);
    }
}

proof fn lemma_distinct_targets_no_repeats(x: Seq<GrantRequirementModel>, c: Category)
    requires
        targets_distinct(x),
        all_in(x, c),
        c != Category::ContractCall,
    ensures
        no_repeats(x),
{
    assert forall|i: int, j: int| 0 <= i < j < x.len() implies x[i] != x[j] by {
        assert(category(x[i]) == c);
        assert(!same_target(x[i], x[j]));
    }
}

/// One merged group of the output: its requirements are all in the group,
/// aim at distinct grants, and are left as they are by merging again.
proof fn lemma_merged_block(s: Seq<GrantRequirementModel>, c: Category)
    requires
        c != Category::ContractCall,
    ensures
        all_in(merge_all(distinct(select(s, c))), c),
        distinct(merge_all(distinct(select(s, c)))) == merge_all(distinct(select(s, c))),
        merge_all(merge_all(distinct(select(s, c)))) == merge_all(distinct(select(s, c))),
{
    let b = merge_all(distinct(select(s, c)));
    lemma_select_in(s, c);
    lemma_distinct_in(select(s, c), c);
    lemma_merge_all_in(distinct(select(s, c)), c);
    lemma_merge_all_distinct(distinct(select(s, c)));
    lemma_distinct_targets_no_repeats(b, c);
    lemma_distinct_fixed(b);
    lemma_merge_all_fixed(b);
}

/// One group of the output kept without merging: its requirements are all in
/// the group and occur once each.
proof fn lemma_plain_block(s: Seq<GrantRequirementModel>, c: Category)
    ensures
        all_in(distinct(select(s, c)), c),
        distinct(distinct(select(s, c))) == distinct(select(s, c)),
{
    lemma_select_in(s, c);
    lemma_distinct_in(select(s, c), c);
    lemma_distinct_no_repeats(select(s, c));
    lemma_distinct_fixed(distinct(select(s, c)));
}

proof fn lemma_select_blocks(
    b1: Seq<GrantRequirementModel>,
    b2: Seq<GrantRequirementModel>,
    b3: Seq<GrantRequirementModel>,
    b4: Seq<GrantRequirementModel>,
    b5: Seq<GrantRequirementModel>,
    b6: Seq<GrantRequirementModel>,
    c: Category,
)
    requires
        all_in(b1, Category::ContractAuthorization),
        all_in(b2, Category::Generic),
        all_in(b3, Category::Send),
        all_in(b4, Category::Stake),
        all_in(b5, Category::ContractCall),
        all_in(b6, Category::Transfer),
    ensures
        select(b1 + b2 + b3 + b4 + b5 + b6, c) == if c == Category::ContractAuthorization {
            b1
        } else if c == Category::Generic {
            b2
        } else if c == Category::Send {
            b3
        } else if c == Category::Stake {
            b4
        } else if c == Category::ContractCall {
            b5
        } else {
            b6
        },
{
    lemma_select_concat(b1 + b2 + b3 + b4 + b5, b6, c);
    lemma_select_concat(b1 + b2 + b3 + b4, b5, c);
    lemma_select_concat(b1 + b2 + b3, b4, c);
    lemma_select_concat(b1 + b2, b3, c);
    lemma_select_concat(b1, b2, c);
    lemma_select_all_in(b1, Category::ContractAuthorization, c);
    lemma_select_all_in(b2, Category::Generic, c);
    lemma_select_all_in(b3, Category::Send, c);
    lemma_select_all_in(b4, Category::Stake, c);
    lemma_select_all_in(b5, Category::ContractCall, c);
    lemma_select_all_in(b6, Category::Transfer, c);
    let e = Seq::<GrantRequirementModel>::empty();
    if c == Category::ContractAuthorization {
        assert(b1 + e + e + e + e + e =~= b1);
    } else if c == Category::Generic {
        assert(e + b2 + e + e + e + e =~= b2);
    } else if c == Category::Send {
        assert(e + e + b3 + e + e + e =~= b3);
    } else if c == Category::Stake {
        assert(e + e + e + b4 + e + e =~= b4);
    } else if c == Category::ContractCall {
        assert(e + e + e + e + b5 + e =~= b5);
    } else {
        assert(e + e + e + e + e + b6 =~= b6);
    }
}

/// Deduplicating twice gives the same list as deduplicating once.
pub proof fn lemma_dedupe_idempotent(s: Seq<GrantRequirementModel>)
    ensures
        dedupe_spec(dedupe_spec(s)) == dedupe_spec(s),
{
    let b1 = merge_all(distinct(select(s, Category::ContractAuthorization)));
    let b2 = distinct(select(s, Category::Generic));
    let b3 = merge_all(distinct(select(s, Category::Send)));
    let b4 = merge_all(distinct(select(s, Category::Stake)));
    let b5 = select(s, Category::ContractCall);
    let b6 = distinct(select(s, Category::Transfer));
    lemma_merged_block(s, Category::ContractAuthorization);
    lemma_plain_block(s, Category::Generic);
    lemma_merged_block(s, Category::Send);
    lemma_merged_block(s, Category::Stake);
    lemma_select_in(s, Category::ContractCall);
    lemma_plain_block(s, Category::Transfer);
    let d = dedupe_spec(s);
    assert(d == b1 + b2 + b3 + b4 + b5 + b6);
    lemma_select_blocks(b1, b2, b3, b4, b5, b6, Category::ContractAuthorization);
    lemma_select_blocks(b1, b2, b3, b4, b5, b6, Category::Generic);
    lemma_select_blocks(b1, b2, b3, b4, b5, b6, Category::Send);
    lemma_select_blocks(b1, b2, b3, b4, b5, b6, Category::Stake);
    lemma_select_blocks(b1, b2, b3, b4, b5, b6, Category::ContractCall);
    lemma_select_blocks(b1, b2, b3, b4, b5, b6, Category::Transfer);
}


/// Every value of `b` occurs in `a`.
pub open spec fn includes<T>(a: Seq<T>, b: Seq<T>) -> bool {
    forall|i: int| 0 <= i < b.len() ==> a.contains(#[trigger] b[i])
}

/// An optional cap `h` allows at least what `g` allows: no cap, or one that
/// holds every entry of `g`.
pub open spec fn option_covers<T>(h: Option<Seq<T>>, g: Option<Seq<T>>) -> bool {
    match (h, g) {
        (None, _) => true,
        (Some(x), Some(y)) => includes(x, y),
        (Some(_), None) => false,
    }
}

/// A validator filter `h` admits every validator that `g` admits.
pub open spec fn policy_covers(h: Option<PolicyModel>, g: Option<PolicyModel>) -> bool {
    match (h, g) {
        (None, _) => true,
        (Some(PolicyModel::AllowList(x)), Some(PolicyModel::AllowList(y))) => includes(x, y),
        (Some(PolicyModel::DenyList(x)), Some(PolicyModel::DenyList(y))) => includes(y, x),
        _ => false,
    }
}

/// The authorization `h` permits everything that `g` permits.
pub open spec fn authorization_covers(h: AuthorizationModel, g: AuthorizationModel) -> bool {
    match (h, g) {
        (
            AuthorizationModel::GenericAuthorization { msg: x },
            AuthorizationModel::GenericAuthorization { msg: y },
        ) => x == y,
        (
            AuthorizationModel::SendAuthorization { spend_limit: sh, allow_list: lh },
            AuthorizationModel::SendAuthorization { spend_limit: sg, allow_list: lg },
        ) => option_covers(sh, sg) && option_covers(lh, lg),
        (
            AuthorizationModel::StakeAuthorization {
                max_tokens: mh,
                authorization_type: th,
                validators: vh,
            },
            AuthorizationModel::StakeAuthorization {
                max_tokens: mg,
                authorization_type: tg,
                validators: vg,
            },
        ) => th == tg && (mh is None || mh == mg) && policy_covers(vh, vg),
        (
            AuthorizationModel::ContractExecutionAuthorization(x),
            AuthorizationModel::ContractExecutionAuthorization(y),
        ) => includes(x, y),
        (
            AuthorizationModel::TransferAuthorization(x),
            AuthorizationModel::TransferAuthorization(y),
        ) => x == y,
        _ => false,
    }
}

/// The requirement `h` grants at least what `g` grants: the same granter and
/// grantee, an expiration no earlier, and an authorization no narrower; a
/// direct call covers only itself.
pub open spec fn covers(h: GrantRequirementModel, g: GrantRequirementModel) -> bool {
    match (h, g) {
        (
            GrantRequirementModel::GrantSpec { grant_type: th, granter: gh, grantee: eh, expiration: xh },
            GrantRequirementModel::GrantSpec { grant_type: tg, granter: gg, grantee: eg, expiration: xg },
        ) => gh == gg && eh == eg && xh >= xg && authorization_covers(th, tg),
        (GrantRequirementModel::ContractExec { .. }, GrantRequirementModel::ContractExec { .. }) => h
            == g,
        _ => false,
    }
}

/// The validator filter of a stake requirement.
pub open spec fn stake_policy(g: GrantRequirementModel) -> Option<PolicyModel> {
    match g {
        GrantRequirementModel::GrantSpec {
            grant_type: AuthorizationModel::StakeAuthorization { validators, .. },
            ..
        } => validators,
        _ => None,
    }
}

/// Two validator filters whose merge narrows neither: both absent, or both
/// allow lists.
pub open spec fn policies_mergeable(a: Option<PolicyModel>, b: Option<PolicyModel>) -> bool {
    match (a, b) {
        (None, None) => true,
        (Some(PolicyModel::AllowList(_)), Some(PolicyModel::AllowList(_))) => true,
        _ => false,
    }
}

/// Any two different stake requirements of `s` for the same grant have
/// validator filters that merge without narrowing.
pub open spec fn stake_filters_mergeable(s: Seq<GrantRequirementModel>) -> bool {
    forall|i: int, j: int|
        0 <= i < s.len() && 0 <= j < s.len() && s[i] != s[j] && category(s[i]) == Category::Stake
            && category(s[j]) == Category::Stake && same_target(s[i], s[j]) ==> policies_mergeable(
            stake_policy(#[trigger] s[i]),
            stake_policy(#[trigger] s[j]),
        )
}

/// The shape of a validator filter: absent, allow list or deny list.
pub open spec fn policy_kind(p: Option<PolicyModel>) -> int {
    match p {
        None => 0,
        Some(PolicyModel::AllowList(_)) => 1,
        Some(PolicyModel::DenyList(_)) => 2,
    }
}

proof fn lemma_includes_trans<T>(a: Seq<T>, b: Seq<T>, c: Seq<T>)
    requires
        includes(a, b),
        includes(b, c),
    ensures
        includes(a, c),
{
    assert forall|i: int| 0 <= i < c.len() implies a.contains(#[trigger] c[i]) by {
        let j = choose|j: int| 0 <= j < b.len() && b[j] == c[i];
        assert(a.contains(b[j]));
    }
}

proof fn lemma_includes_concat<T>(x: Seq<T>, y: Seq<T>)
    ensures
        includes(x + y, x),
        includes(x + y, y),
{
    assert forall|i: int| 0 <= i < x.len() implies (x + y).contains(#[trigger] x[i]) by {
        assert((x + y)[i] == x[i]);
    }
    assert forall|i: int| 0 <= i < y.len() implies (x + y).contains(#[trigger] y[i]) by {
        assert((x + y)[x.len() + i] == y[i]);
    }
}

proof fn lemma_distinct_keeps<T>(x: Seq<T>, e: T)
    requires
        x.contains(e),
    ensures
        distinct(x).contains(e),
    decreases x.len(),
{
    let d = x.drop_last();
    if d.contains(e) {
        lemma_distinct_keeps(d, e);
        let dd = distinct(d);
        let j = choose|j: int| 0 <= j < dd.len() && dd[j] == e;
        if !dd.contains(x.last()) {
            assert(dd.push(x.last())[j] == e);
        }
    } else {
        let j = choose|j: int| 0 <= j < x.len() && x[j] == e;
        if j < x.len() - 1 {
            assert(d[j] == e);
        }
        assert(e == x.last());
        if !distinct(d).contains(x.last()) {
            assert(distinct(d).push(x.last())[distinct(d).len() as int] == e);
        }
    }
}

proof fn lemma_includes_distinct_concat<T>(x: Seq<T>, y: Seq<T>)
    ensures
        includes(distinct(x + y), x),
        includes(distinct(x + y), y),
{
    lemma_includes_concat(x, y);
    assert forall|i: int| 0 <= i < x.len() implies distinct(x + y).contains(#[trigger] x[i]) by {
        lemma_distinct_keeps(x + y, x[i]);
    }
    assert forall|i: int| 0 <= i < y.len() implies distinct(x + y).contains(#[trigger] y[i]) by {
        lemma_distinct_keeps(x + y, y[i]);
    }
}

proof fn lemma_includes_refl<T>(x: Seq<T>)
    ensures
        includes(x, x),
{
    assert forall|i: int| 0 <= i < x.len() implies x.contains(#[trigger] x[i]) by {}
}

proof fn lemma_covers_refl(g: GrantRequirementModel)
    requires
        category(g) != Category::ContractCall ==> g is GrantSpec,
    ensures
        covers(g, g),
{
    match g {
        GrantRequirementModel::GrantSpec { grant_type, .. } => match grant_type {
            AuthorizationModel::SendAuthorization { spend_limit, allow_list } => {
                if let Some(x) = spend_limit {
                    lemma_includes_refl(x);
                }
                if let Some(x) = allow_list {
                    lemma_includes_refl(x);
                }
            },
            AuthorizationModel::StakeAuthorization { validators, .. } => {
                match validators {
                    Some(PolicyModel::AllowList(x)) => lemma_includes_refl(x),
                    Some(PolicyModel::DenyList(x)) => lemma_includes_refl(x),
                    None => {},
                }
            },
            AuthorizationModel::ContractExecutionAuthorization(x) => lemma_includes_refl(x),
            _ => {},
        },
        _ => {},
    }
}

proof fn lemma_covers_trans(a: GrantRequirementModel, b: GrantRequirementModel, c: GrantRequirementModel)
    requires
        covers(a, b),
        covers(b, c),
    ensures
        covers(a, c),
{
    match (a, b, c) {
        (
            GrantRequirementModel::GrantSpec { grant_type: ta, .. },
            GrantRequirementModel::GrantSpec { grant_type: tb, .. },
            GrantRequirementModel::GrantSpec { grant_type: tc, .. },
        ) => {
            match (ta, tb, tc) {
                (
                    AuthorizationModel::SendAuthorization { spend_limit: sa, allow_list: la },
                    AuthorizationModel::SendAuthorization { spend_limit: sb, allow_list: lb },
                    AuthorizationModel::SendAuthorization { spend_limit: sc, allow_list: lc },
                ) => {
                    if let (Some(x), Some(y), Some(z)) = (sa, sb, sc) {
                        lemma_includes_trans(x, y, z);
                    }
                    if let (Some(x), Some(y), Some(z)) = (la, lb, lc) {
                        lemma_includes_trans(x, y, z);
                    }
                },
                (
                    AuthorizationModel::StakeAuthorization { validators: va, .. },
                    AuthorizationModel::StakeAuthorization { validators: vb, .. },
                    AuthorizationModel::StakeAuthorization { validators: vc, .. },
                ) => {
                    match (va, vb, vc) {
                        (
                            Some(PolicyModel::AllowList(x)),
                            Some(PolicyModel::AllowList(y)),
                            Some(PolicyModel::AllowList(z)),
                        ) => lemma_includes_trans(x, y, z),
                        (
                            Some(PolicyModel::DenyList(x)),
                            Some(PolicyModel::DenyList(y)),
                            Some(PolicyModel::DenyList(z)),
                        ) => lemma_includes_trans(z, y, x),
                        _ => {},
                    }
                },
                (
                    AuthorizationModel::ContractExecutionAuthorization(x),
                    AuthorizationModel::ContractExecutionAuthorization(y),
                    AuthorizationModel::ContractExecutionAuthorization(z),
                ) => lemma_includes_trans(x, y, z),
                _ => {},
            }
        },
        _ => {},
    }
}

proof fn lemma_combine_covers(m: GrantRequirementModel, g: GrantRequirementModel)
    requires
        same_target(m, g),
        category(m) == category(g),
        category(m) == Category::ContractAuthorization || category(m) == Category::Send
            || category(m) == Category::Stake,
        category(m) == Category::Stake ==> policies_mergeable(stake_policy(m), stake_policy(g)),
    ensures
        covers(combine(m, g), m),
        covers(combine(m, g), g),
{
    match (m, g) {
        (
            GrantRequirementModel::GrantSpec { grant_type: tm, .. },
            GrantRequirementModel::GrantSpec { grant_type: tg, .. },
        ) => {
            match (tm, tg) {
                (
                    AuthorizationModel::SendAuthorization { spend_limit: sa, allow_list: la },
                    AuthorizationModel::SendAuthorization { spend_limit: sb, allow_list: lb },
                ) => {
                    if let (Some(x), Some(y)) = (sa, sb) {
                        lemma_includes_concat(x, y);
                    }
                    if let (Some(x), Some(y)) = (la, lb) {
                        lemma_includes_distinct_concat(x, y);
                    }
                },
                (
                    AuthorizationModel::StakeAuthorization { validators: va, .. },
                    AuthorizationModel::StakeAuthorization { validators: vb, .. },
                ) => {
                    if let (Some(PolicyModel::AllowList(x)), Some(PolicyModel::AllowList(y))) = (
                        va,
                        vb,
                    ) {
                        lemma_includes_distinct_concat(x, y);
                    }
                },
                (
                    AuthorizationModel::ContractExecutionAuthorization(x),
                    AuthorizationModel::ContractExecutionAuthorization(y),
                ) => {
                    lemma_includes_concat(y, x);
                },
                _ => {
                    lemma_covers_refl(m);
                    lemma_covers_refl(g);
                },
            }
        },
        _ => {},
    }
}

/// What merging keeps of a group: every requirement folded in is covered by
/// some merged one, and each merged stake requirement has the filter shape of
/// one of its sources.
pub open spec fn merge_keeps_scope(x: Seq<GrantRequirementModel>, m: Seq<GrantRequirementModel>) -> bool {
    &&& forall|i: int|
        0 <= i < x.len() ==> exists|j: int| 0 <= j < m.len() && covers(m[j], #[trigger] x[i])
    &&& forall|j: int|
        0 <= j < m.len() && category(#[trigger] m[j]) == Category::Stake ==> exists|i: int|
            0 <= i < x.len() && same_target(m[j], x[i]) && category(x[i]) == Category::Stake
                && policy_kind(stake_policy(m[j])) == policy_kind(stake_policy(x[i]))
}

proof fn lemma_mergeable_prefix(x: Seq<GrantRequirementModel>)
    requires
        x.len() > 0,
        stake_filters_mergeable(x),
    ensures
        stake_filters_mergeable(x.drop_last()),
{
    let d = x.drop_last();
    assert forall|i: int, j: int|
        0 <= i < d.len() && 0 <= j < d.len() && d[i] != d[j] && category(d[i]) == Category::Stake
            && category(d[j]) == Category::Stake && same_target(d[i], d[j]) implies policies_mergeable(
        stake_policy(#[trigger] d[i]),
        stake_policy(#[trigger] d[j]),
    ) by {
        assert(x[i] == d[i] && x[j] == d[j]);
    }
}

proof fn lemma_merge_step_update(
    d: Seq<GrantRequirementModel>,
    g: GrantRequirementModel,
    c: Category,
    i: int,
)
    requires
        all_in(d.push(g), c),
        c == Category::ContractAuthorization || c == Category::Send || c == Category::Stake,
        no_repeats(d.push(g)),
        stake_filters_mergeable(d.push(g)),
        merge_keeps_scope(d, merge_all(d)),
        all_in(merge_all(d), c),
        first_target_at(merge_all(d), g, i),
    ensures
        merge_keeps_scope(d.push(g), merge_all(d).update(i, combine(merge_all(d)[i], g))),
{
    let x = d.push(g);
    let m = merge_all(d);
    let mi = m[i];
    let merged = combine(mi, g);
    let u = m.update(i, merged);
    assert(category(mi) == c);
    assert(x[x.len() - 1] == g);
    assert(category(g) == c);
    if c == Category::Stake {
        let w = choose|w: int|
            0 <= w < d.len() && same_target(mi, d[w]) && category(d[w]) == Category::Stake
                && policy_kind(stake_policy(mi)) == policy_kind(stake_policy(d[w]));
        assert(x[w] == d[w]);
        assert(d[w] != g);
        assert(same_target(d[w], g));
        assert(policies_mergeable(stake_policy(x[w]), stake_policy(x[x.len() - 1])));
    }
    lemma_combine_covers(mi, g);
    lemma_combine_keeps(mi, g);
    assert forall|k: int| 0 <= k < x.len() implies exists|j: int|
        0 <= j < u.len() && covers(u[j], #[trigger] x[k]) by {
        if k == x.len() - 1 {
            assert(covers(u[i], x[k]));
        } else {
            assert(x[k] == d[k]);
            let j = choose|j: int| 0 <= j < m.len() && covers(m[j], d[k]);
            if j == i {
                lemma_covers_trans(merged, mi, d[k]);
                assert(covers(u[i], x[k]));
            } else {
                assert(covers(u[j], x[k]));
            }
        }
    }
    assert forall|j: int| 0 <= j < u.len() && category(#[trigger] u[j]) == Category::Stake implies exists|k: int|
        0 <= k < x.len() && same_target(u[j], x[k]) && category(x[k]) == Category::Stake
            && policy_kind(stake_policy(u[j])) == policy_kind(stake_policy(x[k])) by {
        if j == i {
            assert(same_target(u[j], x[x.len() - 1]));
            assert(policy_kind(stake_policy(merged)) == policy_kind(stake_policy(g)));
        } else {
            assert(u[j] == m[j]);
            let k = choose|k: int|
                0 <= k < d.len() && same_target(m[j], d[k]) && category(d[k]) == Category::Stake
                    && policy_kind(stake_policy(m[j])) == policy_kind(stake_policy(d[k]));
            assert(x[k] == d[k]);
        }
    }
}

proof fn lemma_merge_step_push(d: Seq<GrantRequirementModel>, g: GrantRequirementModel, c: Category)
    requires
        all_in(d.push(g), c),
        c == Category::ContractAuthorization || c == Category::Send || c == Category::Stake,
        merge_keeps_scope(d, merge_all(d)),
    ensures
        merge_keeps_scope(d.push(g), merge_all(d).push(g)),
{
    let x = d.push(g);
    let m = merge_all(d);
    let u = m.push(g);
    assert(x[x.len() - 1] == g);
    assert(category(g) == c);
    lemma_covers_refl(g);
    assert forall|k: int| 0 <= k < x.len() implies exists|j: int|
        0 <= j < u.len() && covers(u[j], #[trigger] x[k]) by {
        if k == x.len() - 1 {
            assert(u[m.len() as int] == x[k]);
        } else {
            assert(x[k] == d[k]);
            let j = choose|j: int| 0 <= j < m.len() && covers(m[j], d[k]);
            assert(u[j] == m[j]);
        }
    }
    assert forall|j: int| 0 <= j < u.len() && category(#[trigger] u[j]) == Category::Stake implies exists|k: int|
        0 <= k < x.len() && same_target(u[j], x[k]) && category(x[k]) == Category::Stake
            && policy_kind(stake_policy(u[j])) == policy_kind(stake_policy(x[k])) by {
        if j == m.len() {
            assert(same_target(u[j], x[x.len() - 1]));
        } else {
            assert(u[j] == m[j]);
            let k = choose|k: int|
                0 <= k < d.len() && same_target(m[j], d[k]) && category(d[k]) == Category::Stake
                    && policy_kind(stake_policy(m[j])) == policy_kind(stake_policy(d[k]));
            assert(x[k] == d[k]);
        }
    }
}

proof fn lemma_merge_keeps_scope(x: Seq<GrantRequirementModel>, c: Category)
    requires
        all_in(x, c),
        c == Category::ContractAuthorization || c == Category::Send || c == Category::Stake,
        no_repeats(x),
        stake_filters_mergeable(x),
    ensures
        merge_keeps_scope(x, merge_all(x)),
    decreases x.len(),
{
    if x.len() > 0 {
        let d = x.drop_last();
        let g = x.last();
        assert(d.push(g) =~= x);
        assert(all_in(d, c));
        assert(no_repeats(d));
        lemma_mergeable_prefix(x);
        lemma_merge_keeps_scope(d, c);
        lemma_merge_all_in(d, c);
        let m = merge_all(d);
        if exists|i: int| 0 <= i < m.len() && same_target(m[i], g) {
            lemma_first_target_exists(m, g);
            let i = choose|i: int| first_target_at(m, g, i);
            lemma_merge_step_update(d, g, c, i);
        } else {
            lemma_merge_step_push(d, g, c);
        }
    }
}


proof fn lemma_select_contains(s: Seq<GrantRequirementModel>, k: int)
    requires
        0 <= k < s.len(),
    ensures
        select(s, category(s[k])).contains(s[k]),
    decreases s.len(),
{
    let c = category(s[k]);
    if k == s.len() - 1 {
        let r = select(s.drop_last(), c);
        assert(select(s, c) == r.push(s.last()));
        assert(select(s, c)[r.len() as int] == s[k]);
    } else {
        let d = s.drop_last();
        assert(d[k] == s[k]);
        lemma_select_contains(d, k);
        let r = select(d, c);
        let j = choose|j: int| 0 <= j < r.len() && r[j] == s[k];
        if category(s.last()) == c {
            assert(select(s, c)[j] == s[k]);
        }
    }
}

proof fn lemma_select_from(s: Seq<GrantRequirementModel>, c: Category, e: GrantRequirementModel)
    requires
        select(s, c).contains(e),
    ensures
        s.contains(e),
    decreases s.len(),
{
    if s.len() > 0 {
        let d = s.drop_last();
        if select(d, c).contains(e) {
            lemma_select_from(d, c, e);
            let j = choose|j: int| 0 <= j < d.len() && d[j] == e;
            assert(s[j] == e);
        } else {
            assert(e == s.last());
            assert(s[s.len() - 1] == e);
        }
    }
}

proof fn lemma_group_mergeable(s: Seq<GrantRequirementModel>, c: Category)
    requires
        stake_filters_mergeable(s),
    ensures
        stake_filters_mergeable(distinct(select(s, c))),
{
    let x = distinct(select(s, c));
    assert forall|i: int, j: int|
        0 <= i < x.len() && 0 <= j < x.len() && x[i] != x[j] && category(x[i]) == Category::Stake
            && category(x[j]) == Category::Stake && same_target(x[i], x[j]) implies policies_mergeable(
        stake_policy(#[trigger] x[i]),
        stake_policy(#[trigger] x[j]),
    ) by {
        assert(x.contains(x[i]));
        assert(x.contains(x[j]));
        lemma_distinct_from(select(s, c), x[i]);
        lemma_distinct_from(select(s, c), x[j]);
        lemma_select_from(s, c, x[i]);
        lemma_select_from(s, c, x[j]);
        let p = choose|p: int| 0 <= p < s.len() && s[p] == x[i];
        let q = choose|q: int| 0 <= q < s.len() && s[q] == x[j];
        assert(policies_mergeable(stake_policy(s[p]), stake_policy(s[q])));
    }
}

proof fn lemma_concat_contains<T>(a: Seq<T>, b: Seq<T>, e: T)
    requires
        a.contains(e) || b.contains(e),
    ensures
        (a + b).contains(e),
{
    if a.contains(e) {
        let j = choose|j: int| 0 <= j < a.len() && a[j] == e;
        assert((a + b)[j] == e);
    } else {
        let j = choose|j: int| 0 <= j < b.len() && b[j] == e;
        assert((a + b)[a.len() + j] == e);
    }
}

proof fn lemma_covered_in_block(s: Seq<GrantRequirementModel>, k: int) -> (h: GrantRequirementModel)
    requires
        0 <= k < s.len(),
        stake_filters_mergeable(s),
    ensures
        covers(h, s[k]),
        ({
            let c = category(s[k]);
            if c == Category::ContractAuthorization || c == Category::Send || c
                == Category::Stake {
                merge_all(distinct(select(s, c))).contains(h)
            } else if c == Category::ContractCall {
                select(s, c).contains(h)
            } else {
                distinct(select(s, c)).contains(h)
            }
        }),
{
    let e = s[k];
    let c = category(e);
    lemma_select_contains(s, k);
    lemma_select_in(s, c);
    if c == Category::ContractCall {
        lemma_covers_refl(e);
        e
    } else {
        let x = distinct(select(s, c));
        lemma_distinct_keeps(select(s, c), e);
        if c == Category::ContractAuthorization || c == Category::Send || c == Category::Stake {
            lemma_distinct_in(select(s, c), c);
            lemma_distinct_no_repeats(select(s, c));
            lemma_group_mergeable(s, c);
            lemma_merge_keeps_scope(x, c);
            let i = choose|i: int| 0 <= i < x.len() && x[i] == e;
            let m = merge_all(x);
            let j = choose|j: int| 0 <= j < m.len() && covers(m[j], x[i]);
            assert(m.contains(m[j]));
            m[j]
        } else {
            lemma_covers_refl(e);
            e
        }
    }
}

/// Deduplication never narrows what is granted: every requirement of the
/// input is covered by a requirement of the output, provided that different
/// stake requirements for the same grant carry validator filters that merge
/// without narrowing (both absent, or both allow lists).
pub proof fn lemma_dedupe_keeps_scope(s: Seq<GrantRequirementModel>, k: int)
    requires
        0 <= k < s.len(),
        stake_filters_mergeable(s),
    ensures
        exists|j: int| 0 <= j < dedupe_spec(s).len() && covers(dedupe_spec(s)[j], s[k]),
{
    let b1 = merge_all(distinct(select(s, Category::ContractAuthorization)));
    let b2 = distinct(select(s, Category::Generic));
    let b3 = merge_all(distinct(select(s, Category::Send)));
    let b4 = merge_all(distinct(select(s, Category::Stake)));
    let b5 = select(s, Category::ContractCall);
    let b6 = distinct(select(s, Category::Transfer));
    let h = lemma_covered_in_block(s, k);
    let c = category(s[k]);
    let in12 = b1.contains(h) || b2.contains(h);
    if in12 {
        lemma_concat_contains(b1, b2, h);
    }
    let in123 = in12 || b3.contains(h);
    if in123 {
        lemma_concat_contains(b1 + b2, b3, h);
    }
    let in1234 = in123 || b4.contains(h);
    if in1234 {
        lemma_concat_contains(b1 + b2 + b3, b4, h);
    }
    let in12345 = in1234 || b5.contains(h);
    if in12345 {
        lemma_concat_contains(b1 + b2 + b3 + b4, b5, h);
    }
    lemma_concat_contains(b1 + b2 + b3 + b4 + b5, b6, h);
    let d = dedupe_spec(s);
    assert(d == b1 + b2 + b3 + b4 + b5 + b6);
    assert(d.contains(h));
    let j = choose|j: int| 0 <= j < d.len() && d[j] == h;
    assert(covers(d[j], s[k]));
}


/// `h` is for the same grant as `g`, in the same category, and lasts at least
/// as long; a direct call reaches only itself.
pub open spec fn reaches(h: GrantRequirementModel, g: GrantRequirementModel) -> bool {
    match (h, g) {
        (
            GrantRequirementModel::GrantSpec { expiration: xh, .. },
            GrantRequirementModel::GrantSpec { expiration: xg, .. },
        ) => category(h) == category(g) && same_target(h, g) && xh >= xg,
        (GrantRequirementModel::ContractExec { .. }, GrantRequirementModel::ContractExec { .. }) => h
            == g,
        _ => false,
    }
}

/// Every requirement of `x` is reached by one of `m`.
pub open spec fn all_reached(x: Seq<GrantRequirementModel>, m: Seq<GrantRequirementModel>) -> bool {
    forall|i: int| 0 <= i < x.len() ==> exists|j: int| 0 <= j < m.len() && reaches(m[j], #[trigger] x[i])
}

proof fn lemma_merge_reaches(x: Seq<GrantRequirementModel>, c: Category)
    requires
        all_in(x, c),
        c != Category::ContractCall,
    ensures
        all_reached(x, merge_all(x)),
    decreases x.len(),
{
    if x.len() > 0 {
        let d = x.drop_last();
        let g = x.last();
        assert(all_in(d, c));
        lemma_merge_reaches(d, c);
        lemma_merge_all_in(d, c);
        let m = merge_all(d);
        assert(category(x[x.len() - 1]) == c);
        if exists|i: int| 0 <= i < m.len() && same_target(m[i], g) {
            lemma_first_target_exists(m, g);
            let i = choose|i: int| first_target_at(m, g, i);
            let mi = m[i];
            let merged = combine(mi, g);
            let u = m.update(i, merged);
            assert(merge_all(x) == u);
            assert(category(mi) == c);
            lemma_combine_keeps(mi, g);
            assert forall|k: int| 0 <= k < x.len() implies exists|j: int|
                0 <= j < u.len() && reaches(u[j], #[trigger] x[k]) by {
                if k == x.len() - 1 {
                    assert(reaches(u[i], x[k]));
                } else {
                    assert(x[k] == d[k]);
                    let j = choose|j: int| 0 <= j < m.len() && reaches(m[j], d[k]);
                    if j == i {
                        assert(reaches(u[i], x[k]));
                    } else {
                        assert(reaches(u[j], x[k]));
                    }
                }
            }
        } else {
            let u = m.push(g);
            assert(merge_all(x) == u);
            assert forall|k: int| 0 <= k < x.len() implies exists|j: int|
                0 <= j < u.len() && reaches(u[j], #[trigger] x[k]) by {
                if k == x.len() - 1 {
                    assert(u[m.len() as int] == x[k]);
                    assert(reaches(g, g));
                } else {
                    assert(x[k] == d[k]);
                    let j = choose|j: int| 0 <= j < m.len() && reaches(m[j], d[k]);
                    assert(u[j] == m[j]);
                }
            }
        }
    }
}

proof fn lemma_reached_in_block(s: Seq<GrantRequirementModel>, k: int) -> (h: GrantRequirementModel)
    requires
        0 <= k < s.len(),
    ensures
        reaches(h, s[k]),
        ({
            let c = category(s[k]);
            if c == Category::ContractAuthorization || c == Category::Send || c
                == Category::Stake {
                merge_all(distinct(select(s, c))).contains(h)
            } else if c == Category::ContractCall {
                select(s, c).contains(h)
            } else {
                distinct(select(s, c)).contains(h)
            }
        }),
{
    let e = s[k];
    let c = category(e);
    lemma_select_contains(s, k);
    lemma_select_in(s, c);
    if c == Category::ContractCall {
        e
    } else {
        let x = distinct(select(s, c));
        lemma_distinct_keeps(select(s, c), e);
        if c == Category::ContractAuthorization || c == Category::Send || c == Category::Stake {
            lemma_distinct_in(select(s, c), c);
            lemma_merge_reaches(x, c);
            let i = choose|i: int| 0 <= i < x.len() && x[i] == e;
            let m = merge_all(x);
            let j = choose|j: int| 0 <= j < m.len() && reaches(m[j], x[i]);
            assert(m.contains(m[j]));
            m[j]
        } else {
            assert(reaches(e, e));
            e
        }
    }
}

/// Deduplication never drops a requirement: every permission requirement of
/// the input has one in the output of the same category and for the same
/// grant that lasts at least as long, and every direct call is kept.
pub proof fn lemma_dedupe_keeps_targets(s: Seq<GrantRequirementModel>, k: int)
    requires
        0 <= k < s.len(),
    ensures
        exists|j: int| 0 <= j < dedupe_spec(s).len() && reaches(dedupe_spec(s)[j], s[k]),
{
    let b1 = merge_all(distinct(select(s, Category::ContractAuthorization)));
    let b2 = distinct(select(s, Category::Generic));
    let b3 = merge_all(distinct(select(s, Category::Send)));
    let b4 = merge_all(distinct(select(s, Category::Stake)));
    let b5 = select(s, Category::ContractCall);
    let b6 = distinct(select(s, Category::Transfer));
    let h = lemma_reached_in_block(s, k);
    let in12 = b1.contains(h) || b2.contains(h);
    if in12 {
        lemma_concat_contains(b1, b2, h);
    }
    let in123 = in12 || b3.contains(h);
    if in123 {
        lemma_concat_contains(b1 + b2, b3, h);
    }
    let in1234 = in123 || b4.contains(h);
    if in1234 {
        lemma_concat_contains(b1 + b2 + b3, b4, h);
    }
    let in12345 = in1234 || b5.contains(h);
    if in12345 {
        lemma_concat_contains(b1 + b2 + b3 + b4, b5, h);
    }
    lemma_concat_contains(b1 + b2 + b3 + b4 + b5, b6, h);
    let d = dedupe_spec(s);
    assert(d == b1 + b2 + b3 + b4 + b5 + b6);
    let j = choose|j: int| 0 <= j < d.len() && d[j] == h;
    assert(reaches(d[j], s[k]));
}

proof fn lemma_merge_all_len(x: Seq<GrantRequirementModel>)
    ensures
        merge_all(x).len() <= x.len(),
    decreases x.len(),
{
    if x.len() > 0 {
        lemma_merge_all_len(x.drop_last());
        let m = merge_all(x.drop_last());
        let g = x.last();
        if exists|i: int| 0 <= i < m.len() && same_target(m[i], g) {
            lemma_first_target_exists(m, g);
            let i = choose|i: int| first_target_at(m, g, i);
            assert(merge_all(x) == m.update(i, combine(m[i], g)));
        }
    }
}

proof fn lemma_distinct_len<T>(x: Seq<T>)
    ensures
        distinct(x).len() <= x.len(),
    decreases x.len(),
{
    if x.len() > 0 {
        lemma_distinct_len(x.drop_last());
    }
}

proof fn lemma_select_lens(s: Seq<GrantRequirementModel>)
    ensures
        select(s, Category::ContractAuthorization).len() + select(s, Category::Generic).len()
            + select(s, Category::Send).len() + select(s, Category::Stake).len() + select(
            s,
            Category::ContractCall,
        ).len() + select(s, Category::Transfer).len() == s.len(),
    decreases s.len(),
{
    if s.len() > 0 {
        lemma_select_lens(s.drop_last());
    }
}

/// Deduplication never lengthens the list.
pub proof fn lemma_dedupe_len(s: Seq<GrantRequirementModel>)
    ensures
        dedupe_spec(s).len() <= s.len(),
{
    lemma_select_lens(s);
    lemma_distinct_len(select(s, Category::ContractAuthorization));
    lemma_merge_all_len(distinct(select(s, Category::ContractAuthorization)));
    lemma_distinct_len(select(s, Category::Generic));
    lemma_distinct_len(select(s, Category::Send));
    lemma_merge_all_len(distinct(select(s, Category::Send)));
    lemma_distinct_len(select(s, Category::Stake));
    lemma_merge_all_len(distinct(select(s, Category::Stake)));
    lemma_distinct_len(select(s, Category::Transfer));
}


/// After deduplication, the contract-execution, send and stake authorizations
/// of the output each hold at most one requirement per grant.
pub proof fn lemma_dedupe_one_per_target(s: Seq<GrantRequirementModel>, c: Category)
    requires
        c == Category::ContractAuthorization || c == Category::Send || c == Category::Stake,
    ensures
        targets_distinct(select(dedupe_spec(s), c)),
{
    let b1 = merge_all(distinct(select(s, Category::ContractAuthorization)));
    let b2 = distinct(select(s, Category::Generic));
    let b3 = merge_all(distinct(select(s, Category::Send)));
    let b4 = merge_all(distinct(select(s, Category::Stake)));
    let b5 = select(s, Category::ContractCall);
    let b6 = distinct(select(s, Category::Transfer));
    lemma_merged_block(s, Category::ContractAuthorization);
    lemma_plain_block(s, Category::Generic);
    lemma_merged_block(s, Category::Send);
    lemma_merged_block(s, Category::Stake);
    lemma_select_in(s, Category::ContractCall);
    lemma_plain_block(s, Category::Transfer);
    assert(dedupe_spec(s) == b1 + b2 + b3 + b4 + b5 + b6);
    lemma_select_blocks(b1, b2, b3, b4, b5, b6, c);
    lemma_merge_all_distinct(distinct(select(s, c)));
}

} // verus!
