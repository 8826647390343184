//! What permission is required: grant and revoke requirements by category.

use vstd::prelude::*;

use crate::coins::{coin, Coin, CoinModel};
use crate::deep_eq::DeepEq;
use crate::deep_eq::Duplicate;

verus! {

/// A point in time, in nanoseconds since the Unix epoch.
#[derive(Debug, Clone, Copy, PartialEq, Eq, Structural)]
pub struct Timestamp {
    pub nanos: u64,
}

impl Timestamp {
    /// The time `seconds` after the epoch.
    pub fn from_seconds(seconds: u64) -> (r: Timestamp)
        requires
            seconds * 1_000_000_000 <= u64::MAX,
        ensures
            r.nanos == seconds * 1_000_000_000,
    {
        Timestamp { nanos: seconds * 1_000_000_000 }
    }

    /// The time `nanos` nanoseconds after the epoch.
    pub fn from_nanos(nanos: u64) -> (r: Timestamp)
        ensures
            r.nanos == nanos,
    {
        Timestamp { nanos }
    }

    /// The later of two times.
    pub fn max(self, other: Timestamp) -> (r: Timestamp)
        ensures
            r.nanos == later(self.nanos, other.nanos),
    {
        if self.nanos >= other.nanos {
            self
        } else {
            other
        }
    }
}

/// The larger of two instants.
pub open spec fn later(a: u64, b: u64) -> u64 {
    if a >= b {
        a
    } else {
        b
    }
}

/// The kind of staking message that a stake authorization covers.
#[derive(Debug, Clone, Copy, PartialEq, Eq, Structural)]
pub enum StakeAuthorizationType {
    /// An unknown kind.
    Unspecified,
    /// Delegating tokens.
    Delegate,
    /// Undelegating tokens.
    Undelegate,
    /// Redelegating tokens.
    Redelegate,
}

impl DeepView for StakeAuthorizationType {
    type V = StakeAuthorizationType;

    open spec fn deep_view(&self) -> StakeAuthorizationType {
        *self
    }
}

/// A list of validator addresses.
#[derive(Debug, Clone)]
pub struct StakeAuthorizationValidators {
    pub address: Vec<String>,
}

/// A validator filter: only these validators, or any validator but these.
#[derive(Debug, Clone)]
pub enum StakeAuthorizationPolicy {
    AllowList(StakeAuthorizationValidators),
    DenyList(StakeAuthorizationValidators),
}

/// What a validator filter denotes.
pub enum PolicyModel {
    AllowList(Seq<Seq<char>>),
    DenyList(Seq<Seq<char>>),
}

impl DeepView for StakeAuthorizationPolicy {
    type V = PolicyModel;

    open spec fn deep_view(&self) -> PolicyModel {
        match self {
            StakeAuthorizationPolicy::AllowList(v) => PolicyModel::AllowList(v.address.deep_view()),
            StakeAuthorizationPolicy::DenyList(v) => PolicyModel::DenyList(v.address.deep_view()),
        }
    }
}

impl DeepEq for StakeAuthorizationPolicy {
    fn deep_eq(&self, other: &Self) -> (r: bool) {
        match (self, other) {
            (
                StakeAuthorizationPolicy::AllowList(a),
                StakeAuthorizationPolicy::AllowList(b),
            ) => a.address.deep_eq(&b.address),
            (StakeAuthorizationPolicy::DenyList(a), StakeAuthorizationPolicy::DenyList(b)) => a.address.deep_eq(
                &b.address,
            ),
            _ => false,
        }
    }
}

/// How often, or with how many funds, a contract may be called.
#[derive(Debug, Clone)]
pub enum ContractExecutionAuthorizationLimit {
    /// A number of calls, decremented on each execution.
    MaxCallsLimit { remaining: u64 },
    /// The most tokens that may be sent to the contract.
    MaxFundsLimit { amounts: Vec<Coin> },
    /// Both a number of calls and a most amount of tokens.
    CombinedLimit { calls_remaining: u64, amounts: Vec<Coin> },
}

/// What a call limit denotes.
pub enum LimitModel {
    MaxCallsLimit { remaining: u64 },
    MaxFundsLimit { amounts: Seq<CoinModel> },
    CombinedLimit { calls_remaining: u64, amounts: Seq<CoinModel> },
}

impl DeepView for ContractExecutionAuthorizationLimit {
    type V = LimitModel;

    open spec fn deep_view(&self) -> LimitModel {
        match self {
            ContractExecutionAuthorizationLimit::MaxCallsLimit { remaining } => LimitModel::MaxCallsLimit {
                remaining: *remaining,
            },
            ContractExecutionAuthorizationLimit::MaxFundsLimit { amounts } => LimitModel::MaxFundsLimit {
                amounts: amounts.deep_view(),
            },
            ContractExecutionAuthorizationLimit::CombinedLimit {
                calls_remaining,
                amounts,
            } => LimitModel::CombinedLimit {
                calls_remaining: *calls_remaining,
                amounts: amounts.deep_view(),
            },
        }
    }
}

impl DeepEq for ContractExecutionAuthorizationLimit {
    fn deep_eq(&self, other: &Self) -> (r: bool) {
        match (self, other) {
            (
                ContractExecutionAuthorizationLimit::MaxCallsLimit { remaining: a },
                ContractExecutionAuthorizationLimit::MaxCallsLimit { remaining: b },
            ) => *a == *b,
            (
                ContractExecutionAuthorizationLimit::MaxFundsLimit { amounts: a },
                ContractExecutionAuthorizationLimit::MaxFundsLimit { amounts: b },
            ) => a.deep_eq(b),
            (
                ContractExecutionAuthorizationLimit::CombinedLimit {
                    calls_remaining: ca,
                    amounts: a,
                },
                ContractExecutionAuthorizationLimit::CombinedLimit {
                    calls_remaining: cb,
                    amounts: b,
                },
            ) => *ca == *cb && a.deep_eq(b),
            _ => false,
        }
    }
}

impl Duplicate for Coin {
    fn duplicate(&self) -> (r: Self) {
        Coin { denom: self.denom.clone(), amount: self.amount }
    }
}

impl Duplicate for ContractExecutionAuthorizationLimit {
    fn duplicate(&self) -> (r: Self) {
        match self {
            ContractExecutionAuthorizationLimit::MaxCallsLimit { remaining } => {
                ContractExecutionAuthorizationLimit::MaxCallsLimit { remaining: *remaining }
            },
            ContractExecutionAuthorizationLimit::MaxFundsLimit { amounts } => {
                ContractExecutionAuthorizationLimit::MaxFundsLimit { amounts: amounts.duplicate() }
            },
            ContractExecutionAuthorizationLimit::CombinedLimit { calls_remaining, amounts } => {
                ContractExecutionAuthorizationLimit::CombinedLimit {
                    calls_remaining: *calls_remaining,
                    amounts: amounts.duplicate(),
                }
            },
        }
    }
}

impl Default for ContractExecutionAuthorizationLimit {
    /// Unlimited calls.
    fn default() -> (r: Self)
        ensures
            r.deep_view() == (LimitModel::MaxCallsLimit { remaining: u64::MAX }),
    {
        ContractExecutionAuthorizationLimit::MaxCallsLimit { remaining: u64::MAX }
    }
}

impl ContractExecutionAuthorizationLimit {
    /// An unbounded amount of one denomination.
    pub fn single_fund_limit(denom: &str) -> (r: Self)
        ensures
            r.deep_view() == (LimitModel::MaxFundsLimit {
                amounts: seq![CoinModel { denom: denom@, amount: u128::MAX as nat }],
            }),
    {
        ContractExecutionAuthorizationLimit::MaxFundsLimit {
            amounts: crate::coins::coins(u128::MAX, denom),
        }
    }

    /// An unbounded amount of each of several denominations.
    pub fn multiple_fund_limits(denoms: Vec<String>) -> (r: Self)
        ensures
            r.deep_view() == (LimitModel::MaxFundsLimit {
                amounts: denoms.deep_view().map_values(
                    |d: Seq<char>| CoinModel { denom: d, amount: u128::MAX as nat },
                ),
            }),
    {
        let mut amounts: Vec<Coin> = Vec::new();
        let mut i: usize = 0;
        while i < denoms.len()
            invariant
                i <= denoms.len(),
                amounts.deep_view() == denoms.deep_view().take(i as int).map_values(
                    |d: Seq<char>| CoinModel { denom: d, amount: u128::MAX as nat },
                ),
            decreases denoms.len() - i,
        {
            let ghost before = amounts.deep_view();
            amounts.push(coin(u128::MAX, denoms[i].as_str()));
            assert(amounts.deep_view() =~= before.push(
                CoinModel { denom: denoms.deep_view()[i as int], amount: u128::MAX as nat },
            ));
            i = i + 1;
            assert(amounts.deep_view() =~= denoms.deep_view().take(i as int).map_values(
                |d: Seq<char>| CoinModel { denom: d, amount: u128::MAX as nat },
            ));
        }
        assert(denoms.deep_view().take(denoms.len() as int) =~= denoms.deep_view());
        ContractExecutionAuthorizationLimit::MaxFundsLimit { amounts }
    }
}

/// Which message payloads a contract-execution grant accepts.
#[derive(Debug, Clone)]
pub enum ContractExecutionAuthorizationFilter {
    /// Any payload.
    AllowAllMessagesFilter,
    /// Payloads whose top-level keys are among these.
    AcceptedMessageKeysFilter { keys: Vec<String> },
    /// Exactly these raw payloads.
    AcceptedMessagesFilter { messages: Vec<Vec<u8>> },
}

/// What a payload filter denotes.
pub enum FilterModel {
    AllowAllMessagesFilter,
    AcceptedMessageKeysFilter { keys: Seq<Seq<char>> },
    AcceptedMessagesFilter { messages: Seq<Seq<u8>> },
}

impl DeepView for ContractExecutionAuthorizationFilter {
    type V = FilterModel;

    open spec fn deep_view(&self) -> FilterModel {
        match self {
            ContractExecutionAuthorizationFilter::AllowAllMessagesFilter => FilterModel::AllowAllMessagesFilter,
            ContractExecutionAuthorizationFilter::AcceptedMessageKeysFilter {
                keys,
            } => FilterModel::AcceptedMessageKeysFilter { keys: keys.deep_view() },
            ContractExecutionAuthorizationFilter::AcceptedMessagesFilter {
                messages,
            } => FilterModel::AcceptedMessagesFilter { messages: messages.deep_view() },
        }
    }
}

impl DeepEq for ContractExecutionAuthorizationFilter {
    fn deep_eq(&self, other: &Self) -> (r: bool) {
        match (self, other) {
            (
                ContractExecutionAuthorizationFilter::AllowAllMessagesFilter,
                ContractExecutionAuthorizationFilter::AllowAllMessagesFilter,
            ) => true,
            (
                ContractExecutionAuthorizationFilter::AcceptedMessageKeysFilter { keys: a },
                ContractExecutionAuthorizationFilter::AcceptedMessageKeysFilter { keys: b },
            ) => a.deep_eq(b),
            (
                ContractExecutionAuthorizationFilter::AcceptedMessagesFilter { messages: a },
                ContractExecutionAuthorizationFilter::AcceptedMessagesFilter { messages: b },
            ) => a.deep_eq(b),
            _ => false,
        }
    }
}

impl Default for ContractExecutionAuthorizationFilter {
    /// The most permissive filter.
    fn default() -> (r: Self)
        ensures
            r.deep_view() == FilterModel::AllowAllMessagesFilter,
    {
        ContractExecutionAuthorizationFilter::AllowAllMessagesFilter
    }
}

/// Permission to call one contract, under a limit and a payload filter.
#[derive(Debug, Clone)]
pub struct ContractExecutionSetting {
    pub contract_addr: String,
    pub limit: ContractExecutionAuthorizationLimit,
    pub filter: ContractExecutionAuthorizationFilter,
}

/// What a contract-execution setting denotes.
pub struct SettingModel {
    pub contract_addr: Seq<char>,
    pub limit: LimitModel,
    pub filter: FilterModel,
}

impl DeepView for ContractExecutionSetting {
    type V = SettingModel;

    open spec fn deep_view(&self) -> SettingModel {
        SettingModel {
            contract_addr: self.contract_addr@,
            limit: self.limit.deep_view(),
            filter: self.filter.deep_view(),
        }
    }
}

impl DeepEq for ContractExecutionSetting {
    fn deep_eq(&self, other: &Self) -> (r: bool) {
        self.contract_addr == other.contract_addr && self.limit.deep_eq(&other.limit)
            && self.filter.deep_eq(&other.filter)
    }
}

/// Permission to send tokens over one IBC channel.
#[derive(Debug, Clone, Default)]
pub struct TransferAuthorizationSetting {
    pub source_port: String,
    pub source_channel: String,
    /// The most that may be sent over the channel.
    pub spend_limit: Vec<Coin>,
    /// The receivers allowed; empty permits any receiver.
    pub allow_list: Vec<String>,
}

/// What a transfer setting denotes.
pub struct TransferModel {
    pub source_port: Seq<char>,
    pub source_channel: Seq<char>,
    pub spend_limit: Seq<CoinModel>,
    pub allow_list: Seq<Seq<char>>,
}

impl DeepView for TransferAuthorizationSetting {
    type V = TransferModel;

    open spec fn deep_view(&self) -> TransferModel {
        TransferModel {
            source_port: self.source_port@,
            source_channel: self.source_channel@,
            spend_limit: self.spend_limit.deep_view(),
            allow_list: self.allow_list.deep_view(),
        }
    }
}

impl DeepEq for TransferAuthorizationSetting {
    fn deep_eq(&self, other: &Self) -> (r: bool) {
        self.source_port == other.source_port && self.source_channel == other.source_channel
            && self.spend_limit.deep_eq(&other.spend_limit) && self.allow_list.deep_eq(
            &other.allow_list,
        )
    }
}


/// A category of authorization, with its limits.
#[derive(Debug, Clone)]
pub enum AuthorizationType {
    /// Any message of one type.
    GenericAuthorization { msg: String },
    /// Sending tokens, capped by `spend_limit` and restricted to `allow_list`
    /// when they are present.
    SendAuthorization { spend_limit: Option<Vec<Coin>>, allow_list: Option<Vec<String>> },
    /// A staking action, optionally capped and filtered by validator.
    StakeAuthorization {
        max_tokens: Option<Coin>,
        authorization_type: StakeAuthorizationType,
        validators: Option<StakeAuthorizationPolicy>,
    },
    /// Calling contracts, one setting per permission.
    ContractExecutionAuthorization(Vec<ContractExecutionSetting>),
    /// Sending tokens over IBC channels.
    TransferAuthorization(Vec<TransferAuthorizationSetting>),
}

/// What an authorization denotes.
pub enum AuthorizationModel {
    GenericAuthorization { msg: Seq<char> },
    SendAuthorization {
        spend_limit: Option<Seq<CoinModel>>,
        allow_list: Option<Seq<Seq<char>>>,
    },
    StakeAuthorization {
        max_tokens: Option<CoinModel>,
        authorization_type: StakeAuthorizationType,
        validators: Option<PolicyModel>,
    },
    ContractExecutionAuthorization(Seq<SettingModel>),
    TransferAuthorization(Seq<TransferModel>),
}

impl DeepView for AuthorizationType {
    type V = AuthorizationModel;

    open spec fn deep_view(&self) -> AuthorizationModel {
        match self {
            AuthorizationType::GenericAuthorization { msg } => AuthorizationModel::GenericAuthorization {
                msg: msg@,
            },
            AuthorizationType::SendAuthorization {
                spend_limit,
                allow_list,
            } => AuthorizationModel::SendAuthorization {
                spend_limit: spend_limit.deep_view(),
                allow_list: allow_list.deep_view(),
            },
            AuthorizationType::StakeAuthorization {
                max_tokens,
                authorization_type,
                validators,
            } => AuthorizationModel::StakeAuthorization {
                max_tokens: max_tokens.deep_view(),
                authorization_type: *authorization_type,
                validators: validators.deep_view(),
            },
            AuthorizationType::ContractExecutionAuthorization(
                settings,
            ) => AuthorizationModel::ContractExecutionAuthorization(settings.deep_view()),
            AuthorizationType::TransferAuthorization(
                settings,
            ) => AuthorizationModel::TransferAuthorization(settings.deep_view()),
        }
    }
}

impl DeepEq for AuthorizationType {
    fn deep_eq(&self, other: &Self) -> (r: bool) {
        match (self, other) {
            (
                AuthorizationType::GenericAuthorization { msg: a },
                AuthorizationType::GenericAuthorization { msg: b },
            ) => *a == *b,
            (
                AuthorizationType::SendAuthorization { spend_limit: sa, allow_list: la },
                AuthorizationType::SendAuthorization { spend_limit: sb, allow_list: lb },
            ) => sa.deep_eq(sb) && la.deep_eq(lb),
            (
                AuthorizationType::StakeAuthorization {
                    max_tokens: ma,
                    authorization_type: ta,
                    validators: va,
                },
                AuthorizationType::StakeAuthorization {
                    max_tokens: mb,
                    authorization_type: tb,
                    validators: vb,
                },
            ) => ma.deep_eq(mb) && *ta == *tb && va.deep_eq(vb),
            (
                AuthorizationType::ContractExecutionAuthorization(a),
                AuthorizationType::ContractExecutionAuthorization(b),
            ) => a.deep_eq(b),
            (
                AuthorizationType::TransferAuthorization(a),
                AuthorizationType::TransferAuthorization(b),
            ) => a.deep_eq(b),
            _ => false,
        }
    }
}

/// The message type that each category of authorization ultimately permits.
pub open spec fn msg_type_url_of(a: AuthorizationModel) -> Seq<char> {
    match a {
        AuthorizationModel::GenericAuthorization { msg } => msg,
        AuthorizationModel::SendAuthorization { .. } => "/cosmos.bank.v1beta1.MsgSend"@,
        AuthorizationModel::StakeAuthorization { .. } => "/cosmos.staking.v1beta1.MsgDelegate"@,
        AuthorizationModel::ContractExecutionAuthorization(
            _,
        ) => "/cosmwasm.wasm.v1.MsgExecuteContract"@,
        AuthorizationModel::TransferAuthorization(_) => "/ibc.applications.transfer.v1.MsgTransfer"@,
    }
}

impl AuthorizationType {
    /// The type URL of the message this authorization permits.
    pub fn msg_type_url(&self) -> (r: String)
        ensures
            r@ == msg_type_url_of(self.deep_view()),
    {
        match self {
            AuthorizationType::GenericAuthorization { msg } => msg.clone(),
            AuthorizationType::SendAuthorization { .. } => "/cosmos.bank.v1beta1.MsgSend".to_owned(),
            AuthorizationType::StakeAuthorization {
                ..
            } => "/cosmos.staking.v1beta1.MsgDelegate".to_owned(),
            AuthorizationType::ContractExecutionAuthorization(
                _,
            ) => "/cosmwasm.wasm.v1.MsgExecuteContract".to_owned(),
            AuthorizationType::TransferAuthorization(
                _,
            ) => "/ibc.applications.transfer.v1.MsgTransfer".to_owned(),
        }
    }
}

/// Something that must exist before an operation may run: a permission to be
/// granted by the authorization backend, or a call the sender must issue.
#[derive(Debug, Clone)]
pub enum GrantRequirement {
    GrantSpec {
        grant_type: AuthorizationType,
        granter: String,
        grantee: String,
        expiration: Timestamp,
    },
    ContractExec { contract_addr: String, msg: Vec<u8>, sender: String },
}

/// What a grant requirement denotes.
pub enum GrantRequirementModel {
    GrantSpec {
        grant_type: AuthorizationModel,
        granter: Seq<char>,
        grantee: Seq<char>,
        expiration: u64,
    },
    ContractExec { contract_addr: Seq<char>, msg: Seq<u8>, sender: Seq<char> },
}

impl DeepView for GrantRequirement {
    type V = GrantRequirementModel;

    open spec fn deep_view(&self) -> GrantRequirementModel {
        match self {
            GrantRequirement::GrantSpec {
                grant_type,
                granter,
                grantee,
                expiration,
            } => GrantRequirementModel::GrantSpec {
                grant_type: grant_type.deep_view(),
                granter: granter@,
                grantee: grantee@,
                expiration: expiration.nanos,
            },
            GrantRequirement::ContractExec {
                contract_addr,
                msg,
                sender,
            } => GrantRequirementModel::ContractExec {
                contract_addr: contract_addr@,
                msg: msg.deep_view(),
                sender: sender@,
            },
        }
    }
}

impl View for GrantRequirement {
    type V = GrantRequirementModel;

    open spec fn view(&self) -> GrantRequirementModel {
        self.deep_view()
    }
}

impl DeepEq for GrantRequirement {
    fn deep_eq(&self, other: &Self) -> (r: bool) {
        match (self, other) {
            (
                GrantRequirement::GrantSpec {
                    grant_type: ta,
                    granter: ga,
                    grantee: ea,
                    expiration: xa,
                },
                GrantRequirement::GrantSpec {
                    grant_type: tb,
                    granter: gb,
                    grantee: eb,
                    expiration: xb,
                },
            ) => ta.deep_eq(tb) && *ga == *gb && *ea == *eb && xa.nanos == xb.nanos,
            (
                GrantRequirement::ContractExec { contract_addr: ca, msg: ma, sender: sa },
                GrantRequirement::ContractExec { contract_addr: cb, msg: mb, sender: sb },
            ) => *ca == *cb && ma.deep_eq(mb) && *sa == *sb,
            _ => false,
        }
    }
}

impl PartialEq for GrantRequirement {
    fn eq(&self, other: &GrantRequirement) -> (r: bool) {
        self.deep_eq(other)
    }
}

impl vstd::std_specs::cmp::PartialEqSpecImpl for GrantRequirement {
    open spec fn obeys_eq_spec() -> bool {
        true
    }

    open spec fn eq_spec(&self, other: &GrantRequirement) -> bool {
        self.deep_view() == other.deep_view()
    }
}

impl Eq for GrantRequirement {}

/// What identifies a grant to withdraw: the permission's message type, or the
/// call that undoes a registration.
#[derive(Debug, Clone)]
pub enum RevokeRequirement {
    RevokeSpec { grant_type: String, granter: String, grantee: String },
    ContractExec { contract_addr: String, msg: Vec<u8>, sender: String },
}

/// What a revoke requirement denotes.
pub enum RevokeRequirementModel {
    RevokeSpec { grant_type: Seq<char>, granter: Seq<char>, grantee: Seq<char> },
    ContractExec { contract_addr: Seq<char>, msg: Seq<u8>, sender: Seq<char> },
}

impl DeepView for RevokeRequirement {
    type V = RevokeRequirementModel;

    open spec fn deep_view(&self) -> RevokeRequirementModel {
        match self {
            RevokeRequirement::RevokeSpec {
                grant_type,
                granter,
                grantee,
            } => RevokeRequirementModel::RevokeSpec {
                grant_type: grant_type@,
                granter: granter@,
                grantee: grantee@,
            },
            RevokeRequirement::ContractExec {
                contract_addr,
                msg,
                sender,
            } => RevokeRequirementModel::ContractExec {
                contract_addr: contract_addr@,
                msg: msg.deep_view(),
                sender: sender@,
            },
        }
    }
}

impl DeepEq for RevokeRequirement {
    fn deep_eq(&self, other: &Self) -> (r: bool) {
        match (self, other) {
            (
                RevokeRequirement::RevokeSpec { grant_type: ta, granter: ga, grantee: ea },
                RevokeRequirement::RevokeSpec { grant_type: tb, granter: gb, grantee: eb },
            ) => *ta == *tb && *ga == *gb && *ea == *eb,
            (
                RevokeRequirement::ContractExec { contract_addr: ca, msg: ma, sender: sa },
                RevokeRequirement::ContractExec { contract_addr: cb, msg: mb, sender: sb },
            ) => *ca == *cb && ma.deep_eq(mb) && *sa == *sb,
            _ => false,
        }
    }
}

impl PartialEq for RevokeRequirement {
    fn eq(&self, other: &RevokeRequirement) -> (r: bool) {
        self.deep_eq(other)
    }
}

impl vstd::std_specs::cmp::PartialEqSpecImpl for RevokeRequirement {
    open spec fn obeys_eq_spec() -> bool {
        true
    }

    open spec fn eq_spec(&self, other: &RevokeRequirement) -> bool {
        self.deep_view() == other.deep_view()
    }
}

impl Eq for RevokeRequirement {}

/// The revoke requirement that undoes a grant requirement: a permission is
/// identified by its message type, granter and grantee; a call is kept as is.
pub open spec fn revoke_of(g: GrantRequirementModel) -> RevokeRequirementModel {
    match g {
        GrantRequirementModel::GrantSpec {
            grant_type,
            granter,
            grantee,
            ..
        } => RevokeRequirementModel::RevokeSpec {
            grant_type: msg_type_url_of(grant_type),
            granter,
            grantee,
        },
        GrantRequirementModel::ContractExec {
            contract_addr,
            msg,
            sender,
        } => RevokeRequirementModel::ContractExec { contract_addr, msg, sender },
    }
}

/// The revoke requirement that undoes `val`.
pub fn revoke_requirement(val: GrantRequirement) -> (r: RevokeRequirement)
    ensures
        r.deep_view() == revoke_of(val.deep_view()),
{
    match val {
        GrantRequirement::GrantSpec { grant_type, granter, grantee, .. } => {
            RevokeRequirement::RevokeSpec { grant_type: grant_type.msg_type_url(), granter, grantee }
        },
        GrantRequirement::ContractExec { contract_addr, msg, sender } => {
            RevokeRequirement::ContractExec { contract_addr, msg, sender }
        },
    }
}

impl From<GrantRequirement> for RevokeRequirement {
    /// Keeps what identifies the grant: the message type URL, granter and
    /// grantee of a permission; a direct call as it is.
    fn from(val: GrantRequirement) -> (r: RevokeRequirement)
        ensures
            r.deep_view() == revoke_of(val.deep_view()),
    {
        revoke_requirement(val)
    }
}

impl vstd::std_specs::convert::FromSpecImpl<GrantRequirement> for RevokeRequirement {
    /// The message type in a revoke requirement is a freshly built string, so
    /// `from` states its result by the deep view, in its own `ensures`, rather
    /// than as an equal value here.
    open spec fn obeys_from_spec() -> bool {
        false
    }

    open spec fn from_spec(val: GrantRequirement) -> RevokeRequirement {
        choose|r: RevokeRequirement| r.deep_view() == revoke_of(val.deep_view())
    }
}


/// Who grants to whom, and until when.
#[derive(Debug, Clone)]
pub struct GrantBase {
    pub granter: String,
    pub grantee: String,
    pub expiration: Timestamp,
}

/// A permission requirement of `base` for the authorization `a`.
pub open spec fn grant_spec_of(base: GrantBase, a: AuthorizationModel) -> GrantRequirementModel {
    GrantRequirementModel::GrantSpec {
        grant_type: a,
        granter: base.granter@,
        grantee: base.grantee@,
        expiration: base.expiration.nanos,
    }
}

/// The limit of a single-contract grant: unlimited calls, or an unbounded
/// amount of the one denomination given.
pub open spec fn limit_for(limit_denom: Option<&str>) -> LimitModel {
    match limit_denom {
        Some(d) => LimitModel::MaxFundsLimit {
            amounts: seq![CoinModel { denom: d@, amount: u128::MAX as nat }],
        },
        None => LimitModel::MaxCallsLimit { remaining: u64::MAX },
    }
}

fn limit_of(limit_denom: Option<&str>) -> (r: ContractExecutionAuthorizationLimit)
    ensures
        r.deep_view() == limit_for(limit_denom),
{
    match limit_denom {
        Some(d) => ContractExecutionAuthorizationLimit::single_fund_limit(d),
        None => ContractExecutionAuthorizationLimit::default(),
    }
}

impl GrantRequirement {
    /// Permission for any message of type `type_url`.
    pub fn generic_auth(base: GrantBase, type_url: &str) -> (r: Self)
        ensures
            r.deep_view() == grant_spec_of(
                base,
                AuthorizationModel::GenericAuthorization { msg: type_url@ },
            ),
    {
        GrantRequirement::GrantSpec {
            grant_type: AuthorizationType::GenericAuthorization { msg: type_url.to_owned() },
            granter: base.granter,
            grantee: base.grantee,
            expiration: base.expiration,
        }
    }

    /// Permission to call `contract_addr` with payloads whose keys are among
    /// `keys`, limited to one denomination when `limit_denom` is given.
    pub fn default_contract_exec_auth(
        base: GrantBase,
        contract_addr: String,
        keys: Vec<String>,
        limit_denom: Option<&str>,
    ) -> (r: Self)
        ensures
            r.deep_view() == grant_spec_of(
                base,
                AuthorizationModel::ContractExecutionAuthorization(
                    seq![SettingModel {
                        contract_addr: contract_addr@,
                        limit: limit_for(limit_denom),
                        filter: FilterModel::AcceptedMessageKeysFilter { keys: keys.deep_view() },
                    }],
                ),
            ),
    {
        let ghost keys_view = keys.deep_view();
        let ghost addr = contract_addr@;
        let setting = ContractExecutionSetting {
            contract_addr,
            limit: limit_of(limit_denom),
            filter: ContractExecutionAuthorizationFilter::AcceptedMessageKeysFilter { keys },
        };
        let mut settings: Vec<ContractExecutionSetting> = Vec::new();
        settings.push(setting);
        let r = GrantRequirement::GrantSpec {
            grant_type: AuthorizationType::ContractExecutionAuthorization(settings),
            granter: base.granter,
            grantee: base.grantee,
            expiration: base.expiration,
        };
        assert(settings.deep_view() =~= seq![SettingModel {
            contract_addr: addr,
            limit: limit_for(limit_denom),
            filter: FilterModel::AcceptedMessageKeysFilter { keys: keys_view },
        }]);
        r
    }

    /// Permission to call `contract_addr` with exactly the given encoded
    /// payloads, limited to one denomination when `limit_denom` is given.
    pub fn contract_exec_messages_auth(
        base: GrantBase,
        contract_addr: String,
        messages: Vec<Vec<u8>>,
        limit_denom: Option<&str>,
    ) -> (r: Self)
        ensures
            r.deep_view() == grant_spec_of(
                base,
                AuthorizationModel::ContractExecutionAuthorization(
                    seq![SettingModel {
                        contract_addr: contract_addr@,
                        limit: limit_for(limit_denom),
                        filter: FilterModel::AcceptedMessagesFilter {
                            messages: messages.deep_view(),
                        },
                    }],
                ),
            ),
    {
        let ghost messages_view = messages.deep_view();
        let ghost addr = contract_addr@;
        let setting = ContractExecutionSetting {
            contract_addr,
            limit: limit_of(limit_denom),
            filter: ContractExecutionAuthorizationFilter::AcceptedMessagesFilter { messages },
        };
        let mut settings: Vec<ContractExecutionSetting> = Vec::new();
        settings.push(setting);
        let r = GrantRequirement::GrantSpec {
            grant_type: AuthorizationType::ContractExecutionAuthorization(settings),
            granter: base.granter,
            grantee: base.grantee,
            expiration: base.expiration,
        };
        assert(settings.deep_view() =~= seq![SettingModel {
            contract_addr: addr,
            limit: limit_for(limit_denom),
            filter: FilterModel::AcceptedMessagesFilter { messages: messages_view },
        }]);
        r
    }

    /// Permission to call `contract_addr` with exactly the given encoded
    /// payloads, sending any amount of the allowed denominations.
    pub fn contract_exec_messages_mutlidenoms_auth(
        base: GrantBase,
        contract_addr: String,
        messages: Vec<Vec<u8>>,
        allowed_denoms: Vec<String>,
    ) -> (r: Self)
        ensures
            r.deep_view() == grant_spec_of(
                base,
                AuthorizationModel::ContractExecutionAuthorization(
                    seq![SettingModel {
                        contract_addr: contract_addr@,
                        limit: LimitModel::MaxFundsLimit {
                            amounts: allowed_denoms.deep_view().map_values(
                                |d: Seq<char>| CoinModel { denom: d, amount: u128::MAX as nat },
                            ),
                        },
                        filter: FilterModel::AcceptedMessagesFilter {
                            messages: messages.deep_view(),
                        },
                    }],
                ),
            ),
    {
        let ghost messages_view = messages.deep_view();
        let ghost addr = contract_addr@;
        let ghost denoms_view = allowed_denoms.deep_view();
        let setting = ContractExecutionSetting {
            contract_addr,
            limit: ContractExecutionAuthorizationLimit::multiple_fund_limits(allowed_denoms),
            filter: ContractExecutionAuthorizationFilter::AcceptedMessagesFilter { messages },
        };
        let mut settings: Vec<ContractExecutionSetting> = Vec::new();
        settings.push(setting);
        let r = GrantRequirement::GrantSpec {
            grant_type: AuthorizationType::ContractExecutionAuthorization(settings),
            granter: base.granter,
            grantee: base.grantee,
            expiration: base.expiration,
        };
        assert(settings.deep_view() =~= seq![SettingModel {
            contract_addr: addr,
            limit: LimitModel::MaxFundsLimit {
                amounts: denoms_view.map_values(
                    |d: Seq<char>| CoinModel { denom: d, amount: u128::MAX as nat },
                ),
            },
            filter: FilterModel::AcceptedMessagesFilter { messages: messages_view },
        }]);
        r
    }

    /// Permission to delegate, to one validator when `validator_addresses`
    /// is given, up to `max_tokens` when it is given.
    pub fn delegation_authorization(
        base: GrantBase,
        validator_addresses: Option<String>,
        max_tokens: Option<Coin>,
    ) -> (r: Self)
        ensures
            r.deep_view() == grant_spec_of(
                base,
                delegation_model(validator_addresses.deep_view(), max_tokens.deep_view()),
            ),
    {
        let (max_token_amount, max_token_denom) = match max_tokens {
            Some(c) => (Some(c.amount), Some(c.denom)),
            None => (None, None),
        };
        gen_delegation_authorization(base, validator_addresses, max_token_amount, max_token_denom)
    }
}

/// A delegation authorization, for one validator or any, capped or not.
pub open spec fn delegation_model(validator: Option<Seq<char>>, max_tokens: Option<CoinModel>) -> AuthorizationModel {
    AuthorizationModel::StakeAuthorization {
        max_tokens,
        authorization_type: StakeAuthorizationType::Delegate,
        validators: match validator {
            Some(v) => Some(PolicyModel::AllowList(seq![v])),
            None => None,
        },
    }
}

/// Permission to delegate, to one validator when `validator_addresses` is
/// given; capped only when both an amount and a denomination are given.
pub fn gen_delegation_authorization(
    base: GrantBase,
    validator_addresses: Option<String>,
    max_token_amount: Option<u128>,
    max_token_denom: Option<String>,
) -> (r: GrantRequirement)
    ensures
        r.deep_view() == grant_spec_of(
            base,
            delegation_model(
                validator_addresses.deep_view(),
                match (max_token_amount, max_token_denom) {
                    (Some(a), Some(d)) => Some(CoinModel { denom: d@, amount: a as nat }),
                    _ => None,
                },
            ),
        ),
{
    let max_tokens = match (max_token_amount, max_token_denom) {
        (Some(amount), Some(denom)) => Some(Coin { amount, denom }),
        _ => None,
    };
    let validators = match validator_addresses {
        Some(address) => {
            let ghost a = address@;
            let mut v: Vec<String> = Vec::new();
            v.push(address);
            assert(v.deep_view() =~= seq![a]);
            Some(StakeAuthorizationPolicy::AllowList(StakeAuthorizationValidators { address: v }))
        },
        None => None,
    };
    GrantRequirement::GrantSpec {
        grant_type: AuthorizationType::StakeAuthorization {
            max_tokens,
            authorization_type: StakeAuthorizationType::Delegate,
            validators,
        },
        granter: base.granter,
        grantee: base.grantee,
        expiration: base.expiration,
    }
}

} // verus!
