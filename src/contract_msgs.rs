//! The messages of the reward-splitting grant contract, and the grant and
//! revoke requirements it publishes.

use vstd::prelude::*;

use crate::coins::Decimal;
use crate::grants::{
    AuthorizationModel, AuthorizationType, GrantRequirement,
    GrantRequirementModel, RevokeRequirement, RevokeRequirementModel, Timestamp,
};
use crate::rewards::AllowedWithdrawlSettings;

verus! {

/// Instantiating the contract takes no parameters.
#[derive(Debug, Clone, Copy, PartialEq, Eq, Structural)]
pub struct InstantiateMsg {}

/// Migrating the contract takes no parameters.
#[derive(Debug, Clone, Copy, PartialEq, Eq, Structural)]
pub struct MigrateMsg {}

/// The contract's version.
#[derive(Debug, Clone)]
pub struct VersionResponse {
    pub version: String,
}

/// Reports the version the contract was configured with.
pub fn query_version(version: &str) -> (r: VersionResponse)
    ensures
        r.version@ == version@,
{
    VersionResponse { version: version.to_owned() }
}

/// A request to withdraw a delegator's rewards under its grant.
#[derive(Debug, Clone)]
pub struct ExecuteSettings {
    /// The delegator whose rewards are withdrawn.
    pub delegator: String,
    /// The fee share asked for; the grant's maximum when absent.
    pub percentage: Option<Decimal>,
}

/// What the contract can be asked to do.
#[derive(Debug, Clone)]
pub enum ExecuteMsg {
    /// Saves the sender's grant, replacing any earlier one.
    Grant(AllowedWithdrawlSettings),
    /// Deletes the sender's grant.
    Revoke(),
    /// Withdraws and splits a delegator's rewards.
    Execute(ExecuteSettings),
    /// Deletes every lapsed grant.
    PruneExpiredGrants(),
}

/// The fee terms of a grant to be requested.
#[derive(Debug, Clone)]
pub struct GrantSpecData {
    pub max_fee_percentage: Decimal,
    pub taxation_addr: String,
}

/// A grant to be requested: who grants to whom, until when, through which
/// contract, with which terms.
#[derive(Debug, Clone)]
pub struct GrantStructure<T> {
    pub granter: String,
    pub grantee: String,
    pub expiration: Timestamp,
    pub grant_contract: String,
    pub grant_data: T,
}

/// What the contract can be asked about.
#[derive(Debug, Clone)]
pub enum QueryMsg {
    /// The contract's version.
    Version {},
    /// The active grant of a delegator.
    ActiveGrantsByDelegator(String),
    /// The active grants of a grantee.
    ActiveGrantsByGrantee(String),
    /// The amounts each side would receive.
    SimulateExecute(ExecuteSettings),
    /// The requirements for setting up a grant.
    GrantSpec {
        expiration: Timestamp,
        granter: String,
        grantee: String,
        max_fee_percentage: Decimal,
        taxation_addr: String,
    },
}

/// The type URL of the reward claim message.
pub const WITHDRAW_DELEGATOR_REWARD_URL: &'static str =
    "/cosmos.distribution.v1beta1.MsgWithdrawDelegatorReward";

/// The type URL of the withdrawal-address message.
pub const SET_WITHDRAW_ADDRESS_URL: &'static str =
    "/cosmos.distribution.v1beta1.MsgSetWithdrawAddress";

/// What setting up a reward-splitting grant requires: the contract may claim
/// the granter's rewards and move its withdrawal address, and the granter
/// registers the grant with the contract by the call `grant_msg`.
pub open spec fn grant_requirements(
    granter: Seq<char>,
    expiration: Timestamp,
    grant_contract: Seq<char>,
    grant_msg: Seq<u8>,
) -> Seq<GrantRequirementModel> {
    seq![
        GrantRequirementModel::GrantSpec {
            grant_type: AuthorizationModel::GenericAuthorization {
                msg: WITHDRAW_DELEGATOR_REWARD_URL@,
            },
            granter,
            grantee: grant_contract,
            expiration: expiration.nanos,
        },
        GrantRequirementModel::GrantSpec {
            grant_type: AuthorizationModel::GenericAuthorization { msg: SET_WITHDRAW_ADDRESS_URL@ },
            granter,
            grantee: grant_contract,
            expiration: expiration.nanos,
        },
        GrantRequirementModel::ContractExec {
            contract_addr: grant_contract,
            msg: grant_msg,
            sender: granter,
        },
    ]
}

/// What undoing a reward-splitting grant requires: revoking both
/// authorizations, and the call `revoke_msg` to the contract.
pub open spec fn revoke_requirements(
    granter: Seq<char>,
    grant_contract: Seq<char>,
    revoke_msg: Seq<u8>,
) -> Seq<RevokeRequirementModel> {
    seq![
        RevokeRequirementModel::RevokeSpec {
            grant_type: WITHDRAW_DELEGATOR_REWARD_URL@,
            granter,
            grantee: grant_contract,
        },
        RevokeRequirementModel::RevokeSpec {
            grant_type: SET_WITHDRAW_ADDRESS_URL@,
            granter,
            grantee: grant_contract,
        },
        RevokeRequirementModel::ContractExec {
            contract_addr: grant_contract,
            msg: revoke_msg,
            sender: granter,
        },
    ]
}

impl QueryMsg {
    /// The settings that the registering call carries for `grant`.
    pub fn grant_settings(grant: &GrantStructure<GrantSpecData>) -> (r: AllowedWithdrawlSettings)
        ensures
            r.grantee@ == grant.grantee@,
            r.taxation_address@ == grant.grant_data.taxation_addr@,
            r.max_fee_percentage == grant.grant_data.max_fee_percentage,
            r.expiration == grant.expiration,
    {
        AllowedWithdrawlSettings {
            grantee: grant.grantee.clone(),
            taxation_address: grant.grant_data.taxation_addr.clone(),
            max_fee_percentage: grant.grant_data.max_fee_percentage,
            expiration: grant.expiration,
        }
    }

    /// The requirements for setting up `grant`, where `grant_msg` is the
    /// encoded `Grant` call carrying `grant_settings(grant)`.
    pub fn query_grants(grant: GrantStructure<GrantSpecData>, grant_msg: Vec<u8>) -> (r: Vec<
        GrantRequirement,
    >)
        ensures
            r.deep_view() == grant_requirements(
                grant.granter@,
                grant.expiration,
                grant.grant_contract@,
                grant_msg.deep_view(),
            ),
    {
        let GrantStructure { granter, expiration, grant_contract, .. } = grant;
        let ghost granter_view = granter@;
        let ghost contract_view = grant_contract@;
        let ghost msg_view = grant_msg.deep_view();
        let mut out: Vec<GrantRequirement> = Vec::new();
        out.push(
            GrantRequirement::GrantSpec {
                grant_type: AuthorizationType::GenericAuthorization {
                    msg: WITHDRAW_DELEGATOR_REWARD_URL.to_owned(),
                },
                granter: granter.clone(),
                grantee: grant_contract.clone(),
                expiration,
            },
        );
        out.push(
            GrantRequirement::GrantSpec {
                grant_type: AuthorizationType::GenericAuthorization {
                    msg: SET_WITHDRAW_ADDRESS_URL.to_owned(),
                },
                granter: granter.clone(),
                grantee: grant_contract.clone(),
                expiration,
            },
        );
        out.push(
            GrantRequirement::ContractExec {
                sender: granter,
                contract_addr: grant_contract,
                msg: grant_msg,
            },
        );
        assert(out.deep_view() =~= grant_requirements(
            granter_view,
            expiration,
            contract_view,
            msg_view,
        ));
        out
    }

    /// The requirements for undoing `grant`, where `revoke_msg` is the encoded
    /// `Revoke` call.
    pub fn query_revokes(grant: GrantStructure<GrantSpecData>, revoke_msg: Vec<u8>) -> (r: Vec<
        RevokeRequirement,
    >)
        ensures
            r.deep_view() == revoke_requirements(
                grant.granter@,
                grant.grant_contract@,
                revoke_msg.deep_view(),
            ),
    {
        let GrantStructure { granter, grant_contract, .. } = grant;
        let ghost granter_view = granter@;
        let ghost contract_view = grant_contract@;
        let ghost msg_view = revoke_msg.deep_view();
        let mut out: Vec<RevokeRequirement> = Vec::new();
        out.push(
            RevokeRequirement::RevokeSpec {
                grant_type: WITHDRAW_DELEGATOR_REWARD_URL.to_owned(),
                granter: granter.clone(),
                grantee: grant_contract.clone(),
            },
        );
        out.push(
            RevokeRequirement::RevokeSpec {
                grant_type: SET_WITHDRAW_ADDRESS_URL.to_owned(),
                granter: granter.clone(),
                grantee: grant_contract.clone(),
            },
        );
        out.push(
            RevokeRequirement::ContractExec {
                contract_addr: grant_contract,
                msg: revoke_msg,
                sender: granter,
            },
        );
        assert(out.deep_view() =~= revoke_requirements(granter_view, contract_view, msg_view));
        out
    }
}

} // verus!
