//! Chain instructions: the reward-claim bundle, wrapped for execution by the
//! authorization module, and fund transfers.

use vstd::prelude::*;

use cosmos_sdk_proto::cosmos::authz::v1beta1::MsgExec;
use cosmos_sdk_proto::cosmos::distribution::v1beta1::{
    MsgSetWithdrawAddress, MsgWithdrawDelegatorReward,
};
use cosmos_sdk_proto::traits::{Message, TypeUrl};

use crate::coins::{Coin, CoinModel};
use crate::deep_eq::DeepEq;
use crate::error::ContractError;

verus! {

/// The type URL of a message that sets a delegator's reward withdrawal address.
pub const SET_WITHDRAW_ADDRESS_URL: &'static str = "/cosmos.distribution.v1beta1.MsgSetWithdrawAddress";

/// The type URL of a message that claims a delegator's rewards from a validator.
pub const WITHDRAW_REWARD_URL: &'static str = "/cosmos.distribution.v1beta1.MsgWithdrawDelegatorReward";

/// The type URL of a message executed on a granter's behalf through authz.
pub const MSG_EXEC_URL: &'static str = "/cosmos.authz.v1beta1.MsgExec";

/// The protobuf encoding of a `MsgSetWithdrawAddress`.
pub uninterp spec fn set_withdraw_address_encoding(
    delegator_address: Seq<char>,
    withdraw_address: Seq<char>,
) -> Seq<u8>;

/// The protobuf encoding of a `MsgWithdrawDelegatorReward`.
pub uninterp spec fn withdraw_reward_encoding(
    delegator_address: Seq<char>,
    validator_address: Seq<char>,
) -> Seq<u8>;

/// The protobuf encoding of a `MsgExec` for `grantee` over messages given by
/// type URL and encoding.
pub uninterp spec fn exec_encoding(grantee: Seq<char>, msgs: Seq<(Seq<char>, Seq<u8>)>) -> Seq<u8>;

/// An encoded protobuf message with its type URL.
#[derive(Debug, Clone)]
pub struct AnyMsg {
    pub type_url: String,
    pub value: Vec<u8>,
}

impl DeepView for AnyMsg {
    type V = (Seq<char>, Seq<u8>);

    open spec fn deep_view(&self) -> (Seq<char>, Seq<u8>) {
        (self.type_url@, self.value@)
    }
}

/// Relies on prost's `Message::encode_to_vec` for cosmos_sdk_proto's
/// `MsgSetWithdrawAddress`, and on its `TypeUrl::TYPE_URL`: the message's type
/// URL and its encoding. Encoding into a vector cannot fail.
#[verifier::external_body]
fn encode_set_withdraw_address(delegator_address: &String, withdraw_address: &String) -> (r:
    AnyMsg)
    ensures
        r.deep_view() == (
            SET_WITHDRAW_ADDRESS_URL@,
            set_withdraw_address_encoding(delegator_address@, withdraw_address@),
        ),
{
    let msg = MsgSetWithdrawAddress {
        delegator_address: delegator_address.clone(),
        withdraw_address: withdraw_address.clone(),
    };
    AnyMsg {
        type_url: <MsgSetWithdrawAddress as TypeUrl>::TYPE_URL.to_owned(),
        value: msg.encode_to_vec(),
    }
}

/// Relies on prost's `Message::encode_to_vec` for cosmos_sdk_proto's
/// `MsgWithdrawDelegatorReward`, and on its `TypeUrl::TYPE_URL`: the message's
/// type URL and its encoding. Encoding into a vector cannot fail.
#[verifier::external_body]
fn encode_withdraw_reward(delegator_address: &String, validator_address: &String) -> (r: AnyMsg)
    ensures
        r.deep_view() == (
            WITHDRAW_REWARD_URL@,
            withdraw_reward_encoding(delegator_address@, validator_address@),
        ),
{
    let msg = MsgWithdrawDelegatorReward {
        delegator_address: delegator_address.clone(),
        validator_address: validator_address.clone(),
    };
    AnyMsg {
        type_url: <MsgWithdrawDelegatorReward as TypeUrl>::TYPE_URL.to_owned(),
        value: msg.encode_to_vec(),
    }
}

/// Relies on prost's `Message::encode_to_vec` for cosmos_sdk_proto's
/// `MsgExec`: the encoding of the grantee and the wrapped messages.
#[verifier::external_body]
fn encode_exec(grantee: &String, msgs: Vec<AnyMsg>) -> (r: Vec<u8>)
    ensures
        r@ == exec_encoding(grantee@, msgs.deep_view()),
{
    let msgs = msgs.into_iter().map(
        |m| cosmos_sdk_proto::Any { type_url: m.type_url, value: m.value },
    ).collect();
    MsgExec { grantee: grantee.clone(), msgs }.encode_to_vec()
}

/// An instruction for the chain.
#[derive(Debug, Clone)]
pub enum CosmosMsg {
    /// A protobuf message given by type URL and encoding.
    Stargate { type_url: String, value: Vec<u8> },
    /// A transfer of `amount` to `to_address`.
    BankSend { to_address: String, amount: Vec<Coin> },
}

/// What an instruction denotes.
pub enum MsgModel {
    Stargate { type_url: Seq<char>, value: Seq<u8> },
    BankSend { to_address: Seq<char>, amount: Seq<CoinModel> },
}

impl DeepView for CosmosMsg {
    type V = MsgModel;

    open spec fn deep_view(&self) -> MsgModel {
        match self {
            CosmosMsg::Stargate { type_url, value } => MsgModel::Stargate {
                type_url: type_url@,
                value: value.deep_view(),
            },
            CosmosMsg::BankSend { to_address, amount } => MsgModel::BankSend {
                to_address: to_address@,
                amount: amount.deep_view(),
            },
        }
    }
}

impl DeepEq for CosmosMsg {
    fn deep_eq(&self, other: &Self) -> (r: bool) {
        match (self, other) {
            (
                CosmosMsg::Stargate { type_url: ta, value: va },
                CosmosMsg::Stargate { type_url: tb, value: vb },
            ) => *ta == *tb && va.deep_eq(vb),
            (
                CosmosMsg::BankSend { to_address: ta, amount: aa },
                CosmosMsg::BankSend { to_address: tb, amount: ab },
            ) => *ta == *tb && aa.deep_eq(ab),
            _ => false,
        }
    }
}

impl PartialEq for CosmosMsg {
    fn eq(&self, other: &CosmosMsg) -> (r: bool) {
        self.deep_eq(other)
    }
}

impl vstd::std_specs::cmp::PartialEqSpecImpl for CosmosMsg {
    open spec fn obeys_eq_spec() -> bool {
        true
    }

    open spec fn eq_spec(&self, other: &CosmosMsg) -> bool {
        self.deep_view() == other.deep_view()
    }
}

impl Eq for CosmosMsg {}

/// The instruction that executes `msgs` on the granter's behalf, with
/// `grantee` as the executing account.
pub open spec fn exec_msg_model(grantee: Seq<char>, msgs: Seq<(Seq<char>, Seq<u8>)>) -> MsgModel {
    MsgModel::Stargate { type_url: MSG_EXEC_URL@, value: exec_encoding(grantee, msgs) }
}

/// Wraps messages into one authz execution by `grantee`.
pub fn exec_msg(grantee: &String, any_msgs: Vec<AnyMsg>) -> (r: CosmosMsg)
    ensures
        r.deep_view() == exec_msg_model(grantee@, any_msgs.deep_view()),
{
    let value = encode_exec(grantee, any_msgs);
    assert(value.deep_view() =~= value@);
    CosmosMsg::Stargate { type_url: MSG_EXEC_URL.to_owned(), value }
}

/// The message that points `delegator`'s reward withdrawals at `withdraw`.
pub open spec fn set_withdraw_address_any(delegator: Seq<char>, withdraw: Seq<char>) -> (
    Seq<char>,
    Seq<u8>,
) {
    (SET_WITHDRAW_ADDRESS_URL@, set_withdraw_address_encoding(delegator, withdraw))
}

/// The message that claims `delegator`'s rewards from `validator`.
pub open spec fn withdraw_reward_any(delegator: Seq<char>, validator: Seq<char>) -> (
    Seq<char>,
    Seq<u8>,
) {
    (WITHDRAW_REWARD_URL@, withdraw_reward_encoding(delegator, validator))
}

/// A message for changing a delegator's reward withdrawal address.
pub fn set_withdraw_rewards_address_msg(
    delegator_address: &String,
    target_withdraw_address: &String,
) -> (r: Result<AnyMsg, ContractError>)
    ensures
        r matches Ok(a) && a.deep_view() == set_withdraw_address_any(
            delegator_address@,
            target_withdraw_address@,
        ),
{
    Ok(encode_set_withdraw_address(delegator_address, target_withdraw_address))
}

/// One claim message per validator, for rewards of `target_address`.
pub fn withdraw_rewards_msgs(target_address: &String, validators: &Vec<String>) -> (r: Result<
    Vec<AnyMsg>,
    ContractError,
>)
    ensures
        r matches Ok(v) && v.deep_view() == validators.deep_view().map_values(
            |val: Seq<char>| withdraw_reward_any(target_address@, val),
        ),
{
    let mut out: Vec<AnyMsg> = Vec::new();
    let mut i: usize = 0;
    while i < validators.len()
        invariant
            i <= validators.len(),
            out.deep_view() == validators.deep_view().take(i as int).map_values(
                |val: Seq<char>| withdraw_reward_any(target_address@, val),
            ),
        decreases validators.len() - i,
    {
        let ghost before = out.deep_view();
        out.push(encode_withdraw_reward(target_address, &validators[i]));
        assert(out.deep_view() =~= before.push(
            withdraw_reward_any(target_address@, validators.deep_view()[i as int]),
        ));
        assert(validators.deep_view().take(i as int + 1) =~= validators.deep_view().take(
            i as int,
        ).push(validators.deep_view()[i as int]));
        i = i + 1;
    }
    assert(validators.deep_view().take(validators.len() as int) =~= validators.deep_view());
    Ok(out)
}

/// The claim bundle: point withdrawals at the contract, claim from each
/// validator, point withdrawals back at the delegator.
pub open spec fn claim_bundle(
    delegator: Seq<char>,
    contract: Seq<char>,
    validators: Seq<Seq<char>>,
) -> Seq<(Seq<char>, Seq<u8>)> {
    seq![set_withdraw_address_any(delegator, contract)] + validators.map_values(
        |val: Seq<char>| withdraw_reward_any(delegator, val),
    ) + seq![set_withdraw_address_any(delegator, delegator)]
}

/// The single authz execution, by the contract, that claims `delegator`'s
/// rewards from each validator into the contract and then points the
/// withdrawal address back at the delegator.
pub fn create_withdraw_rewards_exec_msg(
    delegator_addr: &String,
    contract_addr: &String,
    validators: &Vec<String>,
) -> (r: Result<CosmosMsg, ContractError>)
    ensures
        r matches Ok(m) && m.deep_view() == exec_msg_model(
            contract_addr@,
            claim_bundle(delegator_addr@, contract_addr@, validators.deep_view()),
        ),
{
    let mut claim_rewards_msgs: Vec<AnyMsg> = Vec::new();
    let first = set_withdraw_rewards_address_msg(delegator_addr, contract_addr)?;
    claim_rewards_msgs.push(first);
    let claims = withdraw_rewards_msgs(delegator_addr, validators)?;
    let ghost head = claim_rewards_msgs.deep_view();
    let ghost middle = claims.deep_view();
    let mut claims = claims;
    claim_rewards_msgs.append(&mut claims);
    let ghost body = claim_rewards_msgs.deep_view();
    assert(body =~= head + middle);
    let last = set_withdraw_rewards_address_msg(delegator_addr, delegator_addr)?;
    claim_rewards_msgs.push(last);
    assert(claim_rewards_msgs.deep_view() =~= claim_bundle(
        delegator_addr@,
        contract_addr@,
        validators.deep_view(),
    ));
    Ok(exec_msg(contract_addr, claim_rewards_msgs))
}

} // verus!
