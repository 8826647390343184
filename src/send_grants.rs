//! Grants that let a grantee send the granter's tokens: limited to allowed
//! denominations, or to one receiver.

use vstd::prelude::*;

use crate::coins::Coin;
use crate::error::ContractError;
use crate::grants::Timestamp;
use crate::deep_eq::Duplicate;
use crate::store::{active_grant, Expirable, GrantStore};

verus! {

/// The terms of a grant to send tokens of some denominations.
#[derive(Debug, Clone)]
pub struct AllowedDenomsSendSettings {
    /// The address that may send on the granter's behalf.
    pub grantee: String,
    /// The denominations that may be sent.
    pub allowed_denoms: Vec<String>,
    /// When the grant lapses.
    pub expiration: Timestamp,
}

/// What allowed-denomination send terms denote.
pub struct DenomsSendModel {
    pub grantee: Seq<char>,
    pub allowed_denoms: Seq<Seq<char>>,
    pub expiration: Timestamp,
}

impl DeepView for AllowedDenomsSendSettings {
    type V = DenomsSendModel;

    open spec fn deep_view(&self) -> DenomsSendModel {
        DenomsSendModel {
            grantee: self.grantee@,
            allowed_denoms: self.allowed_denoms.deep_view(),
            expiration: self.expiration,
        }
    }
}

impl Duplicate for AllowedDenomsSendSettings {
    fn duplicate(&self) -> (r: Self) {
        AllowedDenomsSendSettings {
            grantee: self.grantee.clone(),
            allowed_denoms: self.allowed_denoms.duplicate(),
            expiration: self.expiration,
        }
    }
}

impl Expirable for AllowedDenomsSendSettings {
    open spec fn expiration_nanos(&self) -> u64 {
        self.expiration.nanos
    }

    open spec fn grantee_address(&self) -> Seq<char> {
        self.grantee@
    }

    fn expiration(&self) -> (r: Timestamp) {
        self.expiration
    }

    fn is_for_grantee(&self, grantee: &String) -> (r: bool) {
        self.grantee == *grantee
    }

    fn is_expired(&self, now: Timestamp) -> (r: bool) {
        now.nanos > self.expiration.nanos
    }

    fn is_not_expired(&self, now: Timestamp) -> (r: bool) {
        now.nanos <= self.expiration.nanos
    }
}

/// The terms of a grant to send tokens to one receiver.
#[derive(Debug, Clone)]
pub struct AllowlistSendSettings {
    /// The address whose funds may be used.
    pub granter: String,
    /// The address that may send on the granter's behalf.
    pub grantee: String,
    /// The only address that may receive.
    pub receiver: String,
    /// When the grant lapses.
    pub expiration: Timestamp,
}

/// What allowlist send terms denote.
pub struct AllowlistSendModel {
    pub granter: Seq<char>,
    pub grantee: Seq<char>,
    pub receiver: Seq<char>,
    pub expiration: Timestamp,
}

impl DeepView for AllowlistSendSettings {
    type V = AllowlistSendModel;

    open spec fn deep_view(&self) -> AllowlistSendModel {
        AllowlistSendModel {
            granter: self.granter@,
            grantee: self.grantee@,
            receiver: self.receiver@,
            expiration: self.expiration,
        }
    }
}

impl Duplicate for AllowlistSendSettings {
    fn duplicate(&self) -> (r: Self) {
        AllowlistSendSettings {
            granter: self.granter.clone(),
            grantee: self.grantee.clone(),
            receiver: self.receiver.clone(),
            expiration: self.expiration,
        }
    }
}

impl Expirable for AllowlistSendSettings {
    open spec fn expiration_nanos(&self) -> u64 {
        self.expiration.nanos
    }

    open spec fn grantee_address(&self) -> Seq<char> {
        self.grantee@
    }

    fn expiration(&self) -> (r: Timestamp) {
        self.expiration
    }

    fn is_for_grantee(&self, grantee: &String) -> (r: bool) {
        self.grantee == *grantee
    }

    fn is_expired(&self, now: Timestamp) -> (r: bool) {
        now.nanos > self.expiration.nanos
    }

    fn is_not_expired(&self, now: Timestamp) -> (r: bool) {
        now.nanos <= self.expiration.nanos
    }
}

/// Every coin to be sent is of an allowed denomination.
pub open spec fn all_denoms_allowed(allowed: Seq<Seq<char>>, to_send: Seq<crate::coins::CoinModel>) -> bool {
    forall|i: int| 0 <= i < to_send.len() ==> allowed.contains(#[trigger] to_send[i].denom)
}

/// Checks that every coin to be sent is of an allowed denomination.
pub fn denoms_allowed(allowed_denoms: &Vec<String>, to_send: &Vec<Coin>) -> (r: Result<
    (),
    ContractError,
>)
    ensures
        r is Ok <==> all_denoms_allowed(allowed_denoms.deep_view(), to_send.deep_view()),
        r matches Err(e) ==> e matches ContractError::UnauthorizedDenom { allowed_denoms: a, to_send: t }
            && a.deep_view() == allowed_denoms.deep_view() && t.deep_view()
            == to_send.deep_view().map_values(|c: crate::coins::CoinModel| c.denom),
{
    let mut i: usize = 0;
    while i < to_send.len()
        invariant
            i <= to_send.len(),
            forall|k: int|
                0 <= k < i ==> allowed_denoms.deep_view().contains(
                    #[trigger] to_send.deep_view()[k].denom,
                ),
        decreases to_send.len() - i,
    {
        if !crate::deep_eq::deep_contains(allowed_denoms, &to_send[i].denom) {
            let mut denoms: Vec<String> = Vec::new();
            let mut j: usize = 0;
            while j < to_send.len()
                invariant
                    j <= to_send.len(),
                    denoms.deep_view() == to_send.deep_view().take(j as int).map_values(
                        |c: crate::coins::CoinModel| c.denom,
                    ),
                decreases to_send.len() - j,
            {
                let ghost before = denoms.deep_view();
                denoms.push(to_send[j].denom.clone());
                assert(denoms.deep_view() =~= before.push(to_send.deep_view()[j as int].denom));
                assert(to_send.deep_view().take(j as int + 1) =~= to_send.deep_view().take(
                    j as int,
                ).push(to_send.deep_view()[j as int]));
                j = j + 1;
            }
            assert(to_send.deep_view().take(to_send.len() as int) =~= to_send.deep_view());
            assert(!allowed_denoms.deep_view().contains(to_send.deep_view()[i as int].denom));
            return Err(
                ContractError::UnauthorizedDenom { allowed_denoms: allowed_denoms.duplicate(), to_send: denoms },
            );
        }
        i = i + 1;
    }
    Ok(())
}

/// The active grant from `granter_addr` to `grantee_addr`.
pub fn query_active_grant(
    store: &GrantStore<(String, String), AllowedDenomsSendSettings>,
    now: Timestamp,
    granter_addr: &String,
    grantee_addr: &String,
) -> (r: Result<AllowedDenomsSendSettings, ContractError>)
    requires
        store.wf(),
    ensures
        match active_grant(store.records(), (granter_addr@, grantee_addr@), now) {
            Some(g) => if g.grantee@ == grantee_addr@ {
                r matches Ok(s) && s.deep_view() == g.deep_view()
            } else {
                r matches Err(ContractError::NoActiveSendGrant { .. })
            },
            None => r matches Err(ContractError::NoActiveSendGrant { .. }),
        },
{
    let key = (granter_addr.clone(), grantee_addr.clone());
    assert(key.deep_view() == (granter_addr@, grantee_addr@));
    match store.load_active(&key, now) {
        Some(grant) => {
            if grant.grantee == *grantee_addr {
                return Ok(grant.duplicate());
            }
        },
        None => {},
    }
    Err(
        ContractError::NoActiveSendGrant {
            granter: granter_addr.clone(),
            grantee: grantee_addr.clone(),
        },
    )
}

} // verus!
