use authzpp::coins::coin;
use authzpp::error::ContractError;
use authzpp::grants::Timestamp;
use authzpp::send_grants::{denoms_allowed, query_active_grant, AllowedDenomsSendSettings, AllowlistSendSettings};
use authzpp::store::{Expirable, GrantStore};

fn s(x: &str) -> String {
    x.to_string()
}

fn allowlist(grantee: &str, seconds: u64) -> AllowlistSendSettings {
    AllowlistSendSettings {
        granter: s("granter"),
        grantee: s(grantee),
        receiver: s("receiver"),
        expiration: Timestamp::from_seconds(seconds),
    }
}

#[test]
fn grants_are_active_up_to_their_expiration() {
    let grant = allowlist("grantee", 100);
    assert!(grant.is_not_expired(Timestamp::from_seconds(100)));
    assert!(!grant.is_expired(Timestamp::from_seconds(100)));
    assert!(grant.is_not_expired(Timestamp::from_seconds(0)));
    assert!(grant.is_expired(Timestamp::from_nanos(100_000_000_001)));
    assert!(!grant.is_not_expired(Timestamp::from_nanos(100_000_000_001)));
}

#[test]
fn save_overwrites_and_remove_deletes() {
    let mut store: GrantStore<String, AllowlistSendSettings> = GrantStore::new();
    store.save(s("a"), allowlist("x", 10));
    store.save(s("a"), allowlist("y", 20));
    assert_eq!(store.len(), 1);
    assert_eq!(store.load(&s("a")).unwrap().grantee, "y");
    store.remove(&s("a"));
    assert_eq!(store.len(), 0);
    store.remove(&s("a"));
    assert!(store.load(&s("a")).is_none());
}

#[test]
fn lapsed_records_read_as_absent_but_stay() {
    let mut store: GrantStore<String, AllowlistSendSettings> = GrantStore::new();
    store.save(s("a"), allowlist("x", 10));
    assert!(store.load_active(&s("a"), Timestamp::from_seconds(10)).is_some());
    assert!(store.load_active(&s("a"), Timestamp::from_seconds(11)).is_none());
    assert!(store.load(&s("a")).is_some());
}

#[test]
fn prune_removes_exactly_the_lapsed_records() {
    let mut store: GrantStore<String, AllowlistSendSettings> = GrantStore::new();
    store.save(s("a"), allowlist("x", 10));
    store.save(s("b"), allowlist("x", 30));
    store.save(s("c"), allowlist("y", 5));
    store.save(s("d"), allowlist("y", 20));
    let now = Timestamp::from_seconds(20);
    assert_eq!(store.prune_expired(now), 2);
    assert_eq!(store.len(), 2);
    assert!(store.load(&s("a")).is_none());
    assert!(store.load(&s("c")).is_none());
    assert_eq!(store.load(&s("b")).unwrap().expiration, Timestamp::from_seconds(30));
    assert_eq!(store.load(&s("d")).unwrap().expiration, Timestamp::from_seconds(20));
    assert_eq!(store.prune_expired(now), 0);
    assert_eq!(store.len(), 2);
}

#[test]
fn listing_by_grantee_skips_lapsed_and_other_grants() {
    let mut store: GrantStore<String, AllowlistSendSettings> = GrantStore::new();
    store.save(s("a"), allowlist("x", 10));
    store.save(s("b"), allowlist("x", 30));
    store.save(s("c"), allowlist("y", 30));
    let found = store.list_active_by_grantee(&s("x"), Timestamp::from_seconds(20));
    assert_eq!(found.len(), 1);
    assert_eq!(found[0].0, "b");
}

#[test]
fn denoms_must_all_be_allowed() {
    let allowed = vec![s("uosmo"), s("ujuno")];
    assert!(denoms_allowed(&allowed, &vec![coin(1, "uosmo"), coin(2, "ujuno")]).is_ok());
    assert!(denoms_allowed(&allowed, &vec![]).is_ok());
    match denoms_allowed(&allowed, &vec![coin(1, "uosmo"), coin(2, "ubtc")]) {
        Err(ContractError::UnauthorizedDenom { allowed_denoms, to_send }) => {
            assert_eq!(allowed_denoms, allowed);
            assert_eq!(to_send, vec![s("uosmo"), s("ubtc")]);
        }
        other => panic!("unexpected {:?}", other),
    }
}

#[test]
fn send_grants_are_found_by_both_addresses() {
    let mut store: GrantStore<(String, String), AllowedDenomsSendSettings> = GrantStore::new();
    store.save(
        (s("granter"), s("grantee")),
        AllowedDenomsSendSettings {
            grantee: s("grantee"),
            allowed_denoms: vec![s("uosmo")],
            expiration: Timestamp::from_seconds(50),
        },
    );
    let now = Timestamp::from_seconds(50);
    let grant = query_active_grant(&store, now, &s("granter"), &s("grantee")).unwrap();
    assert_eq!(grant.allowed_denoms, vec![s("uosmo")]);
    assert!(matches!(
        query_active_grant(&store, now, &s("granter"), &s("other")),
        Err(ContractError::NoActiveSendGrant { .. })
    ));
    assert!(matches!(
        query_active_grant(&store, Timestamp::from_seconds(51), &s("granter"), &s("grantee")),
        Err(ContractError::NoActiveSendGrant { .. })
    ));
}
