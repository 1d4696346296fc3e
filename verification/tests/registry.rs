//! The delegation registry: grants, replacement, the liveness window with
//! lazy eviction, and the sweep.

use wallet_proxy::service::WalletService;
use wallet_proxy::types::{
    Identity, Method, MethodType, ProxyActorItem, ProxyActorTargets,
};

fn ident(b: &[u8]) -> Identity {
    Identity::new(b.to_vec())
}

fn scope_one(target: &[u8], method: &str, method_type: MethodType, key_operation: bool) -> ProxyActorTargets {
    ProxyActorTargets {
        expiration: None,
        targets: vec![ProxyActorItem {
            canister: ident(target),
            methods: vec![Method {
                name: method.to_string(),
                method_type,
                key_operation,
            }],
        }],
    }
}

#[test]
fn grant_stores_record_with_window() {
    let mut svc = WalletService::new();
    let u = ident(&[1]);
    let mut targets = scope_one(&[7], "withdraw", MethodType::CALL, false);
    targets.expiration = Some(1000);
    let rec = svc.add_expiry_user(500, u.clone(), targets);
    assert_eq!(rec.user, u);
    assert_eq!(rec.timestamp, 500);
    assert_eq!(rec.expiry_timestamp, 1500);
    let got = svc.get_expiry_user(&u).expect("record must be there");
    assert_eq!(got.timestamp, 500);
    assert_eq!(got.expiry_timestamp, 1500);
    assert_eq!(got.target_list.len(), 1);
}

#[test]
fn grant_uses_default_lifetime_when_none_given() {
    let mut svc = WalletService::new();
    assert_eq!(svc.store.settings.expiry_period, 604800000000000);
    let u = ident(&[1]);
    let rec = svc.add_expiry_user(10, u, scope_one(&[7], "f", MethodType::QUERY, false));
    assert_eq!(rec.expiry_timestamp, 10 + 604800000000000);
}

#[test]
fn liveness_window_and_lazy_eviction() {
    let mut svc = WalletService::new();
    let u = ident(&[2]);
    let mut targets = scope_one(&[7], "f", MethodType::QUERY, false);
    targets.expiration = Some(10);
    svc.add_expiry_user(100, u.clone(), targets);
    // strictly before the expiry instant: live
    assert!(svc.is_valid_user(109, &u));
    // the record is still there after a true check
    assert!(svc.get_expiry_user(&u).is_some());
    // at the expiry instant the record is no longer live, and the first
    // false observation evicts it
    assert!(!svc.is_valid_user(110, &u));
    assert!(svc.get_expiry_user(&u).is_none());
    // a later check still reports false
    assert!(!svc.is_valid_user(111, &u));
}

#[test]
fn regrant_replaces_scope_entirely() {
    let mut svc = WalletService::new();
    let u = ident(&[3]);
    let old_target = ident(&[7]);
    let new_target = ident(&[8]);
    svc.add_expiry_user(0, u.clone(), scope_one(&[7], "f", MethodType::QUERY, false));
    assert!(svc.is_valid_canister(2, &u, &old_target));
    svc.add_expiry_user(1, u.clone(), scope_one(&[8], "g", MethodType::CALL, false));
    assert!(!svc.is_valid_canister(2, &u, &old_target));
    assert!(svc.is_valid_canister(2, &u, &new_target));
    assert!(!svc.is_valid_canister_method(2, &u, &old_target, &"f".to_string()));
    assert!(svc.is_valid_canister_method(2, &u, &new_target, &"g".to_string()));
}

#[test]
fn zero_lifetime_grant_is_born_expired() {
    let mut svc = WalletService::new();
    svc.set_expiry_period(0);
    let u = ident(&[4]);
    let rec = svc.add_expiry_user(42, u.clone(), scope_one(&[7], "f", MethodType::QUERY, false));
    assert_eq!(rec.expiry_timestamp, 42);
    // the first liveness check returns false and evicts the record
    assert!(!svc.is_valid_user(42, &u));
    assert!(svc.get_expiry_user(&u).is_none());
}

#[test]
fn sweep_runs_on_grant() {
    let mut svc = WalletService::new();
    let stale = ident(&[5]);
    let fresh = ident(&[6]);
    let mut t1 = scope_one(&[7], "f", MethodType::QUERY, false);
    t1.expiration = Some(10);
    svc.add_expiry_user(0, stale.clone(), t1);
    // granting at a later instant sweeps the expired record out
    let mut t2 = scope_one(&[8], "g", MethodType::QUERY, false);
    t2.expiration = Some(10);
    svc.add_expiry_user(50, fresh.clone(), t2);
    assert!(svc.get_expiry_user(&stale).is_none());
    assert!(svc.get_expiry_user(&fresh).is_some());
}

#[test]
fn remove_all_expiries_keeps_live_records() {
    let mut svc = WalletService::new();
    let a = ident(&[1]);
    let b = ident(&[2]);
    let mut ta = scope_one(&[7], "f", MethodType::QUERY, false);
    ta.expiration = Some(10);
    svc.add_expiry_user(0, a.clone(), ta);
    let mut tb = scope_one(&[7], "f", MethodType::QUERY, false);
    tb.expiration = Some(100);
    svc.add_expiry_user(0, b.clone(), tb);
    svc.remove_all_expiries(50);
    assert!(svc.get_expiry_user(&a).is_none());
    assert!(svc.get_expiry_user(&b).is_some());
}

#[test]
fn revoke_returns_the_removed_record() {
    let mut svc = WalletService::new();
    let u = ident(&[9]);
    svc.add_expiry_user(0, u.clone(), scope_one(&[7], "f", MethodType::QUERY, false));
    let removed = svc.remove_expiry_user(&u);
    assert!(removed.is_some());
    assert_eq!(removed.unwrap().user, u);
    assert!(svc.remove_expiry_user(&u).is_none());
}

#[test]
fn remove_if_expiry_only_evicts_expired() {
    let mut svc = WalletService::new();
    let u = ident(&[9]);
    let mut t = scope_one(&[7], "f", MethodType::QUERY, false);
    t.expiration = Some(10);
    svc.add_expiry_user(100, u.clone(), t);
    svc.remove_if_expiry(105, &u);
    assert!(svc.get_expiry_user(&u).is_some());
    svc.remove_if_expiry(110, &u);
    assert!(svc.get_expiry_user(&u).is_none());
}

#[test]
fn upgrade_round_trip_keeps_state() {
    let mut svc = WalletService::new();
    let u = ident(&[1]);
    svc.add_expiry_user(0, u.clone(), scope_one(&[7], "f", MethodType::QUERY, false));
    svc.set_expiry_period(123);
    let snapshot = wallet_proxy::service::pre_upgrade(&svc);
    let restored = wallet_proxy::service::post_upgrade(snapshot);
    assert_eq!(restored.store.settings.expiry_period, 123);
    assert!(restored.get_expiry_user(&u).is_some());
}
