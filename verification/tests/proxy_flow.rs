//! The authorization policy, the approval queue, and the owner's
//! confirmation workflow.

use wallet_proxy::service::WalletService;
use wallet_proxy::types::{
    CallCanisterArgs, ConfirmAction, Decision, DenyReason, Identity, Method, MethodType,
    MethodValidationType, OwnerReply, ProxyActorItem, ProxyActorTargets,
};
use wallet_proxy::call::map_forward_outcome;

fn ident(b: &[u8]) -> Identity {
    Identity::new(b.to_vec())
}

fn scope_one(
    target: &[u8],
    method: &str,
    method_type: MethodType,
    key_operation: bool,
) -> ProxyActorTargets {
    ProxyActorTargets {
        expiration: None,
        targets: vec![ProxyActorItem {
            canister: ident(target),
            methods: vec![Method {
                name: method.to_string(),
                method_type,
                key_operation,
            }],
        }],
    }
}

fn args_for(target: &[u8], method: &str) -> CallCanisterArgs {
    CallCanisterArgs {
        canister: ident(target),
        method_name: method.to_string(),
        args: vec![0xde, 0xad],
        cycles: 0,
    }
}

#[test]
fn owner_bypasses_scope_checks() {
    let svc = WalletService::new();
    let owner = ident(&[1]);
    let d = svc.authorize(2, &owner, true, &ident(&[7]), &"anything".to_string());
    assert_eq!(d, Decision::Allow);
}

#[test]
fn denylist_binds_even_the_owner() {
    let mut svc = WalletService::new();
    let target = ident(&[7]);
    svc.add_proxy_black_list(&target);
    let d = svc.authorize(2, &ident(&[1]), true, &target, &"m".to_string());
    assert_eq!(d, Decision::Deny(DenyReason::Blacklisted));
}

#[test]
fn authorize_is_deterministic() {
    let mut svc = WalletService::new();
    let u = ident(&[2]);
    svc.add_expiry_user(0, u.clone(), scope_one(&[7], "f", MethodType::CALL, false));
    let d1 = svc.authorize(2, &u, false, &ident(&[7]), &"f".to_string());
    let d2 = svc.authorize(2, &u, false, &ident(&[7]), &"f".to_string());
    assert_eq!(d1, d2);
}

#[test]
fn uncovered_target_and_method_are_denied() {
    let mut svc = WalletService::new();
    let u = ident(&[2]);
    svc.add_expiry_user(0, u.clone(), scope_one(&[7], "f", MethodType::CALL, false));
    let d = svc.authorize(2, &u, false, &ident(&[8]), &"f".to_string());
    assert_eq!(d, Decision::Deny(DenyReason::TargetNotCovered));
    let d = svc.authorize(2, &u, false, &ident(&[7]), &"g".to_string());
    assert_eq!(d, Decision::Deny(DenyReason::MethodNotCovered));
}

#[test]
fn mode_all_queues_every_scoped_call() {
    let mut svc = WalletService::new();
    let u = ident(&[2]);
    svc.add_expiry_user(0, u.clone(), scope_one(&[7], "f", MethodType::QUERY, false));
    assert_eq!(
        svc.get_method_validate_type(),
        MethodValidationType::ALL
    );
    let d = svc.authorize(2, &u, false, &ident(&[7]), &"f".to_string());
    assert_eq!(d, Decision::RequireApproval);
}

#[test]
fn mode_update_gates_only_state_changing_calls() {
    let mut svc = WalletService::new();
    svc.set_method_validate_type(MethodValidationType::UPDATE);
    let u = ident(&[2]);
    svc.add_expiry_user(0, u.clone(), scope_one(&[7], "w", MethodType::CALL, false));
    assert_eq!(
        svc.authorize(2, &u, false, &ident(&[7]), &"w".to_string()),
        Decision::RequireApproval
    );
    let q = ident(&[3]);
    svc.add_expiry_user(0, q.clone(), scope_one(&[7], "r", MethodType::QUERY, false));
    assert_eq!(
        svc.authorize(2, &q, false, &ident(&[7]), &"r".to_string()),
        Decision::Allow
    );
}

#[test]
fn mode_key_gates_only_key_operations() {
    let mut svc = WalletService::new();
    svc.set_method_validate_type(MethodValidationType::KEY);
    let u = ident(&[2]);
    svc.add_expiry_user(0, u.clone(), scope_one(&[7], "rotate", MethodType::QUERY, true));
    assert_eq!(
        svc.authorize(2, &u, false, &ident(&[7]), &"rotate".to_string()),
        Decision::RequireApproval
    );
    let v = ident(&[3]);
    svc.add_expiry_user(0, v.clone(), scope_one(&[7], "read", MethodType::CALL, false));
    assert_eq!(
        svc.authorize(2, &v, false, &ident(&[7]), &"read".to_string()),
        Decision::Allow
    );
}

#[test]
fn submit_is_idempotent_for_identical_inputs() {
    let mut svc = WalletService::new();
    let u = ident(&[2]);
    svc.add_expiry_user(0, u.clone(), scope_one(&[7], "f", MethodType::CALL, false));
    let h1 = match svc.targets_guard(1000, &u, false, args_for(&[7], "f")) {
        Ok(Some(h)) => h,
        other => panic!("expected a queued hash, got {:?}", other),
    };
    let h2 = match svc.targets_guard(1000, &u, false, args_for(&[7], "f")) {
        Ok(Some(h)) => h,
        other => panic!("expected a queued hash, got {:?}", other),
    };
    assert_eq!(h1, h2);
    // only one entry exists: removing once empties the queue for this hash
    assert_eq!(svc.remove_queue_method(h1.clone()), Some(h1.clone()));
    assert_eq!(svc.remove_queue_method(h1), None);
}

#[test]
fn queued_hash_is_the_documented_digest() {
    let mut svc = WalletService::new();
    let u = ident(&[2, 2]);
    svc.add_expiry_user(0, u.clone(), scope_one(&[7, 7], "f", MethodType::CALL, false));
    let h = match svc.targets_guard(99, &u, false, args_for(&[7, 7], "f")) {
        Ok(Some(h)) => h,
        other => panic!("expected a queued hash, got {:?}", other),
    };
    let mut sha = <sha2::Sha256 as sha2::Digest>::new();
    sha2::Digest::update(&mut sha, &[2u8, 2]);
    sha2::Digest::update(&mut sha, &[7u8, 7]);
    sha2::Digest::update(&mut sha, "f".as_bytes());
    sha2::Digest::update(&mut sha, 99u64.to_be_bytes().as_slice());
    let expected = hex::encode(sha2::Digest::finalize(sha).as_slice());
    assert_eq!(h, expected);
    assert_eq!(h.len(), 64);
}

#[test]
fn owner_allow_path_does_not_queue() {
    let mut svc = WalletService::new();
    let owner = ident(&[1]);
    let r = svc.targets_guard(0, &owner, true, args_for(&[7], "f"));
    assert!(matches!(r, Ok(None)));
    assert_eq!(svc.store.call_queue.len(), 0);
}

#[test]
fn confirm_approved_success_records_the_response() {
    // a delegate's update call is queued under UPDATE mode, the owner
    // approves, the transport returns [0x01], and the reply reads back as
    // Approved(Ok([0x01]))
    let mut svc = WalletService::new();
    svc.set_method_validate_type(MethodValidationType::UPDATE);
    let u = ident(&[2]);
    svc.add_expiry_user(0, u.clone(), scope_one(&[7], "withdraw", MethodType::CALL, false));
    assert_eq!(
        svc.authorize(2, &u, false, &ident(&[7]), &"withdraw".to_string()),
        Decision::RequireApproval
    );
    let h = match svc.targets_guard(5, &u, false, args_for(&[7], "withdraw")) {
        Ok(Some(h)) => h,
        other => panic!("expected a queued hash, got {:?}", other),
    };
    let payload = match svc.owner_confirm_prepare(&h, true) {
        ConfirmAction::Execute(p) => p,
        other => panic!("expected an execution step, got {:?}", other),
    };
    assert_eq!(payload.method_name, "withdraw");
    let outcome = map_forward_outcome(Ok(vec![0x01]));
    let reply = OwnerReply::Approved(outcome);
    svc.update_queue_reply(h.clone(), reply);
    match svc.get_queue_reply(h) {
        Some(OwnerReply::Approved(Ok(res))) => assert_eq!(res.ret, vec![0x01]),
        other => panic!("expected an approved success, got {:?}", other),
    }
}

#[test]
fn confirm_approved_failure_is_never_left_pending() {
    let mut svc = WalletService::new();
    let u = ident(&[2]);
    svc.add_expiry_user(0, u.clone(), scope_one(&[7], "f", MethodType::CALL, false));
    let h = match svc.targets_guard(5, &u, false, args_for(&[7], "f")) {
        Ok(Some(h)) => h,
        other => panic!("expected a queued hash, got {:?}", other),
    };
    // before resolution the disposition is pending
    assert_eq!(svc.get_queue_reply(h.clone()), Some(OwnerReply::NotFound));
    let outcome = map_forward_outcome(Err((5, "transport down".to_string())));
    svc.update_queue_reply(h.clone(), OwnerReply::Approved(outcome));
    match svc.get_queue_reply(h) {
        Some(OwnerReply::Approved(Err(msg))) => {
            assert_eq!(msg, "An error happened during the call: 5: transport down");
        }
        other => panic!("expected an approved failure, got {:?}", other),
    }
}

#[test]
fn confirm_rejection_is_recorded() {
    let mut svc = WalletService::new();
    let u = ident(&[2]);
    svc.add_expiry_user(0, u.clone(), scope_one(&[7], "f", MethodType::CALL, false));
    let h = match svc.targets_guard(5, &u, false, args_for(&[7], "f")) {
        Ok(Some(h)) => h,
        other => panic!("expected a queued hash, got {:?}", other),
    };
    match svc.owner_confirm_prepare(&h, false) {
        ConfirmAction::Refuse => {}
        other => panic!("expected a refusal step, got {:?}", other),
    }
    svc.update_queue_reply(h.clone(), OwnerReply::Rejected(h.clone()));
    assert_eq!(svc.get_queue_reply(h.clone()), Some(OwnerReply::Rejected(h)));
}

#[test]
fn confirm_unknown_hash_reports_missing() {
    let svc = WalletService::new();
    match svc.owner_confirm_prepare(&"no-such-hash".to_string(), true) {
        ConfirmAction::MissingEntry => {}
        other => panic!("expected a missing entry, got {:?}", other),
    }
    assert_eq!(svc.get_queue_reply("no-such-hash".to_string()), None);
}

#[test]
fn queue_removal_is_guarded() {
    let mut svc = WalletService::new();
    let u = ident(&[2]);
    let stranger = ident(&[3]);
    svc.add_expiry_user(0, u.clone(), scope_one(&[7], "f", MethodType::CALL, false));
    let h = match svc.targets_guard(5, &u, false, args_for(&[7], "f")) {
        Ok(Some(h)) => h,
        other => panic!("expected a queued hash, got {:?}", other),
    };
    // a stranger is refused
    assert_eq!(
        svc.remove_queue_method_guarded(h.clone(), &stranger, false),
        Err("Not Authorized Execution".to_string())
    );
    // the requester may remove their own entry
    assert_eq!(svc.remove_queue_method_guarded(h.clone(), &u, false), Ok(true));
    // removing an unknown hash reports that nothing was there
    assert_eq!(svc.remove_queue_method_guarded(h, &stranger, false), Ok(false));
}

#[test]
fn listing_shows_only_resolved_entries_of_the_user() {
    let mut svc = WalletService::new();
    let u = ident(&[2]);
    let v = ident(&[3]);
    svc.add_expiry_user(0, u.clone(), scope_one(&[7], "f", MethodType::CALL, false));
    svc.add_expiry_user(0, v.clone(), scope_one(&[7], "f", MethodType::CALL, false));
    let hu = match svc.targets_guard(5, &u, false, args_for(&[7], "f")) {
        Ok(Some(h)) => h,
        other => panic!("expected a queued hash, got {:?}", other),
    };
    let hv = match svc.targets_guard(6, &v, false, args_for(&[7], "f")) {
        Ok(Some(h)) => h,
        other => panic!("expected a queued hash, got {:?}", other),
    };
    // nothing resolved yet: the listing is empty
    assert!(svc.get_queue_unconfirmed(&u).is_empty());
    svc.update_queue_reply(hu.clone(), OwnerReply::Rejected(hu.clone()));
    svc.update_queue_reply(hv.clone(), OwnerReply::Rejected(hv.clone()));
    let listed = svc.get_queue_unconfirmed(&u);
    assert_eq!(listed.len(), 1);
    assert_eq!(listed[0].hash, hu);
    assert_eq!(listed[0].user, u);
    assert_eq!(listed[0].time_stamp, 5);
}

#[test]
fn guard_admits_owner_and_live_delegates_only() {
    let mut svc = WalletService::new();
    let u = ident(&[2]);
    let mut t = scope_one(&[7], "f", MethodType::CALL, false);
    t.expiration = Some(10);
    svc.add_expiry_user(100, u.clone(), t);
    assert!(svc.owner_or_valid_user_guard(105, &ident(&[1]), true));
    assert!(svc.owner_or_valid_user_guard(105, &u, false));
    assert!(!svc.owner_or_valid_user_guard(110, &u, false));
    // the failed check evicted the record
    assert!(svc.get_expiry_user(&u).is_none());
}

#[test]
fn expired_unswept_record_grants_nothing() {
    // an expired record can sit in the registry until a sweep or an
    // evicting check reaches it; it covers nothing and authorizes nothing
    let mut svc = WalletService::new();
    let u = ident(&[2]);
    let target = ident(&[7]);
    let mut t = scope_one(&[7], "f", MethodType::CALL, false);
    t.expiration = Some(10);
    svc.add_expiry_user(100, u.clone(), t);
    // before the expiry instant the scope applies
    assert!(svc.is_valid_canister(109, &u, &target));
    // from the expiry instant on it does not, though the record is still
    // stored: these reads do not evict
    assert!(!svc.is_valid_canister(110, &u, &target));
    assert!(!svc.is_valid_canister_method(110, &u, &target, &"f".to_string()));
    assert!(!svc.is_method_key_oper(110, &u, &target, &"f".to_string()));
    assert!(svc.get_expiry_user(&u).is_some());
    assert_eq!(
        svc.authorize(110, &u, false, &target, &"f".to_string()),
        Decision::Deny(DenyReason::TargetNotCovered)
    );
    match svc.targets_guard(110, &u, false, args_for(&[7], "f")) {
        Err(DenyReason::TargetNotCovered) => {}
        other => panic!("expected a denial, got {:?}", other),
    }
    assert_eq!(svc.store.call_queue.len(), 0);
}
