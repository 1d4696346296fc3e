//! The call executor's verified parts and the deny list's display text.

use wallet_proxy::call::{map_forward_outcome, wallet_call_precheck};
use wallet_proxy::service::WalletService;
use wallet_proxy::types::{CallCanisterArgs, Identity};

fn ident(b: &[u8]) -> Identity {
    Identity::new(b.to_vec())
}

fn args_for(target: &[u8]) -> CallCanisterArgs {
    CallCanisterArgs {
        canister: ident(target),
        method_name: "m".to_string(),
        args: vec![],
        cycles: 7,
    }
}

#[test]
fn self_call_is_rejected_without_transport() {
    let me = ident(&[9, 9]);
    let r = wallet_call_precheck(&me, &args_for(&[9, 9]));
    assert_eq!(
        r,
        Err(
            "Attempted to call forward on self. This is not allowed. Call this method via a different custodian."
                .to_string()
        )
    );
}

#[test]
fn other_targets_pass_the_precheck() {
    let me = ident(&[9, 9]);
    assert_eq!(wallet_call_precheck(&me, &args_for(&[9, 8])), Ok(()));
}

#[test]
fn success_bytes_pass_through_verbatim() {
    let r = map_forward_outcome(Ok(vec![1, 2, 3]));
    assert_eq!(r.unwrap().ret, vec![1, 2, 3]);
}

#[test]
fn transport_failures_are_formatted_with_code_and_message() {
    let r = map_forward_outcome(Err((0, "zero".to_string())));
    assert_eq!(r, Err("An error happened during the call: 0: zero".to_string()));
    let r = map_forward_outcome(Err((42, "busy".to_string())));
    assert_eq!(r, Err("An error happened during the call: 42: busy".to_string()));
    let r = map_forward_outcome(Err((255, "".to_string())));
    assert_eq!(r, Err("An error happened during the call: 255: ".to_string()));
}

#[test]
fn denylist_text_is_the_principal_text_form() {
    let mut svc = WalletService::new();
    let target = ident(&[0xab, 0xcd, 0x01]);
    let text = svc.add_proxy_black_list(&target);
    let expected = candid::Principal::from_slice(&[0xab, 0xcd, 0x01]).to_text();
    assert_eq!(text, expected);
    assert!(svc.is_proxy_black_list(&target));
    // inserting again keeps the first entry and returns its text
    let again = svc.add_proxy_black_list(&target);
    assert_eq!(again, expected);
    // removal returns the stored text; a second removal finds nothing
    assert_eq!(svc.remove_proxy_black_list(&target), Some(expected));
    assert_eq!(svc.remove_proxy_black_list(&target), None);
    assert!(!svc.is_proxy_black_list(&target));
}

#[test]
fn queue_entry_hash_matches_the_built_item() {
    let u = ident(&[4]);
    let item = WalletService::hash_method(&u, args_for(&[5]), 77);
    let mut sha = <sha2::Sha256 as sha2::Digest>::new();
    sha2::Digest::update(&mut sha, &[4u8]);
    sha2::Digest::update(&mut sha, &[5u8]);
    sha2::Digest::update(&mut sha, "m".as_bytes());
    sha2::Digest::update(&mut sha, 77u64.to_be_bytes().as_slice());
    assert_eq!(item.hash, hex::encode(sha2::Digest::finalize(sha).as_slice()));
    assert_eq!(item.user, u);
    assert_eq!(item.time_stamp, 77);
    assert_eq!(item.payload.cycles, 7);
}
