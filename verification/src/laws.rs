//! The laws of the proxy, stated over the model and proved once and for
//! all: the liveness window of a delegation, replacement on re-grant,
//! determinism of the policy, deny-list precedence, idempotent submission,
//! and that a resolved entry never reads as pending.

use vstd::prelude::*;
use crate::types::{ExpiryUserV, MethodQueueItemV, OwnerReplyV, WalletStoreV, Decision, DenyReason};
use crate::model::{
    eu_unique, eu_has, eu_at, eu_lookup, eu_remove, eu_upsert, eu_sweep, lemma_eu_remove,
    lemma_eu_upsert, lemma_eu_sweep, q_unique, q_has, q_at, q_lookup, q_submit, q_set_reply,
    lemma_q_submit, lemma_q_set_reply, bl_has, scope_covers_target, spec_authorize,
};

verus! {

/// A delegate with a record is live strictly before its expiry and not
/// live strictly after it.
pub proof fn lemma_live_window(st: WalletStoreV, u: Seq<u8>, now: u64)
    requires
        eu_has(st.expiry_users, u),
    ensures
        now < eu_at(st.expiry_users, u).expiry_timestamp ==> st.is_live(u, now),
        now > eu_at(st.expiry_users, u).expiry_timestamp ==> !st.is_live(u, now),
{
}

/// Once a liveness check came back `false`, the record is gone: checking
/// evicts, and a later lookup finds nothing.
pub proof fn lemma_eviction_after_false(st: WalletStoreV, u: Seq<u8>, now: u64)
    requires
        st.wf(),
        !st.is_live(u, now),
    ensures
        !eu_has(eu_remove(st.expiry_users, u), u),
{
    lemma_eu_remove(st.expiry_users, u);
}

/// Granting anew replaces the old record entirely: afterwards the
/// delegate's record is exactly the new one, and target coverage at any
/// probe instant reflects only the new scope and the new window.
pub proof fn lemma_grant_replaces_scope(
    s: Seq<ExpiryUserV>,
    now: u64,
    granted: ExpiryUserV,
    target: Seq<u8>,
    probe: u64,
)
    requires
        eu_unique(s),
    ensures
        eu_lookup(eu_upsert(eu_sweep(s, now), granted), granted.user) == Some(granted),
        forall|st: WalletStoreV|
            st.expiry_users == eu_upsert(eu_sweep(s, now), granted) ==> #[trigger] st.covers_target(
                granted.user,
                target,
                probe,
            ) == (granted.expiry_timestamp > probe && scope_covers_target(
                granted.target_list,
                target,
            )),
{
    lemma_eu_sweep(s, now);
    lemma_eu_upsert(eu_sweep(s, now), granted);
}

/// The policy is a function: two decisions over one store, one request and
/// one instant are the same decision.
pub proof fn lemma_authorize_deterministic(
    st: WalletStoreV,
    caller: Seq<u8>,
    caller_is_owner: bool,
    target: Seq<u8>,
    method: Seq<char>,
    now: u64,
    d1: Decision,
    d2: Decision,
)
    requires
        d1 == spec_authorize(st, caller, caller_is_owner, target, method, now),
        d2 == spec_authorize(st, caller, caller_is_owner, target, method, now),
    ensures
        d1 == d2,
{
}

/// The deny list binds before everything else: a deny-listed target is
/// denied for every caller, the owner included.
pub proof fn lemma_denylist_precedence(
    st: WalletStoreV,
    caller: Seq<u8>,
    caller_is_owner: bool,
    target: Seq<u8>,
    method: Seq<char>,
    now: u64,
)
    requires
        bl_has(st.settings.proxy_black_list, target),
    ensures
        spec_authorize(st, caller, caller_is_owner, target, method, now) == Decision::Deny(
            DenyReason::Blacklisted,
        ),
{
}

/// A delegate whose record has expired is denied, even while the record
/// still sits in the registry awaiting a sweep or an evicting check.
pub proof fn lemma_expired_delegate_denied(
    st: WalletStoreV,
    caller: Seq<u8>,
    target: Seq<u8>,
    method: Seq<char>,
    now: u64,
)
    requires
        !bl_has(st.settings.proxy_black_list, target),
        !st.is_live(caller, now),
    ensures
        spec_authorize(st, caller, false, target, method, now) == Decision::Deny(
            DenyReason::TargetNotCovered,
        ),
{
}

/// Submission is idempotent: submitting the same entry again changes
/// nothing, the hash stays bound to the first entry, and the queue still
/// holds one entry per hash.
pub proof fn lemma_submit_idempotent(q: Seq<MethodQueueItemV>, item: MethodQueueItemV)
    requires
        q_unique(q),
    ensures
        q_unique(q_submit(q, item)),
        q_submit(q_submit(q, item), item) == q_submit(q, item),
        q_lookup(q_submit(q_submit(q, item), item), item.hash) == q_lookup(
            q_submit(q, item),
            item.hash,
        ),
{
    lemma_q_submit(q, item);
    if !q_has(q, item.hash) {
        assert(q_submit(q, item) == q.push(item));
        assert(q.push(item)[q.len() as int] == item);
        assert(q_has(q.push(item), item.hash));
    }
}

/// A recorded resolution is never pending: once the owner's disposition is
/// written, the entry reads back with exactly that disposition. In
/// particular a failed forward reads back as `Approved(Err(..))`, not as
/// pending.
pub proof fn lemma_resolution_recorded(q: Seq<MethodQueueItemV>, h: Seq<char>, rep: OwnerReplyV)
    requires
        q_unique(q),
        q_has(q, h),
        rep != OwnerReplyV::NotFound,
    ensures
        q_has(q_set_reply(q, h, rep), h),
        q_at(q_set_reply(q, h, rep), h).owner_reply == rep,
        q_at(q_set_reply(q, h, rep), h).owner_reply != OwnerReplyV::NotFound,
        q_at(q_set_reply(q, h, rep), h).payload == q_at(q, h).payload,
{
    lemma_q_set_reply(q, h, rep);
}

/// A grant with lifetime zero is already expired: the record is there, but
/// the first liveness check at any instant from `now` on fails (and
/// evicts it).
pub proof fn lemma_zero_lifetime_grant(
    s: Seq<ExpiryUserV>,
    now: u64,
    granted: ExpiryUserV,
    later: u64,
)
    requires
        eu_unique(s),
        granted.expiry_timestamp == now,
        later >= now,
    ensures
        eu_lookup(eu_upsert(eu_sweep(s, now), granted), granted.user) == Some(granted),
        eu_at(eu_upsert(eu_sweep(s, now), granted), granted.user).expiry_timestamp <= later,
        forall|st: WalletStoreV|
            st.expiry_users == eu_upsert(eu_sweep(s, now), granted) ==> !(
            #[trigger] st.is_live(granted.user, later)),
{
    lemma_eu_sweep(s, now);
    lemma_eu_upsert(eu_sweep(s, now), granted);
}

} // verus!
