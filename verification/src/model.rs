//! The mathematical model of the store: the three keyed collections
//! (delegation records by delegate, queued requests by hash, deny-list
//! entries by target) with lookup, removal, replacement and sweep at the
//! specification level, and the lemmas that give them map-like behaviour.

use vstd::prelude::*;
use crate::types::{ExpiryUserV, MethodQueueItemV, BlackListEntryV, OwnerReplyV, QueueHashV,
    MethodV, ProxyActorItemV, WalletStoreV, MethodType, MethodValidationType, Decision, DenyReason};

verus! {

// ---------------------------------------------------------------------------
// Delegation records, keyed by the delegate's identity bytes.
// ---------------------------------------------------------------------------

pub open spec fn eu_unique(s: Seq<ExpiryUserV>) -> bool {
    forall|i: int, j: int| 0 <= i < j < s.len() ==> s[i].user != s[j].user
}

pub open spec fn eu_has(s: Seq<ExpiryUserV>, u: Seq<u8>) -> bool {
    exists|i: int| 0 <= i < s.len() && s[i].user == u
}

pub open spec fn eu_index(s: Seq<ExpiryUserV>, u: Seq<u8>) -> int
    recommends
        eu_has(s, u),
{
    choose|i: int| 0 <= i < s.len() && s[i].user == u
}

pub open spec fn eu_at(s: Seq<ExpiryUserV>, u: Seq<u8>) -> ExpiryUserV
    recommends
        eu_has(s, u),
{
    s[eu_index(s, u)]
}

pub open spec fn eu_lookup(s: Seq<ExpiryUserV>, u: Seq<u8>) -> Option<ExpiryUserV> {
    if eu_has(s, u) {
        Some(eu_at(s, u))
    } else {
        None
    }
}

/// The registry without the record of `u`, if any.
pub open spec fn eu_remove(s: Seq<ExpiryUserV>, u: Seq<u8>) -> Seq<ExpiryUserV> {
    if eu_has(s, u) {
        s.remove(eu_index(s, u))
    } else {
        s
    }
}

/// The registry with the record of `e.user` replaced by `e`, or `e` appended
/// when the delegate had none.
pub open spec fn eu_upsert(s: Seq<ExpiryUserV>, e: ExpiryUserV) -> Seq<ExpiryUserV> {
    if eu_has(s, e.user) {
        s.update(eu_index(s, e.user), e)
    } else {
        s.push(e)
    }
}

/// The registry without every record already expired at `now`.
pub open spec fn eu_sweep(s: Seq<ExpiryUserV>, now: u64) -> Seq<ExpiryUserV>
    decreases s.len(),
{
    if s.len() == 0 {
        Seq::empty()
    } else {
        let pre = eu_sweep(s.drop_last(), now);
        if s.last().expiry_timestamp > now {
            pre.push(s.last())
        } else {
            pre
        }
    }
}

/// With distinct keys, the record found at any index is the record that
/// lookup yields.
pub proof fn lemma_eu_at(s: Seq<ExpiryUserV>, u: Seq<u8>, i: int)
    requires
        eu_unique(s),
        0 <= i < s.len(),
        s[i].user == u,
    ensures
        eu_has(s, u),
        eu_index(s, u) == i,
        eu_at(s, u) == s[i],
{
    assert(eu_has(s, u));
    let k = eu_index(s, u);
    if k < i {
        assert(s[k].user != s[i].user);
    } else if k > i {
        assert(s[i].user != s[k].user);
    }
}

/// Removal takes out exactly the record of `u` and leaves every other
/// delegate's record in place.
pub proof fn lemma_eu_remove(s: Seq<ExpiryUserV>, u: Seq<u8>)
    requires
        eu_unique(s),
    ensures
        eu_unique(eu_remove(s, u)),
        !eu_has(eu_remove(s, u), u),
        forall|v: Seq<u8>| v != u ==> #[trigger] eu_lookup(eu_remove(s, u), v) == eu_lookup(s, v),
{
    let t = eu_remove(s, u);
    if eu_has(s, u) {
        let i = eu_index(s, u);
        assert(0 <= i < s.len() && s[i].user == u);
        assert forall|p: int, q: int| 0 <= p < q < t.len() implies t[p].user != t[q].user by {
            assert(t[p] == (if p < i { s[p] } else { s[p + 1] }));
            assert(t[q] == (if q < i { s[q] } else { s[q + 1] }));
        }
        assert forall|j: int| 0 <= j < t.len() implies t[j].user != u by {
            assert(t[j] == (if j < i { s[j] } else { s[j + 1] }));
        }
        assert forall|v: Seq<u8>| v != u implies #[trigger] eu_lookup(t, v) == eu_lookup(s, v) by {
            if eu_has(s, v) {
                let k = eu_index(s, v);
                lemma_eu_at(s, v, k);
                assert(k != i);
                let k2: int = if k < i { k } else { k - 1 };
                assert(t[k2] == s[k]);
                lemma_eu_at(t, v, k2);
            } else {
                if eu_has(t, v) {
                    let k2 = eu_index(t, v);
                    assert(t[k2] == (if k2 < i { s[k2] } else { s[k2 + 1] }));
                    assert(eu_has(s, v));
                }
            }
        }
    }
}

/// Replacement binds `e.user` to `e` and leaves every other delegate's
/// record in place.
pub proof fn lemma_eu_upsert(s: Seq<ExpiryUserV>, e: ExpiryUserV)
    requires
        eu_unique(s),
    ensures
        eu_unique(eu_upsert(s, e)),
        eu_lookup(eu_upsert(s, e), e.user) == Some(e),
        forall|v: Seq<u8>|
            v != e.user ==> #[trigger] eu_lookup(eu_upsert(s, e), v) == eu_lookup(s, v),
{
    let t = eu_upsert(s, e);
    if eu_has(s, e.user) {
        let i = eu_index(s, e.user);
        assert(0 <= i < s.len() && s[i].user == e.user);
        assert forall|p: int, q: int| 0 <= p < q < t.len() implies t[p].user != t[q].user by {
            assert(s[p].user != s[q].user);
        }
        lemma_eu_at(t, e.user, i);
        assert forall|v: Seq<u8>|
            v != e.user implies #[trigger] eu_lookup(t, v) == eu_lookup(s, v) by {
            if eu_has(s, v) {
                let k = eu_index(s, v);
                lemma_eu_at(s, v, k);
                assert(k != i);
                assert(t[k] == s[k]);
                lemma_eu_at(t, v, k);
            } else {
                if eu_has(t, v) {
                    let k2 = eu_index(t, v);
                    assert(t[k2].user == v);
                    assert(k2 != i);
                    assert(s[k2].user == v);
                }
            }
        }
    } else {
        assert forall|p: int, q: int| 0 <= p < q < t.len() implies t[p].user != t[q].user by {
            if q < s.len() {
                assert(s[p].user != s[q].user);
            } else {
                assert(t[q] == e);
                assert(s[p].user != e.user);
            }
        }
        lemma_eu_at(t, e.user, s.len() as int);
        assert forall|v: Seq<u8>|
            v != e.user implies #[trigger] eu_lookup(t, v) == eu_lookup(s, v) by {
            if eu_has(s, v) {
                let k = eu_index(s, v);
                lemma_eu_at(s, v, k);
                assert(t[k] == s[k]);
                lemma_eu_at(t, v, k);
            } else {
                if eu_has(t, v) {
                    let k2 = eu_index(t, v);
                    assert(t[k2].user == v);
                    assert(k2 < s.len());
                }
            }
        }
    }
}

/// The sweep keeps exactly the records still live at `now`, unchanged.
pub proof fn lemma_eu_sweep(s: Seq<ExpiryUserV>, now: u64)
    requires
        eu_unique(s),
    ensures
        eu_unique(eu_sweep(s, now)),
        forall|v: Seq<u8>|
            #[trigger] eu_lookup(eu_sweep(s, now), v) == (match eu_lookup(s, v) {
                Some(e) => if e.expiry_timestamp > now {
                    Some(e)
                } else {
                    None
                },
                None => None,
            }),
    decreases s.len(),
{
    let t = eu_sweep(s, now);
    if s.len() == 0 {
        assert forall|v: Seq<u8>|
            #[trigger] eu_lookup(t, v) == (match eu_lookup(s, v) {
                Some(e) => if e.expiry_timestamp > now {
                    Some(e)
                } else {
                    None
                },
                None => None,
            }) by {
            assert(!eu_has(t, v));
            assert(!eu_has(s, v));
        }
    } else {
        let s0 = s.drop_last();
        let e = s.last();
        let t0 = eu_sweep(s0, now);
        assert forall|k: int| 0 <= k < s0.len() implies s0[k] == s[k] by {
        }
        assert(eu_unique(s0));
        lemma_eu_sweep(s0, now);
        // the last record's key appears nowhere earlier
        assert(!eu_has(s0, e.user)) by {
            if eu_has(s0, e.user) {
                let k = eu_index(s0, e.user);
                assert(s[k].user == s[s.len() - 1].user);
            }
        }
        assert(!eu_has(t0, e.user)) by {
            assert(eu_lookup(t0, e.user) is None);
        }
        if e.expiry_timestamp > now {
            assert(t == t0.push(e));
            assert(eu_unique(t)) by {
                assert forall|p: int, q: int|
                    0 <= p < q < t.len() implies t[p].user != t[q].user by {
                    if q < t0.len() {
                        assert(t0[p].user != t0[q].user);
                    } else {
                        assert(t[q] == e);
                        assert(t[p] == t0[p]);
                        if t0[p].user == e.user {
                            assert(eu_has(t0, e.user));
                        }
                    }
                }
            }
            assert forall|v: Seq<u8>|
                #[trigger] eu_lookup(t, v) == (match eu_lookup(s, v) {
                    Some(e2) => if e2.expiry_timestamp > now {
                        Some(e2)
                    } else {
                        None
                    },
                    None => None,
                }) by {
                if v == e.user {
                    lemma_eu_at(s, v, s.len() - 1);
                    assert(t[t0.len() as int] == e);
                    lemma_eu_at(t, v, t0.len() as int);
                } else {
                    lemma_eu_drop_last_lookup(s, v);
                    assert(eu_lookup(s, v) == eu_lookup(s0, v));
                    assert(eu_lookup(t0, v) == (match eu_lookup(s0, v) {
                        Some(e2) => if e2.expiry_timestamp > now {
                            Some(e2)
                        } else {
                            None
                        },
                        None => None,
                    }));
                    if eu_has(t0, v) {
                        let k = eu_index(t0, v);
                        lemma_eu_at(t0, v, k);
                        assert(t[k] == t0[k]);
                        lemma_eu_at(t, v, k);
                    } else {
                        if eu_has(t, v) {
                            let k = eu_index(t, v);
                            assert(t[k].user == v);
                            if k < t0.len() {
                                assert(eu_has(t0, v));
                            } else {
                                assert(t[k] == e);
                            }
                        }
                    }
                }
            }
        } else {
            assert(t == t0);
            assert forall|v: Seq<u8>|
                #[trigger] eu_lookup(t, v) == (match eu_lookup(s, v) {
                    Some(e2) => if e2.expiry_timestamp > now {
                        Some(e2)
                    } else {
                        None
                    },
                    None => None,
                }) by {
                if v == e.user {
                    lemma_eu_at(s, v, s.len() - 1);
                    assert(eu_lookup(s, v) == Some(e));
                    assert(eu_lookup(t0, v) is None);
                } else {
                    lemma_eu_drop_last_lookup(s, v);
                    assert(eu_lookup(s, v) == eu_lookup(s0, v));
                    assert(eu_lookup(t0, v) == (match eu_lookup(s0, v) {
                        Some(e2) => if e2.expiry_timestamp > now {
                            Some(e2)
                        } else {
                            None
                        },
                        None => None,
                    }));
                }
            }
        }
    }
}

/// Away from the last record's key, dropping the last record does not change
/// lookups.
pub proof fn lemma_eu_drop_last_lookup(s: Seq<ExpiryUserV>, v: Seq<u8>)
    requires
        eu_unique(s),
        s.len() > 0,
        v != s.last().user,
    ensures
        eu_lookup(s.drop_last(), v) == eu_lookup(s, v),
{
    let s0 = s.drop_last();
    assert forall|k: int| 0 <= k < s0.len() implies s0[k] == s[k] by {
    }
    assert(eu_unique(s0));
    if eu_has(s0, v) {
        let k = eu_index(s0, v);
        assert(s0[k].user == v);
        lemma_eu_at(s0, v, k);
        lemma_eu_at(s, v, k);
    } else {
        if eu_has(s, v) {
            let k = eu_index(s, v);
            assert(s[k].user == v);
            if k < s0.len() {
                assert(eu_has(s0, v));
            } else {
                assert(s[k] == s.last());
            }
        }
    }
}

// ---------------------------------------------------------------------------
// Queued requests, keyed by their hash.
// ---------------------------------------------------------------------------

pub open spec fn q_unique(s: Seq<MethodQueueItemV>) -> bool {
    forall|i: int, j: int| 0 <= i < j < s.len() ==> s[i].hash != s[j].hash
}

pub open spec fn q_has(s: Seq<MethodQueueItemV>, h: Seq<char>) -> bool {
    exists|i: int| 0 <= i < s.len() && s[i].hash == h
}

pub open spec fn q_index(s: Seq<MethodQueueItemV>, h: Seq<char>) -> int
    recommends
        q_has(s, h),
{
    choose|i: int| 0 <= i < s.len() && s[i].hash == h
}

pub open spec fn q_at(s: Seq<MethodQueueItemV>, h: Seq<char>) -> MethodQueueItemV
    recommends
        q_has(s, h),
{
    s[q_index(s, h)]
}

pub open spec fn q_lookup(s: Seq<MethodQueueItemV>, h: Seq<char>) -> Option<MethodQueueItemV> {
    if q_has(s, h) {
        Some(q_at(s, h))
    } else {
        None
    }
}

/// The queue without the entry of `h`, if any.
pub open spec fn q_remove(s: Seq<MethodQueueItemV>, h: Seq<char>) -> Seq<MethodQueueItemV> {
    if q_has(s, h) {
        s.remove(q_index(s, h))
    } else {
        s
    }
}

/// Insert-if-absent: with the hash already present the queue is unchanged
/// and the first entry wins; otherwise the new entry is appended.
pub open spec fn q_submit(s: Seq<MethodQueueItemV>, item: MethodQueueItemV) -> Seq<
    MethodQueueItemV,
> {
    if q_has(s, item.hash) {
        s
    } else {
        s.push(item)
    }
}

/// The queue with the disposition of entry `h` overwritten by `rep`.
pub open spec fn q_set_reply(
    s: Seq<MethodQueueItemV>,
    h: Seq<char>,
    rep: OwnerReplyV,
) -> Seq<MethodQueueItemV> {
    if q_has(s, h) {
        s.update(
            q_index(s, h),
            MethodQueueItemV { owner_reply: rep, ..q_at(s, h) },
        )
    } else {
        s
    }
}

/// With distinct hashes, the entry found at any index is the entry that
/// lookup yields.
pub proof fn lemma_q_at(s: Seq<MethodQueueItemV>, h: Seq<char>, i: int)
    requires
        q_unique(s),
        0 <= i < s.len(),
        s[i].hash == h,
    ensures
        q_has(s, h),
        q_index(s, h) == i,
        q_at(s, h) == s[i],
{
    assert(q_has(s, h));
    let k = q_index(s, h);
    if k < i {
        assert(s[k].hash != s[i].hash);
    } else if k > i {
        assert(s[i].hash != s[k].hash);
    }
}

/// Removal takes out exactly the entry of `h` and leaves every other entry
/// in place.
pub proof fn lemma_q_remove(s: Seq<MethodQueueItemV>, h: Seq<char>)
    requires
        q_unique(s),
    ensures
        q_unique(q_remove(s, h)),
        !q_has(q_remove(s, h), h),
        forall|g: Seq<char>| g != h ==> #[trigger] q_lookup(q_remove(s, h), g) == q_lookup(s, g),
{
    let t = q_remove(s, h);
    if q_has(s, h) {
        let i = q_index(s, h);
        assert(0 <= i < s.len() && s[i].hash == h);
        assert forall|p: int, q: int| 0 <= p < q < t.len() implies t[p].hash != t[q].hash by {
            assert(t[p] == (if p < i { s[p] } else { s[p + 1] }));
            assert(t[q] == (if q < i { s[q] } else { s[q + 1] }));
        }
        assert forall|j: int| 0 <= j < t.len() implies t[j].hash != h by {
            assert(t[j] == (if j < i { s[j] } else { s[j + 1] }));
        }
        assert forall|g: Seq<char>| g != h implies #[trigger] q_lookup(t, g) == q_lookup(s, g) by {
            if q_has(s, g) {
                let k = q_index(s, g);
                lemma_q_at(s, g, k);
                assert(k != i);
                let k2: int = if k < i { k } else { k - 1 };
                assert(t[k2] == s[k]);
                lemma_q_at(t, g, k2);
            } else {
                if q_has(t, g) {
                    let k2 = q_index(t, g);
                    assert(t[k2] == (if k2 < i { s[k2] } else { s[k2 + 1] }));
                    assert(q_has(s, g));
                }
            }
        }
    }
}

/// Insert-if-absent binds a fresh hash to the new entry, keeps an occupied
/// hash bound to its first entry, and leaves every other hash alone.
pub proof fn lemma_q_submit(s: Seq<MethodQueueItemV>, item: MethodQueueItemV)
    requires
        q_unique(s),
    ensures
        q_unique(q_submit(s, item)),
        q_lookup(q_submit(s, item), item.hash) == (if q_has(s, item.hash) {
            q_lookup(s, item.hash)
        } else {
            Some(item)
        }),
        forall|g: Seq<char>|
            g != item.hash ==> #[trigger] q_lookup(q_submit(s, item), g) == q_lookup(s, g),
{
    let t = q_submit(s, item);
    if q_has(s, item.hash) {
        assert(t == s);
    } else {
        assert forall|p: int, q: int| 0 <= p < q < t.len() implies t[p].hash != t[q].hash by {
            if q < s.len() {
                assert(s[p].hash != s[q].hash);
            } else {
                assert(t[q] == item);
                if s[p].hash == item.hash {
                    assert(q_has(s, item.hash));
                }
            }
        }
        lemma_q_at(t, item.hash, s.len() as int);
        assert forall|g: Seq<char>|
            g != item.hash implies #[trigger] q_lookup(t, g) == q_lookup(s, g) by {
            if q_has(s, g) {
                let k = q_index(s, g);
                lemma_q_at(s, g, k);
                assert(t[k] == s[k]);
                lemma_q_at(t, g, k);
            } else {
                if q_has(t, g) {
                    let k2 = q_index(t, g);
                    assert(t[k2].hash == g);
                    assert(k2 < s.len());
                }
            }
        }
    }
}

/// Overwriting a disposition changes exactly that entry's disposition.
pub proof fn lemma_q_set_reply(s: Seq<MethodQueueItemV>, h: Seq<char>, rep: OwnerReplyV)
    requires
        q_unique(s),
        q_has(s, h),
    ensures
        q_unique(q_set_reply(s, h, rep)),
        q_lookup(q_set_reply(s, h, rep), h) == Some(
            MethodQueueItemV { owner_reply: rep, ..q_at(s, h) },
        ),
        forall|g: Seq<char>|
            g != h ==> #[trigger] q_lookup(q_set_reply(s, h, rep), g) == q_lookup(s, g),
{
    let t = q_set_reply(s, h, rep);
    let i = q_index(s, h);
    assert(0 <= i < s.len() && s[i].hash == h);
    assert forall|p: int, q: int| 0 <= p < q < t.len() implies t[p].hash != t[q].hash by {
        assert(s[p].hash != s[q].hash);
    }
    lemma_q_at(t, h, i);
    assert forall|g: Seq<char>| g != h implies #[trigger] q_lookup(t, g) == q_lookup(s, g) by {
        if q_has(s, g) {
            let k = q_index(s, g);
            lemma_q_at(s, g, k);
            assert(k != i);
            assert(t[k] == s[k]);
            lemma_q_at(t, g, k);
        } else {
            if q_has(t, g) {
                let k2 = q_index(t, g);
                assert(t[k2].hash == g);
                assert(k2 != i);
                assert(s[k2].hash == g);
            }
        }
    }
}

/// The summaries of the already-resolved entries belonging to `u`, in queue
/// order.
pub open spec fn resolved_for(q: Seq<MethodQueueItemV>, u: Seq<u8>) -> Seq<QueueHashV>
    decreases q.len(),
{
    if q.len() == 0 {
        Seq::empty()
    } else {
        let pre = resolved_for(q.drop_last(), u);
        let e = q.last();
        if e.user == u && e.owner_reply != OwnerReplyV::NotFound {
            pre.push(QueueHashV { hash: e.hash, user: e.user, time_stamp: e.time_stamp })
        } else {
            pre
        }
    }
}

/// One step of the listing: extending the prefix by one entry.
pub proof fn lemma_resolved_for_step(q: Seq<MethodQueueItemV>, u: Seq<u8>, i: int)
    requires
        0 <= i < q.len(),
    ensures
        resolved_for(q.subrange(0, i + 1), u) == (if q[i].user == u && q[i].owner_reply
            != OwnerReplyV::NotFound {
            resolved_for(q.subrange(0, i), u).push(
                QueueHashV { hash: q[i].hash, user: q[i].user, time_stamp: q[i].time_stamp },
            )
        } else {
            resolved_for(q.subrange(0, i), u)
        }),
{
    let s1 = q.subrange(0, i + 1);
    assert(s1.drop_last() =~= q.subrange(0, i));
    assert(s1.last() == q[i]);
}

// ---------------------------------------------------------------------------
// Deny-listed targets, keyed by the target's identity bytes.
// ---------------------------------------------------------------------------

pub open spec fn bl_unique(s: Seq<BlackListEntryV>) -> bool {
    forall|i: int, j: int| 0 <= i < j < s.len() ==> s[i].target != s[j].target
}

pub open spec fn bl_has(s: Seq<BlackListEntryV>, t: Seq<u8>) -> bool {
    exists|i: int| 0 <= i < s.len() && s[i].target == t
}

pub open spec fn bl_index(s: Seq<BlackListEntryV>, t: Seq<u8>) -> int
    recommends
        bl_has(s, t),
{
    choose|i: int| 0 <= i < s.len() && s[i].target == t
}

pub open spec fn bl_at(s: Seq<BlackListEntryV>, t: Seq<u8>) -> BlackListEntryV
    recommends
        bl_has(s, t),
{
    s[bl_index(s, t)]
}

pub open spec fn bl_lookup(s: Seq<BlackListEntryV>, t: Seq<u8>) -> Option<BlackListEntryV> {
    if bl_has(s, t) {
        Some(bl_at(s, t))
    } else {
        None
    }
}

/// The deny list without the entry of `t`, if any.
pub open spec fn bl_remove(s: Seq<BlackListEntryV>, t: Seq<u8>) -> Seq<BlackListEntryV> {
    if bl_has(s, t) {
        s.remove(bl_index(s, t))
    } else {
        s
    }
}

/// Insert-if-absent: an already deny-listed target keeps its first entry.
pub open spec fn bl_insert(s: Seq<BlackListEntryV>, e: BlackListEntryV) -> Seq<BlackListEntryV> {
    if bl_has(s, e.target) {
        s
    } else {
        s.push(e)
    }
}

/// With distinct targets, the entry found at any index is the entry that
/// lookup yields.
pub proof fn lemma_bl_at(s: Seq<BlackListEntryV>, t: Seq<u8>, i: int)
    requires
        bl_unique(s),
        0 <= i < s.len(),
        s[i].target == t,
    ensures
        bl_has(s, t),
        bl_index(s, t) == i,
        bl_at(s, t) == s[i],
{
    assert(bl_has(s, t));
    let k = bl_index(s, t);
    if k < i {
        assert(s[k].target != s[i].target);
    } else if k > i {
        assert(s[i].target != s[k].target);
    }
}

/// Removal takes out exactly the entry of `t` and leaves every other entry
/// in place.
pub proof fn lemma_bl_remove(s: Seq<BlackListEntryV>, t: Seq<u8>)
    requires
        bl_unique(s),
    ensures
        bl_unique(bl_remove(s, t)),
        !bl_has(bl_remove(s, t), t),
        forall|v: Seq<u8>| v != t ==> #[trigger] bl_lookup(bl_remove(s, t), v) == bl_lookup(s, v),
{
    let r = bl_remove(s, t);
    if bl_has(s, t) {
        let i = bl_index(s, t);
        assert(0 <= i < s.len() && s[i].target == t);
        assert forall|p: int, q: int| 0 <= p < q < r.len() implies r[p].target != r[q].target by {
            assert(r[p] == (if p < i { s[p] } else { s[p + 1] }));
            assert(r[q] == (if q < i { s[q] } else { s[q + 1] }));
        }
        assert forall|j: int| 0 <= j < r.len() implies r[j].target != t by {
            assert(r[j] == (if j < i { s[j] } else { s[j + 1] }));
        }
        assert forall|v: Seq<u8>| v != t implies #[trigger] bl_lookup(r, v) == bl_lookup(s, v) by {
            if bl_has(s, v) {
                let k = bl_index(s, v);
                lemma_bl_at(s, v, k);
                assert(k != i);
                let k2: int = if k < i { k } else { k - 1 };
                assert(r[k2] == s[k]);
                lemma_bl_at(r, v, k2);
            } else {
                if bl_has(r, v) {
                    let k2 = bl_index(r, v);
                    assert(r[k2] == (if k2 < i { s[k2] } else { s[k2 + 1] }));
                    assert(bl_has(s, v));
                }
            }
        }
    }
}

/// Insert-if-absent binds a fresh target to the new entry, keeps an occupied
/// target bound to its first entry, and leaves every other target alone.
pub proof fn lemma_bl_insert(s: Seq<BlackListEntryV>, e: BlackListEntryV)
    requires
        bl_unique(s),
    ensures
        bl_unique(bl_insert(s, e)),
        bl_lookup(bl_insert(s, e), e.target) == (if bl_has(s, e.target) {
            bl_lookup(s, e.target)
        } else {
            Some(e)
        }),
        forall|v: Seq<u8>|
            v != e.target ==> #[trigger] bl_lookup(bl_insert(s, e), v) == bl_lookup(s, v),
{
    let r = bl_insert(s, e);
    if bl_has(s, e.target) {
        assert(r == s);
    } else {
        assert forall|p: int, q: int| 0 <= p < q < r.len() implies r[p].target != r[q].target by {
            if q < s.len() {
                assert(s[p].target != s[q].target);
            } else {
                assert(r[q] == e);
                if s[p].target == e.target {
                    assert(bl_has(s, e.target));
                }
            }
        }
        lemma_bl_at(r, e.target, s.len() as int);
        assert forall|v: Seq<u8>|
            v != e.target implies #[trigger] bl_lookup(r, v) == bl_lookup(s, v) by {
            if bl_has(s, v) {
                let k = bl_index(s, v);
                lemma_bl_at(s, v, k);
                assert(r[k] == s[k]);
                lemma_bl_at(r, v, k);
            } else {
                if bl_has(r, v) {
                    let k2 = bl_index(r, v);
                    assert(r[k2].target == v);
                    assert(k2 < s.len());
                }
            }
        }
    }
}

// ---------------------------------------------------------------------------
// Delegation scopes and the authorization policy.
// ---------------------------------------------------------------------------

pub open spec fn methods_has(ms: Seq<MethodV>, name: Seq<char>) -> bool {
    exists|i: int| 0 <= i < ms.len() && ms[i].name == name
}

pub open spec fn method_index(ms: Seq<MethodV>, name: Seq<char>) -> int
    recommends
        methods_has(ms, name),
{
    choose|i: int| 0 <= i < ms.len() && ms[i].name == name
}

pub open spec fn method_at(ms: Seq<MethodV>, name: Seq<char>) -> MethodV
    recommends
        methods_has(ms, name),
{
    ms[method_index(ms, name)]
}

/// With distinct names, the method found at any index is the method that
/// lookup yields.
pub proof fn lemma_method_at(ms: Seq<MethodV>, name: Seq<char>, i: int)
    requires
        forall|p: int, q: int| 0 <= p < q < ms.len() ==> ms[p].name != ms[q].name,
        0 <= i < ms.len(),
        ms[i].name == name,
    ensures
        methods_has(ms, name),
        method_index(ms, name) == i,
        method_at(ms, name) == ms[i],
{
    assert(methods_has(ms, name));
    let k = method_index(ms, name);
    if k < i {
        assert(ms[k].name != ms[i].name);
    } else if k > i {
        assert(ms[i].name != ms[k].name);
    }
}

/// The scope has an entry for this target.
pub open spec fn scope_covers_target(ts: Seq<ProxyActorItemV>, c: Seq<u8>) -> bool {
    exists|i: int| 0 <= i < ts.len() && ts[i].canister == c
}

/// The scope has an entry for this target that lists this method.
pub open spec fn scope_covers_method(ts: Seq<ProxyActorItemV>, c: Seq<u8>, m: Seq<char>) -> bool {
    exists|i: int|
        0 <= i < ts.len() && ts[i].canister == c && methods_has(ts[i].methods, m)
}

/// The scope has an entry for this target whose listing of this method
/// flags it as a key operation.
pub open spec fn scope_key_oper(ts: Seq<ProxyActorItemV>, c: Seq<u8>, m: Seq<char>) -> bool {
    exists|i: int|
        0 <= i < ts.len() && ts[i].canister == c && methods_has(ts[i].methods, m) && method_at(
            ts[i].methods,
            m,
        ).key_operation
}

/// The classification of the method in the first scope entry that covers
/// `(c, m)`, if any.
pub open spec fn first_method_type(ts: Seq<ProxyActorItemV>, c: Seq<u8>, m: Seq<char>) -> Option<
    MethodType,
>
    decreases ts.len(),
{
    if ts.len() == 0 {
        None
    } else if ts[0].canister == c && methods_has(ts[0].methods, m) {
        Some(method_at(ts[0].methods, m).method_type)
    } else {
        first_method_type(ts.drop_first(), c, m)
    }
}

/// Skipping a non-matching entry does not change the first matching entry.
pub proof fn lemma_first_method_type_skip(
    ts: Seq<ProxyActorItemV>,
    c: Seq<u8>,
    m: Seq<char>,
    i: int,
)
    requires
        0 <= i < ts.len(),
        !(ts[i].canister == c && methods_has(ts[i].methods, m)),
    ensures
        first_method_type(ts.subrange(i, ts.len() as int), c, m) == first_method_type(
            ts.subrange(i + 1, ts.len() as int),
            c,
            m,
        ),
{
    let tail = ts.subrange(i, ts.len() as int);
    assert(tail[0] == ts[i]);
    assert(tail.drop_first() =~= ts.subrange(i + 1, ts.len() as int));
}

impl WalletStoreV {
    /// Every collection of the store keys its entries uniquely and every
    /// delegation record is itself well-formed.
    pub open spec fn wf(&self) -> bool {
        &&& eu_unique(self.expiry_users)
        &&& forall|i: int|
            0 <= i < self.expiry_users.len() ==> (#[trigger] self.expiry_users[i]).wf()
        &&& q_unique(self.call_queue)
        &&& bl_unique(self.settings.proxy_black_list)
    }

    /// The delegate has a record, still live at `now`, whose scope covers
    /// the target.
    pub open spec fn covers_target(&self, caller: Seq<u8>, target: Seq<u8>, now: u64) -> bool {
        self.is_live(caller, now) && scope_covers_target(
            eu_at(self.expiry_users, caller).target_list,
            target,
        )
    }

    /// The delegate has a record, still live at `now`, whose scope covers
    /// the target and method.
    pub open spec fn covers_method(
        &self,
        caller: Seq<u8>,
        target: Seq<u8>,
        m: Seq<char>,
        now: u64,
    ) -> bool {
        self.is_live(caller, now) && scope_covers_method(
            eu_at(self.expiry_users, caller).target_list,
            target,
            m,
        )
    }

    /// The delegate's record is still live at `now` and flags the method as
    /// a key operation on the target.
    pub open spec fn is_key_oper(
        &self,
        caller: Seq<u8>,
        target: Seq<u8>,
        m: Seq<char>,
        now: u64,
    ) -> bool {
        self.is_live(caller, now) && scope_key_oper(
            eu_at(self.expiry_users, caller).target_list,
            target,
            m,
        )
    }

    /// The delegate has a record not yet expired at `now`.
    pub open spec fn is_live(&self, caller: Seq<u8>, now: u64) -> bool {
        eu_has(self.expiry_users, caller) && eu_at(
            self.expiry_users,
            caller,
        ).expiry_timestamp > now
    }
}

/// The authorization policy: the deny list is consulted first and binds
/// even the owner; the owner bypasses every other check; a delegate needs a
/// record still live at `now` with a scope entry for the target and the
/// method; the validation mode then selects which of the remaining calls
/// still need the owner's approval.
pub open spec fn spec_authorize(
    st: WalletStoreV,
    caller: Seq<u8>,
    caller_is_owner: bool,
    target: Seq<u8>,
    method: Seq<char>,
    now: u64,
) -> Decision {
    if bl_has(st.settings.proxy_black_list, target) {
        Decision::Deny(DenyReason::Blacklisted)
    } else if caller_is_owner {
        Decision::Allow
    } else if !st.covers_target(caller, target, now) {
        Decision::Deny(DenyReason::TargetNotCovered)
    } else if !st.covers_method(caller, target, method, now) {
        Decision::Deny(DenyReason::MethodNotCovered)
    } else {
        match st.settings.method_validate_type {
            MethodValidationType::ALL => Decision::RequireApproval,
            MethodValidationType::UPDATE => {
                if first_method_type(
                    eu_at(st.expiry_users, caller).target_list,
                    target,
                    method,
                ) == Some(MethodType::CALL) {
                    Decision::RequireApproval
                } else {
                    Decision::Allow
                }
            },
            MethodValidationType::KEY => {
                if st.is_key_oper(caller, target, method, now) {
                    Decision::RequireApproval
                } else {
                    Decision::Allow
                }
            },
        }
    }
}

/// One step of the sweep: extending the prefix by one record.
pub proof fn lemma_eu_sweep_step(s: Seq<ExpiryUserV>, now: u64, i: int)
    requires
        0 <= i < s.len(),
    ensures
        eu_sweep(s.subrange(0, i + 1), now) == (if s[i].expiry_timestamp > now {
            eu_sweep(s.subrange(0, i), now).push(s[i])
        } else {
            eu_sweep(s.subrange(0, i), now)
        }),
{
    let s1 = s.subrange(0, i + 1);
    assert(s1.drop_last() =~= s.subrange(0, i));
    assert(s1.last() == s[i]);
}

} // verus!
