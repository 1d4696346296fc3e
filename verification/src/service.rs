//! The proxy's operations over one owned state container: granting,
//! sweeping and revoking delegations, the deny list, the approval queue,
//! and the authorization decision for a forwarding request.

use vstd::prelude::*;
use vstd::pervasive::VecAdditionalExecFns;
use crate::types::{
    Identity, CallCanisterArgs, ExpiryUser, ExpiryUserV, ProxyActorItem, ProxyActorTargets, MethodQueueItem,
    MethodQueueItemV, BlackListEntry, BlackListEntryV, Method, MethodType, MethodValidationType,
    OwnerReply, OwnerReplyV, QueueHash, QueueHashV, WalletStore, Decision,
    DenyReason, ConfirmAction,
};
use crate::model::{
    eu_unique, eu_has, eu_index, eu_at, eu_lookup, eu_remove, eu_upsert, eu_sweep, lemma_eu_at,
    lemma_eu_remove, lemma_eu_upsert, lemma_eu_sweep, lemma_eu_sweep_step, q_unique, q_has,
    q_index, q_at, q_lookup, q_remove, q_submit, q_set_reply, lemma_q_at, lemma_q_remove,
    lemma_q_submit, lemma_q_set_reply, resolved_for, lemma_resolved_for_step, bl_unique, bl_has,
    bl_index, bl_at, bl_lookup, bl_remove, bl_insert, lemma_bl_at, lemma_bl_remove,
    lemma_bl_insert, methods_has, method_at, lemma_method_at, scope_covers_target,
    scope_covers_method, scope_key_oper, first_method_type, lemma_first_method_type_skip,
    spec_authorize,
};
use crate::trusted::{call_digest, digest_call};

verus! {

/// The proxy service: every operation reads or rewrites this one owned
/// state container.
pub struct WalletService {
    pub store: WalletStore,
}

// ---------------------------------------------------------------------------
// Private searches over the three keyed collections.
// ---------------------------------------------------------------------------

/// Finds the index of the delegate's record.
fn find_expiry_index(v: &Vec<ExpiryUser>, user: &Identity) -> (r: Option<usize>)
    requires
        eu_unique(v.deep_view()),
    ensures
        match r {
            Some(i) => eu_has(v.deep_view(), user@) && eu_index(v.deep_view(), user@) == i as int
                && i < v@.len(),
            None => !eu_has(v.deep_view(), user@),
        },
{
    let mut i: usize = 0;
    while i < v.len()
        invariant
            i <= v@.len(),
            eu_unique(v.deep_view()),
            forall|j: int| 0 <= j < i ==> v.deep_view()[j].user != user@,
        decreases v@.len() - i,
    {
        if v[i].user.same(user) {
            proof {
                assert(v.deep_view()[i as int].user == user@);
                lemma_eu_at(v.deep_view(), user@, i as int);
            }
            return Some(i);
        }
        i += 1;
    }
    None
}

/// Finds the index of the queue entry with this hash.
fn find_queue_index(v: &Vec<MethodQueueItem>, hash: &String) -> (r: Option<usize>)
    requires
        q_unique(v.deep_view()),
    ensures
        match r {
            Some(i) => q_has(v.deep_view(), hash@) && q_index(v.deep_view(), hash@) == i as int
                && i < v@.len(),
            None => !q_has(v.deep_view(), hash@),
        },
{
    let mut i: usize = 0;
    while i < v.len()
        invariant
            i <= v@.len(),
            q_unique(v.deep_view()),
            forall|j: int| 0 <= j < i ==> v.deep_view()[j].hash != hash@,
        decreases v@.len() - i,
    {
        if v[i].hash == *hash {
            proof {
                assert(v.deep_view()[i as int].hash == hash@);
                lemma_q_at(v.deep_view(), hash@, i as int);
            }
            return Some(i);
        }
        i += 1;
    }
    None
}

/// Finds the index of the deny-list entry for this target.
fn find_bl_index(v: &Vec<BlackListEntry>, target: &Identity) -> (r: Option<usize>)
    requires
        bl_unique(v.deep_view()),
    ensures
        match r {
            Some(i) => bl_has(v.deep_view(), target@) && bl_index(v.deep_view(), target@)
                == i as int && i < v@.len(),
            None => !bl_has(v.deep_view(), target@),
        },
{
    let mut i: usize = 0;
    while i < v.len()
        invariant
            i <= v@.len(),
            bl_unique(v.deep_view()),
            forall|j: int| 0 <= j < i ==> v.deep_view()[j].target != target@,
        decreases v@.len() - i,
    {
        if v[i].target.same(target) {
            proof {
                assert(v.deep_view()[i as int].target == target@);
                lemma_bl_at(v.deep_view(), target@, i as int);
            }
            return Some(i);
        }
        i += 1;
    }
    None
}

impl WalletService {
    /// The store's well-formedness carried by every operation.
    pub open spec fn wf(&self) -> bool {
        self.store@.wf()
    }

    /// A service over a fresh default store.
    pub fn new() -> (r: WalletService)
        ensures
            r.wf(),
            r.store@.expiry_users.len() == 0,
            r.store@.call_queue.len() == 0,
            r.store@.settings.proxy_black_list.len() == 0,
            r.store@.settings.expiry_period == crate::types::DEFAULT_EXPIRY_PERIOD,
            r.store@.settings.method_validate_type == MethodValidationType::ALL,
    {
        WalletService { store: WalletStore::default() }
    }

    /// Looks a delegate's record up without touching it: no expiry check,
    /// no eviction.
    pub fn get_expiry_user(&self, user: &Identity) -> (r: Option<ExpiryUser>)
        requires
            self.wf(),
        ensures
            r.deep_view() == eu_lookup(self.store@.expiry_users, user@),
    {
        match find_expiry_index(&self.store.expiry_users, user) {
            None => None,
            Some(i) => Some(self.store.expiry_users[i].clone()),
        }
    }

    /// Removes and returns the delegate's record, if any.
    pub fn remove_expiry_user(&mut self, user: &Identity) -> (r: Option<ExpiryUser>)
        requires
            old(self).wf(),
        ensures
            final(self).wf(),
            r.deep_view() == eu_lookup(old(self).store@.expiry_users, user@),
            final(self).store@.expiry_users == eu_remove(old(self).store@.expiry_users, user@),
            final(self).store@.settings == old(self).store@.settings,
            final(self).store@.call_queue == old(self).store@.call_queue,
    {
        proof {
            lemma_eu_remove(self.store@.expiry_users, user@);
        }
        match find_expiry_index(&self.store.expiry_users, user) {
            None => None,
            Some(i) => {
                let ghost pre = self.store.expiry_users.deep_view();
                let it = self.store.expiry_users.remove(i);
                proof {
                    assert(self.store.expiry_users.deep_view() =~= pre.remove(i as int));
                }
                Some(it)
            },
        }
    }

    /// Evicts every record already expired at `now`; live records stay,
    /// unchanged and in order.
    pub fn remove_all_expiries(&mut self, now: u64)
        requires
            old(self).wf(),
        ensures
            final(self).wf(),
            final(self).store@.expiry_users == eu_sweep(old(self).store@.expiry_users, now),
            final(self).store@.settings == old(self).store@.settings,
            final(self).store@.call_queue == old(self).store@.call_queue,
    {
        let ghost src = self.store.expiry_users.deep_view();
        let mut kept: Vec<ExpiryUser> = Vec::new();
        let mut i: usize = 0;
        proof {
            assert(src.subrange(0, 0) =~= Seq::empty());
        }
        while i < self.store.expiry_users.len()
            invariant
                i <= src.len(),
                eu_unique(src),
                forall|k: int| 0 <= k < src.len() ==> (#[trigger] src[k]).wf(),
                self.store.expiry_users.deep_view() == src,
                kept.deep_view() == eu_sweep(src.subrange(0, i as int), now),
                forall|k: int| 0 <= k < kept.deep_view().len() ==> (
                #[trigger] kept.deep_view()[k]).wf(),
            decreases src.len() - i,
        {
            let ghost pre = kept.deep_view();
            proof {
                lemma_eu_sweep_step(src, now, i as int);
            }
            if self.store.expiry_users[i].expiry_timestamp > now {
                let c = self.store.expiry_users[i].clone();
                proof {
                    assert(c.deep_view() == src[i as int]);
                }
                kept.push(c);
                proof {
                    assert(kept.deep_view() =~= pre.push(src[i as int]));
                }
            }
            i += 1;
        }
        proof {
            assert(src.subrange(0, src.len() as int) =~= src);
            lemma_eu_sweep(src, now);
        }
        self.store.expiry_users = kept;
    }

    /// Evicts the delegate's record if it has already expired at `now`.
    pub fn remove_if_expiry(&mut self, now: u64, user: &Identity)
        requires
            old(self).wf(),
        ensures
            final(self).wf(),
            final(self).store@.expiry_users == (if old(self).store@.is_live(user@, now) {
                old(self).store@.expiry_users
            } else {
                eu_remove(old(self).store@.expiry_users, user@)
            }),
            final(self).store@.settings == old(self).store@.settings,
            final(self).store@.call_queue == old(self).store@.call_queue,
    {
        proof {
            lemma_eu_remove(self.store@.expiry_users, user@);
        }
        match find_expiry_index(&self.store.expiry_users, user) {
            None => {},
            Some(i) => {
                if self.store.expiry_users[i].expiry_timestamp <= now {
                    let ghost pre = self.store.expiry_users.deep_view();
                    let _ = self.store.expiry_users.remove(i);
                    proof {
                        assert(self.store.expiry_users.deep_view() =~= pre.remove(i as int));
                    }
                }
            },
        }
    }

    /// Whether the delegate holds a live record at `now`. A record found
    /// expired is evicted before `false` is returned: this read mutates.
    pub fn is_valid_user(&mut self, now: u64, user: &Identity) -> (r: bool)
        requires
            old(self).wf(),
        ensures
            final(self).wf(),
            r == old(self).store@.is_live(user@, now),
            final(self).store@.expiry_users == (if r {
                old(self).store@.expiry_users
            } else {
                eu_remove(old(self).store@.expiry_users, user@)
            }),
            final(self).store@.settings == old(self).store@.settings,
            final(self).store@.call_queue == old(self).store@.call_queue,
    {
        proof {
            lemma_eu_remove(self.store@.expiry_users, user@);
        }
        match find_expiry_index(&self.store.expiry_users, user) {
            None => false,
            Some(i) => {
                if self.store.expiry_users[i].expiry_timestamp > now {
                    true
                } else {
                    let ghost pre = self.store.expiry_users.deep_view();
                    let _ = self.store.expiry_users.remove(i);
                    proof {
                        assert(self.store.expiry_users.deep_view() =~= pre.remove(i as int));
                    }
                    false
                }
            },
        }
    }

    /// Grants (or replaces) the delegate's record: sweeps the registry,
    /// then stores a record valid from `now` for the explicit lifetime, or
    /// for the configured default when none is given.
    pub fn add_expiry_user(
        &mut self,
        now: u64,
        user: Identity,
        targets: ProxyActorTargets,
    ) -> (r: ExpiryUser)
        requires
            old(self).wf(),
            targets.wf(),
            now + (match targets.expiration {
                Some(p) => p,
                None => old(self).store@.settings.expiry_period,
            }) <= u64::MAX,
        ensures
            final(self).wf(),
            r@ == (ExpiryUserV {
                user: user@,
                target_list: targets.targets.deep_view(),
                timestamp: now,
                expiry_timestamp: (now + (match targets.expiration {
                    Some(p) => p,
                    None => old(self).store@.settings.expiry_period,
                })) as u64,
            }),
            final(self).store@.expiry_users == eu_upsert(
                eu_sweep(old(self).store@.expiry_users, now),
                r@,
            ),
            final(self).store@.settings == old(self).store@.settings,
            final(self).store@.call_queue == old(self).store@.call_queue,
    {
        self.remove_all_expiries(now);
        let actual_period: u64 = match targets.expiration {
            Some(p) => p,
            None => self.store.settings.expiry_period,
        };
        let rt = ExpiryUser {
            user: user.clone(),
            target_list: targets.targets,
            timestamp: now,
            expiry_timestamp: now + actual_period,
        };
        proof {
            lemma_eu_upsert(self.store@.expiry_users, rt@);
            assert forall|k: int|
                0 <= k < eu_upsert(self.store@.expiry_users, rt@).len() implies (
            #[trigger] eu_upsert(self.store@.expiry_users, rt@)[k]).wf() by {
                let t = eu_upsert(self.store@.expiry_users, rt@);
                if t[k] != rt@ {
                    if eu_has(self.store@.expiry_users, rt@.user) {
                        assert(t[k] == self.store@.expiry_users[k]);
                    } else {
                        assert(k < self.store@.expiry_users.len());
                    }
                } else {
                    assert(rt@.wf());
                }
            }
        }
        let ret = rt.clone();
        match find_expiry_index(&self.store.expiry_users, &rt.user) {
            Some(i) => {
                let ghost pre = self.store.expiry_users.deep_view();
                self.store.expiry_users.set(i, rt);
                proof {
                    assert(self.store.expiry_users.deep_view() =~= pre.update(i as int, ret@));
                }
            },
            None => {
                let ghost pre = self.store.expiry_users.deep_view();
                self.store.expiry_users.push(rt);
                proof {
                    assert(self.store.expiry_users.deep_view() =~= pre.push(ret@));
                }
            },
        }
        ret
    }

    /// Sets the default delegation lifetime for future grants.
    pub fn set_expiry_period(&mut self, secs: u64)
        requires
            old(self).wf(),
        ensures
            final(self).wf(),
            final(self).store@.settings.expiry_period == secs,
            final(self).store@.settings.proxy_black_list == old(
                self,
            ).store@.settings.proxy_black_list,
            final(self).store@.settings.method_validate_type == old(
                self,
            ).store@.settings.method_validate_type,
            final(self).store@.expiry_users == old(self).store@.expiry_users,
            final(self).store@.call_queue == old(self).store@.call_queue,
    {
        self.store.settings.expiry_period = secs;
    }

    /// Sets which scoped calls require the owner's approval.
    pub fn set_method_validate_type(&mut self, t: MethodValidationType)
        requires
            old(self).wf(),
        ensures
            final(self).wf(),
            final(self).store@.settings.method_validate_type == t,
            final(self).store@.settings.expiry_period == old(self).store@.settings.expiry_period,
            final(self).store@.settings.proxy_black_list == old(
                self,
            ).store@.settings.proxy_black_list,
            final(self).store@.expiry_users == old(self).store@.expiry_users,
            final(self).store@.call_queue == old(self).store@.call_queue,
    {
        self.store.settings.method_validate_type = t;
    }

    /// Reads the configured validation mode.
    pub fn get_method_validate_type(&self) -> (r: MethodValidationType)
        ensures
            r == self.store@.settings.method_validate_type,
    {
        self.store.settings.method_validate_type
    }

    /// Whether the target is deny-listed.
    pub fn is_proxy_black_list(&self, target: &Identity) -> (r: bool)
        requires
            self.wf(),
        ensures
            r == bl_has(self.store@.settings.proxy_black_list, target@),
    {
        match find_bl_index(&self.store.settings.proxy_black_list, target) {
            Some(_) => true,
            None => false,
        }
    }

    /// Deny-lists the target and returns its display text; a target already
    /// listed keeps its first entry, whose text is returned.
    pub fn add_proxy_black_list(&mut self, target: &Identity) -> (r: String)
        requires
            old(self).wf(),
            target@.len() <= 29,
        ensures
            final(self).wf(),
            final(self).store@.settings.proxy_black_list == bl_insert(
                old(self).store@.settings.proxy_black_list,
                (BlackListEntryV { target: target@, text: crate::trusted::principal_text(target@) }),
            ),
            r@ == (if bl_has(old(self).store@.settings.proxy_black_list, target@) {
                bl_at(old(self).store@.settings.proxy_black_list, target@).text
            } else {
                crate::trusted::principal_text(target@)
            }),
            final(self).store@.settings.expiry_period == old(self).store@.settings.expiry_period,
            final(self).store@.settings.method_validate_type == old(
                self,
            ).store@.settings.method_validate_type,
            final(self).store@.expiry_users == old(self).store@.expiry_users,
            final(self).store@.call_queue == old(self).store@.call_queue,
    {
        proof {
            lemma_bl_insert(
                self.store@.settings.proxy_black_list,
                BlackListEntryV { target: target@, text: crate::trusted::principal_text(target@) },
            );
        }
        match find_bl_index(&self.store.settings.proxy_black_list, target) {
            Some(i) => self.store.settings.proxy_black_list[i].text.clone(),
            None => {
                let text = crate::trusted::identity_text(target);
                let entry = BlackListEntry { target: target.clone(), text: text.clone() };
                let ghost pre = self.store.settings.proxy_black_list.deep_view();
                proof {
                    assert(entry.deep_view() == (BlackListEntryV {
                        target: target@,
                        text: crate::trusted::principal_text(target@),
                    }));
                }
                self.store.settings.proxy_black_list.push(entry);
                proof {
                    assert(self.store.settings.proxy_black_list.deep_view() =~= pre.push(
                        BlackListEntryV {
                            target: target@,
                            text: crate::trusted::principal_text(target@),
                        },
                    ));
                }
                text
            },
        }
    }

    /// Removes the target from the deny list, returning the removed display
    /// text, if any.
    pub fn remove_proxy_black_list(&mut self, target: &Identity) -> (r: Option<String>)
        requires
            old(self).wf(),
        ensures
            final(self).wf(),
            final(self).store@.settings.proxy_black_list == bl_remove(
                old(self).store@.settings.proxy_black_list,
                target@,
            ),
            r.deep_view() == (match bl_lookup(old(self).store@.settings.proxy_black_list, target@) {
                Some(e) => Some(e.text),
                None => None::<Seq<char>>,
            }),
            final(self).store@.settings.expiry_period == old(self).store@.settings.expiry_period,
            final(self).store@.settings.method_validate_type == old(
                self,
            ).store@.settings.method_validate_type,
            final(self).store@.expiry_users == old(self).store@.expiry_users,
            final(self).store@.call_queue == old(self).store@.call_queue,
    {
        proof {
            lemma_bl_remove(self.store@.settings.proxy_black_list, target@);
        }
        match find_bl_index(&self.store.settings.proxy_black_list, target) {
            None => None,
            Some(i) => {
                let ghost pre = self.store.settings.proxy_black_list.deep_view();
                let e = self.store.settings.proxy_black_list.remove(i);
                proof {
                    assert(self.store.settings.proxy_black_list.deep_view() =~= pre.remove(
                        i as int,
                    ));
                }
                Some(e.text)
            },
        }
    }
}

// ---------------------------------------------------------------------------
// Private searches over one delegation record's scope.
// ---------------------------------------------------------------------------

/// Whether the scope lists an entry for this target.
fn scope_has_target(list: &Vec<ProxyActorItem>, canister: &Identity) -> (r: bool)
    ensures
        r == scope_covers_target(list.deep_view(), canister@),
{
    let mut i: usize = 0;
    while i < list.len()
        invariant
            i <= list@.len(),
            forall|j: int| 0 <= j < i ==> list.deep_view()[j].canister != canister@,
        decreases list@.len() - i,
    {
        if list[i].canister.same(canister) {
            proof {
                assert(list.deep_view()[i as int].canister == canister@);
            }
            return true;
        }
        i += 1;
    }
    false
}

/// Whether the entry's method table lists this name.
fn methods_contains(ms: &Vec<Method>, name: &String) -> (r: bool)
    ensures
        r == methods_has(ms.deep_view(), name@),
{
    let mut i: usize = 0;
    while i < ms.len()
        invariant
            i <= ms@.len(),
            forall|j: int| 0 <= j < i ==> ms.deep_view()[j].name != name@,
        decreases ms@.len() - i,
    {
        if ms[i].name == *name {
            proof {
                assert(ms.deep_view()[i as int].name == name@);
            }
            return true;
        }
        i += 1;
    }
    false
}

/// Whether the entry's method table lists this name with the key-operation
/// flag set.
fn methods_key_flag(ms: &Vec<Method>, name: &String) -> (r: bool)
    requires
        forall|p: int, q: int|
            0 <= p < q < ms.deep_view().len() ==> ms.deep_view()[p].name != ms.deep_view()[q].name,
    ensures
        r == (methods_has(ms.deep_view(), name@) && method_at(ms.deep_view(), name@).key_operation),
{
    let mut i: usize = 0;
    while i < ms.len()
        invariant
            i <= ms@.len(),
            forall|p: int, q: int|
                0 <= p < q < ms.deep_view().len() ==> ms.deep_view()[p].name != ms.deep_view()[
                    q
                ].name,
            forall|j: int| 0 <= j < i ==> ms.deep_view()[j].name != name@,
        decreases ms@.len() - i,
    {
        if ms[i].name == *name {
            proof {
                assert(ms.deep_view()[i as int].name == name@);
                lemma_method_at(ms.deep_view(), name@, i as int);
            }
            return ms[i].key_operation;
        }
        i += 1;
    }
    false
}

/// The classification of this name in the entry's method table, if listed.
fn methods_get_type(ms: &Vec<Method>, name: &String) -> (r: Option<MethodType>)
    requires
        forall|p: int, q: int|
            0 <= p < q < ms.deep_view().len() ==> ms.deep_view()[p].name != ms.deep_view()[q].name,
    ensures
        r == (if methods_has(ms.deep_view(), name@) {
            Some(method_at(ms.deep_view(), name@).method_type)
        } else {
            None::<MethodType>
        }),
{
    let mut i: usize = 0;
    while i < ms.len()
        invariant
            i <= ms@.len(),
            forall|p: int, q: int|
                0 <= p < q < ms.deep_view().len() ==> ms.deep_view()[p].name != ms.deep_view()[
                    q
                ].name,
            forall|j: int| 0 <= j < i ==> ms.deep_view()[j].name != name@,
        decreases ms@.len() - i,
    {
        if ms[i].name == *name {
            proof {
                assert(ms.deep_view()[i as int].name == name@);
                lemma_method_at(ms.deep_view(), name@, i as int);
            }
            return Some(ms[i].method_type);
        }
        i += 1;
    }
    None
}

/// Whether the scope lists this method under this target.
fn scope_has_method(list: &Vec<ProxyActorItem>, canister: &Identity, method: &String) -> (r: bool)
    ensures
        r == scope_covers_method(list.deep_view(), canister@, method@),
{
    let mut i: usize = 0;
    while i < list.len()
        invariant
            i <= list@.len(),
            forall|j: int|
                0 <= j < i ==> !(list.deep_view()[j].canister == canister@ && methods_has(
                    list.deep_view()[j].methods,
                    method@,
                )),
        decreases list@.len() - i,
    {
        if list[i].canister.same(canister) && methods_contains(&list[i].methods, method) {
            proof {
                assert(list.deep_view()[i as int].canister == canister@ && methods_has(
                    list.deep_view()[i as int].methods,
                    method@,
                ));
            }
            return true;
        }
        i += 1;
    }
    false
}

/// Whether the scope flags this method as a key operation under this
/// target.
fn scope_has_key_oper(list: &Vec<ProxyActorItem>, canister: &Identity, method: &String) -> (r:
    bool)
    requires
        forall|k: int| 0 <= k < list.deep_view().len() ==> (#[trigger] list.deep_view()[k]).wf(),
    ensures
        r == scope_key_oper(list.deep_view(), canister@, method@),
{
    let mut i: usize = 0;
    while i < list.len()
        invariant
            i <= list@.len(),
            forall|k: int|
                0 <= k < list.deep_view().len() ==> (#[trigger] list.deep_view()[k]).wf(),
            forall|j: int|
                0 <= j < i ==> !(list.deep_view()[j].canister == canister@ && methods_has(
                    list.deep_view()[j].methods,
                    method@,
                ) && method_at(list.deep_view()[j].methods, method@).key_operation),
        decreases list@.len() - i,
    {
        let hit = if list[i].canister.same(canister) {
            proof {
                assert((list.deep_view()[i as int]).wf());
            }
            methods_key_flag(&list[i].methods, method)
        } else {
            false
        };
        if hit {
            proof {
                assert(list.deep_view()[i as int].canister == canister@ && methods_has(
                    list.deep_view()[i as int].methods,
                    method@,
                ) && method_at(list.deep_view()[i as int].methods, method@).key_operation);
            }
            return true;
        }
        i += 1;
    }
    false
}

/// The classification of this method in the first scope entry covering it.
fn scope_first_type(list: &Vec<ProxyActorItem>, canister: &Identity, method: &String) -> (r:
    Option<MethodType>)
    requires
        forall|k: int| 0 <= k < list.deep_view().len() ==> (#[trigger] list.deep_view()[k]).wf(),
    ensures
        r == first_method_type(list.deep_view(), canister@, method@),
{
    let ghost ts = list.deep_view();
    let mut i: usize = 0;
    proof {
        assert(ts.subrange(0, ts.len() as int) =~= ts);
    }
    while i < list.len()
        invariant
            i <= ts.len(),
            ts == list.deep_view(),
            forall|k: int| 0 <= k < ts.len() ==> (#[trigger] ts[k]).wf(),
            first_method_type(ts, canister@, method@) == first_method_type(
                ts.subrange(i as int, ts.len() as int),
                canister@,
                method@,
            ),
        decreases ts.len() - i,
    {
        if list[i].canister.same(canister) && methods_contains(&list[i].methods, method) {
            proof {
                assert((ts[i as int]).wf());
            }
            let t = methods_get_type(&list[i].methods, method);
            proof {
                let suf = ts.subrange(i as int, ts.len() as int);
                assert(suf[0] == ts[i as int]);
                assert(suf[0].canister == canister@ && methods_has(suf[0].methods, method@));
            }
            return t;
        }
        proof {
            assert(!(ts[i as int].canister == canister@ && methods_has(
                ts[i as int].methods,
                method@,
            )));
            lemma_first_method_type_skip(ts, canister@, method@, i as int);
        }
        i += 1;
    }
    proof {
        assert(ts.subrange(ts.len() as int, ts.len() as int) =~= Seq::<
            crate::types::ProxyActorItemV,
        >::empty());
    }
    None
}

impl WalletService {
    /// Whether the delegate holds a record still live at `now` whose scope
    /// covers the target. A pure read: an expired record is reported as not
    /// covering, but only `is_valid_user` evicts it.
    pub fn is_valid_canister(&self, now: u64, user: &Identity, canister: &Identity) -> (r: bool)
        requires
            self.wf(),
        ensures
            r == self.store@.covers_target(user@, canister@, now),
    {
        match find_expiry_index(&self.store.expiry_users, user) {
            None => false,
            Some(i) => {
                if self.store.expiry_users[i].expiry_timestamp > now {
                    scope_has_target(&self.store.expiry_users[i].target_list, canister)
                } else {
                    false
                }
            },
        }
    }

    /// Whether the delegate holds a record still live at `now` whose scope
    /// covers the method on the target.
    pub fn is_valid_canister_method(
        &self,
        now: u64,
        user: &Identity,
        canister: &Identity,
        method_name: &String,
    ) -> (r: bool)
        requires
            self.wf(),
        ensures
            r == self.store@.covers_method(user@, canister@, method_name@, now),
    {
        match find_expiry_index(&self.store.expiry_users, user) {
            None => false,
            Some(i) => {
                if self.store.expiry_users[i].expiry_timestamp > now {
                    scope_has_method(
                        &self.store.expiry_users[i].target_list,
                        canister,
                        method_name,
                    )
                } else {
                    false
                }
            },
        }
    }

    /// Whether the delegate holds a record still live at `now` whose scope
    /// flags the method as a key operation on the target.
    pub fn is_method_key_oper(
        &self,
        now: u64,
        user: &Identity,
        canister: &Identity,
        method_name: &String,
    ) -> (r: bool)
        requires
            self.wf(),
        ensures
            r == self.store@.is_key_oper(user@, canister@, method_name@, now),
    {
        match find_expiry_index(&self.store.expiry_users, user) {
            None => false,
            Some(i) => {
                if self.store.expiry_users[i].expiry_timestamp > now {
                    proof {
                        assert((self.store@.expiry_users[i as int]).wf());
                    }
                    scope_has_key_oper(
                        &self.store.expiry_users[i].target_list,
                        canister,
                        method_name,
                    )
                } else {
                    false
                }
            },
        }
    }

    /// The classification of the method in the first scope entry of the
    /// delegate that covers it.
    pub fn get_method_type(
        &self,
        user: &Identity,
        canister: &Identity,
        method_name: &String,
    ) -> (r: Option<MethodType>)
        requires
            self.wf(),
        ensures
            r == (if eu_has(self.store@.expiry_users, user@) {
                first_method_type(
                    eu_at(self.store@.expiry_users, user@).target_list,
                    canister@,
                    method_name@,
                )
            } else {
                None::<MethodType>
            }),
    {
        match find_expiry_index(&self.store.expiry_users, user) {
            None => None,
            Some(i) => {
                proof {
                    assert((self.store@.expiry_users[i as int]).wf());
                }
                scope_first_type(&self.store.expiry_users[i].target_list, canister, method_name)
            },
        }
    }

    /// Builds the queue entry for a forwarding request: its hash is the
    /// digest of requester, target, method and timestamp, and its
    /// disposition starts out pending.
    pub fn hash_method(user: &Identity, args: CallCanisterArgs, now: u64) -> (r: MethodQueueItem)
        ensures
            r@ == (MethodQueueItemV {
                hash: call_digest(user@, args.canister@, args.method_name@, now),
                user: user@,
                time_stamp: now,
                payload: args@,
                owner_reply: OwnerReplyV::NotFound,
            }),
    {
        let hash = digest_call(user, &args.canister, args.method_name.as_str(), now);
        MethodQueueItem {
            hash,
            user: user.clone(),
            time_stamp: now,
            payload: args,
            owner_reply: OwnerReply::NotFound,
        }
    }

    /// Insert-if-absent: an entry whose hash is already queued is left as
    /// it is, and the hash is returned either way.
    pub fn add_method_queue(&mut self, item: MethodQueueItem) -> (r: String)
        requires
            old(self).wf(),
        ensures
            final(self).wf(),
            final(self).store@.call_queue == q_submit(old(self).store@.call_queue, item@),
            r@ == item@.hash,
            final(self).store@.expiry_users == old(self).store@.expiry_users,
            final(self).store@.settings == old(self).store@.settings,
    {
        proof {
            lemma_q_submit(self.store@.call_queue, item@);
        }
        let h = item.hash.clone();
        match find_queue_index(&self.store.call_queue, &item.hash) {
            Some(_) => h,
            None => {
                let ghost pre = self.store.call_queue.deep_view();
                let ghost iv = item@;
                self.store.call_queue.push(item);
                proof {
                    assert(self.store.call_queue.deep_view() =~= pre.push(iv));
                }
                h
            },
        }
    }

    /// A copy of the queue entry with this hash, if any.
    pub fn get_queue_method(&self, hash: String) -> (r: Option<MethodQueueItem>)
        requires
            self.wf(),
        ensures
            r.deep_view() == q_lookup(self.store@.call_queue, hash@),
    {
        match find_queue_index(&self.store.call_queue, &hash) {
            None => None,
            Some(i) => Some(self.store.call_queue[i].clone()),
        }
    }

    /// The disposition of the queue entry with this hash, if any.
    pub fn get_queue_reply(&self, hash: String) -> (r: Option<OwnerReply>)
        requires
            self.wf(),
        ensures
            r.deep_view() == (match q_lookup(self.store@.call_queue, hash@) {
                Some(it) => Some(it.owner_reply),
                None => None::<OwnerReplyV>,
            }),
    {
        match self.get_queue_method(hash) {
            None => None,
            Some(it) => Some(it.owner_reply),
        }
    }

    /// Overwrites the disposition of the entry with this hash and returns
    /// the stored disposition; an unknown hash changes nothing.
    pub fn update_queue_reply(&mut self, hash: String, reply: OwnerReply) -> (r: Option<
        OwnerReply,
    >)
        requires
            old(self).wf(),
        ensures
            final(self).wf(),
            final(self).store@.call_queue == q_set_reply(
                old(self).store@.call_queue,
                hash@,
                reply@,
            ),
            r.deep_view() == (if q_has(old(self).store@.call_queue, hash@) {
                Some(reply@)
            } else {
                None::<OwnerReplyV>
            }),
            final(self).store@.expiry_users == old(self).store@.expiry_users,
            final(self).store@.settings == old(self).store@.settings,
    {
        match find_queue_index(&self.store.call_queue, &hash) {
            None => None,
            Some(i) => {
                proof {
                    lemma_q_set_reply(self.store@.call_queue, hash@, reply@);
                }
                let ghost pre = self.store.call_queue.deep_view();
                let stored = reply.clone();
                let it = &self.store.call_queue[i];
                let new_it = MethodQueueItem {
                    hash: it.hash.clone(),
                    user: it.user.clone(),
                    time_stamp: it.time_stamp,
                    payload: it.payload.clone(),
                    owner_reply: stored,
                };
                proof {
                    assert(new_it@ == (MethodQueueItemV { owner_reply: reply@, ..pre[i as int] }));
                }
                self.store.call_queue.set(i, new_it);
                proof {
                    assert(self.store.call_queue.deep_view() =~= pre.update(
                        i as int,
                        (MethodQueueItemV { owner_reply: reply@, ..q_at(pre, hash@) }),
                    ));
                }
                Some(reply)
            },
        }
    }

    /// Removes the entry with this hash; returns the hash when an entry was
    /// there.
    pub fn remove_queue_method(&mut self, hash: String) -> (r: Option<String>)
        requires
            old(self).wf(),
        ensures
            final(self).wf(),
            final(self).store@.call_queue == q_remove(old(self).store@.call_queue, hash@),
            r.deep_view() == (if q_has(old(self).store@.call_queue, hash@) {
                Some(hash@)
            } else {
                None::<Seq<char>>
            }),
            final(self).store@.expiry_users == old(self).store@.expiry_users,
            final(self).store@.settings == old(self).store@.settings,
    {
        proof {
            lemma_q_remove(self.store@.call_queue, hash@);
        }
        match find_queue_index(&self.store.call_queue, &hash) {
            None => None,
            Some(i) => {
                let ghost pre = self.store.call_queue.deep_view();
                let _ = self.store.call_queue.remove(i);
                proof {
                    assert(self.store.call_queue.deep_view() =~= pre.remove(i as int));
                }
                Some(hash)
            },
        }
    }

    /// Removal guarded as the boundary does it: the owner may remove any
    /// entry, a requester only their own; anyone else is refused.
    pub fn remove_queue_method_guarded(
        &mut self,
        hash: String,
        caller: &Identity,
        caller_is_owner: bool,
    ) -> (r: Result<bool, String>)
        requires
            old(self).wf(),
        ensures
            final(self).wf(),
            final(self).store@.expiry_users == old(self).store@.expiry_users,
            final(self).store@.settings == old(self).store@.settings,
            (match r {
                Ok(removed) => if !q_has(old(self).store@.call_queue, hash@) {
                    removed == false && final(self).store@.call_queue == old(
                        self,
                    ).store@.call_queue
                } else {
                    (caller_is_owner || q_at(old(self).store@.call_queue, hash@).user == caller@)
                        && removed == true && final(self).store@.call_queue == q_remove(
                        old(self).store@.call_queue,
                        hash@,
                    )
                },
                Err(m) => q_has(old(self).store@.call_queue, hash@) && !caller_is_owner && q_at(
                    old(self).store@.call_queue,
                    hash@,
                ).user != caller@ && m@ == "Not Authorized Execution"@
                    && final(self).store@.call_queue == old(self).store@.call_queue,
            }),
    {
        match find_queue_index(&self.store.call_queue, &hash) {
            None => Ok(false),
            Some(i) => {
                if caller_is_owner || self.store.call_queue[i].user.same(caller) {
                    proof {
                        lemma_q_remove(self.store@.call_queue, hash@);
                    }
                    let ghost pre = self.store.call_queue.deep_view();
                    let _ = self.store.call_queue.remove(i);
                    proof {
                        assert(self.store.call_queue.deep_view() =~= pre.remove(i as int));
                    }
                    Ok(true)
                } else {
                    Err("Not Authorized Execution".to_owned())
                }
            },
        }
    }

    /// The summaries of the already-resolved entries belonging to `user`,
    /// in queue order.
    pub fn get_queue_unconfirmed(&self, user: &Identity) -> (r: Vec<QueueHash>)
        requires
            self.wf(),
        ensures
            r.deep_view() == resolved_for(self.store@.call_queue, user@),
    {
        let ghost q = self.store.call_queue.deep_view();
        let mut out: Vec<QueueHash> = Vec::new();
        let mut i: usize = 0;
        proof {
            assert(q.subrange(0, 0) =~= Seq::empty());
        }
        while i < self.store.call_queue.len()
            invariant
                i <= q.len(),
                q == self.store.call_queue.deep_view(),
                out.deep_view() == resolved_for(q.subrange(0, i as int), user@),
            decreases q.len() - i,
        {
            proof {
                lemma_resolved_for_step(q, user@, i as int);
            }
            let ghost pre = out.deep_view();
            let it = &self.store.call_queue[i];
            let resolved = match it.owner_reply {
                OwnerReply::NotFound => false,
                _ => true,
            };
            proof {
                assert(resolved == (q[i as int].owner_reply != OwnerReplyV::NotFound));
            }
            if it.user.same(user) && resolved {
                let qh = QueueHash {
                    hash: it.hash.clone(),
                    user: it.user.clone(),
                    time_stamp: it.time_stamp,
                };
                proof {
                    assert(qh@ == (QueueHashV {
                        hash: q[i as int].hash,
                        user: q[i as int].user,
                        time_stamp: q[i as int].time_stamp,
                    }));
                }
                out.push(qh);
                proof {
                    assert(out.deep_view() =~= pre.push(
                        (QueueHashV {
                            hash: q[i as int].hash,
                            user: q[i as int].user,
                            time_stamp: q[i as int].time_stamp,
                        }),
                    ));
                }
            }
            i += 1;
        }
        proof {
            assert(q.subrange(0, q.len() as int) =~= q);
        }
        out
    }

    /// The pure authorization decision for a forwarding request at instant
    /// `now`. Reads the store, changes nothing.
    pub fn authorize(
        &self,
        now: u64,
        caller: &Identity,
        caller_is_owner: bool,
        target: &Identity,
        method: &String,
    ) -> (d: Decision)
        requires
            self.wf(),
        ensures
            d == spec_authorize(self.store@, caller@, caller_is_owner, target@, method@, now),
    {
        if self.is_proxy_black_list(target) {
            return Decision::Deny(DenyReason::Blacklisted);
        }
        if caller_is_owner {
            return Decision::Allow;
        }
        if !self.is_valid_canister(now, caller, target) {
            return Decision::Deny(DenyReason::TargetNotCovered);
        }
        if !self.is_valid_canister_method(now, caller, target, method) {
            return Decision::Deny(DenyReason::MethodNotCovered);
        }
        match self.get_method_validate_type() {
            MethodValidationType::ALL => Decision::RequireApproval,
            MethodValidationType::UPDATE => {
                match self.get_method_type(caller, target, method) {
                    Some(MethodType::CALL) => Decision::RequireApproval,
                    _ => Decision::Allow,
                }
            },
            MethodValidationType::KEY => {
                if self.is_method_key_oper(now, caller, target, method) {
                    Decision::RequireApproval
                } else {
                    Decision::Allow
                }
            },
        }
    }

    /// Authorizes a forwarding request and, where the policy asks for the
    /// owner's approval, queues it and hands back its hash instead. A
    /// denial leaves the store untouched; the caller must abort the
    /// request.
    pub fn targets_guard(
        &mut self,
        now: u64,
        caller: &Identity,
        caller_is_owner: bool,
        args: CallCanisterArgs,
    ) -> (r: Result<Option<String>, DenyReason>)
        requires
            old(self).wf(),
        ensures
            final(self).wf(),
            final(self).store@.expiry_users == old(self).store@.expiry_users,
            final(self).store@.settings == old(self).store@.settings,
            (match r {
                Err(reason) => spec_authorize(
                    old(self).store@,
                    caller@,
                    caller_is_owner,
                    args.canister@,
                    args.method_name@,
                    now,
                ) == Decision::Deny(reason) && final(self).store@.call_queue == old(
                    self,
                ).store@.call_queue,
                Ok(hash_opt) => match hash_opt {
                    None => spec_authorize(
                        old(self).store@,
                        caller@,
                        caller_is_owner,
                        args.canister@,
                        args.method_name@,
                        now,
                    ) == Decision::Allow && final(self).store@.call_queue == old(
                        self,
                    ).store@.call_queue,
                    Some(h) => spec_authorize(
                        old(self).store@,
                        caller@,
                        caller_is_owner,
                        args.canister@,
                        args.method_name@,
                        now,
                    ) == Decision::RequireApproval && h@ == call_digest(
                        caller@,
                        args.canister@,
                        args.method_name@,
                        now,
                    ) && final(self).store@.call_queue == q_submit(
                        old(self).store@.call_queue,
                        (MethodQueueItemV {
                            hash: h@,
                            user: caller@,
                            time_stamp: now,
                            payload: args@,
                            owner_reply: OwnerReplyV::NotFound,
                        }),
                    ),
                },
            }),
    {
        let d = self.authorize(now, caller, caller_is_owner, &args.canister, &args.method_name);
        match d {
            Decision::Deny(reason) => Err(reason),
            Decision::Allow => Ok(None),
            Decision::RequireApproval => {
                let item = WalletService::hash_method(caller, args, now);
                let h = self.add_method_queue(item);
                Ok(Some(h))
            },
        }
    }

    /// What the owner's confirmation of this hash requires next. The queue
    /// is only read; recording the outcome afterwards goes through
    /// `update_queue_reply`.
    pub fn owner_confirm_prepare(&self, hash: &String, approve: bool) -> (a: ConfirmAction)
        requires
            self.wf(),
        ensures
            (match a {
                ConfirmAction::MissingEntry => !q_has(self.store@.call_queue, hash@),
                ConfirmAction::Execute(payload) => q_has(self.store@.call_queue, hash@) && approve
                    && payload@ == q_at(self.store@.call_queue, hash@).payload,
                ConfirmAction::Refuse => q_has(self.store@.call_queue, hash@) && !approve,
            }),
    {
        match find_queue_index(&self.store.call_queue, hash) {
            None => ConfirmAction::MissingEntry,
            Some(i) => {
                if approve {
                    ConfirmAction::Execute(self.store.call_queue[i].payload.clone())
                } else {
                    ConfirmAction::Refuse
                }
            },
        }
    }

    /// The boundary guard: the owner always passes; anyone else passes only
    /// with a live delegation, and an expired record found here is evicted.
    pub fn owner_or_valid_user_guard(
        &mut self,
        now: u64,
        caller: &Identity,
        caller_is_owner: bool,
    ) -> (r: bool)
        requires
            old(self).wf(),
        ensures
            final(self).wf(),
            r == (caller_is_owner || old(self).store@.is_live(caller@, now)),
            final(self).store@.expiry_users == (if r {
                old(self).store@.expiry_users
            } else {
                eu_remove(old(self).store@.expiry_users, caller@)
            }),
            final(self).store@.settings == old(self).store@.settings,
            final(self).store@.call_queue == old(self).store@.call_queue,
    {
        if caller_is_owner {
            true
        } else {
            self.is_valid_user(now, caller)
        }
    }
}

/// The whole state, exported as one unit for the boundary to persist.
pub fn pre_upgrade(service: &WalletService) -> (r: WalletStore)
    ensures
        r@ == service.store@,
{
    service.store.clone()
}

/// A service restored from a persisted state snapshot.
pub fn post_upgrade(stable_state: WalletStore) -> (r: WalletService)
    requires
        stable_state@.wf(),
    ensures
        r.wf(),
        r.store@ == stable_state@,
{
    WalletService { store: stable_state }
}

} // verus!
