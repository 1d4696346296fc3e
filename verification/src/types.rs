//! Data model of the proxy: identities, delegation scopes and records,
//! queued forwarding requests, and the process-wide settings, together with
//! their mathematical views and the well-formedness invariants that the
//! store keeps.

use vstd::prelude::*;

verus! {

/// An opaque principal identifier (owner, delegate, or target), held as its
/// raw bytes.
#[derive(Debug, PartialEq, Eq, PartialOrd, Ord, Hash)]
pub struct Identity {
    pub bytes: Vec<u8>,
}

impl View for Identity {
    type V = Seq<u8>;

    open spec fn view(&self) -> Seq<u8> {
        self.bytes@
    }
}

impl DeepView for Identity {
    type V = Seq<u8>;

    open spec fn deep_view(&self) -> Seq<u8> {
        self@
    }
}

impl Identity {
    /// A principal's significant bytes never exceed 29; only identities of
    /// this size have a textual form.
    pub open spec fn principal_sized(&self) -> bool {
        self@.len() <= 29
    }

    pub fn new(bytes: Vec<u8>) -> (r: Identity)
        ensures
            r@ == bytes@,
    {
        Identity { bytes }
    }

    /// Byte-for-byte equality of two identities.
    pub fn same(&self, other: &Identity) -> (r: bool)
        ensures
            r == (self@ == other@),
    {
        if self.bytes.len() != other.bytes.len() {
            assert(self@.len() != other@.len());
            return false;
        }
        let n = self.bytes.len();
        let mut i: usize = 0;
        while i < n
            invariant
                n == self@.len(),
                n == other@.len(),
                i <= n,
                forall|j: int| 0 <= j < i ==> self@[j] == other@[j],
            decreases n - i,
        {
            if self.bytes[i] != other.bytes[i] {
                return false;
            }
            i += 1;
        }
        proof {
            assert(self@ =~= other@);
        }
        true
    }
}

impl Clone for Identity {
    fn clone(&self) -> (r: Self)
        ensures
            r@ == self@,
    {
        Identity { bytes: clone_bytes(&self.bytes) }
    }
}

/// Copies a byte vector element by element.
pub fn clone_bytes(v: &Vec<u8>) -> (r: Vec<u8>)
    ensures
        r@ == v@,
{
    let mut out: Vec<u8> = Vec::new();
    let mut i: usize = 0;
    while i < v.len()
        invariant
            i <= v@.len(),
            out@ == v@.subrange(0, i as int),
        decreases v@.len() - i,
    {
        out.push(v[i]);
        proof {
            assert(out@ =~= v@.subrange(0, i + 1 as int));
        }
        i += 1;
    }
    proof {
        assert(out@ =~= v@);
    }
    out
}

/// How a scoped method is classified at the target: a read-only query, a
/// state-changing call, or a composite query.
#[derive(Debug, Clone, Copy, PartialEq, Eq, Structural)]
pub enum MethodType {
    QUERY,
    CALL,
    CompositeQuery,
}

/// Which scoped calls additionally require owner approval before execution:
/// every call, only state-changing ones, or only key operations.
#[derive(Debug, Clone, Copy, PartialEq, Eq, Structural)]
pub enum MethodValidationType {
    ALL,
    UPDATE,
    KEY,
}

/// A method a delegate may invoke on one target, with its classification and
/// whether it is flagged as a security-sensitive key operation.
#[derive(Debug)]
pub struct Method {
    pub name: String,
    pub method_type: MethodType,
    pub key_operation: bool,
}

#[verifier::ext_equal]
pub ghost struct MethodV {
    pub name: Seq<char>,
    pub method_type: MethodType,
    pub key_operation: bool,
}

impl View for Method {
    type V = MethodV;

    open spec fn view(&self) -> MethodV {
        MethodV { name: self.name@, method_type: self.method_type, key_operation: self.key_operation }
    }
}

impl DeepView for Method {
    type V = MethodV;

    open spec fn deep_view(&self) -> MethodV {
        self@
    }
}

impl Clone for Method {
    fn clone(&self) -> (r: Self)
        ensures
            r@ == self@,
    {
        Method {
            name: self.name.clone(),
            method_type: self.method_type,
            key_operation: self.key_operation,
        }
    }
}

/// One entry of a delegation scope: a target and the methods the delegate
/// may invoke on it, keyed by method name.
#[derive(Debug)]
pub struct ProxyActorItem {
    pub canister: Identity,
    pub methods: Vec<Method>,
}

#[verifier::ext_equal]
pub ghost struct ProxyActorItemV {
    pub canister: Seq<u8>,
    pub methods: Seq<MethodV>,
}

impl View for ProxyActorItem {
    type V = ProxyActorItemV;

    open spec fn view(&self) -> ProxyActorItemV {
        ProxyActorItemV { canister: self.canister@, methods: self.methods.deep_view() }
    }
}

impl DeepView for ProxyActorItem {
    type V = ProxyActorItemV;

    open spec fn deep_view(&self) -> ProxyActorItemV {
        self@
    }
}

impl ProxyActorItemV {
    /// Method names act as map keys within one scope entry: no two entries
    /// share a name.
    pub open spec fn wf(&self) -> bool {
        forall|i: int, j: int|
            0 <= i < j < self.methods.len() ==> self.methods[i].name != self.methods[j].name
    }
}

impl Clone for ProxyActorItem {
    fn clone(&self) -> (r: Self)
        ensures
            r@ == self@,
    {
        let mut methods: Vec<Method> = Vec::new();
        let mut i: usize = 0;
        while i < self.methods.len()
            invariant
                i <= self.methods@.len(),
                methods.deep_view() == self.methods.deep_view().subrange(0, i as int),
            decreases self.methods@.len() - i,
        {
            let ghost pre = methods.deep_view();
            let c = self.methods[i].clone();
            proof {
                assert(pre.len() == i);
                assert(c.deep_view() == self.methods.deep_view()[i as int]);
            }
            methods.push(c);
            proof {
                assert(methods.deep_view() =~= self.methods.deep_view().subrange(0, i + 1 as int));
            }
            i += 1;
        }
        proof {
            assert(methods.deep_view() =~= self.methods.deep_view());
        }
        ProxyActorItem { canister: self.canister.clone(), methods }
    }
}

/// The scope and optional explicit lifetime an owner passes when granting a
/// delegation.
#[derive(Debug)]
pub struct ProxyActorTargets {
    pub expiration: Option<u64>,
    pub targets: Vec<ProxyActorItem>,
}

impl ProxyActorTargets {
    pub open spec fn wf(&self) -> bool {
        forall|i: int| 0 <= i < self.targets@.len() ==> (#[trigger] self.targets@[i]@).wf()
    }
}

/// A forwarding request: the target, the method to invoke on it, the raw
/// argument bytes, and the cycles to attach.
#[derive(Debug)]
pub struct CallCanisterArgs {
    pub canister: Identity,
    pub method_name: String,
    pub args: Vec<u8>,
    pub cycles: u128,
}

#[verifier::ext_equal]
pub ghost struct CallCanisterArgsV {
    pub canister: Seq<u8>,
    pub method_name: Seq<char>,
    pub args: Seq<u8>,
    pub cycles: u128,
}

impl View for CallCanisterArgs {
    type V = CallCanisterArgsV;

    open spec fn view(&self) -> CallCanisterArgsV {
        CallCanisterArgsV {
            canister: self.canister@,
            method_name: self.method_name@,
            args: self.args@,
            cycles: self.cycles,
        }
    }
}

impl DeepView for CallCanisterArgs {
    type V = CallCanisterArgsV;

    open spec fn deep_view(&self) -> CallCanisterArgsV {
        self@
    }
}

impl Clone for CallCanisterArgs {
    fn clone(&self) -> (r: Self)
        ensures
            r@ == self@,
    {
        CallCanisterArgs {
            canister: self.canister.clone(),
            method_name: self.method_name.clone(),
            args: clone_bytes(&self.args),
            cycles: self.cycles,
        }
    }
}

/// The verbatim response bytes of a successfully forwarded call.
#[derive(Debug, PartialEq)]
pub struct CallResult {
    pub ret: Vec<u8>,
}

impl View for CallResult {
    type V = Seq<u8>;

    open spec fn view(&self) -> Seq<u8> {
        self.ret@
    }
}

impl DeepView for CallResult {
    type V = Seq<u8>;

    open spec fn deep_view(&self) -> Seq<u8> {
        self@
    }
}

impl Clone for CallResult {
    fn clone(&self) -> (r: Self)
        ensures
            r@ == self@,
    {
        CallResult { ret: clone_bytes(&self.ret) }
    }
}

/// The owner's disposition of a queued request: still pending (`NotFound`),
/// approved with the outcome of the forwarded call, or rejected.
#[derive(Debug, PartialEq)]
pub enum OwnerReply {
    NotFound,
    Approved(Result<CallResult, String>),
    Rejected(String),
}

#[verifier::ext_equal]
pub ghost enum OwnerReplyV {
    NotFound,
    Approved(Result<Seq<u8>, Seq<char>>),
    Rejected(Seq<char>),
}

impl View for OwnerReply {
    type V = OwnerReplyV;

    open spec fn view(&self) -> OwnerReplyV {
        match self {
            OwnerReply::NotFound => OwnerReplyV::NotFound,
            OwnerReply::Approved(res) => OwnerReplyV::Approved(
                match res {
                    Ok(c) => Ok(c@),
                    Err(e) => Err(e@),
                },
            ),
            OwnerReply::Rejected(s) => OwnerReplyV::Rejected(s@),
        }
    }
}

impl DeepView for OwnerReply {
    type V = OwnerReplyV;

    open spec fn deep_view(&self) -> OwnerReplyV {
        self@
    }
}

impl Clone for OwnerReply {
    fn clone(&self) -> (r: Self)
        ensures
            r@ == self@,
    {
        match self {
            OwnerReply::NotFound => OwnerReply::NotFound,
            OwnerReply::Approved(res) => OwnerReply::Approved(
                match res {
                    Ok(c) => Ok(c.clone()),
                    Err(e) => Err(e.clone()),
                },
            ),
            OwnerReply::Rejected(s) => OwnerReply::Rejected(s.clone()),
        }
    }
}

/// One delegation record: the delegate, its scope, when it was granted and
/// when it expires.
#[derive(Debug)]
pub struct ExpiryUser {
    pub user: Identity,
    pub target_list: Vec<ProxyActorItem>,
    pub timestamp: u64,
    pub expiry_timestamp: u64,
}

#[verifier::ext_equal]
pub ghost struct ExpiryUserV {
    pub user: Seq<u8>,
    pub target_list: Seq<ProxyActorItemV>,
    pub timestamp: u64,
    pub expiry_timestamp: u64,
}

impl View for ExpiryUser {
    type V = ExpiryUserV;

    open spec fn view(&self) -> ExpiryUserV {
        ExpiryUserV {
            user: self.user@,
            target_list: self.target_list.deep_view(),
            timestamp: self.timestamp,
            expiry_timestamp: self.expiry_timestamp,
        }
    }
}

impl DeepView for ExpiryUser {
    type V = ExpiryUserV;

    open spec fn deep_view(&self) -> ExpiryUserV {
        self@
    }
}

impl ExpiryUserV {
    /// A record never expires before it was granted, and each of its scope
    /// entries keys its methods by name.
    pub open spec fn wf(&self) -> bool {
        &&& self.timestamp <= self.expiry_timestamp
        &&& forall|i: int| 0 <= i < self.target_list.len() ==> (#[trigger] self.target_list[i]).wf()
    }
}

impl Clone for ExpiryUser {
    fn clone(&self) -> (r: Self)
        ensures
            r@ == self@,
    {
        ExpiryUser {
            user: self.user.clone(),
            target_list: clone_targets(&self.target_list),
            timestamp: self.timestamp,
            expiry_timestamp: self.expiry_timestamp,
        }
    }
}

/// Copies a scope entry list element by element.
pub fn clone_targets(v: &Vec<ProxyActorItem>) -> (r: Vec<ProxyActorItem>)
    ensures
        r.deep_view() == v.deep_view(),
{
    let mut out: Vec<ProxyActorItem> = Vec::new();
    let mut i: usize = 0;
    while i < v.len()
        invariant
            i <= v@.len(),
            out.deep_view() == v.deep_view().subrange(0, i as int),
        decreases v@.len() - i,
    {
        let ghost pre = out.deep_view();
        let c = v[i].clone();
        proof {
            assert(pre.len() == i);
            assert(c.deep_view() == v.deep_view()[i as int]);
        }
        out.push(c);
        proof {
            assert(out.deep_view() =~= v.deep_view().subrange(0, i + 1 as int));
        }
        i += 1;
    }
    proof {
        assert(out.deep_view() =~= v.deep_view());
    }
    out
}

/// A queued forwarding request awaiting (or after) the owner's disposition,
/// addressed by the digest of its identifying fields.
#[derive(Debug)]
pub struct MethodQueueItem {
    pub hash: String,
    pub user: Identity,
    pub time_stamp: u64,
    pub payload: CallCanisterArgs,
    pub owner_reply: OwnerReply,
}

#[verifier::ext_equal]
pub ghost struct MethodQueueItemV {
    pub hash: Seq<char>,
    pub user: Seq<u8>,
    pub time_stamp: u64,
    pub payload: CallCanisterArgsV,
    pub owner_reply: OwnerReplyV,
}

impl View for MethodQueueItem {
    type V = MethodQueueItemV;

    open spec fn view(&self) -> MethodQueueItemV {
        MethodQueueItemV {
            hash: self.hash@,
            user: self.user@,
            time_stamp: self.time_stamp,
            payload: self.payload@,
            owner_reply: self.owner_reply@,
        }
    }
}

impl DeepView for MethodQueueItem {
    type V = MethodQueueItemV;

    open spec fn deep_view(&self) -> MethodQueueItemV {
        self@
    }
}

impl Clone for MethodQueueItem {
    fn clone(&self) -> (r: Self)
        ensures
            r@ == self@,
    {
        MethodQueueItem {
            hash: self.hash.clone(),
            user: self.user.clone(),
            time_stamp: self.time_stamp,
            payload: self.payload.clone(),
            owner_reply: self.owner_reply.clone(),
        }
    }
}

/// The summary of a resolved queue entry handed back to its requester.
#[derive(Debug)]
pub struct QueueHash {
    pub hash: String,
    pub user: Identity,
    pub time_stamp: u64,
}

#[verifier::ext_equal]
pub ghost struct QueueHashV {
    pub hash: Seq<char>,
    pub user: Seq<u8>,
    pub time_stamp: u64,
}

impl View for QueueHash {
    type V = QueueHashV;

    open spec fn view(&self) -> QueueHashV {
        QueueHashV { hash: self.hash@, user: self.user@, time_stamp: self.time_stamp }
    }
}

impl DeepView for QueueHash {
    type V = QueueHashV;

    open spec fn deep_view(&self) -> QueueHashV {
        self@
    }
}

impl Clone for QueueHash {
    fn clone(&self) -> (r: Self)
        ensures
            r@ == self@,
    {
        QueueHash {
            hash: self.hash.clone(),
            user: self.user.clone(),
            time_stamp: self.time_stamp,
        }
    }
}

/// A deny-listed target and its display text.
#[derive(Debug)]
pub struct BlackListEntry {
    pub target: Identity,
    pub text: String,
}

#[verifier::ext_equal]
pub ghost struct BlackListEntryV {
    pub target: Seq<u8>,
    pub text: Seq<char>,
}

impl View for BlackListEntry {
    type V = BlackListEntryV;

    open spec fn view(&self) -> BlackListEntryV {
        BlackListEntryV { target: self.target@, text: self.text@ }
    }
}

impl DeepView for BlackListEntry {
    type V = BlackListEntryV;

    open spec fn deep_view(&self) -> BlackListEntryV {
        self@
    }
}

impl Clone for BlackListEntry {
    fn clone(&self) -> (r: Self)
        ensures
            r@ == self@,
    {
        BlackListEntry { target: self.target.clone(), text: self.text.clone() }
    }
}

/// The process-wide settings: the default delegation lifetime, the
/// deny-listed targets, and the validation mode that selects which scoped
/// calls need owner approval.
#[derive(Debug)]
pub struct Settings {
    pub expiry_period: u64,
    pub proxy_black_list: Vec<BlackListEntry>,
    pub method_validate_type: MethodValidationType,
}

#[verifier::ext_equal]
pub ghost struct SettingsV {
    pub expiry_period: u64,
    pub proxy_black_list: Seq<BlackListEntryV>,
    pub method_validate_type: MethodValidationType,
}

impl View for Settings {
    type V = SettingsV;

    open spec fn view(&self) -> SettingsV {
        SettingsV {
            expiry_period: self.expiry_period,
            proxy_black_list: self.proxy_black_list.deep_view(),
            method_validate_type: self.method_validate_type,
        }
    }
}

impl DeepView for Settings {
    type V = SettingsV;

    open spec fn deep_view(&self) -> SettingsV {
        self@
    }
}

impl Clone for Settings {
    fn clone(&self) -> (r: Self)
        ensures
            r@ == self@,
    {
        let mut proxy_black_list: Vec<BlackListEntry> = Vec::new();
        let mut i: usize = 0;
        while i < self.proxy_black_list.len()
            invariant
                i <= self.proxy_black_list@.len(),
                proxy_black_list.deep_view() == self.proxy_black_list.deep_view().subrange(
                    0,
                    i as int,
                ),
            decreases self.proxy_black_list@.len() - i,
        {
            let ghost pre = proxy_black_list.deep_view();
            let c = self.proxy_black_list[i].clone();
            proof {
                assert(pre.len() == i);
                assert(c.deep_view() == self.proxy_black_list.deep_view()[i as int]);
            }
            proxy_black_list.push(c);
            proof {
                assert(proxy_black_list.deep_view() =~= self.proxy_black_list.deep_view().subrange(
                    0,
                    i + 1 as int,
                ));
            }
            i += 1;
        }
        proof {
            assert(proxy_black_list.deep_view() =~= self.proxy_black_list.deep_view());
        }
        Settings {
            expiry_period: self.expiry_period,
            proxy_black_list,
            method_validate_type: self.method_validate_type,
        }
    }
}

/// The whole proxy state: delegation records, settings, and the approval
/// queue.
#[derive(Debug)]
pub struct WalletStore {
    pub expiry_users: Vec<ExpiryUser>,
    pub settings: Settings,
    pub call_queue: Vec<MethodQueueItem>,
}

#[verifier::ext_equal]
pub ghost struct WalletStoreV {
    pub expiry_users: Seq<ExpiryUserV>,
    pub settings: SettingsV,
    pub call_queue: Seq<MethodQueueItemV>,
}

impl View for WalletStore {
    type V = WalletStoreV;

    open spec fn view(&self) -> WalletStoreV {
        WalletStoreV {
            expiry_users: self.expiry_users.deep_view(),
            settings: self.settings@,
            call_queue: self.call_queue.deep_view(),
        }
    }
}

impl DeepView for WalletStore {
    type V = WalletStoreV;

    open spec fn deep_view(&self) -> WalletStoreV {
        self@
    }
}

impl Clone for WalletStore {
    fn clone(&self) -> (r: Self)
        ensures
            r@ == self@,
    {
        let mut expiry_users: Vec<ExpiryUser> = Vec::new();
        let mut i: usize = 0;
        while i < self.expiry_users.len()
            invariant
                i <= self.expiry_users@.len(),
                expiry_users.deep_view() == self.expiry_users.deep_view().subrange(0, i as int),
            decreases self.expiry_users@.len() - i,
        {
            let ghost pre = expiry_users.deep_view();
            let c = self.expiry_users[i].clone();
            proof {
                assert(pre.len() == i);
                assert(c.deep_view() == self.expiry_users.deep_view()[i as int]);
            }
            expiry_users.push(c);
            proof {
                assert(expiry_users.deep_view() =~= self.expiry_users.deep_view().subrange(
                    0,
                    i + 1 as int,
                ));
            }
            i += 1;
        }
        let mut call_queue: Vec<MethodQueueItem> = Vec::new();
        let mut j: usize = 0;
        while j < self.call_queue.len()
            invariant
                j <= self.call_queue@.len(),
                call_queue.deep_view() == self.call_queue.deep_view().subrange(0, j as int),
            decreases self.call_queue@.len() - j,
        {
            let ghost pre = call_queue.deep_view();
            let c = self.call_queue[j].clone();
            proof {
                assert(pre.len() == j);
                assert(c.deep_view() == self.call_queue.deep_view()[j as int]);
            }
            call_queue.push(c);
            proof {
                assert(call_queue.deep_view() =~= self.call_queue.deep_view().subrange(
                    0,
                    j + 1 as int,
                ));
            }
            j += 1;
        }
        proof {
            assert(expiry_users.deep_view() =~= self.expiry_users.deep_view());
            assert(call_queue.deep_view() =~= self.call_queue.deep_view());
        }
        WalletStore { expiry_users, settings: self.settings.clone(), call_queue }
    }
}

/// The default delegation lifetime: seven days, in nanoseconds.
pub const DEFAULT_EXPIRY_PERIOD: u64 = 604800000000000;

impl Default for WalletStore {
    /// A fresh store: no delegations, no queued requests, an empty deny
    /// list, the default lifetime, and every scoped call gated by approval.
    fn default() -> (r: Self)
        ensures
            r@.expiry_users.len() == 0,
            r@.call_queue.len() == 0,
            r@.settings.proxy_black_list.len() == 0,
            r@.settings.expiry_period == DEFAULT_EXPIRY_PERIOD,
            r@.settings.method_validate_type == MethodValidationType::ALL,
    {
        WalletStore {
            expiry_users: Vec::new(),
            settings: Settings {
                expiry_period: DEFAULT_EXPIRY_PERIOD,
                proxy_black_list: Vec::new(),
                method_validate_type: MethodValidationType::ALL,
            },
            call_queue: Vec::new(),
        }
    }
}

/// Why a forwarding request is refused outright.
#[derive(Debug, Clone, Copy, PartialEq, Eq, Structural)]
pub enum DenyReason {
    /// The target is deny-listed; even the owner may not forward to it.
    Blacklisted,
    /// The caller's delegation does not cover the target.
    TargetNotCovered,
    /// The caller's delegation covers the target but not the method.
    MethodNotCovered,
}

/// What the authorization policy decides for a forwarding request.
#[derive(Debug, Clone, Copy, PartialEq, Eq, Structural)]
pub enum Decision {
    Allow,
    Deny(DenyReason),
    RequireApproval,
}

impl DenyReason {
    /// The phrase each denial is reported with.
    pub open spec fn spec_text(&self) -> Seq<char> {
        match self {
            DenyReason::Blacklisted => "target denylisted"@,
            DenyReason::TargetNotCovered => "target not in authorized scope"@,
            DenyReason::MethodNotCovered => "method not in authorized scope"@,
        }
    }

    /// The phrase as an owned string, for the boundary to report.
    pub fn text(&self) -> (r: String)
        ensures
            r@ == self.spec_text(),
    {
        match self {
            DenyReason::Blacklisted => "target denylisted".to_owned(),
            DenyReason::TargetNotCovered => "target not in authorized scope".to_owned(),
            DenyReason::MethodNotCovered => "method not in authorized scope".to_owned(),
        }
    }
}

/// What the owner's confirmation of a queued hash requires next: nothing
/// (the hash is unknown), forwarding the stored payload, or recording a
/// rejection.
#[derive(Debug)]
pub enum ConfirmAction {
    MissingEntry,
    Execute(CallCanisterArgs),
    Refuse,
}

} // verus!


