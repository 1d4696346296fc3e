//! The crate's two calls into outside code, behind trusted wrappers. Every
//! contract here is believed, not proved: each names the outside function it
//! relies on, and states no more of the result than that function's
//! documentation gives. Both results are pure functions of the arguments,
//! so each is given a name that the callers' contracts speak of.

use vstd::prelude::*;
use crate::types::Identity;

verus! {

/// The SHA-256 digest of `user ++ canister ++ method (UTF-8) ++ ts
/// (big-endian)`, rendered as lowercase hex. It depends on the four
/// arguments alone.
pub uninterp spec fn call_digest(
    user: Seq<u8>,
    canister: Seq<u8>,
    method: Seq<char>,
    ts: u64,
) -> Seq<char>;

/// The textual form of the principal with these bytes. It depends on the
/// bytes alone.
pub uninterp spec fn principal_text(bytes: Seq<u8>) -> Seq<char>;

/// Relies on sha2::Sha256 (the digest is 32 bytes and a function of the
/// bytes fed to it alone) and on hex::encode (two lowercase hex digits for
/// each byte).
#[verifier::external_body]
pub(crate) fn digest_call(user: &Identity, canister: &Identity, method: &str, ts: u64) -> (r:
    String)
    ensures
        r@ == call_digest(user@, canister@, method@, ts),
        r@.len() == 64,
{
    let mut sha = <sha2::Sha256 as sha2::Digest>::new();
    sha2::Digest::update(&mut sha, user.bytes.as_slice());
    sha2::Digest::update(&mut sha, canister.bytes.as_slice());
    sha2::Digest::update(&mut sha, method.as_bytes());
    sha2::Digest::update(&mut sha, ts.to_be_bytes().as_slice());
    hex::encode(sha2::Digest::finalize(sha).as_slice())
}

/// Relies on candid::Principal::from_slice (accepts up to 29 bytes, panics
/// beyond) and Principal::to_text (the canonical textual form, a function
/// of the principal's bytes alone).
#[verifier::external_body]
pub(crate) fn identity_text(id: &Identity) -> (r: String)
    requires
        id@.len() <= 29,
    ensures
        r@ == principal_text(id@),
{
    candid::Principal::from_slice(id.bytes.as_slice()).to_text()
}

} // verus!
