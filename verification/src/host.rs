//! The host environment that the vault runs in, and the one computation it
//! borrows from it.
use vstd::prelude::*;

verus! {

/// The host environment handle; opaque here, it is only carried through to
/// the host's hashing primitive.
#[verifier::external_type_specification]
#[verifier::external_body]
pub struct ExEnv(soroban_sdk::Env);

/// The SHA-256 digest of a byte string, as the host computes it.
pub uninterp spec fn sha256_of(data: Seq<u8>) -> Seq<u8>;

/// Calls `soroban_sdk::crypto::Crypto::sha256` on `data` and returns the
/// 32 digest bytes. Trusted: the result is SHA-256 of `data`, a function of
/// the bytes alone (the environment only carries the host call).
#[verifier::external_body]
pub(crate) fn sha256_digest(env: &soroban_sdk::Env, data: &[u8]) -> (digest: [u8; 32])
    ensures
        digest@ == sha256_of(data@),
{
    env.crypto().sha256(&soroban_sdk::Bytes::from_slice(env, data)).to_array()
}

} // verus!
