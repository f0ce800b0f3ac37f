use vstd::prelude::*;

use soroban_sdk::{Bytes, Env};

verus! {

/// The host environment of the contract, carried through to the host
/// functions that need it.
#[verifier::external_type_specification]
#[verifier::external_body]
pub struct ExEnv(Env);

/// The SHA-256 digest of `data`.
pub uninterp spec fn sha256_digest(data: Seq<u8>) -> Seq<u8>;

/// SHA-256 of `data`, computed by the host through
/// `soroban_sdk::crypto::Crypto::sha256` (on a `Bytes` copy of the data).
/// The contract claims only that the digest is a function of the data
/// alone. The host charges the call to the transaction's budget and aborts
/// the transaction when that budget runs out; the budget belongs to the
/// environment and is not stated here.
#[verifier::external_body]
pub(crate) fn sha256(env: &Env, data: &Vec<u8>) -> (r: [u8; 32])
    ensures
        r@ == sha256_digest(data@),
{
    let bytes = Bytes::from_slice(env, data.as_slice());
    env.crypto().sha256(&bytes).to_array()
}

} // verus!
