//! The hash that names a piece of code.
use crate::radix::reversed;
use vstd::prelude::*;

verus! {

/// The Keccak-256 hash of the bytes, as `ethers_core::utils::keccak256` computes it.
pub uninterp spec fn keccak256_of(bytes: Seq<u8>) -> Seq<u8>;

/// Calls `ethers_core::utils::keccak256`. It is believed of it that it returns 32 bytes, and
/// that the bytes given are all that they depend on; which bytes they are is left unsaid.
#[verifier::external_body]
fn keccak256(bytes: &[u8]) -> (digest: [u8; 32])
    ensures
        digest@ == keccak256_of(bytes@),
{
    ethers_core::utils::keccak256(bytes)
}

/// The hash of the code with its least significant byte first.
pub open spec fn code_hash_le(code: Seq<u8>) -> Seq<u8> {
    keccak256_of(code).reverse()
}

/// The hash of any code is its Keccak-256 digest, the last byte of which comes first.
pub proof fn law_code_hash_is_the_digest_from_its_end(code: Seq<u8>, i: int)
    requires
        0 <= i < keccak256_of(code).len(),
    ensures
        code_hash_le(code).len() == keccak256_of(code).len(),
        code_hash_le(code)[i] == keccak256_of(code)[keccak256_of(code).len() - 1 - i],
{
}

/// The hash of the code with its least significant byte first.
pub fn hash_code(code: &[u8]) -> (hash: Vec<u8>)
    ensures
        hash@ == code_hash_le(code@),
        hash@.len() == 32,
{
    let digest: [u8; 32] = keccak256(code);
    assert(digest@.len() == 32);
    reversed(&digest)
}

} // verus!
