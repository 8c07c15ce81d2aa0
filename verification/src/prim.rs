//! Trusted cryptographic primitives.
//!
//! The protocol logic is verified; the symmetric cipher and the randomness
//! source are outside realizations, reached only through the items in this
//! module.  Their contracts are what the rest of the library relies on.

use vstd::prelude::*;

verus! {

/// What AES-128 returns on one block: a fixed function of the key and the
/// block alone, identical in every process and on every machine.
pub uninterp spec fn aes_of(key: u128, block: u128) -> u128;

/// Relies on `aes::Aes128` (through `cipher::KeyInit` and
/// `cipher::BlockEncrypt`): encryption of a single 16-byte block, a
/// deterministic function of the key and the block and of nothing else.
#[verifier::external_body]
pub fn aes_encrypt(key: u128, block: u128) -> (r: u128)
    ensures
        r == aes_of(key, block),
{
    let cipher = <aes::Aes128 as aes::cipher::KeyInit>::new(
        &aes::cipher::generic_array::GenericArray::from(key.to_le_bytes()),
    );
    let mut b = aes::cipher::generic_array::GenericArray::from(block.to_le_bytes());
    aes::cipher::BlockEncrypt::encrypt_block(&cipher, &mut b);
    u128::from_le_bytes(b.into())
}

/// Relies on `rand::random`: one fresh sample from the thread-local
/// generator.  Nothing is promised of a random value.
pub assume_specification<T>[ rand::random::<T> ]() -> (r: T)
    where
        rand::distributions::Standard: rand::distributions::Distribution<T>,
;

} // verus!
