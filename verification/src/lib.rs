//! A quantum-resistant blockchain core: transactions, blocks, sharding,
//! a hybrid consensus engine, and a balance/stake state manager, with the
//! cryptographic primitives supplied by outside libraries behind trusted
//! wrappers.

use vstd::prelude::*;

pub mod codec;
pub mod crypto;
pub mod transaction;
pub mod block;
pub mod consensus;
pub mod shard;
pub mod state;
pub mod blockchain;
pub mod coin;
pub mod wallet;
pub mod rng;
pub mod bridge;
pub mod governance;
pub mod services;
pub mod audio;

verus! {

/// The number of bytes in a digest produced by the chain's hash function.
pub const DIGEST_LEN: usize = 32;

/// Parts-per-thousand fixed-point scale used for ratios such as network
/// load, security level and energy efficiency.
pub const MILLI: u64 = 1000;

/// A verified byte-for-byte copy of a byte buffer.
pub fn clone_u8(v: &Vec<u8>) -> (r: Vec<u8>)
    ensures
        r@ == v@,
{
    let mut out: Vec<u8> = Vec::new();
    let mut i: usize = 0;
    while i < v.len()
        invariant
            i <= v@.len(),
            out@ =~= v@.subrange(0, i as int),
        decreases v@.len() - i,
    {
        out.push(v[i]);
        i = i + 1;
        assert(out@ =~= v@.subrange(0, i as int));
    }
    assert(v@.subrange(0, v@.len() as int) =~= v@);
    out
}

} // verus!
