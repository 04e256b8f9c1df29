//! Hash-chained keystreams. A keystream is the concatenation of SHA-256
//! blocks over `prefix || counter || suffix` for counters 0, 1, 2, ...,
//! cut to the requested length. The enclave's sealing, the storage layer's
//! file sealing and the channel's message encryption all draw their
//! keystreams from here, differing only in prefix and suffix.

use vstd::prelude::*;
use vstd::bytes::{spec_u64_to_le_bytes, u64_to_le_bytes};
use crate::bytesutil::push_all;
use crate::hashing::{sha256d, digest32};

verus! {

/// One 32-byte keystream block.
pub open spec fn ks_block(prefix: Seq<u8>, suffix: Seq<u8>, counter: u64) -> Seq<u8> {
    digest32(prefix + spec_u64_to_le_bytes(counter) + suffix)
}

/// The first `nblocks` keystream blocks, concatenated.
pub open spec fn ks_blocks(prefix: Seq<u8>, suffix: Seq<u8>, nblocks: nat) -> Seq<u8>
    decreases nblocks,
{
    if nblocks == 0 {
        Seq::empty()
    } else {
        ks_blocks(prefix, suffix, (nblocks - 1) as nat) + ks_block(
            prefix,
            suffix,
            ((nblocks - 1) as nat) as u64,
        )
    }
}

/// How many 32-byte blocks cover `len` bytes.
pub open spec fn nblocks_for(len: nat) -> nat {
    ((len + 31) / 32) as nat
}

/// The keystream of the given length.
pub open spec fn keystream(prefix: Seq<u8>, suffix: Seq<u8>, len: nat) -> Seq<u8> {
    Seq::new(len, |i: int| ks_blocks(prefix, suffix, nblocks_for(len))[i])
}

/// Generate the keystream of the given length.
pub fn generate_keystream(prefix: &[u8], suffix: &[u8], len: usize) -> (r: Vec<u8>)
    ensures
        r@ == keystream(prefix@, suffix@, len as nat),
        r@.len() == len,
{
    let mut ks: Vec<u8> = Vec::new();
    let mut counter: u64 = 0;
    while ks.len() < len
        invariant
            ks@ == ks_blocks(prefix@, suffix@, counter as nat),
            ks@.len() == 32 * counter,
            counter == 0 || 32 * (counter - 1) < len,
        decreases len + 32 - ks@.len(),
    {
        let mut input: Vec<u8> = Vec::new();
        push_all(&mut input, prefix);
        let ctr_bytes = u64_to_le_bytes(counter);
        push_all(&mut input, ctr_bytes.as_slice());
        push_all(&mut input, suffix);
        let block = sha256d(input.as_slice());
        proof {
            assert(input@ =~= prefix@ + spec_u64_to_le_bytes(counter) + suffix@);
        }
        push_all(&mut ks, block.as_slice());
        counter = counter + 1;
        proof {
            assert(ks@ == ks_blocks(prefix@, suffix@, counter as nat));
        }
    }
    let ghost full = ks@;
    ks.truncate(len);
    proof {
        assert(counter as nat == nblocks_for(len as nat)) by {
            if len == 0 {
                assert(counter == 0);
            } else {
                assert(32 * (counter - 1) < len <= 32 * counter);
            }
        }
        assert(ks@ =~= keystream(prefix@, suffix@, len as nat));
    }
    ks
}

} // verus!
