//! Commitments to a low-rank matrix: hash fingerprints of its factors that
//! can be exchanged and combined without revealing the factors themselves.
//! Only the public shape — rank and dimensions — is carried in the clear,
//! so compatibility of two committed matrices can be checked directly.

use vstd::prelude::*;
use vstd::utf8::encode_utf8;
use vstd::string::StringExecFns;
use vstd::string::StrSliceExecFns;
use crate::bytesutil::push_str_bytes;
use crate::hashing::{digest32, hex_of, sha256_hex, lemma_hex_of_ascii};

verus! {

/// A commitment to a low-rank identity matrix: one hash per factor, a
/// combined root, the public shape, and a blinding hash.
#[derive(Debug, Clone)]
pub struct ZkCommitment {
    pub u_commitment: String,
    pub sigma_commitment: String,
    pub v_commitment: String,
    pub root_commitment: String,
    pub committed_rank: usize,
    pub committed_m: usize,
    pub committed_n: usize,
    pub blinding_hash: String,
}

/// The bytes a merged root commitment hashes: both parent roots under a
/// domain tag.
pub open spec fn merge_input(root_a: Seq<char>, root_b: Seq<char>) -> Seq<u8> {
    encode_utf8(root_a) + encode_utf8(root_b) + encode_utf8("merge"@)
}

impl Default for ZkCommitment {
    /// The empty commitment: no hashes, zero shape.
    fn default() -> (r: ZkCommitment)
        ensures
            r.u_commitment@.len() == 0,
            r.sigma_commitment@.len() == 0,
            r.v_commitment@.len() == 0,
            r.root_commitment@.len() == 0,
            r.committed_rank == 0,
            r.committed_m == 0,
            r.committed_n == 0,
            r.blinding_hash@.len() == 0,
    {
        ZkCommitment {
            u_commitment: String::new(),
            sigma_commitment: String::new(),
            v_commitment: String::new(),
            root_commitment: String::new(),
            committed_rank: 0,
            committed_m: 0,
            committed_n: 0,
            blinding_hash: String::new(),
        }
    }
}

impl ZkCommitment {
    /// Whether two committed matrices can be multiplied: the left one's
    /// column count equals the right one's row count.
    pub fn is_compatible(&self, other: &ZkCommitment) -> (r: bool)
        ensures
            r == (self.committed_n == other.committed_m),
    {
        self.committed_n == other.committed_m
    }

    /// The hexadecimal hash of a byte slice.
    pub fn hash_bytes(data: &[u8]) -> (r: String)
        ensures
            r@ == hex_of(digest32(data@)),
    {
        sha256_hex(data)
    }

    /// The hexadecimal hash of a string.
    pub fn hash_str(data: &str) -> (r: String)
        ensures
            r@ == hex_of(digest32(encode_utf8(data@))),
    {
        ZkCommitment::hash_bytes(data.as_bytes())
    }

    /// Merge two commitments: the root hashes both parent roots, each factor
    /// commitment carries a distinct slice of the new root, ranks add, and
    /// the shape composes as a matrix product's would.
    pub fn merge(a: &ZkCommitment, b: &ZkCommitment) -> (r: ZkCommitment)
        requires
            a.committed_rank + b.committed_rank <= usize::MAX,
        ensures
            r.root_commitment@ == hex_of(
                digest32(merge_input(a.root_commitment@, b.root_commitment@)),
            ),
            r.u_commitment@ == "merged:"@ + r.root_commitment@.subrange(0, 16),
            r.sigma_commitment@ == "merged:"@ + r.root_commitment@.subrange(16, 32),
            r.v_commitment@ == "merged:"@ + r.root_commitment@.subrange(32, 48),
            r.committed_rank == a.committed_rank + b.committed_rank,
            r.committed_m == a.committed_m,
            r.committed_n == b.committed_n,
            r.blinding_hash@.len() == 0,
    {
        let mut input: Vec<u8> = Vec::new();
        push_str_bytes(&mut input, a.root_commitment.as_str());
        push_str_bytes(&mut input, b.root_commitment.as_str());
        push_str_bytes(&mut input, "merge");
        proof {
            assert(input@ =~= merge_input(a.root_commitment@, b.root_commitment@));
        }
        let root = sha256_hex(input.as_slice());
        proof {
            lemma_hex_of_ascii(digest32(merge_input(a.root_commitment@, b.root_commitment@)));
        }
        let u_commitment = String::from_str("merged:").concat(root.as_str().substring_ascii(0, 16));
        let sigma_commitment = String::from_str("merged:").concat(
            root.as_str().substring_ascii(16, 32),
        );
        let v_commitment = String::from_str("merged:").concat(
            root.as_str().substring_ascii(32, 48),
        );
        ZkCommitment {
            u_commitment,
            sigma_commitment,
            v_commitment,
            root_commitment: root,
            committed_rank: a.committed_rank + b.committed_rank,
            committed_m: a.committed_m,
            committed_n: b.committed_n,
            blinding_hash: String::new(),
        }
    }
}

} // verus!
