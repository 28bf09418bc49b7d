//! The proof-of-work algorithm around the sortition classifier: sealing,
//! seal verification, and a bounded mining loop.

use vstd::prelude::*;
use crate::hash256::{H256, h256_bytes, h256_of_bytes, u64_be_bytes, append_u64_be};
use crate::block::{blake3_of, blake3_hash};
use crate::sortition::{classify, spec_classify, work_hash, ContentKind, Difficulties};

verus! {

/// Two to the 256th power: one beyond the largest 256-bit work value.
pub open spec fn pow2_256() -> nat {
    0x1000000000000000000000000000000000000000000000000 * 0x10000000000000000
}

/// The BLAKE3 proof-of-work algorithm.
pub struct Blake3POW {
}

/// A seal: the difficulty a block was mined at, the work hash that meets
/// it, and the nonce that produced that work.
#[derive(Clone, Copy, Debug, PartialEq, Eq, Structural)]
pub struct Seal {
    pub difficulty: u64,
    pub work: H256,
    pub nonce: u64,
}

/// One mining attempt: a difficulty, the pre-hash being mined over, and a
/// nonce.
#[derive(Clone, Copy, Debug, PartialEq, Eq, Structural)]
pub struct Compute {
    pub difficulty: u64,
    pub pre_hash: H256,
    pub nonce: u64,
}

/// When a seal is valid for a pre-hash at a difficulty: it was made at
/// that difficulty, its work hash is the digest of the pre-hash and its
/// nonce, and the work meets the difficulty.
pub open spec fn seal_valid(pre_hash: H256, s: Seal, difficulty: u64) -> bool {
    &&& s.difficulty == difficulty
    &&& s.work == work_hash(h256_bytes(pre_hash), s.nonce)
    &&& s.work.val() * difficulty < pow2_256()
}

impl Compute {
    /// Hashes the pre-hash and nonce once and wraps the result in a seal.
    pub fn compute(&self) -> (r: Seal)
        ensures
            r.difficulty == self.difficulty,
            r.nonce == self.nonce,
            r.work == work_hash(h256_bytes(self.pre_hash), self.nonce),
    {
        let mut input = self.pre_hash.to_bytes();
        append_u64_be(&mut input, self.nonce);
        assert(input@ =~= h256_bytes(self.pre_hash) + u64_be_bytes(self.nonce));
        let digest = blake3_hash(input.as_slice());
        let work = H256::from_byte_slice(digest.as_slice(), 0);
        proof {
            assert(digest@.subrange(0, 32) =~= digest@);
        }
        Seal { difficulty: self.difficulty, work, nonce: self.nonce }
    }
}

impl Blake3POW {
    /// A new instance of the algorithm.
    pub fn new() -> (r: Blake3POW) {
        Blake3POW {  }
    }

    /// True exactly when the product of the hash's value and the
    /// difficulty still fits in 256 bits, so the hash is small enough for
    /// the difficulty.
    pub fn hash_meets_difficulty(hash: &H256, difficulty: u64) -> (r: bool)
        ensures
            r == (hash.val() * difficulty < pow2_256()),
    {
        let d: u128 = difficulty as u128;
        proof {
            assert((hash.w3 as int) * (d as int) < 0xFFFFFFFFFFFFFFFF0000000000000001
                && (hash.w2 as int) * (d as int) < 0xFFFFFFFFFFFFFFFF0000000000000001
                && (hash.w1 as int) * (d as int) < 0xFFFFFFFFFFFFFFFF0000000000000001
                && (hash.w0 as int) * (d as int) < 0xFFFFFFFFFFFFFFFF0000000000000001)
                by (nonlinear_arith)
                requires
                    hash.w3 < 0x10000000000000000,
                    hash.w2 < 0x10000000000000000,
                    hash.w1 < 0x10000000000000000,
                    hash.w0 < 0x10000000000000000,
                    (d as int) < 0x10000000000000000,
            {}
        }
        let p3: u128 = (hash.w3 as u128) * d;
        let c3: u128 = p3 / 0x10000000000000000;
        let p2: u128 = (hash.w2 as u128) * d + c3;
        let c2: u128 = p2 / 0x10000000000000000;
        let p1: u128 = (hash.w1 as u128) * d + c2;
        let c1: u128 = p1 / 0x10000000000000000;
        let p0: u128 = (hash.w0 as u128) * d + c1;
        let c0: u128 = p0 / 0x10000000000000000;
        proof {
            let b: int = 0x10000000000000000;
            let dd: int = difficulty as int;
            let x0: int = (hash.w0 as int) * dd;
            let x1: int = (hash.w1 as int) * dd;
            let x2: int = (hash.w2 as int) * dd;
            let x3: int = (hash.w3 as int) * dd;
            let q0: int = p0 as int / b;
            let r0: int = p0 as int % b;
            let q1: int = p1 as int / b;
            let r1: int = p1 as int % b;
            let q2: int = p2 as int / b;
            let r2: int = p2 as int % b;
            let q3: int = p3 as int / b;
            let r3: int = p3 as int % b;
            vstd::arithmetic::div_mod::lemma_fundamental_div_mod(p0 as int, b);
            vstd::arithmetic::div_mod::lemma_fundamental_div_mod(p1 as int, b);
            vstd::arithmetic::div_mod::lemma_fundamental_div_mod(p2 as int, b);
            vstd::arithmetic::div_mod::lemma_fundamental_div_mod(p3 as int, b);
            vstd::arithmetic::div_mod::lemma_mod_bound(p0 as int, b);
            vstd::arithmetic::div_mod::lemma_mod_bound(p1 as int, b);
            vstd::arithmetic::div_mod::lemma_mod_bound(p2 as int, b);
            vstd::arithmetic::div_mod::lemma_mod_bound(p3 as int, b);
            assert(hash.val() * difficulty
                == x0 * 0x1000000000000000000000000000000000000000000000000
                    + x1 * 0x100000000000000000000000000000000
                    + x2 * 0x10000000000000000 + x3) by (nonlinear_arith)
                requires
                    hash.val() == (hash.w0 as nat)
                        * 0x1000000000000000000000000000000000000000000000000
                        + (hash.w1 as nat) * 0x100000000000000000000000000000000
                        + (hash.w2 as nat) * 0x10000000000000000 + (hash.w3 as nat),
                    x0 == (hash.w0 as int) * dd,
                    x1 == (hash.w1 as int) * dd,
                    x2 == (hash.w2 as int) * dd,
                    x3 == (hash.w3 as int) * dd,
                    dd == difficulty as int,
            {}
            assert(p3 as int == x3 && p2 as int == x2 + q3 && p1 as int == x1 + q2
                && p0 as int == x0 + q1);
            assert(pow2_256() == 0x1000000000000000000000000000000000000000000000000
                * 0x10000000000000000);
            assert(hash.val() * difficulty
                == q0 * (pow2_256() as int)
                    + r0 * 0x1000000000000000000000000000000000000000000000000
                    + r1 * 0x100000000000000000000000000000000
                    + r2 * 0x10000000000000000 + r3);
            assert(r0 * 0x1000000000000000000000000000000000000000000000000
                + r1 * 0x100000000000000000000000000000000
                + r2 * 0x10000000000000000 + r3
                < pow2_256() as int);
            assert(c0 as int == q0);
            if c0 == 0 {
                assert(hash.val() * difficulty < pow2_256());
            } else {
                assert(q0 >= 1);
                assert(hash.val() * difficulty >= pow2_256());
            }
        }
        c0 == 0
    }

    /// Verifies a seal against a pre-hash and the current difficulty:
    /// true exactly when the seal is valid for them.
    pub fn verify(&self, pre_hash: &H256, seal: &Seal, difficulty: u64) -> (r: bool)
        ensures
            r == seal_valid(*pre_hash, *seal, difficulty),
    {
        if seal.difficulty != difficulty {
            return false;
        }
        if !Self::hash_meets_difficulty(&seal.work, difficulty) {
            return false;
        }
        let compute = Compute { difficulty, pre_hash: *pre_hash, nonce: seal.nonce };
        let recomputed = compute.compute();
        recomputed.work == seal.work
    }

    /// Tries nonces `0, 1, ...` over a fixed pre-hash until the sortition
    /// classifier accepts one, giving up after `rounds` attempts. On
    /// success, returns the role, the work hash, and the first nonce that
    /// the classifier accepts.
    pub fn mine(&self, pre_hash: &Vec<u8>, d: &Difficulties, rounds: u64)
        -> (r: Option<(ContentKind, H256, u64)>)
        ensures
            r matches Some(found) ==> found.2 < rounds
                && spec_classify(pre_hash@, found.2, *d) == Some((found.0, found.1))
                && forall|m: u64| m < found.2 ==> spec_classify(pre_hash@, m, *d) is None,
            r is None ==> forall|m: u64| m < rounds ==> spec_classify(pre_hash@, m, *d) is None,
    {
        let mut nonce: u64 = 0;
        while nonce < rounds
            invariant
                nonce <= rounds,
                forall|m: u64| m < nonce ==> spec_classify(pre_hash@, m, *d) is None,
            decreases rounds - nonce,
        {
            match classify(pre_hash, nonce, d) {
                Some((kind, work)) => {
                    return Some((kind, work, nonce));
                }
                None => {}
            }
            nonce = nonce + 1;
        }
        None
    }
}

} // verus!
