//! Proof-of-work sortition: one BLAKE3 hash of (pre-hash, nonce) decides
//! which of the three block roles a mining attempt produces, by
//! partitioning the 256-bit output space into three disjoint ranges sized
//! by the three target difficulties.

use vstd::prelude::*;
use crate::hash256::{H256, h256_of_bytes, u64_be_bytes, append_u64_be};
use crate::block::{blake3_of, blake3_hash};

verus! {

/// The role a mined block is assigned by sortition.
#[derive(Clone, Copy, Debug, PartialEq, Eq, Structural)]
pub enum ContentKind {
    Transaction,
    Proposer,
    Voter,
}

/// The three current target difficulties. A larger value makes the
/// corresponding range of work hashes larger, so the role easier to mine.
#[derive(Clone, Copy, Debug, PartialEq, Eq, Structural)]
pub struct Difficulties {
    pub transaction: u64,
    pub proposer: u64,
    pub voter: u64,
}

/// The work hash of one mining attempt: BLAKE3 over the pre-hash bytes
/// followed by the big-endian nonce.
pub open spec fn work_hash(pre_hash: Seq<u8>, nonce: u64) -> H256 {
    h256_of_bytes(blake3_of(pre_hash + u64_be_bytes(nonce)))
}

/// What `classify` returns: `None` when a difficulty is zero (a
/// configuration error) or when the work hash falls beyond the combined
/// threshold (a failed attempt); otherwise the role whose sub-range
/// contains the work value, together with the work hash.
/// The ranges are, in work-value order: transaction, proposer, voter.
pub open spec fn spec_classify(pre_hash: Seq<u8>, nonce: u64, d: Difficulties)
    -> Option<(ContentKind, H256)> {
    if d.transaction == 0 || d.proposer == 0 || d.voter == 0 {
        None
    } else {
        let w = work_hash(pre_hash, nonce);
        let v = w.val();
        if v < d.transaction as nat {
            Some((ContentKind::Transaction, w))
        } else if v < d.transaction as nat + d.proposer as nat {
            Some((ContentKind::Proposer, w))
        } else if v < d.transaction as nat + d.proposer as nat + d.voter as nat {
            Some((ContentKind::Voter, w))
        } else {
            None
        }
    }
}

/// True when the work value lies below the threshold `t`.
fn work_below(w: &H256, t: u128) -> (r: bool)
    ensures
        r == (w.val() < t as nat),
{
    if w.w0 != 0 || w.w1 != 0 {
        assert(w.val() >= 0x10000000000000000 * 0x10000000000000000);
        false
    } else {
        let low: u128 = (w.w2 as u128) * 0x10000000000000000 + (w.w3 as u128);
        low < t
    }
}

/// Classifies one mining attempt: hashes the pre-hash and nonce once and
/// returns the role whose range contains the work value, with the work
/// hash itself; `None` for a zero difficulty or a failed attempt.
pub fn classify(pre_hash: &Vec<u8>, nonce: u64, d: &Difficulties)
    -> (r: Option<(ContentKind, H256)>)
    ensures
        r == spec_classify(pre_hash@, nonce, *d),
{
    if d.transaction == 0 || d.proposer == 0 || d.voter == 0 {
        return None;
    }
    let mut input: Vec<u8> = Vec::new();
    let mut pre = pre_hash.clone();
    input.append(&mut pre);
    append_u64_be(&mut input, nonce);
    assert(input@ =~= pre_hash@ + u64_be_bytes(nonce));
    let digest = blake3_hash(input.as_slice());
    let w = H256::from_byte_slice(digest.as_slice(), 0);
    proof {
        assert(digest@.subrange(0, 32) =~= digest@);
    }
    let t1: u128 = d.transaction as u128;
    let t2: u128 = t1 + d.proposer as u128;
    let t3: u128 = t2 + d.voter as u128;
    if work_below(&w, t1) {
        Some((ContentKind::Transaction, w))
    } else if work_below(&w, t2) {
        Some((ContentKind::Proposer, w))
    } else if work_below(&w, t3) {
        Some((ContentKind::Voter, w))
    } else {
        None
    }
}

/// The three sortition ranges partition the space below the combined
/// threshold: every work value selects exactly one role, and values at or
/// beyond the combined threshold select none.
pub proof fn lemma_classify_partition(pre_hash: Seq<u8>, nonce: u64, d: Difficulties)
    requires
        d.transaction > 0,
        d.proposer > 0,
        d.voter > 0,
    ensures
        ({
            let w = work_hash(pre_hash, nonce);
            let v = w.val();
            &&& (spec_classify(pre_hash, nonce, d) == Some((ContentKind::Transaction, w))
                <==> v < d.transaction as nat)
            &&& (spec_classify(pre_hash, nonce, d) == Some((ContentKind::Proposer, w))
                <==> d.transaction as nat <= v
                    && v < d.transaction as nat + d.proposer as nat)
            &&& (spec_classify(pre_hash, nonce, d) == Some((ContentKind::Voter, w))
                <==> d.transaction as nat + d.proposer as nat <= v
                    && v < d.transaction as nat + d.proposer as nat + d.voter as nat)
            &&& (spec_classify(pre_hash, nonce, d) == None::<(ContentKind, H256)>
                <==> d.transaction as nat + d.proposer as nat + d.voter as nat <= v)
        }),
{
}

} // verus!
