use prism_tree::{classify, Blake3POW, BlockHeader, BlockTree, Compute, Difficulties, H256};

#[test]
fn test_new() {
    let parent = H256::from_low_u64_be(1);
    let timestamp: u128 = 1;
    let nonce: u32 = 1;
    let content_root = H256::from_low_u64_be(1);
    let extra_content = H256::zero();
    let difficulty = H256::from_low_u64_be(1);
    let coinbase = H256::zero();
    let header = BlockHeader::new(parent, timestamp, nonce, content_root, extra_content,
        difficulty, coinbase);
    assert_eq!(header.parent, H256::from_low_u64_be(1));
    assert_eq!(header.timestamp, 1);
    assert_eq!(header.nonce, 1);
    assert_eq!(header.content_root, H256::from_low_u64_be(1));
    assert_eq!(header.extra_content, H256::zero());
    assert_eq!(header.difficulty, H256::from_low_u64_be(1));
}

#[test]
fn Header_test_hash() {
    let parent = H256::from_low_u64_be(1);
    let header = BlockHeader::new(parent, 1, 1, H256::from_low_u64_be(1), H256::zero(),
        H256::from_low_u64_be(1), H256::zero());
    let hash = header.hash();
    assert_eq!(hash.to_bytes().len(), 32);
    // hashing the same header twice gives the same identity
    assert_eq!(header.hash(), hash);
}

#[test]
fn hash256_byte_roundtrip_and_order() {
    let h = H256 { w0: 1, w1: 2, w2: 3, w3: 4 };
    let bytes = h.to_bytes();
    assert_eq!(bytes.len(), 32);
    let back = H256::from_byte_slice(&bytes, 0);
    assert_eq!(back, h);
    let small = H256::from_low_u64_be(5);
    assert!(small.lt(&h));
    assert!(!h.lt(&small));
    assert!(!h.lt(&h));
}

#[test]
fn classify_is_deterministic_and_rejects_zero_difficulty() {
    let pre = vec![1u8, 2, 3, 4];
    let d = Difficulties { transaction: 10, proposer: 10, voter: 10 };
    let a = classify(&pre, 7, &d);
    let b = classify(&pre, 7, &d);
    assert_eq!(a, b);
    let zero = Difficulties { transaction: 0, proposer: 10, voter: 10 };
    assert_eq!(classify(&pre, 7, &zero), None);
}

#[test]
fn hash_meets_difficulty_cases() {
    // difficulty zero: the product is zero, so every hash meets it
    let max = H256 { w0: u64::MAX, w1: u64::MAX, w2: u64::MAX, w3: u64::MAX };
    assert!(Blake3POW::hash_meets_difficulty(&max, 0));
    // difficulty one: the product is the hash itself, which always fits
    assert!(Blake3POW::hash_meets_difficulty(&max, 1));
    // the largest hash at difficulty two overflows 256 bits
    assert!(!Blake3POW::hash_meets_difficulty(&max, 2));
    // a small hash meets a large difficulty
    let small = H256::from_low_u64_be(3);
    assert!(Blake3POW::hash_meets_difficulty(&small, u64::MAX));
}

#[test]
fn compute_and_verify_seal() {
    let pow = Blake3POW::new();
    let pre_hash = H256::from_low_u64_be(42);
    let compute = Compute { difficulty: 1, pre_hash, nonce: 9 };
    let seal = compute.compute();
    assert_eq!(seal.nonce, 9);
    assert_eq!(seal.difficulty, 1);
    assert!(pow.verify(&pre_hash, &seal, 1));
    // a seal for another difficulty is refused
    assert!(!pow.verify(&pre_hash, &seal, 2));
    // a tampered work hash is refused
    let mut bad = seal;
    bad.work = H256::zero();
    assert!(!pow.verify(&pre_hash, &bad, 1));
}

#[test]
fn mine_exhausts_rounds_under_hard_difficulties() {
    let pow = Blake3POW::new();
    let pre = vec![9u8; 8];
    // tiny target ranges: no nonce in a handful of rounds can land below them
    let d = Difficulties { transaction: 1, proposer: 1, voter: 1 };
    assert_eq!(pow.mine(&pre, &d, 8), None);
}

#[test]
fn genesis_tree_state() {
    let t = BlockTree::new(3, 10).expect("distinct genesis digests");
    let g = t.genesis_hash();
    assert!(t.contains_block(&g));
    assert_eq!(t.level_of(&g), Some(0));
    assert_eq!(t.best_proposer_level(), 0);
    assert_eq!(t.block_count(), 4);
    assert_eq!(t.security_depth(), 10);
    // the ledger starts empty; the genesis proposer is the one pending proposer
    assert_eq!(t.ledger().len(), 0);
    assert_eq!(t.pending_transactions().len(), 0);
    assert_eq!(t.pending_proposers(), vec![g]);
    // each voter chain starts at its genesis tip on level zero
    for c in 0u16..3 {
        let (tip, level) = t.best_voter_tip(c).unwrap();
        assert_eq!(level, 0);
        assert_eq!(t.level_of(&tip), Some(0));
    }
    assert_eq!(t.best_voter_tip(3), None);
}
