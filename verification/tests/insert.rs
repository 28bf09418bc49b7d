use prism_tree::{content_root_of, decode_header, encode_header, Block, BlockHeader, BlockTree,
    Content, Extrinsic, InsertOutcome, InvalidReason, H256};

fn sealed(parent: H256, nonce: u32, content: Content) -> Block {
    let root = content_root_of(&content);
    let header = BlockHeader::new(parent, 7, nonce, root, H256::zero(), H256::zero(),
        H256::zero());
    Block::from_header(header, Vec::new(), content, H256::zero())
}

#[test]
fn testGenesis() {
    let block = Block::genesis_proposer();
    assert_eq!(block.header.parent, H256::zero());
    assert_eq!(block.header.timestamp, 0);
    assert_eq!(block.header.nonce, 0);
    assert_eq!(block.header.content_root, content_root_of(&block.content));
    assert_eq!(block.header.extra_content, H256::zero());
    assert_eq!(block.header.difficulty, H256::zero());
    match &block.content {
        Content::Proposer { transaction_refs, proposer_refs } => {
            assert!(transaction_refs.is_empty());
            assert!(proposer_refs.is_empty());
        }
        _ => panic!("genesis proposer must carry proposer content"),
    }
}

#[test]
fn insert_twice_is_idempotent() {
    let mut t = BlockTree::new(2, 5).unwrap();
    let tx = sealed(H256::zero(), 1, Content::Transaction {
        extrinsics: vec![Extrinsic { bytes: vec![1, 2, 3] }],
    });
    let h = tx.id();
    assert_eq!(t.insert(tx.clone()), Ok(InsertOutcome::Linked));
    let count = t.block_count();
    let pending = t.pending_transactions();
    assert_eq!(t.insert(tx), Ok(InsertOutcome::DuplicateIgnored));
    assert_eq!(t.block_count(), count);
    assert_eq!(t.pending_transactions(), pending);
    assert!(t.contains_block(&h));
}

#[test]
fn orphan_proposer_leaves_tree_unchanged() {
    let mut t = BlockTree::new(2, 5).unwrap();
    let stranger = H256::from_low_u64_be(99);
    let p = sealed(stranger, 2, Content::Proposer {
        transaction_refs: Vec::new(),
        proposer_refs: Vec::new(),
    });
    let count = t.block_count();
    assert_eq!(t.insert(p), Ok(InsertOutcome::Orphan));
    assert_eq!(t.block_count(), count);
    assert_eq!(t.pending_proposers(), vec![t.genesis_hash()]);
}

#[test]
fn bad_content_root_is_invalid() {
    let mut t = BlockTree::new(2, 5).unwrap();
    let content = Content::Transaction { extrinsics: Vec::new() };
    let header = BlockHeader::new(H256::zero(), 7, 3, H256::from_low_u64_be(1), H256::zero(),
        H256::zero(), H256::zero());
    let b = Block::from_header(header, Vec::new(), content, H256::zero());
    assert_eq!(t.insert(b),
        Ok(InsertOutcome::Invalid(InvalidReason::ContentRootMismatch)));
}

#[test]
fn voter_chain_out_of_range_is_malformed() {
    let mut t = BlockTree::new(2, 5).unwrap();
    let v = sealed(H256::zero(), 4, Content::Voter {
        chain_number: 9,
        parent: H256::zero(),
        votes: Vec::new(),
    });
    assert_eq!(t.insert(v), Ok(InsertOutcome::Invalid(InvalidReason::MalformedContent)));
}

#[test]
fn proposer_reference_consumes_pools() {
    let mut t = BlockTree::new(2, 5).unwrap();
    let tx = sealed(H256::zero(), 5, Content::Transaction {
        extrinsics: vec![Extrinsic { bytes: vec![9] }],
    });
    let th = tx.id();
    assert_eq!(t.insert(tx), Ok(InsertOutcome::Linked));
    assert!(t.pending_transactions().contains(&th));
    let p = sealed(t.genesis_hash(), 6, Content::Proposer {
        transaction_refs: vec![th],
        proposer_refs: vec![t.genesis_hash()],
    });
    let ph = p.id();
    assert_eq!(t.insert(p), Ok(InsertOutcome::Linked));
    // the referenced transaction block and genesis left their pools
    assert!(!t.pending_transactions().contains(&th));
    assert_eq!(t.pending_proposers(), vec![ph]);
    assert_eq!(t.level_of(&ph), Some(1));
    assert_eq!(t.best_proposer_level(), 1);
    assert_eq!(t.best_proposer(), ph);
    // graph queries see the new edges
    assert!(t.children(&t.genesis_hash()).contains(&ph));
    assert!(t.leaves().contains(&ph));
    assert!(!t.leaves().contains(&t.genesis_hash()));
}

#[test]
fn voter_extends_its_chain_tip() {
    let mut t = BlockTree::new(2, 5).unwrap();
    let (g0, l0) = t.best_voter_tip(0).unwrap();
    assert_eq!(l0, 0);
    let v = sealed(H256::zero(), 8, Content::Voter {
        chain_number: 0,
        parent: g0,
        votes: Vec::new(),
    });
    let vh = v.id();
    assert_eq!(t.insert(v), Ok(InsertOutcome::Linked));
    assert_eq!(t.best_voter_tip(0), Some((vh, 1)));
    // the other chain is untouched
    let (_, l1) = t.best_voter_tip(1).unwrap();
    assert_eq!(l1, 0);
}

#[test]
fn header_encoding_round_trips() {
    let header = BlockHeader::new(H256::from_low_u64_be(5), 1_000_000, 77,
        H256::from_low_u64_be(6), H256::from_low_u64_be(7), H256::from_low_u64_be(8),
        H256::from_low_u64_be(9));
    let bytes = encode_header(&header);
    assert_eq!(bytes.len(), 180);
    assert_eq!(decode_header(&bytes), Some(header));
    assert_eq!(decode_header(&bytes[1..]), None);
}

#[test]
fn payload_size_sums_extrinsics() {
    let c = Content::Transaction {
        extrinsics: vec![Extrinsic { bytes: vec![1, 2, 3] }, Extrinsic { bytes: vec![4] }],
    };
    assert_eq!(c.payload_size(), 4);
    let p = Content::Proposer { transaction_refs: Vec::new(), proposer_refs: Vec::new() };
    assert_eq!(p.payload_size(), 0);
}

#[test]
fn block_hash_and_identity_differ_in_scope() {
    let b = Block::genesis_proposer();
    // the identity is the header digest; the whole-block digest covers the
    // content and proof as well
    assert_eq!(b.id(), b.header.hash());
    assert_eq!(b.hash().to_bytes().len(), 32);
    assert_eq!(b.hash(), b.hash());
}
