//! The block-tree consensus engine: links blocks into the proposer tree
//! and the voter chains and keeps the level and pool indices current as
//! blocks arrive out of order.
//!
//! The façade owns every index; blocks are inserted once and never
//! mutated, and the leader sequence and ledger order only grow. The
//! leader sequence starts at the proposer genesis, finalized for level
//! zero at construction; electing leaders for later levels from the
//! accumulated votes is not implemented here yet.

use vstd::prelude::*;
use crate::hash256::H256;
use crate::block::{Block, Content, header_digest, content_root, content_root_of,
    spec_proposer_genesis_hash, spec_voter_genesis_hash};

verus! {

/// Why a block was rejected for good.
#[derive(Clone, Copy, Debug, PartialEq, Eq, Structural)]
pub enum InvalidReason {
    /// The header's content root is not the root its content hashes to.
    ContentRootMismatch,
    /// The content is self-inconsistent, such as a voter chain number
    /// beyond the configured number of chains.
    MalformedContent,
}

/// What one insertion did.
#[derive(Clone, Copy, Debug, PartialEq, Eq, Structural)]
pub enum InsertOutcome {
    /// The block entered every applicable index.
    Linked,
    /// The block's parent is unknown; nothing was changed, and the caller
    /// should retry once the parent arrives.
    Orphan,
    /// The block's hash was already known; nothing was changed.
    DuplicateIgnored,
    /// The block is permanently rejected; nothing was changed.
    Invalid(InvalidReason),
}

/// A fatal internal fault. Insertion proves it never returns this: levels
/// are assigned once and never change.
#[derive(Clone, Copy, Debug, PartialEq, Eq, Structural)]
pub enum TreeError {
    LevelAssignmentConflict,
}

/// One stored block with its identity and its assigned level.
pub struct Node {
    pub hash: H256,
    pub block: Block,
    pub level: u64,
}

/// Whether a block carries transaction content.
pub open spec fn is_tx_block(b: Block) -> bool {
    b.content is Transaction
}

/// Whether a block carries proposer content.
pub open spec fn is_proposer_block(b: Block) -> bool {
    b.content is Proposer
}

/// Whether a block carries voter content.
pub open spec fn is_voter_block(b: Block) -> bool {
    b.content is Voter
}

/// The transaction-block references a proposer block declares.
pub open spec fn tx_refs_of(b: Block) -> Seq<H256> {
    match b.content {
        Content::Proposer { transaction_refs, proposer_refs } => transaction_refs@,
        _ => Seq::empty(),
    }
}

/// The proposer-block references a proposer block declares.
pub open spec fn prop_refs_of(b: Block) -> Seq<H256> {
    match b.content {
        Content::Proposer { transaction_refs, proposer_refs } => proposer_refs@,
        _ => Seq::empty(),
    }
}

/// The chain number of a voter block.
pub open spec fn voter_chain_of(b: Block) -> u16 {
    match b.content {
        Content::Voter { chain_number, parent, votes } => chain_number,
        _ => 0,
    }
}

/// The voter parent of a voter block.
pub open spec fn voter_parent_of(b: Block) -> H256 {
    match b.content {
        Content::Voter { chain_number, parent, votes } => parent,
        _ => H256 { w0: 0, w1: 0, w2: 0, w3: 0 },
    }
}

/// The votes a voter block casts.
pub open spec fn votes_of(b: Block) -> Seq<H256> {
    match b.content {
        Content::Voter { chain_number, parent, votes } => votes@,
        _ => Seq::empty(),
    }
}

/// No two stored nodes share a hash.
pub open spec fn hashes_unique(nodes: Seq<Node>) -> bool {
    forall|i: int, j: int|
        0 <= i < j < nodes.len() ==> (#[trigger] nodes[i]).hash != (#[trigger] nodes[j]).hash
}

/// Whether some stored node has the hash `h`.
pub open spec fn has_node(nodes: Seq<Node>, h: H256) -> bool {
    exists|i: int| 0 <= i < nodes.len() && (#[trigger] nodes[i]).hash == h
}

/// The index of the node with hash `h`.
pub open spec fn index_of(nodes: Seq<Node>, h: H256) -> int {
    choose|i: int| 0 <= i < nodes.len() && (#[trigger] nodes[i]).hash == h
}

/// The node with hash `h`.
pub open spec fn node_of(nodes: Seq<Node>, h: H256) -> Node {
    nodes[index_of(nodes, h)]
}

/// Whether a known transaction block has hash `h`.
pub open spec fn has_tx_node(nodes: Seq<Node>, h: H256) -> bool {
    has_node(nodes, h) && is_tx_block(node_of(nodes, h).block)
}

/// Whether a known proposer block has hash `h`.
pub open spec fn has_proposer_node(nodes: Seq<Node>, h: H256) -> bool {
    has_node(nodes, h) && is_proposer_block(node_of(nodes, h).block)
}

/// Whether some linked proposer block declares `h` among its
/// transaction references.
pub open spec fn tx_referenced(nodes: Seq<Node>, h: H256) -> bool {
    exists|i: int| 0 <= i < nodes.len() && is_proposer_block((#[trigger] nodes[i]).block)
        && tx_refs_of(nodes[i].block).contains(h)
}

/// Whether some linked proposer block declares `h` among its proposer
/// references.
pub open spec fn prop_referenced(nodes: Seq<Node>, h: H256) -> bool {
    exists|i: int| 0 <= i < nodes.len() && is_proposer_block((#[trigger] nodes[i]).block)
        && prop_refs_of(nodes[i].block).contains(h)
}

/// No hash appears twice.
pub open spec fn no_dup_hashes(s: Seq<H256>) -> bool {
    forall|i: int, j: int| 0 <= i < j < s.len() ==> (#[trigger] s[i]) != (#[trigger] s[j])
}

/// Knowing the index of a hash pins down `index_of` and `node_of`.
pub proof fn lemma_node_at(nodes: Seq<Node>, h: H256, i: int)
    requires
        hashes_unique(nodes),
        0 <= i < nodes.len(),
        nodes[i].hash == h,
    ensures
        has_node(nodes, h),
        index_of(nodes, h) == i,
        node_of(nodes, h) == nodes[i],
{
    assert(has_node(nodes, h));
    let j = index_of(nodes, h);
    assert(0 <= j < nodes.len() && nodes[j].hash == h);
    if i < j {
        assert(nodes[i].hash != nodes[j].hash);
    } else if j < i {
        assert(nodes[j].hash != nodes[i].hash);
    }
}

/// Appending a fresh node keeps every lookup and adds one.
pub proof fn lemma_push_node(nodes: Seq<Node>, n: Node)
    requires
        hashes_unique(nodes),
        !has_node(nodes, n.hash),
    ensures
        hashes_unique(nodes.push(n)),
        has_node(nodes.push(n), n.hash),
        node_of(nodes.push(n), n.hash) == n,
        forall|h: H256| #[trigger] has_node(nodes, h) ==> has_node(nodes.push(n), h)
            && node_of(nodes.push(n), h) == node_of(nodes, h),
        forall|h: H256| #[trigger] has_node(nodes.push(n), h) ==> has_node(nodes, h)
            || h == n.hash,
        forall|h: H256| has_node(nodes.push(n), h) <==> #[trigger] has_node(nodes, h)
            || h == n.hash,
{
    let p = nodes.push(n);
    let len = nodes.len() as int;
    assert(forall|i: int| 0 <= i < len ==> p[i] == nodes[i]);
    assert(p[len] == n);
    assert forall|i: int, j: int| 0 <= i < j < p.len() implies (#[trigger] p[i]).hash
        != (#[trigger] p[j]).hash by {
        if j < len {
            assert(nodes[i].hash != nodes[j].hash);
        } else {
            assert(p[j] == n);
            if nodes[i].hash == n.hash {
                assert(has_node(nodes, n.hash));
            }
        }
    }
    lemma_node_at(p, n.hash, len);
    assert forall|h: H256| #[trigger] has_node(nodes, h) implies has_node(p, h)
        && node_of(p, h) == node_of(nodes, h) by {
        let i = index_of(nodes, h);
        assert(0 <= i < len && nodes[i].hash == h);
        lemma_node_at(p, h, i);
    }
    assert forall|h: H256| #[trigger] has_node(p, h) implies has_node(nodes, h) || h == n.hash by {
        let i = index_of(p, h);
        if i < len {
            assert(nodes[i].hash == h);
        } else {
            assert(p[i] == n);
        }
    }
}

/// The block-tree façade: the sole owner of every index. All mutation
/// goes through `insert`; queries hand back snapshots.
pub struct BlockTree {
    /// Every linked block, in insertion order.
    nodes: Vec<Node>,
    /// Per voter chain: the hash and level of the chain's best tip.
    voter_tips: Vec<(H256, u64)>,
    /// The highest proposer level seen.
    best_proposer_level: u64,
    /// The first proposer block seen at the highest level.
    best_proposer: H256,
    /// Transaction blocks present but not yet referenced by any proposer
    /// block's reference list.
    pending_tx: Vec<H256>,
    /// Proposer blocks present but not yet referenced by any proposer
    /// block's reference list.
    pending_prop: Vec<H256>,
    /// Every hash ever named in a linked proposer block's transaction
    /// references.
    referenced_tx: Vec<H256>,
    /// Every hash ever named in a linked proposer block's proposer
    /// references.
    referenced_prop: Vec<H256>,
    /// The elected leader per proposer level; append-only.
    leader_seq: Vec<H256>,
    /// The confirmed ledger order of transaction-block hashes;
    /// append-only, no hash twice.
    ledger: Vec<H256>,
    /// Proposer blocks already confirmed into the ledger order.
    confirmed: Vec<H256>,
    /// How many voter levels beyond a proposer level a chain must reach
    /// before it counts as provably past voting for that level.
    security_depth: u64,
    /// The proposer genesis block's hash.
    genesis: H256,
}

impl BlockTree {
    /// The stored nodes, in insertion order.
    pub closed spec fn blocks_seq(self) -> Seq<Node> {
        self.nodes@
    }

    /// The per-chain best voter tips.
    pub closed spec fn voter_tips_seq(self) -> Seq<(H256, u64)> {
        self.voter_tips@
    }

    /// The highest proposer level seen.
    pub closed spec fn best_level_spec(self) -> u64 {
        self.best_proposer_level
    }

    /// The best proposer block's hash.
    pub closed spec fn best_proposer_spec(self) -> H256 {
        self.best_proposer
    }

    /// The unreferenced transaction-block pool.
    pub closed spec fn pending_tx_seq(self) -> Seq<H256> {
        self.pending_tx@
    }

    /// The unreferenced proposer-block pool.
    pub closed spec fn pending_prop_seq(self) -> Seq<H256> {
        self.pending_prop@
    }

    /// The set of hashes ever named in transaction references.
    pub closed spec fn referenced_tx_seq(self) -> Seq<H256> {
        self.referenced_tx@
    }

    /// The set of hashes ever named in proposer references.
    pub closed spec fn referenced_prop_seq(self) -> Seq<H256> {
        self.referenced_prop@
    }

    /// The leader sequence, one hash per finalized proposer level.
    pub closed spec fn leader_seq_spec(self) -> Seq<H256> {
        self.leader_seq@
    }

    /// The confirmed ledger order.
    pub closed spec fn ledger_seq(self) -> Seq<H256> {
        self.ledger@
    }

    /// The configured security depth.
    pub closed spec fn depth_spec(self) -> u64 {
        self.security_depth
    }

    /// The proposer genesis hash.
    pub closed spec fn genesis_spec(self) -> H256 {
        self.genesis
    }

    /// Structural well-formedness of the stored nodes and tips: unique
    /// identities, parent links present with levels one apart, and best
    /// pointers that name real blocks.
    #[verifier::opaque]
    pub open spec fn nodes_wf(self) -> bool {
        let nodes = self.blocks_seq();
        let tips = self.voter_tips_seq();
        &&& hashes_unique(nodes)
        &&& forall|i: int| 0 <= i < nodes.len()
            ==> (#[trigger] nodes[i]).hash == header_digest(nodes[i].block.header)
        &&& forall|i: int| 0 <= i < nodes.len() ==> (#[trigger] nodes[i]).level < nodes.len()
        // the proposer genesis
        &&& has_node(nodes, self.genesis_spec())
        &&& is_proposer_block(node_of(nodes, self.genesis_spec()).block)
        &&& node_of(nodes, self.genesis_spec()).level == 0
        // proposer tree structure
        &&& forall|i: int| 0 <= i < nodes.len() && is_proposer_block((#[trigger] nodes[i]).block)
            && nodes[i].hash != self.genesis_spec()
            ==> has_proposer_node(nodes, nodes[i].block.header.parent)
                && node_of(nodes, nodes[i].block.header.parent).level + 1 == nodes[i].level
        &&& forall|i: int| 0 <= i < nodes.len() && is_proposer_block((#[trigger] nodes[i]).block)
            ==> nodes[i].level <= self.best_level_spec()
        &&& has_node(nodes, self.best_proposer_spec())
        &&& is_proposer_block(node_of(nodes, self.best_proposer_spec()).block)
        &&& node_of(nodes, self.best_proposer_spec()).level == self.best_level_spec()
        // voter chain structure
        &&& forall|i: int| 0 <= i < nodes.len() && is_voter_block((#[trigger] nodes[i]).block)
            ==> (voter_chain_of(nodes[i].block) as int) < tips.len()
        &&& forall|i: int| 0 <= i < nodes.len() && is_voter_block((#[trigger] nodes[i]).block)
            && nodes[i].level > 0
            ==> has_node(nodes, voter_parent_of(nodes[i].block))
                && is_voter_block(node_of(nodes, voter_parent_of(nodes[i].block)).block)
                && voter_chain_of(node_of(nodes, voter_parent_of(nodes[i].block)).block)
                    == voter_chain_of(nodes[i].block)
                && node_of(nodes, voter_parent_of(nodes[i].block)).level + 1 == nodes[i].level
        &&& forall|c: int| 0 <= c < tips.len()
            ==> has_node(nodes, (#[trigger] tips[c]).0)
                && is_voter_block(node_of(nodes, tips[c].0).block)
                && (voter_chain_of(node_of(nodes, tips[c].0).block) as int) == c
                && node_of(nodes, tips[c].0).level == tips[c].1
    }

    /// Well-formedness of the unreferenced pools: each pool holds exactly
    /// the present blocks of its kind that no linked proposer block has
    /// referenced, and the referenced sets mirror the stored reference
    /// lists.
    #[verifier::opaque]
    pub open spec fn pools_wf(self) -> bool {
        let nodes = self.blocks_seq();
        &&& no_dup_hashes(self.pending_tx_seq())
        &&& no_dup_hashes(self.pending_prop_seq())
        &&& forall|h: H256| #[trigger] self.pending_tx_seq().contains(h)
            <==> has_tx_node(nodes, h) && !self.referenced_tx_seq().contains(h)
        &&& forall|h: H256| #[trigger] self.pending_prop_seq().contains(h)
            <==> has_proposer_node(nodes, h) && !self.referenced_prop_seq().contains(h)
        &&& forall|h: H256| #[trigger] self.referenced_tx_seq().contains(h)
            <==> tx_referenced(nodes, h)
        &&& forall|h: H256| #[trigger] self.referenced_prop_seq().contains(h)
            <==> prop_referenced(nodes, h)
    }

    /// Well-formedness of the ledger and the leader sequence: no hash
    /// twice in the ledger, and one leader per finalized level starting
    /// at level zero.
    pub open spec fn ledger_wf(self) -> bool {
        &&& no_dup_hashes(self.ledger_seq())
        &&& self.leader_seq_spec().len() >= 1
        &&& self.leader_seq_spec().len() <= self.best_level_spec() + 1
    }

    /// Well-formedness: the internal invariant every operation preserves.
    pub open spec fn wf(self) -> bool {
        self.nodes_wf() && self.pools_wf() && self.ledger_wf()
    }

    /// The index of the block with hash `h`, if it is known.
    fn find_index(&self, h: &H256) -> (r: Option<usize>)
        ensures
            r matches Some(i) ==> i < self.blocks_seq().len()
                && self.blocks_seq()[i as int].hash == *h,
            r is None ==> !has_node(self.blocks_seq(), *h),
    {
        find_node_vec(&self.nodes, h)
    }

    /// Whether the block with hash `h` is known.
    pub fn contains_block(&self, h: &H256) -> (r: bool)
        ensures
            r == has_node(self.blocks_seq(), *h),
    {
        self.find_index(h).is_some()
    }

    /// The block stored under hash `h`, if any.
    pub fn block(&self, h: &H256) -> (r: Option<&Block>)
        requires
            self.wf(),
        ensures
            r matches Some(b) ==> has_node(self.blocks_seq(), *h)
                && *b == node_of(self.blocks_seq(), *h).block,
            r is None ==> !has_node(self.blocks_seq(), *h),
    {
        match self.find_index(h) {
            Some(i) => {
                proof {
                    reveal(BlockTree::nodes_wf);
                    lemma_node_at(self.blocks_seq(), *h, i as int);
                }
                Some(&self.nodes[i].block)
            }
            None => None,
        }
    }

    /// The level assigned to the block with hash `h`, if it is known.
    pub fn level_of(&self, h: &H256) -> (r: Option<u64>)
        requires
            self.wf(),
        ensures
            r matches Some(l) ==> has_node(self.blocks_seq(), *h)
                && node_of(self.blocks_seq(), *h).level == l,
            r is None ==> !has_node(self.blocks_seq(), *h),
    {
        match self.find_index(h) {
            Some(i) => {
                proof {
                    reveal(BlockTree::nodes_wf);
                    lemma_node_at(self.blocks_seq(), *h, i as int);
                }
                Some(self.nodes[i].level)
            }
            None => None,
        }
    }
}

impl BlockTree {
    /// A tree of `num_chains` voter chains, seeded with the proposer
    /// genesis block and one voter genesis block per chain, with level
    /// zero finalized to the proposer genesis and an empty ledger.
    /// Returns `None` only if two of the seeded genesis blocks collide
    /// on their digest.
    pub fn new(num_chains: u16, security_depth: u64) -> (r: Option<BlockTree>)
        ensures
            r matches Some(t) ==> ({
                &&& t.wf()
                &&& t.voter_tips_seq().len() == num_chains as int
                &&& t.genesis_spec() == spec_proposer_genesis_hash()
                &&& t.depth_spec() == security_depth
                &&& t.best_level_spec() == 0
                &&& t.best_proposer_spec() == spec_proposer_genesis_hash()
                &&& t.ledger_seq().len() == 0
                &&& t.leader_seq_spec() =~= seq![spec_proposer_genesis_hash()]
                &&& t.blocks_seq().len() == 1 + num_chains as int
                &&& forall|c: u16| c < num_chains ==> #[trigger] t.voter_tips_seq()[c as int]
                    == (spec_voter_genesis_hash(c), 0u64)
            }),
            r is None ==> !genesis_hashes_distinct(num_chains),
    {
        let gblock = Block::genesis_proposer();
        let gh = gblock.header.hash();
        let ghost gb = gblock;
        let mut nodes: Vec<Node> = Vec::new();
        nodes.push(Node { hash: gh, block: gblock, level: 0 });
        let mut tips: Vec<(H256, u64)> = Vec::new();
        let mut c: u16 = 0;
        while c < num_chains
            invariant
                c <= num_chains,
                nodes@.len() == 1 + c as int,
                tips@.len() == c as int,
                gh == spec_proposer_genesis_hash(),
                nodes@[0].hash == gh,
                nodes@[0].block == gb,
                nodes@[0].level == 0,
                is_proposer_block(gb),
                tx_refs_of(gb).len() == 0,
                prop_refs_of(gb).len() == 0,
                gh == header_digest(gb.header),
                forall|i: int| 1 <= i < nodes@.len() ==> ({
                    let nb = #[trigger] nodes@[i];
                    &&& is_voter_block(nb.block)
                    &&& voter_chain_of(nb.block) as int == i - 1
                    &&& nb.level == 0
                    &&& nb.hash == header_digest(nb.block.header)
                    &&& nb.hash == spec_voter_genesis_hash((i - 1) as u16)
                    &&& votes_of(nb.block).len() == 0
                }),
                forall|k: int| 0 <= k < c as int ==> #[trigger] tips@[k]
                    == (spec_voter_genesis_hash(k as u16), 0u64)
                    && tips@[k].0 == nodes@[k + 1].hash,
                hashes_unique(nodes@),
            decreases num_chains - c,
        {
            let vblock = Block::genesis_voter(c);
            let vh = vblock.header.hash();
            match find_node_vec(&nodes, &vh) {
                Some(j) => {
                    proof {
                        if j == 0 {
                            assert(spec_voter_genesis_hash(c) == spec_proposer_genesis_hash());
                        } else {
                            assert(nodes@[j as int].hash
                                == spec_voter_genesis_hash((j - 1) as u16));
                            assert(spec_voter_genesis_hash((j - 1) as u16)
                                == spec_voter_genesis_hash(c));
                            assert(((j - 1) as u16) < c);
                        }
                        assert(!genesis_hashes_distinct(num_chains));
                    }
                    return None;
                }
                None => {}
            }
            let node = Node { hash: vh, block: vblock, level: 0 };
            proof {
                lemma_push_node(nodes@, node);
            }
            nodes.push(node);
            tips.push((vh, 0));
            c = c + 1;
        }
        let mut pending_prop: Vec<H256> = Vec::new();
        pending_prop.push(gh);
        let mut leader_seq: Vec<H256> = Vec::new();
        leader_seq.push(gh);
        let mut confirmed: Vec<H256> = Vec::new();
        confirmed.push(gh);
        let t = BlockTree {
            nodes,
            voter_tips: tips,
            best_proposer_level: 0,
            best_proposer: gh,
            pending_tx: Vec::new(),
            pending_prop,
            referenced_tx: Vec::new(),
            referenced_prop: Vec::new(),
            leader_seq,
            ledger: Vec::new(),
            confirmed,
            security_depth,
            genesis: gh,
        };
        proof {
            reveal(BlockTree::nodes_wf);
            reveal(BlockTree::pools_wf);
            let ns = t.blocks_seq();
            let tp = t.voter_tips_seq();
            lemma_node_at(ns, gh, 0);
            assert forall|k: int| 0 <= k < tp.len() implies has_node(ns, (#[trigger] tp[k]).0)
                && is_voter_block(node_of(ns, tp[k].0).block)
                && (voter_chain_of(node_of(ns, tp[k].0).block) as int) == k
                && node_of(ns, tp[k].0).level == tp[k].1 by {
                lemma_node_at(ns, tp[k].0, k + 1);
            }
            assert forall|h: H256| #[trigger] t.pending_tx_seq().contains(h)
                <==> has_tx_node(ns, h) && !t.referenced_tx_seq().contains(h) by {
                assert(!t.pending_tx_seq().contains(h));
                if has_node(ns, h) {
                    let i = index_of(ns, h);
                    assert(0 <= i < ns.len() && ns[i].hash == h);
                    assert(!is_tx_block(ns[i].block));
                }
            }
            assert forall|h: H256| #[trigger] t.referenced_tx_seq().contains(h)
                <==> tx_referenced(ns, h) by {
                assert(!t.referenced_tx_seq().contains(h));
                if tx_referenced(ns, h) {
                    let i = choose|i: int| 0 <= i < ns.len()
                        && is_proposer_block((#[trigger] ns[i]).block)
                        && tx_refs_of(ns[i].block).contains(h);
                    assert(i == 0);
                }
            }
            assert forall|h: H256| #[trigger] t.referenced_prop_seq().contains(h)
                <==> prop_referenced(ns, h) by {
                assert(!t.referenced_prop_seq().contains(h));
                if prop_referenced(ns, h) {
                    let i = choose|i: int| 0 <= i < ns.len()
                        && is_proposer_block((#[trigger] ns[i]).block)
                        && prop_refs_of(ns[i].block).contains(h);
                    assert(i == 0);
                }
            }
            assert forall|h: H256| #[trigger] t.pending_prop_seq().contains(h)
                <==> has_proposer_node(ns, h) && !t.referenced_prop_seq().contains(h) by {
                if t.pending_prop_seq().contains(h) {
                    let i = choose|i: int| 0 <= i < t.pending_prop_seq().len()
                        && t.pending_prop_seq()[i] == h;
                    assert(h == gh);
                }
                if has_proposer_node(ns, h) {
                    let i = index_of(ns, h);
                    assert(0 <= i < ns.len() && ns[i].hash == h);
                    if i != 0 {
                        assert(is_voter_block(ns[i].block));
                    }
                    assert(h == gh);
                    assert(t.pending_prop_seq()[0] == h);
                    assert(t.pending_prop_seq().contains(h));
                }
            }
            assert(t.wf());
        }
        Some(t)
    }
}

/// The index of the node with hash `h` in `v`, if any.
fn find_node_vec(v: &Vec<Node>, h: &H256) -> (r: Option<usize>)
    ensures
        r matches Some(i) ==> i < v@.len() && v@[i as int].hash == *h,
        r is None ==> !has_node(v@, *h),
{
    let n: usize = v.len();
    let mut i: usize = 0;
    while i < n
        invariant
            i <= n,
            n == v@.len(),
            forall|j: int| 0 <= j < i ==> (#[trigger] v@[j]).hash != *h,
        decreases n - i,
    {
        if v[i].hash == *h {
            return Some(i);
        }
        i = i + 1;
    }
    None
}

/// Whether the genesis blocks that a tree of `n` chains is seeded with
/// all have distinct identities.
pub open spec fn genesis_hashes_distinct(n: u16) -> bool {
    &&& forall|c: u16| c < n ==> #[trigger] spec_voter_genesis_hash(c)
        != spec_proposer_genesis_hash()
    &&& forall|c1: u16, c2: u16| c1 < c2 && c2 < n
        ==> #[trigger] spec_voter_genesis_hash(c1) != #[trigger] spec_voter_genesis_hash(c2)
}

/// Whether a block's header carries the root its content hashes to.
pub open spec fn spec_root_ok(b: Block) -> bool {
    b.header.content_root == content_root(b.content)
}

/// Whether a block is self-inconsistent for a tree of `n_chains` voter
/// chains: a voter block naming a chain that does not exist.
pub open spec fn spec_malformed(n_chains: int, b: Block) -> bool {
    is_voter_block(b) && (voter_chain_of(b) as int) >= n_chains
}

/// Whether a block's required parent is missing from the stored nodes: a
/// proposer block needs its proposer parent, a voter block its voter
/// parent on the same chain; a transaction block needs none.
pub open spec fn spec_orphan(nodes: Seq<Node>, b: Block) -> bool {
    if is_proposer_block(b) {
        !has_proposer_node(nodes, b.header.parent)
    } else if is_voter_block(b) {
        !(has_node(nodes, voter_parent_of(b))
            && is_voter_block(node_of(nodes, voter_parent_of(b)).block)
            && voter_chain_of(node_of(nodes, voter_parent_of(b)).block) == voter_chain_of(b))
    } else {
        false
    }
}

/// The level a newly linked block is assigned: one past its parent for
/// proposer and voter blocks, zero for transaction blocks.
pub open spec fn spec_new_level(nodes: Seq<Node>, b: Block) -> u64 {
    if is_proposer_block(b) {
        (node_of(nodes, b.header.parent).level + 1) as u64
    } else if is_voter_block(b) {
        (node_of(nodes, voter_parent_of(b)).level + 1) as u64
    } else {
        0
    }
}




/// No hash ever appears twice in the ledger order of a well-formed tree.
pub proof fn lemma_ledger_no_duplicates(t: BlockTree)
    requires
        t.wf(),
    ensures
        no_dup_hashes(t.ledger_seq()),
{
}

/// A hash sits in the unreferenced transaction pool exactly when a
/// transaction block with that hash is stored and no linked proposer
/// block's reference list names it.
pub proof fn lemma_pending_transactions_exact(t: BlockTree, h: H256)
    requires
        t.wf(),
    ensures
        t.pending_tx_seq().contains(h)
            <==> has_tx_node(t.blocks_seq(), h) && !tx_referenced(t.blocks_seq(), h),
{
    reveal(BlockTree::pools_wf);
}

/// A hash sits in the unreferenced proposer pool exactly when a proposer
/// block with that hash is stored and no linked proposer block's
/// reference list names it.
pub proof fn lemma_pending_proposers_exact(t: BlockTree, h: H256)
    requires
        t.wf(),
    ensures
        t.pending_prop_seq().contains(h)
            <==> has_proposer_node(t.blocks_seq(), h) && !prop_referenced(t.blocks_seq(), h),
{
    reveal(BlockTree::pools_wf);
}


impl BlockTree {
    /// The proposer genesis block's hash.
    pub fn genesis_hash(&self) -> (r: H256)
        ensures
            r == self.genesis_spec(),
    {
        self.genesis
    }

    /// The configured security depth.
    pub fn security_depth(&self) -> (r: u64)
        ensures
            r == self.depth_spec(),
    {
        self.security_depth
    }

    /// The highest proposer level seen so far.
    pub fn best_proposer_level(&self) -> (r: u64)
        ensures
            r == self.best_level_spec(),
    {
        self.best_proposer_level
    }

    /// How many blocks the tree stores.
    pub fn block_count(&self) -> (r: usize)
        ensures
            r == self.blocks_seq().len(),
    {
        self.nodes.len()
    }

    /// A snapshot of the confirmed ledger order.
    pub fn ledger(&self) -> (r: Vec<H256>)
        ensures
            r@ == self.ledger_seq(),
    {
        copy_hashes(&self.ledger)
    }

    /// A snapshot of the unreferenced transaction-block pool.
    pub fn pending_transactions(&self) -> (r: Vec<H256>)
        ensures
            r@ == self.pending_tx_seq(),
    {
        copy_hashes(&self.pending_tx)
    }

    /// A snapshot of the unreferenced proposer-block pool.
    pub fn pending_proposers(&self) -> (r: Vec<H256>)
        ensures
            r@ == self.pending_prop_seq(),
    {
        copy_hashes(&self.pending_prop)
    }

    /// The best tip of voter chain `chain`, with its level, if the chain
    /// exists.
    pub fn best_voter_tip(&self, chain: u16) -> (r: Option<(H256, u64)>)
        ensures
            r matches Some(p) ==> (chain as int) < self.voter_tips_seq().len()
                && p == self.voter_tips_seq()[chain as int],
            r is None ==> (chain as int) >= self.voter_tips_seq().len(),
    {
        if (chain as usize) < self.voter_tips.len() {
            Some(self.voter_tips[chain as usize])
        } else {
            None
        }
    }
}

/// A copy of a vector of hashes.
fn copy_hashes(v: &Vec<H256>) -> (r: Vec<H256>)
    ensures
        r@ == v@,
{
    let n: usize = v.len();
    let mut out: Vec<H256> = Vec::new();
    let mut i: usize = 0;
    while i < n
        invariant
            i <= n,
            n == v@.len(),
            out@ == v@.take(i as int),
        decreases n - i,
    {
        out.push(v[i]);
        proof {
            assert(v@.take(i + 1) =~= v@.take(i as int).push(v@[i as int]));
        }
        i = i + 1;
    }
    proof {
        assert(v@.take(n as int) =~= v@);
    }
    out
}


impl BlockTree {
    /// Records one hash list of a newly linked proposer block into the
    /// referenced set, consuming the matching pool entries.
    fn absorb_references(refs: &Vec<H256>, referenced: &mut Vec<H256>, pending: &mut Vec<H256>)
        requires
            no_dup_hashes(old(pending)@),
        ensures
            no_dup_hashes(final(pending)@),
            forall|x: H256| #[trigger] final(referenced)@.contains(x)
                <==> old(referenced)@.contains(x) || refs@.contains(x),
            forall|x: H256| #[trigger] final(pending)@.contains(x)
                <==> old(pending)@.contains(x) && !refs@.contains(x),
    {
        let m: usize = refs.len();
        let mut k: usize = 0;
        while k < m
            invariant
                k <= m,
                m == refs@.len(),
                no_dup_hashes(pending@),
                forall|x: H256| #[trigger] referenced@.contains(x)
                    <==> old(referenced)@.contains(x) || refs@.take(k as int).contains(x),
                forall|x: H256| #[trigger] pending@.contains(x)
                    <==> old(pending)@.contains(x) && !refs@.take(k as int).contains(x),
            decreases m - k,
        {
            let r = refs[k];
            let ghost pre_ref = referenced@;
            let ghost pre_pending = pending@;
            if !vec_contains(referenced, &r) {
                referenced.push(r);
                proof {
                    assert forall|x: H256| #[trigger] referenced@.contains(x)
                        <==> pre_ref.contains(x) || x == r by {
                        lemma_push_contains(pre_ref, r, x);
                    }
                }
            }
            match vec_find(pending, &r) {
                Some(j) => {
                    let _ = pending.remove(j);
                    proof {
                        assert forall|x: H256| #[trigger] pending@.contains(x)
                            <==> pre_pending.contains(x) && x != r by {
                            lemma_remove_contains(pre_pending, j as int, x);
                        }
                        lemma_remove_contains(pre_pending, j as int, r);
                    }
                }
                None => {
                    assert(forall|x: H256| #[trigger] pending@.contains(x)
                        <==> pre_pending.contains(x) && x != r);
                }
            }
            proof {
                assert(refs@.take(k + 1) =~= refs@.take(k as int).push(refs@[k as int]));
                assert forall|x: H256| #[trigger] refs@.take(k + 1).contains(x)
                    <==> refs@.take(k as int).contains(x) || x == r by {
                    lemma_push_contains(refs@.take(k as int), refs@[k as int], x);
                }
            }
            k = k + 1;
        }
        proof {
            assert(refs@.take(m as int) =~= refs@);
        }
    }

    /// Applies one linked block to the pools: a new transaction or
    /// proposer block enters its pool unless already referenced, and a
    /// proposer block's reference lists consume matching pool entries.
    fn update_pools(is_tx_b: bool, is_prop_b: bool, h: H256, txr: &Vec<H256>, ppr: &Vec<H256>,
        referenced_tx: &mut Vec<H256>, pending_tx: &mut Vec<H256>,
        referenced_prop: &mut Vec<H256>, pending_prop: &mut Vec<H256>)
        requires
            !(is_tx_b && is_prop_b),
            no_dup_hashes(old(pending_tx)@),
            no_dup_hashes(old(pending_prop)@),
            is_tx_b ==> !old(pending_tx)@.contains(h),
            is_prop_b ==> !old(pending_prop)@.contains(h),
        ensures
            no_dup_hashes(final(pending_tx)@),
            no_dup_hashes(final(pending_prop)@),
            forall|x: H256| #[trigger] final(referenced_tx)@.contains(x)
                <==> old(referenced_tx)@.contains(x) || (is_prop_b && txr@.contains(x)),
            forall|x: H256| #[trigger] final(referenced_prop)@.contains(x)
                <==> old(referenced_prop)@.contains(x) || (is_prop_b && ppr@.contains(x)),
            is_tx_b ==> forall|x: H256| #[trigger] final(pending_tx)@.contains(x)
                <==> old(pending_tx)@.contains(x)
                    || (x == h && !old(referenced_tx)@.contains(h)),
            is_prop_b ==> forall|x: H256| #[trigger] final(pending_tx)@.contains(x)
                <==> old(pending_tx)@.contains(x) && !txr@.contains(x),
            !is_tx_b && !is_prop_b ==> final(pending_tx)@ == old(pending_tx)@,
            is_prop_b ==> forall|x: H256| #[trigger] final(pending_prop)@.contains(x)
                <==> (old(pending_prop)@.contains(x) && !ppr@.contains(x))
                    || (x == h && !final(referenced_prop)@.contains(h)),
            !is_prop_b ==> final(pending_prop)@ == old(pending_prop)@,
    {
        if is_tx_b {
            if !vec_contains(referenced_tx, &h) {
                proof {
                    lemma_push_nodup(pending_tx@, h);
                }
                let ghost pre = pending_tx@;
                pending_tx.push(h);
                proof {
                    assert forall|x: H256| #[trigger] pending_tx@.contains(x)
                        <==> pre.contains(x) || x == h by {
                        lemma_push_contains(pre, h, x);
                    }
                }
            }
        }
        if is_prop_b {
            Self::absorb_references(txr, referenced_tx, pending_tx);
            Self::absorb_references(ppr, referenced_prop, pending_prop);
            if !vec_contains(referenced_prop, &h) {
                proof {
                    lemma_push_nodup(pending_prop@, h);
                }
                let ghost pre = pending_prop@;
                pending_prop.push(h);
                proof {
                    assert forall|x: H256| #[trigger] pending_prop@.contains(x)
                        <==> pre.contains(x) || x == h by {
                        lemma_push_contains(pre, h, x);
                    }
                }
            }
        }
    }


    /// Stores one validated node and applies the longest-chain rule to
    /// its voter chain's tip and to the best proposer pointers. The pools
    /// and the ledger are untouched.
    fn store_node(&mut self, block: Block, h: H256, level: u64)
        requires
            is_voter_block(block) ==> (voter_chain_of(block) as int)
                < old(self).voter_tips_seq().len(),
        ensures
            final(self).blocks_seq() == old(self).blocks_seq().push(Node { hash: h, block, level }),
            final(self).pending_tx_seq() == old(self).pending_tx_seq(),
            final(self).pending_prop_seq() == old(self).pending_prop_seq(),
            final(self).referenced_tx_seq() == old(self).referenced_tx_seq(),
            final(self).referenced_prop_seq() == old(self).referenced_prop_seq(),
            final(self).leader_seq_spec() == old(self).leader_seq_spec(),
            final(self).ledger_seq() == old(self).ledger_seq(),
            final(self).genesis_spec() == old(self).genesis_spec(),
            final(self).depth_spec() == old(self).depth_spec(),
            is_voter_block(block) ==> final(self).voter_tips_seq() == (
                if level > old(self).voter_tips_seq()[voter_chain_of(block) as int].1 {
                    old(self).voter_tips_seq().update(voter_chain_of(block) as int, (h, level))
                } else {
                    old(self).voter_tips_seq()
                }),
            !is_voter_block(block) ==> final(self).voter_tips_seq() == old(self).voter_tips_seq(),
            is_proposer_block(block) && level > old(self).best_level_spec()
                ==> final(self).best_level_spec() == level && final(self).best_proposer_spec() == h,
            !(is_proposer_block(block) && level > old(self).best_level_spec())
                ==> final(self).best_level_spec() == old(self).best_level_spec()
                    && final(self).best_proposer_spec() == old(self).best_proposer_spec(),
    {
        let mut is_voter_b = false;
        let mut is_prop_b = false;
        let mut chain: u16 = 0;
        match &block.content {
            Content::Transaction { extrinsics } => {}
            Content::Proposer { transaction_refs, proposer_refs } => {
                is_prop_b = true;
            }
            Content::Voter { chain_number, parent, votes } => {
                is_voter_b = true;
                chain = *chain_number;
            }
        }
        self.nodes.push(Node { hash: h, block, level });
        if is_voter_b {
            let ci = chain as usize;
            let cur = self.voter_tips[ci];
            if level > cur.1 {
                self.voter_tips[ci] = (h, level);
            }
        }
        if is_prop_b {
            if level > self.best_proposer_level {
                self.best_proposer_level = level;
                self.best_proposer = h;
            }
        }
    }

    /// Applies the newest stored block to the pools and re-establishes
    /// well-formedness. `prev` is the tree as it stood before that node
    /// was stored.
    #[verifier::rlimit(100)]
    fn settle_pools(&mut self, Ghost(prev): Ghost<BlockTree>, Ghost(b): Ghost<Block>, h: H256,
        level: u64)
        requires
            prev.wf(),
            prev.blocks_seq().len() <= u64::MAX,
            h == header_digest(b.header),
            !has_node(prev.blocks_seq(), h),
            is_voter_block(b) ==> (voter_chain_of(b) as int) < prev.voter_tips_seq().len(),
            !spec_orphan(prev.blocks_seq(), b),
            level == spec_new_level(prev.blocks_seq(), b),
            old(self).blocks_seq() == prev.blocks_seq().push(Node { hash: h, block: b, level }),
            old(self).pending_tx_seq() == prev.pending_tx_seq(),
            old(self).pending_prop_seq() == prev.pending_prop_seq(),
            old(self).referenced_tx_seq() == prev.referenced_tx_seq(),
            old(self).referenced_prop_seq() == prev.referenced_prop_seq(),
            old(self).leader_seq_spec() == prev.leader_seq_spec(),
            old(self).ledger_seq() == prev.ledger_seq(),
            old(self).genesis_spec() == prev.genesis_spec(),
            old(self).depth_spec() == prev.depth_spec(),
            is_voter_block(b) ==> old(self).voter_tips_seq() == (
                if level > prev.voter_tips_seq()[voter_chain_of(b) as int].1 {
                    prev.voter_tips_seq().update(voter_chain_of(b) as int, (h, level))
                } else {
                    prev.voter_tips_seq()
                }),
            !is_voter_block(b) ==> old(self).voter_tips_seq() == prev.voter_tips_seq(),
            is_proposer_block(b) && level > prev.best_level_spec()
                ==> old(self).best_level_spec() == level
                    && old(self).best_proposer_spec() == h,
            !(is_proposer_block(b) && level > prev.best_level_spec())
                ==> old(self).best_level_spec() == prev.best_level_spec()
                    && old(self).best_proposer_spec() == prev.best_proposer_spec(),
        ensures
            final(self).wf(),
            final(self).blocks_seq() == old(self).blocks_seq(),
            final(self).voter_tips_seq() == old(self).voter_tips_seq(),
            final(self).best_level_spec() == old(self).best_level_spec(),
            final(self).best_proposer_spec() == old(self).best_proposer_spec(),
            final(self).leader_seq_spec() == old(self).leader_seq_spec(),
            final(self).ledger_seq() == old(self).ledger_seq(),
            final(self).genesis_spec() == old(self).genesis_spec(),
            final(self).depth_spec() == old(self).depth_spec(),
    {
        proof {
            lemma_fresh_not_pending(prev, h);
        }
        let last: usize = self.nodes.len() - 1;
        proof {
            assert(self.nodes@[last as int] == Node { hash: h, block: b, level });
        }
        let empty_a: Vec<H256> = Vec::new();
        let empty_b: Vec<H256> = Vec::new();
        match &self.nodes[last].block.content {
            Content::Transaction { extrinsics } => {
                Self::update_pools(true, false, h, &empty_a, &empty_b, &mut self.referenced_tx,
                    &mut self.pending_tx, &mut self.referenced_prop, &mut self.pending_prop);
            }
            Content::Proposer { transaction_refs, proposer_refs } => {
                Self::update_pools(false, true, h, transaction_refs, proposer_refs,
                    &mut self.referenced_tx, &mut self.pending_tx, &mut self.referenced_prop,
                    &mut self.pending_prop);
            }
            Content::Voter { chain_number, parent, votes } => {
                Self::update_pools(false, false, h, &empty_a, &empty_b, &mut self.referenced_tx,
                    &mut self.pending_tx, &mut self.referenced_prop, &mut self.pending_prop);
            }
        }
        proof {
            lemma_link_nodes_wf(prev, *self, b, h, level);
            lemma_link_pools_wf(prev, *self, b, h, level);
            assert(self.ledger_wf());
        }
    }

    /// Links a validated block into every applicable index: stores the
    /// node, advances the owning chain's tip or the best proposer level
    /// where the longest-chain rule says so, and updates the pools.
    #[verifier::rlimit(100)]
    fn link_block(&mut self, block: Block, h: H256, level: u64)
        requires
            old(self).wf(),
            h == header_digest(block.header),
            !has_node(old(self).blocks_seq(), h),
            is_voter_block(block) ==> (voter_chain_of(block) as int)
                < old(self).voter_tips_seq().len(),
            !spec_orphan(old(self).blocks_seq(), block),
            level == spec_new_level(old(self).blocks_seq(), block),
        ensures
            final(self).wf(),
            final(self).blocks_seq() == old(self).blocks_seq().push(
                Node { hash: h, block, level }),
            final(self).genesis_spec() == old(self).genesis_spec(),
            final(self).depth_spec() == old(self).depth_spec(),
            final(self).leader_seq_spec() == old(self).leader_seq_spec(),
            final(self).ledger_seq() == old(self).ledger_seq(),
    {
        let ghost b = block;
        let ghost old_self = *self;
        proof {
            vstd::std_specs::vec::axiom_spec_len(&old_self.nodes);
        }
        self.store_node(block, h, level);
        self.settle_pools(Ghost(old_self), Ghost(b), h, level);
    }

    /// Inserts one block: a known hash is ignored, a bad content root or
    /// chain number is rejected for good, a missing parent is reported as
    /// an orphan without touching any index, and otherwise the block is
    /// linked at its assigned level. The fatal error is proved
    /// unreachable: the result is always `Ok`.
    #[verifier::rlimit(100)]
    pub fn insert(&mut self, block: Block) -> (r: Result<InsertOutcome, TreeError>)
        requires
            old(self).wf(),
        ensures
            final(self).wf(),
            r is Ok,
            final(self).genesis_spec() == old(self).genesis_spec(),
            final(self).depth_spec() == old(self).depth_spec(),
            old(self).ledger_seq().is_prefix_of(final(self).ledger_seq()),
            old(self).leader_seq_spec().is_prefix_of(final(self).leader_seq_spec()),
            ({
                let h = header_digest(block.header);
                let dup = has_node(old(self).blocks_seq(), h);
                let root_ok = spec_root_ok(block);
                let mal = spec_malformed(old(self).voter_tips_seq().len() as int, block);
                let orph = spec_orphan(old(self).blocks_seq(), block);
                &&& dup ==> r == Ok::<InsertOutcome, TreeError>(InsertOutcome::DuplicateIgnored)
                    && *final(self) == *old(self)
                &&& !dup && !root_ok ==> r == Ok::<InsertOutcome, TreeError>(
                        InsertOutcome::Invalid(InvalidReason::ContentRootMismatch))
                    && *final(self) == *old(self)
                &&& !dup && root_ok && mal ==> r == Ok::<InsertOutcome, TreeError>(
                        InsertOutcome::Invalid(InvalidReason::MalformedContent))
                    && *final(self) == *old(self)
                &&& !dup && root_ok && !mal && orph ==> r == Ok::<InsertOutcome, TreeError>(
                        InsertOutcome::Orphan) && *final(self) == *old(self)
                &&& !dup && root_ok && !mal && !orph ==> r == Ok::<InsertOutcome, TreeError>(
                        InsertOutcome::Linked)
                    && final(self).blocks_seq() == old(self).blocks_seq().push(Node {
                        hash: h, block,
                        level: spec_new_level(old(self).blocks_seq(), block) })
            }),
    {
        let h = block.header.hash();
        if self.contains_block(&h) {
            return Ok(InsertOutcome::DuplicateIgnored);
        }
        let root = content_root_of(&block.content);
        if root != block.header.content_root {
            return Ok(InsertOutcome::Invalid(InvalidReason::ContentRootMismatch));
        }
        let ghost ns = self.blocks_seq();
        let mut level: u64 = 0;
        match &block.content {
            Content::Transaction { extrinsics } => {}
            Content::Proposer { transaction_refs, proposer_refs } => {
                match self.find_index(&block.header.parent) {
                    Some(pi) => {
                        proof {
                            reveal(BlockTree::nodes_wf);
                            lemma_node_at(ns, block.header.parent, pi as int);
                            vstd::std_specs::vec::axiom_spec_len(&self.nodes);
                        }
                        let parent_is_proposer = match &self.nodes[pi].block.content {
                            Content::Proposer { transaction_refs, proposer_refs } => true,
                            _ => false,
                        };
                        if !parent_is_proposer {
                            return Ok(InsertOutcome::Orphan);
                        }
                        level = self.nodes[pi].level + 1;
                    }
                    None => {
                        return Ok(InsertOutcome::Orphan);
                    }
                }
            }
            Content::Voter { chain_number, parent, votes } => {
                if *chain_number as usize >= self.voter_tips.len() {
                    return Ok(InsertOutcome::Invalid(InvalidReason::MalformedContent));
                }
                match self.find_index(parent) {
                    Some(pi) => {
                        proof {
                            reveal(BlockTree::nodes_wf);
                            lemma_node_at(ns, *parent, pi as int);
                            vstd::std_specs::vec::axiom_spec_len(&self.nodes);
                        }
                        let parent_chain_ok = match &self.nodes[pi].block.content {
                            Content::Voter { chain_number: pc, parent: pp, votes: pv } =>
                                *pc == *chain_number,
                            _ => false,
                        };
                        if !parent_chain_ok {
                            return Ok(InsertOutcome::Orphan);
                        }
                        level = self.nodes[pi].level + 1;
                    }
                    None => {
                        return Ok(InsertOutcome::Orphan);
                    }
                }
            }
        }
        self.link_block(block, h, level);
        Ok(InsertOutcome::Linked)
    }
}

/// Membership in a pushed sequence of hashes.
pub proof fn lemma_push_contains(s: Seq<H256>, v: H256, x: H256)
    ensures
        s.push(v).contains(x) <==> (s.contains(x) || x == v),
{
    if s.contains(x) {
        let i = choose|i: int| 0 <= i < s.len() && s[i] == x;
        assert(s.push(v)[i] == x);
    }
    if x == v {
        assert(s.push(v)[s.len() as int] == x);
    }
    if s.push(v).contains(x) {
        let i = choose|i: int| 0 <= i < s.push(v).len() && s.push(v)[i] == x;
        if i < s.len() {
            assert(s[i] == x);
        }
    }
}

/// Membership in a sequence of hashes with one element removed, when no
/// hash appears twice.
pub proof fn lemma_remove_contains(s: Seq<H256>, k: int, x: H256)
    requires
        no_dup_hashes(s),
        0 <= k < s.len(),
    ensures
        s.remove(k).contains(x) <==> (s.contains(x) && x != s[k]),
        no_dup_hashes(s.remove(k)),
{
    let r = s.remove(k);
    assert(forall|i: int| 0 <= i < k ==> r[i] == s[i]);
    assert(forall|i: int| k <= i < r.len() ==> r[i] == s[i + 1]);
    if r.contains(x) {
        let i = choose|i: int| 0 <= i < r.len() && r[i] == x;
        if i < k {
            assert(s[i] == x);
            assert(x != s[k]);
        } else {
            assert(s[i + 1] == x);
            assert(x != s[k]);
        }
    }
    if s.contains(x) && x != s[k] {
        let i = choose|i: int| 0 <= i < s.len() && s[i] == x;
        if i < k {
            assert(r[i] == x);
        } else {
            assert(i != k);
            assert(r[i - 1] == x);
        }
    }
    assert forall|i: int, j: int| 0 <= i < j < r.len() implies (#[trigger] r[i])
        != (#[trigger] r[j]) by {
        let si: int = if i < k { i } else { i + 1 };
        let sj: int = if j < k { j } else { j + 1 };
        assert(r[i] == s[si] && r[j] == s[sj]);
        assert(s[si] != s[sj]);
    }
}


/// A pushed hash extends membership and keeps hashes distinct.
pub proof fn lemma_push_nodup(s: Seq<H256>, v: H256)
    requires
        no_dup_hashes(s),
        !s.contains(v),
    ensures
        no_dup_hashes(s.push(v)),
{
    let p = s.push(v);
    assert forall|i: int, j: int| 0 <= i < j < p.len() implies (#[trigger] p[i])
        != (#[trigger] p[j]) by {
        if j < s.len() {
            assert(s[i] != s[j]);
        } else {
            assert(p[j] == v);
            if s[i] == v {
                assert(s.contains(v));
            }
        }
    }
}


/// Whether `v` holds the hash `x`.
fn vec_contains(v: &Vec<H256>, x: &H256) -> (r: bool)
    ensures
        r == v@.contains(*x),
{
    let n: usize = v.len();
    let mut i: usize = 0;
    while i < n
        invariant
            i <= n,
            n == v@.len(),
            forall|j: int| 0 <= j < i ==> v@[j] != *x,
        decreases n - i,
    {
        if v[i] == *x {
            assert(v@.contains(*x));
            return true;
        }
        i = i + 1;
    }
    false
}

/// The position of `x` in `v`, if present.
fn vec_find(v: &Vec<H256>, x: &H256) -> (r: Option<usize>)
    ensures
        r matches Some(i) ==> i < v@.len() && v@[i as int] == *x,
        r is None ==> !v@.contains(*x),
{
    let n: usize = v.len();
    let mut i: usize = 0;
    while i < n
        invariant
            i <= n,
            n == v@.len(),
            forall|j: int| 0 <= j < i ==> v@[j] != *x,
        decreases n - i,
    {
        if v[i] == *x {
            return Some(i);
        }
        i = i + 1;
    }
    None
}


/// A hash no stored node carries sits in neither pool.
proof fn lemma_fresh_not_pending(o: BlockTree, h: H256)
    requires
        o.pools_wf(),
        !has_node(o.blocks_seq(), h),
    ensures
        !o.pending_tx_seq().contains(h),
        !o.pending_prop_seq().contains(h),
        no_dup_hashes(o.pending_tx_seq()),
        no_dup_hashes(o.pending_prop_seq()),
{
    reveal(BlockTree::pools_wf);
    if o.pending_tx_seq().contains(h) {
        assert(has_tx_node(o.blocks_seq(), h));
    }
    if o.pending_prop_seq().contains(h) {
        assert(has_proposer_node(o.blocks_seq(), h));
    }
}

/// Relinking one block preserves the structural invariant, given how the
/// node store, the tips and the best pointers changed.
#[verifier::rlimit(100)]
proof fn lemma_link_nodes_wf(o: BlockTree, t: BlockTree, b: Block, h: H256, level: u64)
    requires
        o.nodes_wf(),
        o.blocks_seq().len() <= u64::MAX,
        h == header_digest(b.header),
        !has_node(o.blocks_seq(), h),
        is_voter_block(b) ==> (voter_chain_of(b) as int) < o.voter_tips_seq().len(),
        !spec_orphan(o.blocks_seq(), b),
        level == spec_new_level(o.blocks_seq(), b),
        t.blocks_seq() == o.blocks_seq().push(Node { hash: h, block: b, level }),
        t.genesis_spec() == o.genesis_spec(),
        is_voter_block(b) ==> t.voter_tips_seq() == (
            if level > o.voter_tips_seq()[voter_chain_of(b) as int].1 {
                o.voter_tips_seq().update(voter_chain_of(b) as int, (h, level))
            } else {
                o.voter_tips_seq()
            }),
        !is_voter_block(b) ==> t.voter_tips_seq() == o.voter_tips_seq(),
        is_proposer_block(b) && level > o.best_level_spec()
            ==> t.best_level_spec() == level && t.best_proposer_spec() == h,
        !(is_proposer_block(b) && level > o.best_level_spec())
            ==> t.best_level_spec() == o.best_level_spec()
                && t.best_proposer_spec() == o.best_proposer_spec(),
    ensures
        t.nodes_wf(),
{
    reveal(BlockTree::nodes_wf);
    let old_nodes = o.blocks_seq();
    let old_self = o;
    let node_g = Node { hash: h, block: b, level };
    let is_prop_b = is_proposer_block(b);
    let is_voter_b = is_voter_block(b);
    let chain = voter_chain_of(b);
    lemma_push_node(old_nodes, node_g);
    if is_prop_b {
        let pi = index_of(old_nodes, b.header.parent);
        assert(old_nodes[pi].level < old_nodes.len());
    }
    if is_voter_b {
        let pi = index_of(old_nodes, voter_parent_of(b));
        assert(old_nodes[pi].level < old_nodes.len());
    }
    assert(level < old_nodes.len() + 1);
    let ns = t.blocks_seq();
    let tps = t.voter_tips_seq();
    let g = t.genesis_spec();
    assert(ns == old_nodes.push(node_g));
    // hashes and levels
    assert forall|i: int| 0 <= i < ns.len() implies (#[trigger] ns[i]).hash
        == header_digest(ns[i].block.header) by {
        if i < old_nodes.len() {
            assert(old_nodes[i].hash == header_digest(old_nodes[i].block.header));
        }
    }
    assert forall|i: int| 0 <= i < ns.len() implies (#[trigger] ns[i]).level
        < ns.len() by {
        if i < old_nodes.len() {
            assert(old_nodes[i].level < old_nodes.len());
        }
    }
    // genesis
    assert(node_of(ns, g) == node_of(old_nodes, g));
    // proposer tree structure
    assert forall|i: int| 0 <= i < ns.len()
        && is_proposer_block((#[trigger] ns[i]).block) && ns[i].hash != g
        implies has_proposer_node(ns, ns[i].block.header.parent)
            && node_of(ns, ns[i].block.header.parent).level + 1 == ns[i].level by {
        if i < old_nodes.len() {
            assert(old_nodes[i] == ns[i]);
            let p = old_nodes[i].block.header.parent;
            assert(has_proposer_node(old_nodes, p)
                && node_of(old_nodes, p).level + 1 == old_nodes[i].level);
            assert(node_of(ns, p) == node_of(old_nodes, p));
        } else {
            assert(ns[i] == node_g);
            let p = b.header.parent;
            assert(has_proposer_node(old_nodes, p));
            assert(node_of(ns, p) == node_of(old_nodes, p));
            let pi = index_of(old_nodes, p);
            assert(old_nodes[pi].level < old_nodes.len());
        }
    }
    assert forall|i: int| 0 <= i < ns.len()
        && is_proposer_block((#[trigger] ns[i]).block)
        implies ns[i].level <= t.best_level_spec() by {
        if i < old_nodes.len() {
            assert(old_nodes[i].level <= old_self.best_level_spec());
        }
    }
    if is_prop_b && level > old_self.best_level_spec() {
        assert(node_of(ns, h) == node_g);
    } else {
        assert(node_of(ns, t.best_proposer_spec())
            == node_of(old_nodes, old_self.best_proposer_spec()));
    }
    // voter chain structure
    assert forall|i: int| 0 <= i < ns.len()
        && is_voter_block((#[trigger] ns[i]).block)
        implies (voter_chain_of(ns[i].block) as int) < tps.len() by {
        if i < old_nodes.len() {
            assert((voter_chain_of(old_nodes[i].block) as int)
                < old_self.voter_tips_seq().len());
        }
    }
    assert forall|i: int| 0 <= i < ns.len()
        && is_voter_block((#[trigger] ns[i]).block) && ns[i].level > 0
        implies has_node(ns, voter_parent_of(ns[i].block))
            && is_voter_block(node_of(ns, voter_parent_of(ns[i].block)).block)
            && voter_chain_of(node_of(ns, voter_parent_of(ns[i].block)).block)
                == voter_chain_of(ns[i].block)
            && node_of(ns, voter_parent_of(ns[i].block)).level + 1 == ns[i].level by {
        if i < old_nodes.len() {
            assert(old_nodes[i] == ns[i]);
            let p = voter_parent_of(old_nodes[i].block);
            assert(has_node(old_nodes, p)
                && is_voter_block(node_of(old_nodes, p).block)
                && voter_chain_of(node_of(old_nodes, p).block)
                    == voter_chain_of(old_nodes[i].block)
                && node_of(old_nodes, p).level + 1 == old_nodes[i].level);
            assert(node_of(ns, p) == node_of(old_nodes, p));
        } else {
            assert(ns[i] == node_g);
            let p = voter_parent_of(b);
            assert(has_node(old_nodes, p));
            assert(node_of(ns, p) == node_of(old_nodes, p));
            let pi = index_of(old_nodes, p);
            assert(old_nodes[pi].level < old_nodes.len());
        }
    }
    // voter tips
    assert forall|c: int| 0 <= c < tps.len() implies has_node(ns, (#[trigger] tps[c]).0)
        && is_voter_block(node_of(ns, tps[c].0).block)
        && (voter_chain_of(node_of(ns, tps[c].0).block) as int) == c
        && node_of(ns, tps[c].0).level == tps[c].1 by {
        if is_voter_b && level > old_self.voter_tips_seq()[chain as int].1
            && c == chain as int {
            assert(tps[c] == (h, level));
            assert(node_of(ns, h) == node_g);
        } else {
            assert(tps[c] == old_self.voter_tips_seq()[c]);
            let t0 = old_self.voter_tips_seq()[c];
            assert(has_node(old_nodes, t0.0)
                && is_voter_block(node_of(old_nodes, t0.0).block)
                && (voter_chain_of(node_of(old_nodes, t0.0).block) as int) == c
                && node_of(old_nodes, t0.0).level == t0.1);
            assert(node_of(ns, t0.0) == node_of(old_nodes, t0.0));
        }
    }
    assert(t.nodes_wf());
}

/// Relinking one block preserves the pool invariant, given how the pools
/// and the referenced sets changed.
#[verifier::rlimit(100)]
proof fn lemma_link_pools_wf(o: BlockTree, t: BlockTree, b: Block, h: H256, level: u64)
    requires
        o.nodes_wf(),
        o.pools_wf(),
        !has_node(o.blocks_seq(), h),
        t.blocks_seq() == o.blocks_seq().push(Node { hash: h, block: b, level }),
        no_dup_hashes(t.pending_tx_seq()),
        no_dup_hashes(t.pending_prop_seq()),
        forall|x: H256| #[trigger] t.referenced_tx_seq().contains(x)
            <==> o.referenced_tx_seq().contains(x)
                || (is_proposer_block(b) && tx_refs_of(b).contains(x)),
        forall|x: H256| #[trigger] t.referenced_prop_seq().contains(x)
            <==> o.referenced_prop_seq().contains(x)
                || (is_proposer_block(b) && prop_refs_of(b).contains(x)),
        is_tx_block(b) ==> forall|x: H256| #[trigger] t.pending_tx_seq().contains(x)
            <==> o.pending_tx_seq().contains(x)
                || (x == h && !o.referenced_tx_seq().contains(h)),
        is_proposer_block(b) ==> forall|x: H256| #[trigger] t.pending_tx_seq().contains(x)
            <==> o.pending_tx_seq().contains(x) && !tx_refs_of(b).contains(x),
        is_voter_block(b) ==> t.pending_tx_seq() == o.pending_tx_seq(),
        is_proposer_block(b) ==> forall|x: H256| #[trigger] t.pending_prop_seq().contains(x)
            <==> (o.pending_prop_seq().contains(x) && !prop_refs_of(b).contains(x))
                || (x == h && !t.referenced_prop_seq().contains(h)),
        !is_proposer_block(b) ==> t.pending_prop_seq() == o.pending_prop_seq(),
    ensures
        t.pools_wf(),
{
    reveal(BlockTree::nodes_wf);
    reveal(BlockTree::pools_wf);
    let old_nodes = o.blocks_seq();
    let old_self = o;
    let node_g = Node { hash: h, block: b, level };
    let is_tx_b = is_tx_block(b);
    let is_prop_b = is_proposer_block(b);
    let txr = tx_refs_of(b);
    let ppr = prop_refs_of(b);
    lemma_push_node(old_nodes, node_g);
    let ns = t.blocks_seq();
    assert(ns == old_nodes.push(node_g));
    // how membership in the node classes changed
    assert forall|x: H256| #[trigger] has_tx_node(ns, x)
        <==> has_tx_node(old_nodes, x) || (x == h && is_tx_block(b)) by {
        if has_node(ns, x) {
            if x != h {
                assert(has_node(old_nodes, x));
            }
        }
        if has_node(old_nodes, x) {
            assert(node_of(ns, x) == node_of(old_nodes, x));
        }
    }
    assert forall|x: H256| #[trigger] has_proposer_node(ns, x)
        <==> has_proposer_node(old_nodes, x) || (x == h && is_proposer_block(b)) by {
        if has_node(ns, x) {
            if x != h {
                assert(has_node(old_nodes, x));
            }
        }
        if has_node(old_nodes, x) {
            assert(node_of(ns, x) == node_of(old_nodes, x));
        }
    }
    assert forall|x: H256| #[trigger] tx_referenced(ns, x)
        <==> tx_referenced(old_nodes, x) || (is_prop_b && txr.contains(x)) by {
        if tx_referenced(ns, x) {
            let i = choose|i: int| 0 <= i < ns.len()
                && is_proposer_block((#[trigger] ns[i]).block)
                && tx_refs_of(ns[i].block).contains(x);
            if i < old_nodes.len() {
                assert(old_nodes[i] == ns[i]);
                assert(tx_referenced(old_nodes, x));
            } else {
                assert(ns[i] == node_g);
            }
        }
        if tx_referenced(old_nodes, x) {
            let i = choose|i: int| 0 <= i < old_nodes.len()
                && is_proposer_block((#[trigger] old_nodes[i]).block)
                && tx_refs_of(old_nodes[i].block).contains(x);
            assert(ns[i] == old_nodes[i]);
            assert(tx_referenced(ns, x));
        }
        if is_prop_b && txr.contains(x) {
            assert(ns[old_nodes.len() as int] == node_g);
            assert(tx_referenced(ns, x));
        }
    }
    assert forall|x: H256| #[trigger] prop_referenced(ns, x)
        <==> prop_referenced(old_nodes, x) || (is_prop_b && ppr.contains(x)) by {
        if prop_referenced(ns, x) {
            let i = choose|i: int| 0 <= i < ns.len()
                && is_proposer_block((#[trigger] ns[i]).block)
                && prop_refs_of(ns[i].block).contains(x);
            if i < old_nodes.len() {
                assert(old_nodes[i] == ns[i]);
                assert(prop_referenced(old_nodes, x));
            } else {
                assert(ns[i] == node_g);
            }
        }
        if prop_referenced(old_nodes, x) {
            let i = choose|i: int| 0 <= i < old_nodes.len()
                && is_proposer_block((#[trigger] old_nodes[i]).block)
                && prop_refs_of(old_nodes[i].block).contains(x);
            assert(ns[i] == old_nodes[i]);
            assert(prop_referenced(ns, x));
        }
        if is_prop_b && ppr.contains(x) {
            assert(ns[old_nodes.len() as int] == node_g);
            assert(prop_referenced(ns, x));
        }
    }
    // the four pool clauses
    assert forall|x: H256| #[trigger] t.referenced_tx_seq().contains(x)
        <==> tx_referenced(ns, x) by {
        assert(old_self.referenced_tx_seq().contains(x)
            <==> tx_referenced(old_nodes, x));
    }
    assert forall|x: H256| #[trigger] t.referenced_prop_seq().contains(x)
        <==> prop_referenced(ns, x) by {
        assert(old_self.referenced_prop_seq().contains(x)
            <==> prop_referenced(old_nodes, x));
    }
    assert forall|x: H256| #[trigger] t.pending_tx_seq().contains(x)
        <==> has_tx_node(ns, x) && !t.referenced_tx_seq().contains(x) by {
        assert(old_self.pending_tx_seq().contains(x)
            <==> has_tx_node(old_nodes, x)
                && !old_self.referenced_tx_seq().contains(x));
        assert(old_self.referenced_tx_seq().contains(x)
            <==> tx_referenced(old_nodes, x));
        if has_tx_node(old_nodes, x) && x == h {
            assert(has_node(old_nodes, h));
        }
    }
    assert forall|x: H256| #[trigger] t.pending_prop_seq().contains(x)
        <==> has_proposer_node(ns, x) && !t.referenced_prop_seq().contains(x) by {
        assert(old_self.pending_prop_seq().contains(x)
            <==> has_proposer_node(old_nodes, x)
                && !old_self.referenced_prop_seq().contains(x));
        assert(old_self.referenced_prop_seq().contains(x)
            <==> prop_referenced(old_nodes, x));
        if has_proposer_node(old_nodes, x) && x == h {
            assert(has_node(old_nodes, h));
        }
    }
    assert(t.pools_wf());
}



/// Whether some stored block declares `g` as its header parent.
pub open spec fn has_child(nodes: Seq<Node>, g: H256) -> bool {
    exists|i: int| 0 <= i < nodes.len() && (#[trigger] nodes[i]).block.header.parent == g
}

impl BlockTree {
    /// The best proposer block's hash: the first block seen at the
    /// highest proposer level.
    pub fn best_proposer(&self) -> (r: H256)
        ensures
            r == self.best_proposer_spec(),
    {
        self.best_proposer
    }

    /// Whether any stored block declares `g` as its header parent.
    fn any_child(&self, g: &H256) -> (r: bool)
        ensures
            r == has_child(self.blocks_seq(), *g),
    {
        let n: usize = self.nodes.len();
        let mut i: usize = 0;
        while i < n
            invariant
                i <= n,
                n == self.nodes@.len(),
                forall|j: int| 0 <= j < i ==> (#[trigger] self.nodes@[j]).block.header.parent
                    != *g,
            decreases n - i,
        {
            if self.nodes[i].block.header.parent == *g {
                return true;
            }
            i = i + 1;
        }
        false
    }

    /// The stored blocks that `g` is the declared header parent of, in
    /// insertion order.
    pub fn children(&self, h: &H256) -> (r: Vec<H256>)
        requires
            self.wf(),
        ensures
            forall|g: H256| #[trigger] r@.contains(g)
                <==> has_node(self.blocks_seq(), g)
                    && node_of(self.blocks_seq(), g).block.header.parent == *h,
    {
        proof {
            reveal(BlockTree::nodes_wf);
        }
        let ghost ns = self.blocks_seq();
        let n: usize = self.nodes.len();
        let mut out: Vec<H256> = Vec::new();
        let mut i: usize = 0;
        while i < n
            invariant
                i <= n,
                n == ns.len(),
                ns == self.blocks_seq(),
                hashes_unique(ns),
                forall|g: H256| #[trigger] out@.contains(g) <==> exists|j: int| 0 <= j < i
                    && (#[trigger] ns[j]).hash == g && ns[j].block.header.parent == *h,
            decreases n - i,
        {
            let ghost pre = out@;
            if self.nodes[i].block.header.parent == *h {
                out.push(self.nodes[i].hash);
                proof {
                    assert forall|g: H256| #[trigger] out@.contains(g)
                        <==> pre.contains(g) || g == ns[i as int].hash by {
                        lemma_push_contains(pre, ns[i as int].hash, g);
                    }
                }
            }
            i = i + 1;
        }
        proof {
            assert forall|g: H256| #[trigger] out@.contains(g)
                <==> has_node(ns, g) && node_of(ns, g).block.header.parent == *h by {
                if out@.contains(g) {
                    let j = choose|j: int| 0 <= j < n && (#[trigger] ns[j]).hash == g
                        && ns[j].block.header.parent == *h;
                    lemma_node_at(ns, g, j);
                }
                if has_node(ns, g) && node_of(ns, g).block.header.parent == *h {
                    let j = index_of(ns, g);
                    assert(0 <= j < n && ns[j].hash == g
                        && ns[j].block.header.parent == *h);
                }
            }
        }
        out
    }

    /// The stored blocks that no stored block declares as its header
    /// parent, in insertion order.
    pub fn leaves(&self) -> (r: Vec<H256>)
        requires
            self.wf(),
        ensures
            forall|g: H256| #[trigger] r@.contains(g)
                <==> has_node(self.blocks_seq(), g) && !has_child(self.blocks_seq(), g),
    {
        proof {
            reveal(BlockTree::nodes_wf);
        }
        let ghost ns = self.blocks_seq();
        let n: usize = self.nodes.len();
        let mut out: Vec<H256> = Vec::new();
        let mut i: usize = 0;
        while i < n
            invariant
                i <= n,
                n == ns.len(),
                ns == self.blocks_seq(),
                hashes_unique(ns),
                forall|g: H256| #[trigger] out@.contains(g) <==> exists|j: int| 0 <= j < i
                    && (#[trigger] ns[j]).hash == g && !has_child(ns, g),
            decreases n - i,
        {
            let ghost pre = out@;
            if !self.any_child(&self.nodes[i].hash) {
                out.push(self.nodes[i].hash);
                proof {
                    assert forall|g: H256| #[trigger] out@.contains(g)
                        <==> pre.contains(g) || g == ns[i as int].hash by {
                        lemma_push_contains(pre, ns[i as int].hash, g);
                    }
                }
            }
            i = i + 1;
        }
        proof {
            assert forall|g: H256| #[trigger] out@.contains(g)
                <==> has_node(ns, g) && !has_child(ns, g) by {
                if out@.contains(g) {
                    let j = choose|j: int| 0 <= j < n && (#[trigger] ns[j]).hash == g
                        && !has_child(ns, g);
                    lemma_node_at(ns, g, j);
                }
                if has_node(ns, g) && !has_child(ns, g) {
                    let j = index_of(ns, g);
                    assert(0 <= j < n && ns[j].hash == g);
                }
            }
        }
        out
    }
}

} // verus!
