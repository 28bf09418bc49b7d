//! A verified block-tree consensus engine for a Prism-style multi-chain
//! protocol: transaction blocks carry payload, proposer blocks order
//! references to them, and many parallel voter chains elect one leader
//! proposer block per level, from which an append-only ledger order is
//! derived.

use vstd::prelude::*;

mod block;
mod hash256;
mod pow;
mod sortition;
mod tree;

pub use block::{content_root_of, decode_header, encode_block, encode_content, encode_header, Block,
    BlockHeader, Content, Extrinsic};
pub use hash256::H256;
pub use pow::{Blake3POW, Compute, Seal};
pub use sortition::{classify, ContentKind, Difficulties};
pub use tree::{BlockTree, InsertOutcome, InvalidReason, Node, TreeError};

verus! {

} // verus!
