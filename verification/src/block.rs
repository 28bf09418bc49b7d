//! Immutable block model: headers, the three content variants, and the
//! wire encoding whose BLAKE3 digest is every block's identity.
//!
//! All multi-byte integers are laid out big-endian — chosen deliberately
//! as one uniform byte order for the whole wire format, so that a byte
//! comparison of encoded hashes agrees with their numeric order — and
//! every variable-length list is preceded by its 64-bit element count, so
//! that the byte concatenation of the fields in declared order is
//! unambiguous across nodes.

use vstd::prelude::*;
use crate::hash256::{H256, h256_bytes, h256_of_bytes, u64_be_bytes, u64_val_of,
    append_u64_be, read_u64_be, lemma_u64_val_to_bytes, lemma_h256_val_to_bytes};

verus! {

/// An opaque transaction payload carried by a transaction block.
#[derive(Clone, Debug, PartialEq, Eq)]
pub struct Extrinsic {
    pub bytes: Vec<u8>,
}

/// The content of a block: exactly one of the three roles.
#[derive(Clone, Debug, PartialEq, Eq)]
pub enum Content {
    /// Bulk payload: an ordered sequence of extrinsics.
    Transaction { extrinsics: Vec<Extrinsic> },
    /// An ordering proposal: references to transaction blocks and to other
    /// proposer blocks.
    Proposer { transaction_refs: Vec<H256>, proposer_refs: Vec<H256> },
    /// A vote: the voter chain it extends, its voter parent, and the
    /// proposer blocks it votes for.
    Voter { chain_number: u16, parent: H256, votes: Vec<H256> },
}

/// A block header; the BLAKE3 digest of its encoded fields is the block's
/// identity and the key of every index.
#[derive(Clone, Copy, Debug, PartialEq, Eq, Structural)]
pub struct BlockHeader {
    /// Hash of the parent proposer block.
    pub parent: H256,
    /// Timestamp of the block.
    pub timestamp: u128,
    /// Proof-of-work nonce.
    pub nonce: u32,
    /// Committed root of the block's content.
    pub content_root: H256,
    /// 32 bytes of extra content.
    pub extra_content: H256,
    /// Difficulty of the block.
    pub difficulty: H256,
    /// The miner's address.
    pub coinbase: H256,
}

/// A full block: header, content, sortition proof and miner address.
#[derive(Clone, Debug, PartialEq, Eq)]
pub struct Block {
    pub header: BlockHeader,
    pub content: Content,
    /// Proof that the block was mined over a set of content candidates.
    pub sortition_proof: Vec<H256>,
    pub coinbase: H256,
}

/// The result of hashing `input` with BLAKE3; 32 bytes, a function of the
/// input bytes alone.
pub uninterp spec fn blake3_of(input: Seq<u8>) -> Seq<u8>;

/// Relies on blake3::hash: a 32-byte digest that depends on the input
/// bytes alone.
#[verifier::external_body]
pub(crate) fn blake3_hash(input: &[u8]) -> (r: Vec<u8>)
    ensures
        r@ == blake3_of(input@),
        r@.len() == 32,
{
    blake3::hash(input).as_bytes().to_vec()
}

/// The big-endian bytes of a 32-bit word.
pub open spec fn u32_be_bytes(w: u32) -> Seq<u8> {
    seq![
        ((w / 0x1000000) % 256) as u8,
        ((w / 0x10000) % 256) as u8,
        ((w / 0x100) % 256) as u8,
        (w % 256) as u8,
    ]
}

/// The big-endian bytes of a 16-bit word.
pub open spec fn u16_be_bytes(w: u16) -> Seq<u8> {
    seq![((w / 0x100) % 256) as u8, (w % 256) as u8]
}

/// The big-endian bytes of a 128-bit word.
pub open spec fn u128_be_bytes(w: u128) -> Seq<u8> {
    u64_be_bytes((w / 0x10000000000000000) as u64) + u64_be_bytes((w % 0x10000000000000000) as u64)
}

/// The bytes of a list of hashes, each hash in order.
pub open spec fn hashes_bytes(s: Seq<H256>) -> Seq<u8>
    decreases s.len(),
{
    if s.len() == 0 {
        Seq::empty()
    } else {
        hashes_bytes(s.drop_last()) + h256_bytes(s.last())
    }
}

/// The bytes of a hash list on the wire: the element count, then the
/// hashes in order.
pub open spec fn hash_list_bytes(s: Seq<H256>) -> Seq<u8> {
    u64_be_bytes(s.len() as u64) + hashes_bytes(s)
}

/// The bytes of one extrinsic on the wire: its byte length, then its bytes.
pub open spec fn extrinsic_bytes(e: Extrinsic) -> Seq<u8> {
    u64_be_bytes(e.bytes@.len() as u64) + e.bytes@
}

/// The bytes of a list of extrinsics, each in order.
pub open spec fn extrinsics_bytes(s: Seq<Extrinsic>) -> Seq<u8>
    decreases s.len(),
{
    if s.len() == 0 {
        Seq::empty()
    } else {
        extrinsics_bytes(s.drop_last()) + extrinsic_bytes(s.last())
    }
}

/// The bytes of an extrinsic list on the wire: the element count, then
/// the extrinsics in order.
pub open spec fn extrinsic_list_bytes(s: Seq<Extrinsic>) -> Seq<u8> {
    u64_be_bytes(s.len() as u64) + extrinsics_bytes(s)
}

/// The wire bytes of a content value: a role tag, then the variant's
/// fields in declared order.
pub open spec fn content_bytes(c: Content) -> Seq<u8> {
    match c {
        Content::Transaction { extrinsics } => seq![0u8] + extrinsic_list_bytes(extrinsics@),
        Content::Proposer { transaction_refs, proposer_refs } => seq![1u8]
            + hash_list_bytes(transaction_refs@) + hash_list_bytes(proposer_refs@),
        Content::Voter { chain_number, parent, votes } => seq![2u8]
            + u16_be_bytes(chain_number) + h256_bytes(parent) + hash_list_bytes(votes@),
    }
}

/// The wire bytes of a header: all fields in declared order.
pub open spec fn header_bytes(h: BlockHeader) -> Seq<u8> {
    h256_bytes(h.parent) + u128_be_bytes(h.timestamp) + u32_be_bytes(h.nonce)
        + h256_bytes(h.content_root) + h256_bytes(h.extra_content) + h256_bytes(h.difficulty)
        + h256_bytes(h.coinbase)
}

/// The wire bytes of a full block: header, content, sortition proof,
/// coinbase, in declared order.
pub open spec fn block_bytes(b: Block) -> Seq<u8> {
    header_bytes(b.header) + content_bytes(b.content) + hash_list_bytes(b.sortition_proof@)
        + h256_bytes(b.coinbase)
}

/// A block's identity: the BLAKE3 digest of its encoded header.
pub open spec fn header_digest(h: BlockHeader) -> H256 {
    h256_of_bytes(blake3_of(header_bytes(h)))
}

/// The committed root a content value hashes to: the BLAKE3 digest of its
/// wire bytes.
pub open spec fn content_root(c: Content) -> H256 {
    h256_of_bytes(blake3_of(content_bytes(c)))
}

/// The digest of a whole block: BLAKE3 over its full wire bytes, header
/// included. Distinct from the block's identity, which is the digest of
/// the header alone.
pub open spec fn block_digest(b: Block) -> H256 {
    h256_of_bytes(blake3_of(block_bytes(b)))
}

/// The summed byte length of a sequence of extrinsics.
pub open spec fn spec_payload_size(s: Seq<Extrinsic>) -> int
    decreases s.len(),
{
    if s.len() == 0 {
        0
    } else {
        spec_payload_size(s.drop_last()) + s.last().bytes@.len()
    }
}

/// The payload a content value carries: the summed byte length of its
/// extrinsics; reference and vote lists carry no payload.
pub open spec fn content_payload_size(c: Content) -> int {
    match c {
        Content::Transaction { extrinsics } => spec_payload_size(extrinsics@),
        _ => 0,
    }
}

/// Appends the two big-endian bytes of `w` to `out`.
pub fn append_u16_be(out: &mut Vec<u8>, w: u16)
    ensures
        final(out)@ == old(out)@ + u16_be_bytes(w),
{
    out.push(((w / 0x100) % 256) as u8);
    out.push((w % 256) as u8);
    assert(final(out)@ =~= old(out)@ + u16_be_bytes(w));
}

/// Appends the four big-endian bytes of `w` to `out`.
pub fn append_u32_be(out: &mut Vec<u8>, w: u32)
    ensures
        final(out)@ == old(out)@ + u32_be_bytes(w),
{
    out.push(((w / 0x1000000) % 256) as u8);
    out.push(((w / 0x10000) % 256) as u8);
    out.push(((w / 0x100) % 256) as u8);
    out.push((w % 256) as u8);
    assert(final(out)@ =~= old(out)@ + u32_be_bytes(w));
}

/// Appends the sixteen big-endian bytes of `w` to `out`.
pub fn append_u128_be(out: &mut Vec<u8>, w: u128)
    ensures
        final(out)@ == old(out)@ + u128_be_bytes(w),
{
    append_u64_be(out, (w / 0x10000000000000000) as u64);
    append_u64_be(out, (w % 0x10000000000000000) as u64);
    assert(final(out)@ =~= old(out)@ + u128_be_bytes(w));
}

/// Appends a hash list, count first, to `out`.
pub fn append_hash_list(out: &mut Vec<u8>, v: &Vec<H256>)
    ensures
        final(out)@ == old(out)@ + hash_list_bytes(v@),
{
    append_u64_be(out, v.len() as u64);
    let ghost base = out@;
    let n: usize = v.len();
    let mut i: usize = 0;
    while i < n
        invariant
            i <= n,
            n == v@.len(),
            out@ == base + hashes_bytes(v@.take(i as int)),
        decreases n - i,
    {
        v[i].append_bytes(out);
        proof {
            assert(v@.take(i + 1).drop_last() =~= v@.take(i as int));
            assert(v@.take(i + 1).last() == v@[i as int]);
        }
        i = i + 1;
    }
    proof {
        assert(v@.take(n as int) =~= v@);
        assert(final(out)@ =~= old(out)@ + hash_list_bytes(v@));
    }
}

/// Appends an extrinsic list, count first, to `out`.
pub fn append_extrinsic_list(out: &mut Vec<u8>, v: &Vec<Extrinsic>)
    ensures
        final(out)@ == old(out)@ + extrinsic_list_bytes(v@),
{
    append_u64_be(out, v.len() as u64);
    let ghost base = out@;
    let n: usize = v.len();
    let mut i: usize = 0;
    while i < n
        invariant
            i <= n,
            n == v@.len(),
            out@ == base + extrinsics_bytes(v@.take(i as int)),
        decreases n - i,
    {
        append_u64_be(out, v[i].bytes.len() as u64);
        let m: usize = v[i].bytes.len();
        let mut j: usize = 0;
        let ghost mid = out@;
        while j < m
            invariant
                j <= m,
                i < n,
                n == v@.len(),
                m == v@[i as int].bytes@.len(),
                out@ == mid + v@[i as int].bytes@.take(j as int),
            decreases m - j,
        {
            out.push(v[i].bytes[j]);
            proof {
                assert(v@[i as int].bytes@.take(j + 1) =~= v@[i as int].bytes@.take(j as int)
                    + seq![v@[i as int].bytes@[j as int]]);
            }
            j = j + 1;
        }
        proof {
            assert(v@[i as int].bytes@.take(m as int) =~= v@[i as int].bytes@);
            assert(v@.take(i + 1).drop_last() =~= v@.take(i as int));
            assert(v@.take(i + 1).last() == v@[i as int]);
            assert(out@ =~= base + extrinsics_bytes(v@.take(i + 1)));
        }
        i = i + 1;
    }
    proof {
        assert(v@.take(n as int) =~= v@);
        assert(final(out)@ =~= old(out)@ + extrinsic_list_bytes(v@));
    }
}

/// The wire bytes of a header.
pub fn encode_header(h: &BlockHeader) -> (r: Vec<u8>)
    ensures
        r@ == header_bytes(*h),
{
    let mut out: Vec<u8> = Vec::new();
    h.parent.append_bytes(&mut out);
    append_u128_be(&mut out, h.timestamp);
    append_u32_be(&mut out, h.nonce);
    h.content_root.append_bytes(&mut out);
    h.extra_content.append_bytes(&mut out);
    h.difficulty.append_bytes(&mut out);
    h.coinbase.append_bytes(&mut out);
    assert(out@ =~= header_bytes(*h));
    out
}

/// The wire bytes of a content value.
pub fn encode_content(c: &Content) -> (r: Vec<u8>)
    ensures
        r@ == content_bytes(*c),
{
    let mut out: Vec<u8> = Vec::new();
    match c {
        Content::Transaction { extrinsics } => {
            out.push(0u8);
            append_extrinsic_list(&mut out, extrinsics);
        }
        Content::Proposer { transaction_refs, proposer_refs } => {
            out.push(1u8);
            append_hash_list(&mut out, transaction_refs);
            append_hash_list(&mut out, proposer_refs);
        }
        Content::Voter { chain_number, parent, votes } => {
            out.push(2u8);
            append_u16_be(&mut out, *chain_number);
            parent.append_bytes(&mut out);
            append_hash_list(&mut out, votes);
        }
    }
    assert(out@ =~= content_bytes(*c));
    out
}

/// The wire bytes of a full block.
pub fn encode_block(b: &Block) -> (r: Vec<u8>)
    ensures
        r@ == block_bytes(*b),
{
    let mut out: Vec<u8> = encode_header(&b.header);
    let mut cb = encode_content(&b.content);
    out.append(&mut cb);
    append_hash_list(&mut out, &b.sortition_proof);
    b.coinbase.append_bytes(&mut out);
    assert(out@ =~= block_bytes(*b));
    out
}

/// The committed root of a content value.
pub fn content_root_of(c: &Content) -> (r: H256)
    ensures
        r == content_root(*c),
{
    let enc = encode_content(c);
    let d = blake3_hash(enc.as_slice());
    let r = H256::from_byte_slice(d.as_slice(), 0);
    proof {
        assert(d@.subrange(0, 32) =~= d@);
    }
    r
}

impl Content {
    /// The summed byte length of the extrinsics this content carries;
    /// zero for proposer and voter content.
    pub fn payload_size(&self) -> (r: u128)
        ensures
            r == content_payload_size(*self),
    {
        match self {
            Content::Transaction { extrinsics } => {
                let n: usize = extrinsics.len();
                let mut acc: u128 = 0;
                let mut i: usize = 0;
                while i < n
                    invariant
                        i <= n,
                        n == extrinsics@.len(),
                        acc == spec_payload_size(extrinsics@.take(i as int)),
                        acc <= i * 0xFFFFFFFFFFFFFFFF,
                    decreases n - i,
                {
                    let len: usize = extrinsics[i].bytes.len();
                    acc = acc + len as u128;
                    proof {
                        assert(extrinsics@.take(i + 1).drop_last() =~= extrinsics@.take(i as int));
                        assert(extrinsics@.take(i + 1).last() == extrinsics@[i as int]);
                    }
                    i = i + 1;
                }
                proof {
                    assert(extrinsics@.take(n as int) =~= extrinsics@);
                }
                acc
            }
            Content::Proposer { transaction_refs, proposer_refs } => 0,
            Content::Voter { chain_number, parent, votes } => 0,
        }
    }
}

impl BlockHeader {
    /// A header from its fields, in declared order.
    pub fn new(parent: H256, timestamp: u128, nonce: u32, content_root: H256,
        extra_content: H256, difficulty: H256, coinbase: H256) -> (r: BlockHeader)
        ensures
            r == (BlockHeader { parent, timestamp, nonce, content_root, extra_content,
                difficulty, coinbase }),
    {
        BlockHeader { parent, timestamp, nonce, content_root, extra_content, difficulty, coinbase }
    }

    /// The header's BLAKE3 digest: the identity of the block it seals.
    pub fn hash(&self) -> (r: H256)
        ensures
            r == header_digest(*self),
    {
        let enc = encode_header(self);
        let d = blake3_hash(enc.as_slice());
        let r = H256::from_byte_slice(d.as_slice(), 0);
        proof {
            assert(d@.subrange(0, 32) =~= d@);
        }
        r
    }
}

/// The zero hash: all four words zero.
pub open spec fn h256_zero() -> H256 {
    H256 { w0: 0, w1: 0, w2: 0, w3: 0 }
}

/// The wire bytes of the proposer genesis content: proposer content with
/// empty reference lists.
pub open spec fn proposer_genesis_content_bytes() -> Seq<u8> {
    seq![1u8] + hash_list_bytes(Seq::empty()) + hash_list_bytes(Seq::empty())
}

/// The proposer genesis header: all scalar fields zero, sealing the empty
/// proposer content.
pub open spec fn spec_proposer_genesis_header() -> BlockHeader {
    BlockHeader {
        parent: h256_zero(),
        timestamp: 0,
        nonce: 0,
        content_root: h256_of_bytes(blake3_of(proposer_genesis_content_bytes())),
        extra_content: h256_zero(),
        difficulty: h256_zero(),
        coinbase: h256_zero(),
    }
}

/// The identity of the proposer genesis block.
pub open spec fn spec_proposer_genesis_hash() -> H256 {
    header_digest(spec_proposer_genesis_header())
}

/// The wire bytes of chain `chain`'s voter genesis content: a voter
/// content with no votes and the zero parent.
pub open spec fn voter_genesis_content_bytes(chain: u16) -> Seq<u8> {
    seq![2u8] + u16_be_bytes(chain) + h256_bytes(h256_zero()) + hash_list_bytes(Seq::empty())
}

/// The voter genesis header of chain `chain`.
pub open spec fn spec_voter_genesis_header(chain: u16) -> BlockHeader {
    BlockHeader {
        parent: h256_zero(),
        timestamp: 0,
        nonce: 0,
        content_root: h256_of_bytes(blake3_of(voter_genesis_content_bytes(chain))),
        extra_content: h256_zero(),
        difficulty: h256_zero(),
        coinbase: h256_zero(),
    }
}

/// The identity of chain `chain`'s voter genesis block.
pub open spec fn spec_voter_genesis_hash(chain: u16) -> H256 {
    header_digest(spec_voter_genesis_header(chain))
}

impl Block {
    /// The proposer genesis block: level zero of the proposer tree, with
    /// empty reference lists and all header scalars zero.
    pub fn genesis_proposer() -> (r: Block)
        ensures
            r.header == spec_proposer_genesis_header(),
            r.header.content_root == content_root(r.content),
            r.content matches Content::Proposer { transaction_refs, proposer_refs }
                && transaction_refs@.len() == 0 && proposer_refs@.len() == 0,
            r.sortition_proof@.len() == 0,
            header_digest(r.header) == spec_proposer_genesis_hash(),
    {
        let content = Content::Proposer { transaction_refs: Vec::new(), proposer_refs: Vec::new() };
        proof {
            assert(content_bytes(content) =~= proposer_genesis_content_bytes());
        }
        let root = content_root_of(&content);
        let header = BlockHeader {
            parent: H256::zero(),
            timestamp: 0,
            nonce: 0,
            content_root: root,
            extra_content: H256::zero(),
            difficulty: H256::zero(),
            coinbase: H256::zero(),
        };
        Block { header, content, sortition_proof: Vec::new(), coinbase: H256::zero() }
    }

    /// The voter genesis block of chain `chain`: level zero of that voter
    /// chain, with no votes and all header scalars zero.
    pub fn genesis_voter(chain: u16) -> (r: Block)
        ensures
            r.header == spec_voter_genesis_header(chain),
            r.header.content_root == content_root(r.content),
            r.content matches Content::Voter { chain_number, parent, votes }
                && chain_number == chain && parent == h256_zero() && votes@.len() == 0,
            r.sortition_proof@.len() == 0,
            header_digest(r.header) == spec_voter_genesis_hash(chain),
    {
        let content = Content::Voter { chain_number: chain, parent: H256::zero(), votes: Vec::new() };
        proof {
            assert(content_bytes(content) =~= voter_genesis_content_bytes(chain));
        }
        let root = content_root_of(&content);
        let header = BlockHeader {
            parent: H256::zero(),
            timestamp: 0,
            nonce: 0,
            content_root: root,
            extra_content: H256::zero(),
            difficulty: H256::zero(),
            coinbase: H256::zero(),
        };
        Block { header, content, sortition_proof: Vec::new(), coinbase: H256::zero() }
    }

    /// A block from its parts.
    pub fn from_header(header: BlockHeader, sortition_proof: Vec<H256>, content: Content,
        coinbase: H256) -> (r: Block)
        ensures
            r == (Block { header, content, sortition_proof, coinbase }),
    {
        Block { header, content, sortition_proof, coinbase }
    }

    /// The block's identity: the digest of its header, the key of every
    /// index.
    pub fn id(&self) -> (r: H256)
        ensures
            r == header_digest(self.header),
    {
        self.header.hash()
    }

    /// The digest of the whole block: BLAKE3 over its full wire bytes.
    /// This is not the block's identity; see `id`.
    pub fn hash(&self) -> (r: H256)
        ensures
            r == block_digest(*self),
    {
        let enc = encode_block(self);
        let d = blake3_hash(enc.as_slice());
        let r = H256::from_byte_slice(d.as_slice(), 0);
        proof {
            assert(d@.subrange(0, 32) =~= d@);
        }
        r
    }
}


/// Parses the wire bytes of a header: succeeds exactly on the byte
/// strings that some header encodes to, and returns that header.
#[verifier::rlimit(100)]
pub fn decode_header(bytes: &[u8]) -> (r: Option<BlockHeader>)
    ensures
        r matches Some(hh) ==> header_bytes(hh) == bytes@,
        r is None ==> forall|hh: BlockHeader| header_bytes(hh) != bytes@,
{
    let n: usize = bytes.len();
    if n != 180 {
        proof {
            assert forall|hh: BlockHeader| header_bytes(hh) != bytes@ by {
                lemma_header_bytes_len(hh);
            }
        }
        return None;
    }
    let parent = H256::from_byte_slice(bytes, 0);
    let hi = read_u64_be(bytes, 32);
    let lo = read_u64_be(bytes, 40);
    let timestamp: u128 = (hi as u128) * 0x10000000000000000 + (lo as u128);
    let nonce: u32 = (bytes[48] as u32) * 0x1000000 + (bytes[49] as u32) * 0x10000
        + (bytes[50] as u32) * 0x100 + (bytes[51] as u32);
    let content_root = H256::from_byte_slice(bytes, 52);
    let extra_content = H256::from_byte_slice(bytes, 84);
    let difficulty = H256::from_byte_slice(bytes, 116);
    let coinbase = H256::from_byte_slice(bytes, 148);
    let hh = BlockHeader { parent, timestamp, nonce, content_root, extra_content, difficulty,
        coinbase };
    proof {
        lemma_decode_header_exact(bytes@, hh);
    }
    Some(hh)
}


/// A header's wire encoding is always 180 bytes long.
#[verifier::rlimit(100)]
proof fn lemma_header_bytes_len(hh: BlockHeader)
    ensures
        header_bytes(hh).len() == 180,
{
    assert(h256_bytes(hh.parent).len() == 32);
    assert(u128_be_bytes(hh.timestamp).len() == 16);
    assert(u32_be_bytes(hh.nonce).len() == 4);
    assert(h256_bytes(hh.content_root).len() == 32);
    assert(h256_bytes(hh.extra_content).len() == 32);
    assert(h256_bytes(hh.difficulty).len() == 32);
    assert(h256_bytes(hh.coinbase).len() == 32);
}

/// The sixteen timestamp bytes of a header are the two words they were
/// read from.
proof fn lemma_timestamp_bytes(s: Seq<u8>, ts: u128)
    requires
        48 <= s.len(),
        ts as int == u64_val_of(s, 32) * 0x10000000000000000 + u64_val_of(s, 40),
    ensures
        u128_be_bytes(ts) == s.subrange(32, 48),
{
    lemma_u64_val_to_bytes(s, 32);
    lemma_u64_val_to_bytes(s, 40);
    let hi: int = u64_val_of(s, 32);
    let lo: int = u64_val_of(s, 40);
    assert((hi * 0x10000000000000000 + lo) / 0x10000000000000000 == hi
        && (hi * 0x10000000000000000 + lo) % 0x10000000000000000 == lo) by (nonlinear_arith)
        requires
            0 <= hi && hi < 0x10000000000000000,
            0 <= lo && lo < 0x10000000000000000,
    {}
    assert(u128_be_bytes(ts) =~= s.subrange(32, 48));
}

/// The four nonce bytes of a header are the bytes it was read from.
proof fn lemma_nonce_bytes(s: Seq<u8>, w: u32)
    requires
        52 <= s.len(),
        w as int == (s[48] as int) * 0x1000000 + (s[49] as int) * 0x10000
            + (s[50] as int) * 0x100 + (s[51] as int),
    ensures
        u32_be_bytes(w) == s.subrange(48, 52),
{
    let c0: u32 = s[48] as u32;
    let c1: u32 = s[49] as u32;
    let c2: u32 = s[50] as u32;
    let c3: u32 = s[51] as u32;
    assert((w / 0x1000000) % 256 == c0 && (w / 0x10000) % 256 == c1
        && (w / 0x100) % 256 == c2 && w % 256 == c3) by (bit_vector)
        requires
            c0 < 256 && c1 < 256 && c2 < 256 && c3 < 256,
            w == c0 * 0x1000000 + c1 * 0x10000 + c2 * 0x100 + c3,
    {}
    assert(u32_be_bytes(w) =~= s.subrange(48, 52));
}

/// A header whose seven field encodings are the seven segments of a
/// 180-byte string encodes to exactly that string.
#[verifier::rlimit(100)]
proof fn lemma_assemble_header(s: Seq<u8>, hh: BlockHeader)
    requires
        s.len() == 180,
        h256_bytes(hh.parent) == s.subrange(0, 32),
        u128_be_bytes(hh.timestamp) == s.subrange(32, 48),
        u32_be_bytes(hh.nonce) == s.subrange(48, 52),
        h256_bytes(hh.content_root) == s.subrange(52, 84),
        h256_bytes(hh.extra_content) == s.subrange(84, 116),
        h256_bytes(hh.difficulty) == s.subrange(116, 148),
        h256_bytes(hh.coinbase) == s.subrange(148, 180),
    ensures
        header_bytes(hh) == s,
{
    assert(s =~= s.subrange(0, 32) + s.subrange(32, 48) + s.subrange(48, 52)
        + s.subrange(52, 84) + s.subrange(84, 116) + s.subrange(116, 148)
        + s.subrange(148, 180));
}

/// A header whose fields were read from a 180-byte string encodes back
/// to exactly that string.
proof fn lemma_decode_header_exact(s: Seq<u8>, hh: BlockHeader)
    requires
        s.len() == 180,
        hh.parent == h256_of_bytes(s.subrange(0, 32)),
        hh.timestamp as int == u64_val_of(s, 32) * 0x10000000000000000 + u64_val_of(s, 40),
        hh.nonce as int == (s[48] as int) * 0x1000000 + (s[49] as int) * 0x10000
            + (s[50] as int) * 0x100 + (s[51] as int),
        hh.content_root == h256_of_bytes(s.subrange(52, 84)),
        hh.extra_content == h256_of_bytes(s.subrange(84, 116)),
        hh.difficulty == h256_of_bytes(s.subrange(116, 148)),
        hh.coinbase == h256_of_bytes(s.subrange(148, 180)),
    ensures
        header_bytes(hh) == s,
{
    lemma_h256_val_to_bytes(s, 0);
    lemma_h256_val_to_bytes(s, 52);
    lemma_h256_val_to_bytes(s, 84);
    lemma_h256_val_to_bytes(s, 116);
    lemma_h256_val_to_bytes(s, 148);
    lemma_timestamp_bytes(s, hh.timestamp);
    lemma_nonce_bytes(s, hh.nonce);
    lemma_assemble_header(s, hh);
}

} // verus!
