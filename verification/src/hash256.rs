//! The 256-bit hash type that identifies every block, with its numeric
//! interpretation and its big-endian byte layout.

use vstd::prelude::*;

verus! {

/// A 256-bit hash, stored as four 64-bit words in big-endian order:
/// `w0` holds the most significant 64 bits, `w3` the least significant.
#[derive(Clone, Copy, PartialEq, Eq, Structural, Debug, Hash)]
pub struct H256 {
    pub w0: u64,
    pub w1: u64,
    pub w2: u64,
    pub w3: u64,
}

/// The big-endian bytes of a 64-bit word, most significant byte first.
pub open spec fn u64_be_bytes(w: u64) -> Seq<u8> {
    seq![
        ((w / 0x100000000000000) % 256) as u8,
        ((w / 0x1000000000000) % 256) as u8,
        ((w / 0x10000000000) % 256) as u8,
        ((w / 0x100000000) % 256) as u8,
        ((w / 0x1000000) % 256) as u8,
        ((w / 0x10000) % 256) as u8,
        ((w / 0x100) % 256) as u8,
        (w % 256) as u8,
    ]
}

/// The value of the eight big-endian bytes of `s` starting at `off`.
pub open spec fn u64_val_of(s: Seq<u8>, off: int) -> int {
    (s[off] as int) * 0x100000000000000
        + (s[off + 1] as int) * 0x1000000000000
        + (s[off + 2] as int) * 0x10000000000
        + (s[off + 3] as int) * 0x100000000
        + (s[off + 4] as int) * 0x1000000
        + (s[off + 5] as int) * 0x10000
        + (s[off + 6] as int) * 0x100
        + (s[off + 7] as int)
}

/// The 32 big-endian bytes of a hash.
pub open spec fn h256_bytes(h: H256) -> Seq<u8> {
    u64_be_bytes(h.w0) + u64_be_bytes(h.w1) + u64_be_bytes(h.w2) + u64_be_bytes(h.w3)
}

/// The hash whose 32 big-endian bytes start at offset 0 of `s`.
pub open spec fn h256_of_bytes(s: Seq<u8>) -> H256 {
    H256 {
        w0: u64_val_of(s, 0) as u64,
        w1: u64_val_of(s, 8) as u64,
        w2: u64_val_of(s, 16) as u64,
        w3: u64_val_of(s, 24) as u64,
    }
}

/// Reading back the big-endian bytes of a word gives the word.
pub proof fn lemma_u64_bytes_roundtrip(w: u64)
    ensures
        u64_val_of(u64_be_bytes(w), 0) == w,
{
    assert(((w / 0x100000000000000) % 256) * 0x100000000000000
        + ((w / 0x1000000000000) % 256) * 0x1000000000000
        + ((w / 0x10000000000) % 256) * 0x10000000000
        + ((w / 0x100000000) % 256) * 0x100000000
        + ((w / 0x1000000) % 256) * 0x1000000
        + ((w / 0x10000) % 256) * 0x10000
        + ((w / 0x100) % 256) * 0x100
        + (w % 256) == w) by (bit_vector);
}

/// Reading back the 32 big-endian bytes of a hash gives the hash.
#[verifier::rlimit(60)]
pub proof fn lemma_h256_bytes_roundtrip(h: H256)
    ensures
        h256_of_bytes(h256_bytes(h)) == h,
{
    let s = h256_bytes(h);
    assert(u64_val_of(s, 0) == u64_val_of(u64_be_bytes(h.w0), 0));
    assert(u64_val_of(s, 8) == u64_val_of(u64_be_bytes(h.w1), 0));
    assert(u64_val_of(s, 16) == u64_val_of(u64_be_bytes(h.w2), 0));
    assert(u64_val_of(s, 24) == u64_val_of(u64_be_bytes(h.w3), 0));
    lemma_u64_bytes_roundtrip(h.w0);
    lemma_u64_bytes_roundtrip(h.w1);
    lemma_u64_bytes_roundtrip(h.w2);
    lemma_u64_bytes_roundtrip(h.w3);
}

impl H256 {
    /// The numeric value of the hash, reading the four words big-endian.
    pub open spec fn val(self) -> nat {
        (self.w0 as nat) * 0x1000000000000000000000000000000000000000000000000
            + (self.w1 as nat) * 0x100000000000000000000000000000000
            + (self.w2 as nat) * 0x10000000000000000
            + (self.w3 as nat)
    }

    /// The all-zero hash.
    pub fn zero() -> (r: H256)
        ensures
            r == (H256 { w0: 0, w1: 0, w2: 0, w3: 0 }),
            r.val() == 0,
    {
        H256 { w0: 0, w1: 0, w2: 0, w3: 0 }
    }

    /// The hash whose low 64 bits are `v` and whose upper bits are zero,
    /// matching a big-endian placement of `v`.
    pub fn from_low_u64_be(v: u64) -> (r: H256)
        ensures
            r == (H256 { w0: 0, w1: 0, w2: 0, w3: v }),
            r.val() == v,
    {
        H256 { w0: 0, w1: 0, w2: 0, w3: v }
    }

    /// Numeric (equivalently, lexicographic big-endian) strict order.
    pub fn lt(&self, other: &H256) -> (r: bool)
        ensures
            r == (self.val() < other.val()),
    {
        if self.w0 != other.w0 {
            self.w0 < other.w0
        } else if self.w1 != other.w1 {
            self.w1 < other.w1
        } else if self.w2 != other.w2 {
            self.w2 < other.w2
        } else {
            self.w3 < other.w3
        }
    }

    /// Appends the 32 big-endian bytes of the hash to `out`.
    pub fn append_bytes(&self, out: &mut Vec<u8>)
        ensures
            final(out)@ == old(out)@ + h256_bytes(*self),
    {
        append_u64_be(out, self.w0);
        append_u64_be(out, self.w1);
        append_u64_be(out, self.w2);
        append_u64_be(out, self.w3);
        assert(final(out)@ =~= old(out)@ + h256_bytes(*self));
    }

    /// The 32 big-endian bytes of the hash.
    pub fn to_bytes(&self) -> (r: Vec<u8>)
        ensures
            r@ == h256_bytes(*self),
            r@.len() == 32,
    {
        let mut out: Vec<u8> = Vec::new();
        self.append_bytes(&mut out);
        assert(out@ =~= h256_bytes(*self));
        out
    }

    /// The hash whose 32 big-endian bytes start at `off` in `b`.
    pub fn from_byte_slice(b: &[u8], off: usize) -> (r: H256)
        requires
            off + 32 <= b@.len(),
        ensures
            r == h256_of_bytes(b@.subrange(off as int, off as int + 32)),
    {
        let n: usize = b.len();
        assert(off + 32 <= n);
        let r = H256 {
            w0: read_u64_be(b, off),
            w1: read_u64_be(b, off + 8),
            w2: read_u64_be(b, off + 16),
            w3: read_u64_be(b, off + 24),
        };
        let ghost s = b@.subrange(off as int, off as int + 32);
        assert(u64_val_of(s, 0) == u64_val_of(b@, off as int));
        assert(u64_val_of(s, 8) == u64_val_of(b@, off as int + 8));
        assert(u64_val_of(s, 16) == u64_val_of(b@, off as int + 16));
        assert(u64_val_of(s, 24) == u64_val_of(b@, off as int + 24));
        r
    }
}

/// Appends the eight big-endian bytes of `w` to `out`.
pub fn append_u64_be(out: &mut Vec<u8>, w: u64)
    ensures
        final(out)@ == old(out)@ + u64_be_bytes(w),
{
    out.push(((w / 0x100000000000000) % 256) as u8);
    out.push(((w / 0x1000000000000) % 256) as u8);
    out.push(((w / 0x10000000000) % 256) as u8);
    out.push(((w / 0x100000000) % 256) as u8);
    out.push(((w / 0x1000000) % 256) as u8);
    out.push(((w / 0x10000) % 256) as u8);
    out.push(((w / 0x100) % 256) as u8);
    out.push((w % 256) as u8);
    assert(final(out)@ =~= old(out)@ + u64_be_bytes(w));
}

/// Reads the eight big-endian bytes of `b` starting at `off` as a word.
pub fn read_u64_be(b: &[u8], off: usize) -> (r: u64)
    requires
        off + 8 <= b@.len(),
    ensures
        r == u64_val_of(b@, off as int),
{
    (b[off] as u64) * 0x100000000000000
        + (b[off + 1] as u64) * 0x1000000000000
        + (b[off + 2] as u64) * 0x10000000000
        + (b[off + 3] as u64) * 0x100000000
        + (b[off + 4] as u64) * 0x1000000
        + (b[off + 5] as u64) * 0x10000
        + (b[off + 6] as u64) * 0x100
        + (b[off + 7] as u64)
}


/// The big-endian bytes of the value read from eight bytes are those
/// bytes themselves.
pub proof fn lemma_u64_val_to_bytes(s: Seq<u8>, off: int)
    requires
        0 <= off,
        off + 8 <= s.len(),
    ensures
        u64_be_bytes(u64_val_of(s, off) as u64) == s.subrange(off, off + 8),
{
    let b0 = s[off] as u64;
    let b1 = s[off + 1] as u64;
    let b2 = s[off + 2] as u64;
    let b3 = s[off + 3] as u64;
    let b4 = s[off + 4] as u64;
    let b5 = s[off + 5] as u64;
    let b6 = s[off + 6] as u64;
    let b7 = s[off + 7] as u64;
    let v: u64 = u64_val_of(s, off) as u64;
    assert(v == b0 * 0x100000000000000 + b1 * 0x1000000000000 + b2 * 0x10000000000
        + b3 * 0x100000000 + b4 * 0x1000000 + b5 * 0x10000 + b6 * 0x100 + b7);
    assert(b0 * 0x100000000000000 + b1 * 0x1000000000000 + b2 * 0x10000000000
        + b3 * 0x100000000 + b4 * 0x1000000 + b5 * 0x10000 + b6 * 0x100 + b7
        <= 0xFFFFFFFFFFFFFFFF);
    let w: u64 = (b0 * 0x100000000000000 + b1 * 0x1000000000000 + b2 * 0x10000000000
        + b3 * 0x100000000 + b4 * 0x1000000 + b5 * 0x10000 + b6 * 0x100 + b7) as u64;
    assert((w / 0x100000000000000) % 256 == b0 && (w / 0x1000000000000) % 256 == b1
        && (w / 0x10000000000) % 256 == b2 && (w / 0x100000000) % 256 == b3
        && (w / 0x1000000) % 256 == b4 && (w / 0x10000) % 256 == b5
        && (w / 0x100) % 256 == b6 && w % 256 == b7) by (bit_vector)
        requires
            b0 < 256 && b1 < 256 && b2 < 256 && b3 < 256 && b4 < 256 && b5 < 256
                && b6 < 256 && b7 < 256,
            w == b0 * 0x100000000000000 + b1 * 0x1000000000000 + b2 * 0x10000000000
                + b3 * 0x100000000 + b4 * 0x1000000 + b5 * 0x10000 + b6 * 0x100 + b7,
    {}
    assert(u64_be_bytes(v) =~= s.subrange(off, off + 8));
}

/// The big-endian bytes of the hash read from 32 bytes are those bytes
/// themselves.
#[verifier::rlimit(100)]
pub proof fn lemma_h256_val_to_bytes(s: Seq<u8>, off: int)
    requires
        0 <= off,
        off + 32 <= s.len(),
    ensures
        h256_bytes(h256_of_bytes(s.subrange(off, off + 32))) == s.subrange(off, off + 32),
{
    let sub = s.subrange(off, off + 32);
    lemma_u64_val_to_bytes(s, off);
    lemma_u64_val_to_bytes(s, off + 8);
    lemma_u64_val_to_bytes(s, off + 16);
    lemma_u64_val_to_bytes(s, off + 24);
    assert(u64_val_of(sub, 0) == u64_val_of(s, off));
    assert(u64_val_of(sub, 8) == u64_val_of(s, off + 8));
    assert(u64_val_of(sub, 16) == u64_val_of(s, off + 16));
    assert(u64_val_of(sub, 24) == u64_val_of(s, off + 24));
    assert(h256_bytes(h256_of_bytes(sub)) =~= sub);
}

} // verus!
