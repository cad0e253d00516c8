//! Native payload values that can be stored inline inside a foreign object
//! block: each payload type declares its byte footprint and alignment and how
//! its values are laid down in and read back from raw bytes.

use vstd::prelude::*;
use vstd::bytes::{
    spec_u64_to_le_bytes, spec_u64_from_le_bytes, u64_to_le_bytes, u64_from_le_bytes,
    lemma_auto_spec_u64_to_from_le_bytes,
};

verus! {

/// A native value that can live inline inside a foreign object block.
///
/// `spec_encode` fixes the exact bytes a stored value occupies, and
/// `spec_decode` reads a value back; `lemma_laws` obliges every implementation
/// to prove that the footprint is exact and that a round trip through the
/// bytes returns the value unchanged.
pub trait InlineValue: Sized {
    /// Byte footprint of one stored value.
    spec fn spec_size() -> nat;

    /// Required alignment of the stored value within the block.
    spec fn spec_align() -> nat;

    /// The bytes a stored value occupies, exactly `spec_size()` of them.
    spec fn spec_encode(self) -> Seq<u8>;

    /// The value stored in the given bytes.
    spec fn spec_decode(bytes: Seq<u8>) -> Self;

    /// The layout laws: alignment is positive, the encoding has the declared
    /// footprint, and decoding an encoded value returns it unchanged.
    proof fn lemma_laws()
        ensures
            1 <= Self::spec_align(),
            forall|v: Self| (#[trigger] v.spec_encode()).len() == Self::spec_size(),
            forall|v: Self| Self::spec_decode(v.spec_encode()) == v,
    ;

    /// Byte footprint of one stored value.
    fn size() -> (r: usize)
        ensures
            r as nat == Self::spec_size(),
    ;

    /// Required alignment of the stored value within the block.
    fn align() -> (r: usize)
        ensures
            r as nat == Self::spec_align(),
            r >= 1,
    ;

    /// Moves the value into the block at `offset`, touching nothing outside
    /// its own footprint.
    fn write_into(self, bytes: &mut Vec<u8>, offset: usize)
        requires
            offset + Self::spec_size() <= old(bytes)@.len(),
        ensures
            final(bytes)@.len() == old(bytes)@.len(),
            (final(bytes)@.subrange(
                offset as int,
                offset + Self::spec_size(),
            ) == self.spec_encode()),
            forall|j: int|
                0 <= j < old(bytes)@.len() && !(offset <= j < offset + Self::spec_size())
                    ==> final(bytes)@[j] == old(bytes)@[j],
    ;

    /// Reads the value stored in the block at `offset`.
    fn read_from(bytes: &Vec<u8>, offset: usize) -> (r: Self)
        requires
            offset + Self::spec_size() <= bytes@.len(),
        ensures
            (r == Self::spec_decode(bytes@.subrange(
                offset as int,
                offset + Self::spec_size(),
            ))),
    ;
}

/// Copies all of `src` into `dst` starting at `offset`, leaving every byte
/// outside that range unchanged.
pub fn write_bytes_at(dst: &mut Vec<u8>, offset: usize, src: &Vec<u8>)
    requires
        offset + src@.len() <= old(dst)@.len(),
    ensures
        final(dst)@.len() == old(dst)@.len(),
        final(dst)@.subrange(offset as int, offset + src@.len()) == src@,
        forall|j: int|
            0 <= j < old(dst)@.len() && !(offset <= j < offset + src@.len())
                ==> final(dst)@[j] == old(dst)@[j],
{
    let n = src.len();
    let dlen = dst.len();
    let mut i: usize = 0;
    while i < n
        invariant
            i <= n,
            n == src@.len(),
            offset + n <= dst@.len(),
            dst@.len() == dlen,
            dst@.len() == old(dst)@.len(),
            forall|j: int| 0 <= j < i ==> dst@[offset + j] == src@[j],
            forall|j: int|
                0 <= j < old(dst)@.len() && !(offset <= j < offset + i) ==> dst@[j]
                    == old(dst)@[j],
        decreases n - i,
    {
        dst[offset + i] = src[i];
        i = i + 1;
    }
    proof {
        assert(final(dst)@.subrange(offset as int, offset + src@.len()) =~= src@);
    }
}

/// A copy of `len` bytes of `src` starting at `offset`.
pub fn read_bytes_at(src: &Vec<u8>, offset: usize, len: usize) -> (r: Vec<u8>)
    requires
        offset + len <= src@.len(),
    ensures
        r@ == src@.subrange(offset as int, offset + len),
{
    let mut r: Vec<u8> = Vec::new();
    let slen = src.len();
    let mut i: usize = 0;
    while i < len
        invariant
            i <= len,
            offset + len <= src@.len(),
            src@.len() == slen,
            r@ == src@.subrange(offset as int, offset + i),
        decreases len - i,
    {
        r.push(src[offset + i]);
        i = i + 1;
        proof {
            assert(r@ =~= src@.subrange(offset as int, offset + i));
        }
    }
    r
}

impl InlineValue for u8 {
    open spec fn spec_size() -> nat {
        1
    }

    open spec fn spec_align() -> nat {
        1
    }

    open spec fn spec_encode(self) -> Seq<u8> {
        seq![self]
    }

    open spec fn spec_decode(bytes: Seq<u8>) -> Self {
        if bytes.len() >= 1 {
            bytes[0]
        } else {
            0
        }
    }

    proof fn lemma_laws() {
        assert forall|v: u8| Self::spec_decode(#[trigger] v.spec_encode()) == v by {
            assert(v.spec_encode()[0] == v);
        }
    }

    fn size() -> usize {
        1
    }

    fn align() -> usize {
        1
    }

    fn write_into(self, bytes: &mut Vec<u8>, offset: usize) {
        bytes[offset] = self;
        proof {
            assert(final(bytes)@.subrange(offset as int, offset + 1) =~= seq![self]);
        }
    }

    fn read_from(bytes: &Vec<u8>, offset: usize) -> Self {
        bytes[offset]
    }
}

impl InlineValue for u64 {
    open spec fn spec_size() -> nat {
        8
    }

    open spec fn spec_align() -> nat {
        8
    }

    open spec fn spec_encode(self) -> Seq<u8> {
        spec_u64_to_le_bytes(self)
    }

    open spec fn spec_decode(bytes: Seq<u8>) -> Self {
        spec_u64_from_le_bytes(bytes)
    }

    proof fn lemma_laws() {
        lemma_auto_spec_u64_to_from_le_bytes();
    }

    fn size() -> usize {
        8
    }

    fn align() -> usize {
        8
    }

    fn write_into(self, bytes: &mut Vec<u8>, offset: usize) {
        proof {
            lemma_auto_spec_u64_to_from_le_bytes();
        }
        let enc = u64_to_le_bytes(self);
        write_bytes_at(bytes, offset, &enc);
    }

    fn read_from(bytes: &Vec<u8>, offset: usize) -> Self {
        proof {
            lemma_auto_spec_u64_to_from_le_bytes();
        }
        let enc = read_bytes_at(bytes, offset, 8);
        u64_from_le_bytes(enc.as_slice())
    }
}

impl InlineValue for i64 {
    open spec fn spec_size() -> nat {
        8
    }

    open spec fn spec_align() -> nat {
        8
    }

    open spec fn spec_encode(self) -> Seq<u8> {
        spec_u64_to_le_bytes(self as u64)
    }

    open spec fn spec_decode(bytes: Seq<u8>) -> Self {
        spec_u64_from_le_bytes(bytes) as i64
    }

    proof fn lemma_laws() {
        lemma_auto_spec_u64_to_from_le_bytes();
        assert forall|v: i64| Self::spec_decode(#[trigger] v.spec_encode()) == v by {
            assert(spec_u64_from_le_bytes(spec_u64_to_le_bytes(v as u64)) == v as u64);
            assert((v as u64) as i64 == v) by (bit_vector);
        }
    }

    fn size() -> usize {
        8
    }

    fn align() -> usize {
        8
    }

    fn write_into(self, bytes: &mut Vec<u8>, offset: usize) {
        proof {
            lemma_auto_spec_u64_to_from_le_bytes();
        }
        let enc = u64_to_le_bytes(self as u64);
        write_bytes_at(bytes, offset, &enc);
    }

    fn read_from(bytes: &Vec<u8>, offset: usize) -> Self {
        proof {
            lemma_auto_spec_u64_to_from_le_bytes();
        }
        let enc = read_bytes_at(bytes, offset, 8);
        let raw = u64_from_le_bytes(enc.as_slice());
        proof {
            assert((spec_u64_from_le_bytes(enc@) as i64) == raw as i64);
        }
        #[verifier::truncate]
        let r = raw as i64;
        r
    }
}

/// A pair of signed words stored side by side: a sample compound payload,
/// sixteen bytes with word alignment.
#[derive(Clone, Copy, PartialEq, Eq, Structural, Debug)]
pub struct I64Pair {
    pub x: i64,
    pub y: i64,
}

impl InlineValue for I64Pair {
    open spec fn spec_size() -> nat {
        16
    }

    open spec fn spec_align() -> nat {
        8
    }

    open spec fn spec_encode(self) -> Seq<u8> {
        spec_u64_to_le_bytes(self.x as u64) + spec_u64_to_le_bytes(self.y as u64)
    }

    open spec fn spec_decode(bytes: Seq<u8>) -> Self {
        I64Pair {
            x: spec_u64_from_le_bytes(bytes.subrange(0, 8)) as i64,
            y: spec_u64_from_le_bytes(bytes.subrange(8, 16)) as i64,
        }
    }

    proof fn lemma_laws() {
        lemma_auto_spec_u64_to_from_le_bytes();
        assert forall|v: I64Pair| (#[trigger] v.spec_encode()).len() == Self::spec_size() by {
            assert(spec_u64_to_le_bytes(v.x as u64).len() == 8);
            assert(spec_u64_to_le_bytes(v.y as u64).len() == 8);
        }
        assert forall|v: I64Pair| Self::spec_decode(#[trigger] v.spec_encode()) == v by {
            let ex = spec_u64_to_le_bytes(v.x as u64);
            let ey = spec_u64_to_le_bytes(v.y as u64);
            assert((ex + ey).subrange(0, 8) =~= ex);
            assert((ex + ey).subrange(8, 16) =~= ey);
            let vx = v.x;
            let vy = v.y;
            assert((vx as u64) as i64 == vx) by (bit_vector);
            assert((vy as u64) as i64 == vy) by (bit_vector);
        }
    }

    fn size() -> usize {
        16
    }

    fn align() -> usize {
        8
    }

    fn write_into(self, bytes: &mut Vec<u8>, offset: usize) {
        proof {
            lemma_auto_spec_u64_to_from_le_bytes();
        }
        let blen = bytes.len();
        proof {
            assert(offset + 16 <= blen);
        }
        let ex = u64_to_le_bytes(self.x as u64);
        let ey = u64_to_le_bytes(self.y as u64);
        write_bytes_at(bytes, offset, &ex);
        write_bytes_at(bytes, offset + 8, &ey);
        proof {
            assert(final(bytes)@.subrange(offset as int, offset + 16) =~= ex@ + ey@);
        }
    }

    fn read_from(bytes: &Vec<u8>, offset: usize) -> Self {
        proof {
            lemma_auto_spec_u64_to_from_le_bytes();
        }
        let blen = bytes.len();
        proof {
            assert(offset + 16 <= blen);
        }
        let bx = read_bytes_at(bytes, offset, 8);
        let by = read_bytes_at(bytes, offset + 8, 8);
        let rx = u64_from_le_bytes(bx.as_slice());
        let ry = u64_from_le_bytes(by.as_slice());
        #[verifier::truncate]
        let x = rx as i64;
        #[verifier::truncate]
        let y = ry as i64;
        proof {
            let whole = bytes@.subrange(offset as int, offset + 16);
            assert(whole.subrange(0, 8) =~= bytes@.subrange(offset as int, offset + 8));
            assert(whole.subrange(8, 16) =~= bytes@.subrange(offset + 8, offset + 16));
        }
        I64Pair { x, y }
    }
}

} // verus!
