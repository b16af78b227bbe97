//! Canonical byte representation of payload values.

use vstd::prelude::*;
use vstd::slice::slice_to_vec;
use vstd::utf8::encode_utf8;

verus! {

/// A value with a canonical byte representation.
pub trait Byteable {
    /// The canonical bytes of the value.
    spec fn spec_bytes(&self) -> Seq<u8>;

    /// Returns the memory representation as bytes in little-endian byte order.
    fn bytes(&self) -> (out: Vec<u8>)
        ensures
            out@ == self.spec_bytes(),
    ;
}

/// The bytes of every item of `items`, one after the other, in order and
/// with nothing between them.
pub open spec fn concat_bytes<T: Byteable>(items: Seq<T>) -> Seq<u8>
    decreases items.len(),
{
    if items.len() == 0 {
        Seq::empty()
    } else {
        concat_bytes(items.drop_last()) + items.last().spec_bytes()
    }
}

/// Appends the bytes of `more` to `target`.
pub fn append_bytes(target: &mut Vec<u8>, more: &[u8])
    ensures
        final(target)@ == old(target)@ + more@,
{
    let ghost front = target@;
    let mut i: usize = 0;
    while i < more.len()
        invariant
            i <= more@.len(),
            target@ == front + more@.take(i as int),
        decreases more@.len() - i,
    {
        target.push(more[i]);
        assert(target@ =~= front + more@.take(i + 1));
        i += 1;
    }
    assert(more@.take(i as int) == more@);
}

/// Joins two byte strings, the first in front.
pub fn join_bytes(first: &[u8], second: &[u8]) -> (out: Vec<u8>)
    ensures
        out@ == first@ + second@,
{
    let mut out: Vec<u8> = Vec::new();
    append_bytes(&mut out, first);
    append_bytes(&mut out, second);
    assert(out@ =~= first@ + second@);
    out
}

/// The four bytes of a 32-bit value in little-endian order: the byte at
/// place `k` is `x / 256^k mod 256`.
pub open spec fn u32_le_bytes(x: u32) -> Seq<u8> {
    seq![
        (x % 0x100) as u8,
        (x / 0x100 % 0x100) as u8,
        (x / 0x1_0000 % 0x100) as u8,
        (x / 0x100_0000 % 0x100) as u8,
    ]
}

/// The eight bytes of a 64-bit value in little-endian order: the byte at
/// place `k` is `x / 256^k mod 256`.
pub open spec fn u64_le_bytes(x: u64) -> Seq<u8> {
    seq![
        (x % 0x100) as u8,
        (x / 0x100 % 0x100) as u8,
        (x / 0x1_0000 % 0x100) as u8,
        (x / 0x100_0000 % 0x100) as u8,
        (x / 0x1_0000_0000 % 0x100) as u8,
        (x / 0x100_0000_0000 % 0x100) as u8,
        (x / 0x1_0000_0000_0000 % 0x100) as u8,
        (x / 0x100_0000_0000_0000 % 0x100) as u8,
    ]
}

/// Writes a 32-bit value as four bytes, lowest first.
pub fn u32_to_bytes(x: u32) -> (out: Vec<u8>)
    ensures
        out@ == u32_le_bytes(x),
{
    let mut out: Vec<u8> = Vec::new();
    out.push((x % 0x100) as u8);
    out.push((x / 0x100 % 0x100) as u8);
    out.push((x / 0x1_0000 % 0x100) as u8);
    out.push((x / 0x100_0000 % 0x100) as u8);
    assert(out@ =~= u32_le_bytes(x));
    out
}

/// Writes a 64-bit value as eight bytes, lowest first.
pub fn u64_to_bytes(x: u64) -> (out: Vec<u8>)
    ensures
        out@ == u64_le_bytes(x),
{
    let mut out: Vec<u8> = Vec::new();
    out.push((x % 0x100) as u8);
    out.push((x / 0x100 % 0x100) as u8);
    out.push((x / 0x1_0000 % 0x100) as u8);
    out.push((x / 0x100_0000 % 0x100) as u8);
    out.push((x / 0x1_0000_0000 % 0x100) as u8);
    out.push((x / 0x100_0000_0000 % 0x100) as u8);
    out.push((x / 0x1_0000_0000_0000 % 0x100) as u8);
    out.push((x / 0x100_0000_0000_0000 % 0x100) as u8);
    assert(out@ =~= u64_le_bytes(x));
    out
}

/// The two's complement of a 32-bit signed value: the value itself where
/// it is not negative, and the value plus 2^32 where it is.
pub open spec fn twos_complement(x: i32) -> u32 {
    if x >= 0 {
        x as u32
    } else {
        (x + 0x1_0000_0000) as u32
    }
}

/// Computes the two's complement of a 32-bit signed value.
pub fn unsigned_of(x: i32) -> (out: u32)
    ensures
        out == twos_complement(x),
{
    if x >= 0 {
        x as u32
    } else {
        let above: i32 = (x + i32::MAX) + 1;
        (above as u32) + 0x8000_0000u32
    }
}

impl Byteable for i32 {
    /// The four bytes of the value's two's complement, lowest first.
    open spec fn spec_bytes(&self) -> Seq<u8> {
        u32_le_bytes(twos_complement(*self))
    }

    fn bytes(&self) -> (out: Vec<u8>) {
        u32_to_bytes(unsigned_of(*self))
    }
}

impl Byteable for String {
    /// The UTF-8 encoding of the string.
    open spec fn spec_bytes(&self) -> Seq<u8> {
        encode_utf8(self@)
    }

    fn bytes(&self) -> (out: Vec<u8>) {
        slice_to_vec(self.as_str().as_bytes())
    }
}

impl<T: Byteable> Byteable for [T] {
    open spec fn spec_bytes(&self) -> Seq<u8> {
        concat_bytes(self@)
    }

    fn bytes(&self) -> (out: Vec<u8>) {
        let mut data: Vec<u8> = Vec::new();
        let mut i: usize = 0;
        while i < self.len()
            invariant
                i <= self@.len(),
                data@ == concat_bytes(self@.take(i as int)),
            decreases self@.len() - i,
        {
            let mut piece = self[i].bytes();
            data.append(&mut piece);
            proof {
                assert(self@.take(i + 1).drop_last() == self@.take(i as int));
            }
            i += 1;
        }
        proof {
            assert(self@.take(i as int) == self@);
        }
        data
    }
}

} // verus!
