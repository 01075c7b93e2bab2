//! Numbers in network byte order, and bytes laid over a buffer.

use vstd::prelude::*;

verus! {

/// A 16-bit number in network byte order.
pub open spec fn be16(v: u16) -> Seq<u8> {
    seq![(v / 256) as u8, (v % 256) as u8]
}

/// A 32-bit number in network byte order.
pub open spec fn be32(v: u32) -> Seq<u8> {
    seq![
        (v / 0x100_0000) as u8,
        (v / 0x1_0000 % 256) as u8,
        (v / 256 % 256) as u8,
        (v % 256) as u8,
    ]
}

/// The 16-bit number in network byte order at `at`.
pub open spec fn u16_at(b: Seq<u8>, at: int) -> u16 {
    (b[at] * 256 + b[at + 1]) as u16
}

/// The 32-bit number in network byte order at `at`.
pub open spec fn u32_at(b: Seq<u8>, at: int) -> u32 {
    (b[at] * 0x100_0000 + b[at + 1] * 0x1_0000 + b[at + 2] * 256 + b[at + 3]) as u32
}

/// `b` with `data` laid over the bytes from `at` on.
pub open spec fn put(b: Seq<u8>, at: int, data: Seq<u8>) -> Seq<u8> {
    Seq::new(b.len(), |i: int| if at <= i < at + data.len() { data[i - at] } else { b[i] })
}

/// The smaller of two lengths.
pub open spec fn least(a: int, b: int) -> int {
    if a <= b { a } else { b }
}

/// The four octets of `bits`, the most significant first.
pub fn u32_to_oct(bits: u32) -> (oct: [u8; 4])
    ensures
        oct@ == be32(bits),
{
    assert({
        &&& (bits >> 24) as u8 == (bits / 0x100_0000) as u8
        &&& (bits >> 16) as u8 == (bits / 0x1_0000 % 256) as u8
        &&& (bits >> 8) as u8 == (bits / 256 % 256) as u8
        &&& bits as u8 == (bits % 256) as u8
    }) by (bit_vector);
    [(bits >> 24) as u8, (bits >> 16) as u8, (bits >> 8) as u8, bits as u8]
}

} // verus!
