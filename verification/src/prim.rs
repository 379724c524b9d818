//! Byte packing for fixed-width primitive values: the wire bytes of a value
//! under a chosen endianness, the value read back from wire bytes, and the
//! proofs that the two are inverse to each other.

use vstd::prelude::*;

use crate::Endianness;

verus! {

/// The padding bytes required before a body of width `w` may start at
/// position `pos`: `(w - pos % w) % w`. Zero exactly when `pos` is already
/// aligned.
pub open spec fn pad_len(pos: int, w: int) -> int
    recommends
        w > 0,
{
    (w - pos % w) % w
}

/// `n` zero bytes, as written for padding.
pub open spec fn zeros(n: int) -> Seq<u8> {
    Seq::new(n as nat, |i: int| 0u8)
}

/// The two wire bytes of a 16-bit value under the given byte order.
pub open spec fn bytes_of_u16(x: u16, e: Endianness) -> Seq<u8> {
    match e {
        Endianness::BigEndian => seq![((x >> 8) & 0xff) as u8, (x & 0xff) as u8],
        Endianness::LittleEndian => seq![(x & 0xff) as u8, ((x >> 8) & 0xff) as u8],
    }
}

/// The four wire bytes of a 32-bit value under the given byte order.
pub open spec fn bytes_of_u32(x: u32, e: Endianness) -> Seq<u8> {
    match e {
        Endianness::BigEndian => seq![
            ((x >> 24) & 0xff) as u8,
            ((x >> 16) & 0xff) as u8,
            ((x >> 8) & 0xff) as u8,
            (x & 0xff) as u8,
        ],
        Endianness::LittleEndian => seq![
            (x & 0xff) as u8,
            ((x >> 8) & 0xff) as u8,
            ((x >> 16) & 0xff) as u8,
            ((x >> 24) & 0xff) as u8,
        ],
    }
}

/// The eight wire bytes of a 64-bit value under the given byte order.
pub open spec fn bytes_of_u64(x: u64, e: Endianness) -> Seq<u8> {
    match e {
        Endianness::BigEndian => seq![
            ((x >> 56) & 0xff) as u8,
            ((x >> 48) & 0xff) as u8,
            ((x >> 40) & 0xff) as u8,
            ((x >> 32) & 0xff) as u8,
            ((x >> 24) & 0xff) as u8,
            ((x >> 16) & 0xff) as u8,
            ((x >> 8) & 0xff) as u8,
            (x & 0xff) as u8,
        ],
        Endianness::LittleEndian => seq![
            (x & 0xff) as u8,
            ((x >> 8) & 0xff) as u8,
            ((x >> 16) & 0xff) as u8,
            ((x >> 24) & 0xff) as u8,
            ((x >> 32) & 0xff) as u8,
            ((x >> 40) & 0xff) as u8,
            ((x >> 48) & 0xff) as u8,
            ((x >> 56) & 0xff) as u8,
        ],
    }
}

/// The 16-bit value whose wire bytes, in wire order, are `b0, b1`.
pub open spec fn u16_of_bytes(b0: u8, b1: u8, e: Endianness) -> u16 {
    match e {
        Endianness::BigEndian => ((b0 as u16) << 8) | (b1 as u16),
        Endianness::LittleEndian => ((b1 as u16) << 8) | (b0 as u16),
    }
}

/// The 32-bit value whose wire bytes, in wire order, are `b0 .. b3`.
pub open spec fn u32_of_bytes(b0: u8, b1: u8, b2: u8, b3: u8, e: Endianness) -> u32 {
    match e {
        Endianness::BigEndian => ((b0 as u32) << 24) | ((b1 as u32) << 16) | ((b2 as u32) << 8)
            | (b3 as u32),
        Endianness::LittleEndian => ((b3 as u32) << 24) | ((b2 as u32) << 16) | ((b1 as u32) << 8)
            | (b0 as u32),
    }
}

/// The 64-bit value whose wire bytes, in wire order, are `b0 .. b7`.
pub open spec fn u64_of_bytes(
    b0: u8,
    b1: u8,
    b2: u8,
    b3: u8,
    b4: u8,
    b5: u8,
    b6: u8,
    b7: u8,
    e: Endianness,
) -> u64 {
    match e {
        Endianness::BigEndian => ((b0 as u64) << 56) | ((b1 as u64) << 48) | ((b2 as u64) << 40)
            | ((b3 as u64) << 32) | ((b4 as u64) << 24) | ((b5 as u64) << 16) | ((b6 as u64) << 8)
            | (b7 as u64),
        Endianness::LittleEndian => ((b7 as u64) << 56) | ((b6 as u64) << 48) | ((b5 as u64) << 40)
            | ((b4 as u64) << 32) | ((b3 as u64) << 24) | ((b2 as u64) << 16) | ((b1 as u64) << 8)
            | (b0 as u64),
    }
}

/// Reading the wire bytes of a 16-bit value gives the value back.
pub proof fn lemma_u16_bytes_round_trip(x: u16, e: Endianness)
    ensures
        u16_of_bytes(bytes_of_u16(x, e)[0], bytes_of_u16(x, e)[1], e) == x,
{
    assert(((((x >> 8) & 0xff) as u8 as u16) << 8) | ((x & 0xff) as u8 as u16) == x)
        by (bit_vector);
}

/// Reading the wire bytes of a 32-bit value gives the value back.
pub proof fn lemma_u32_bytes_round_trip(x: u32, e: Endianness)
    ensures
        u32_of_bytes(
            bytes_of_u32(x, e)[0],
            bytes_of_u32(x, e)[1],
            bytes_of_u32(x, e)[2],
            bytes_of_u32(x, e)[3],
            e,
        ) == x,
{
    assert(((((x >> 24) & 0xff) as u8 as u32) << 24) | ((((x >> 16) & 0xff) as u8 as u32) << 16)
        | ((((x >> 8) & 0xff) as u8 as u32) << 8) | ((x & 0xff) as u8 as u32) == x)
        by (bit_vector);
}

/// Reading the wire bytes of a 64-bit value gives the value back.
pub proof fn lemma_u64_bytes_round_trip(x: u64, e: Endianness)
    ensures
        u64_of_bytes(
            bytes_of_u64(x, e)[0],
            bytes_of_u64(x, e)[1],
            bytes_of_u64(x, e)[2],
            bytes_of_u64(x, e)[3],
            bytes_of_u64(x, e)[4],
            bytes_of_u64(x, e)[5],
            bytes_of_u64(x, e)[6],
            bytes_of_u64(x, e)[7],
            e,
        ) == x,
{
    assert(((((x >> 56) & 0xff) as u8 as u64) << 56) | ((((x >> 48) & 0xff) as u8 as u64) << 48)
        | ((((x >> 40) & 0xff) as u8 as u64) << 40) | ((((x >> 32) & 0xff) as u8 as u64) << 32)
        | ((((x >> 24) & 0xff) as u8 as u64) << 24) | ((((x >> 16) & 0xff) as u8 as u64) << 16)
        | ((((x >> 8) & 0xff) as u8 as u64) << 8) | ((x & 0xff) as u8 as u64) == x)
        by (bit_vector);
}

/// Appends the wire bytes of a 16-bit value to the buffer.
pub fn push_u16_bytes(buf: &mut Vec<u8>, x: u16, e: Endianness)
    ensures
        final(buf)@ == old(buf)@ + bytes_of_u16(x, e),
{
    let hi: u8 = ((x >> 8) & 0xff) as u8;
    let lo: u8 = (x & 0xff) as u8;
    match e {
        Endianness::BigEndian => {
            buf.push(hi);
            buf.push(lo);
        },
        Endianness::LittleEndian => {
            buf.push(lo);
            buf.push(hi);
        },
    }
    assert(buf@ =~= old(buf)@ + bytes_of_u16(x, e));
}

/// Appends the wire bytes of a 32-bit value to the buffer.
pub fn push_u32_bytes(buf: &mut Vec<u8>, x: u32, e: Endianness)
    ensures
        final(buf)@ == old(buf)@ + bytes_of_u32(x, e),
{
    let b3: u8 = ((x >> 24) & 0xff) as u8;
    let b2: u8 = ((x >> 16) & 0xff) as u8;
    let b1: u8 = ((x >> 8) & 0xff) as u8;
    let b0: u8 = (x & 0xff) as u8;
    match e {
        Endianness::BigEndian => {
            buf.push(b3);
            buf.push(b2);
            buf.push(b1);
            buf.push(b0);
        },
        Endianness::LittleEndian => {
            buf.push(b0);
            buf.push(b1);
            buf.push(b2);
            buf.push(b3);
        },
    }
    assert(buf@ =~= old(buf)@ + bytes_of_u32(x, e));
}

/// Appends the wire bytes of a 64-bit value to the buffer.
pub fn push_u64_bytes(buf: &mut Vec<u8>, x: u64, e: Endianness)
    ensures
        final(buf)@ == old(buf)@ + bytes_of_u64(x, e),
{
    let b7: u8 = ((x >> 56) & 0xff) as u8;
    let b6: u8 = ((x >> 48) & 0xff) as u8;
    let b5: u8 = ((x >> 40) & 0xff) as u8;
    let b4: u8 = ((x >> 32) & 0xff) as u8;
    let b3: u8 = ((x >> 24) & 0xff) as u8;
    let b2: u8 = ((x >> 16) & 0xff) as u8;
    let b1: u8 = ((x >> 8) & 0xff) as u8;
    let b0: u8 = (x & 0xff) as u8;
    match e {
        Endianness::BigEndian => {
            buf.push(b7);
            buf.push(b6);
            buf.push(b5);
            buf.push(b4);
            buf.push(b3);
            buf.push(b2);
            buf.push(b1);
            buf.push(b0);
        },
        Endianness::LittleEndian => {
            buf.push(b0);
            buf.push(b1);
            buf.push(b2);
            buf.push(b3);
            buf.push(b4);
            buf.push(b5);
            buf.push(b6);
            buf.push(b7);
        },
    }
    assert(buf@ =~= old(buf)@ + bytes_of_u64(x, e));
}

/// Combines two wire bytes into the 16-bit value they encode.
pub fn u16_from_bytes(b0: u8, b1: u8, e: Endianness) -> (r: u16)
    ensures
        r == u16_of_bytes(b0, b1, e),
{
    match e {
        Endianness::BigEndian => ((b0 as u16) << 8) | (b1 as u16),
        Endianness::LittleEndian => ((b1 as u16) << 8) | (b0 as u16),
    }
}

/// Combines four wire bytes into the 32-bit value they encode.
pub fn u32_from_bytes(b0: u8, b1: u8, b2: u8, b3: u8, e: Endianness) -> (r: u32)
    ensures
        r == u32_of_bytes(b0, b1, b2, b3, e),
{
    match e {
        Endianness::BigEndian => ((b0 as u32) << 24) | ((b1 as u32) << 16) | ((b2 as u32) << 8)
            | (b3 as u32),
        Endianness::LittleEndian => ((b3 as u32) << 24) | ((b2 as u32) << 16) | ((b1 as u32) << 8)
            | (b0 as u32),
    }
}

/// Combines eight wire bytes into the 64-bit value they encode.
pub fn u64_from_bytes(
    b0: u8,
    b1: u8,
    b2: u8,
    b3: u8,
    b4: u8,
    b5: u8,
    b6: u8,
    b7: u8,
    e: Endianness,
) -> (r: u64)
    ensures
        r == u64_of_bytes(b0, b1, b2, b3, b4, b5, b6, b7, e),
{
    match e {
        Endianness::BigEndian => ((b0 as u64) << 56) | ((b1 as u64) << 48) | ((b2 as u64) << 40)
            | ((b3 as u64) << 32) | ((b4 as u64) << 24) | ((b5 as u64) << 16) | ((b6 as u64) << 8)
            | (b7 as u64),
        Endianness::LittleEndian => ((b7 as u64) << 56) | ((b6 as u64) << 48) | ((b5 as u64) << 40)
            | ((b4 as u64) << 32) | ((b3 as u64) << 24) | ((b2 as u64) << 16) | ((b1 as u64) << 8)
            | (b0 as u64),
    }
}

} // verus!
