//! Little-endian byte encodings shared by the translator and the code generator.
use vstd::prelude::*;

verus! {

/// The value of two little-endian bytes.
pub open spec fn le16(b0: u8, b1: u8) -> int {
    b0 + 256 * b1
}

/// The value of four little-endian bytes, read as an unsigned number.
pub open spec fn le32(b0: u8, b1: u8, b2: u8, b3: u8) -> int {
    b0 + 256 * b1 + 65536 * b2 + 16777216 * b3
}

/// The two's-complement reading of a 32-bit unsigned pattern.
pub open spec fn as_signed32(u: int) -> int {
    if u < 0x8000_0000 { u } else { u - 0x1_0000_0000 }
}

/// The two's-complement reading of a byte.
pub open spec fn as_signed8(u: int) -> int {
    if u < 0x80 { u } else { u - 0x100 }
}

/// The two's-complement reading of a 16-bit unsigned pattern.
pub open spec fn as_signed16(u: int) -> int {
    if u < 0x8000 { u } else { u - 0x1_0000 }
}

/// `x` reduced modulo 2^32: the 32-bit pattern that stands for `x`.
pub open spec fn wrap32(x: int) -> int {
    x % 0x1_0000_0000
}

/// The four little-endian bytes of a 32-bit pattern `u` (0 <= u < 2^32).
pub open spec fn le32_bytes(u: int) -> Seq<u8> {
    seq![
        (u % 256) as u8,
        ((u / 256) % 256) as u8,
        ((u / 65536) % 256) as u8,
        ((u / 16777216) % 256) as u8,
    ]
}

/// The eight little-endian bytes of a 64-bit pattern `u` (0 <= u < 2^64).
pub open spec fn le64_bytes(u: int) -> Seq<u8> {
    le32_bytes(u % 0x1_0000_0000) + le32_bytes(u / 0x1_0000_0000)
}

/// Appends the four little-endian bytes of `v`.
pub fn push_le32(code: &mut Vec<u8>, v: u32)
    ensures
        final(code)@ == old(code)@ + le32_bytes(v as int),
{
    let b0 = (v & 0xff) as u8;
    let b1 = ((v >> 8) & 0xff) as u8;
    let b2 = ((v >> 16) & 0xff) as u8;
    let b3 = ((v >> 24) & 0xff) as u8;
    assert(b0 == v % 256 && b1 == (v / 256) % 256 && b2 == (v / 65536) % 256 && b3 == (v / 16777216)
        % 256) by (bit_vector)
        requires
            b0 == (v & 0xff) as u8,
            b1 == ((v >> 8) & 0xff) as u8,
            b2 == ((v >> 16) & 0xff) as u8,
            b3 == ((v >> 24) & 0xff) as u8,
    ;
    code.push(b0);
    code.push(b1);
    code.push(b2);
    code.push(b3);
    assert(final(code)@ =~= old(code)@ + le32_bytes(v as int));
}

/// Appends the four little-endian bytes of the two's-complement pattern of `v`.
pub fn push_le32_signed(code: &mut Vec<u8>, v: i32)
    ensures
        final(code)@ == old(code)@ + le32_bytes(wrap32(v as int)),
{
    let u: u32 = if v >= 0 {
        v as u32
    } else {
        (0x1_0000_0000i64 + v as i64) as u32
    };
    assert(u == wrap32(v as int));
    push_le32(code, u);
}

/// Appends the bytes of `bytes` in order.
pub fn push_all(code: &mut Vec<u8>, bytes: &[u8])
    ensures
        final(code)@ == old(code)@ + bytes@,
{
    let mut i: usize = 0;
    while i < bytes.len()
        invariant
            i <= bytes@.len(),
            code@ == old(code)@ + bytes@.subrange(0, i as int),
        decreases bytes@.len() - i,
    {
        code.push(bytes[i]);
        i = i + 1;
        assert(code@ =~= old(code)@ + bytes@.subrange(0, i as int));
    }
    assert(bytes@.subrange(0, bytes@.len() as int) =~= bytes@);
}

} // verus!
