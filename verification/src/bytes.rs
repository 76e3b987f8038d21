use vstd::prelude::*;
use byteorder::{ByteOrder, LittleEndian};

verus! {

/// The unsigned number the `n` bytes at `off` stand for, least significant first.
pub open spec fn le(b: Seq<u8>, off: int, n: nat) -> nat
    decreases n,
{
    if n == 0 {
        0
    } else {
        b[off] as nat + 256 * le(b, off + 1, (n - 1) as nat)
    }
}

/// Calls `LittleEndian::read_u16` on the two bytes at `off`.
#[verifier::external_body]
pub(crate) fn read_u16_le(b: &[u8], off: usize) -> (r: u16)
    requires
        off + 2 <= b@.len(),
    ensures
        r as nat == le(b@, off as int, 2),
{
    LittleEndian::read_u16(&b[off..off + 2])
}

/// Calls `LittleEndian::read_u32` on the four bytes at `off`.
#[verifier::external_body]
pub(crate) fn read_u32_le(b: &[u8], off: usize) -> (r: u32)
    requires
        off + 4 <= b@.len(),
    ensures
        r as nat == le(b@, off as int, 4),
{
    LittleEndian::read_u32(&b[off..off + 4])
}

/// Calls `LittleEndian::read_u64` on the eight bytes at `off`.
#[verifier::external_body]
pub(crate) fn read_u64_le(b: &[u8], off: usize) -> (r: u64)
    requires
        off + 8 <= b@.len(),
    ensures
        r as nat == le(b@, off as int, 8),
{
    LittleEndian::read_u64(&b[off..off + 8])
}

/// Calls `LittleEndian::read_i16` on the two bytes at `off`: the unsigned number taken
/// as two's complement.
#[verifier::external_body]
pub(crate) fn read_i16_le(b: &[u8], off: usize) -> (r: i16)
    requires
        off + 2 <= b@.len(),
    ensures
        r == le(b@, off as int, 2) as i16,
{
    LittleEndian::read_i16(&b[off..off + 2])
}

/// Calls `LittleEndian::read_i32` on the four bytes at `off`: the unsigned number taken
/// as two's complement.
#[verifier::external_body]
pub(crate) fn read_i32_le(b: &[u8], off: usize) -> (r: i32)
    requires
        off + 4 <= b@.len(),
    ensures
        r == le(b@, off as int, 4) as i32,
{
    LittleEndian::read_i32(&b[off..off + 4])
}

/// Calls `LittleEndian::read_i64` on the eight bytes at `off`: the unsigned number taken
/// as two's complement.
#[verifier::external_body]
pub(crate) fn read_i64_le(b: &[u8], off: usize) -> (r: i64)
    requires
        off + 8 <= b@.len(),
    ensures
        r == le(b@, off as int, 8) as i64,
{
    LittleEndian::read_i64(&b[off..off + 8])
}

} // verus!
