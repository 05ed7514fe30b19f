use vstd::bytes::*;
use vstd::prelude::*;
use vstd::slice::slice_subrange;

verus! {

/// The little-endian `u64` stored at `at` in `buf`.
pub open spec fn u64_at(buf: Seq<u8>, at: int) -> u64 {
    spec_u64_from_le_bytes(buf.subrange(at, at + 8))
}

/// The little-endian `u32` stored at `at` in `buf`.
pub open spec fn u32_at(buf: Seq<u8>, at: int) -> u32 {
    spec_u32_from_le_bytes(buf.subrange(at, at + 4))
}

/// The little-endian `u16` stored at `at` in `buf`.
pub open spec fn u16_at(buf: Seq<u8>, at: int) -> u16 {
    spec_u16_from_le_bytes(buf.subrange(at, at + 2))
}

pub fn read_u64(buf: &[u8], at: usize) -> (r: u64)
    requires
        at + 8 <= buf@.len(),
    ensures
        r == u64_at(buf@, at as int),
{
    let _n = buf.len();
    u64_from_le_bytes(slice_subrange(buf, at, at + 8))
}

pub fn read_u32(buf: &[u8], at: usize) -> (r: u32)
    requires
        at + 4 <= buf@.len(),
    ensures
        r == u32_at(buf@, at as int),
{
    let _n = buf.len();
    u32_from_le_bytes(slice_subrange(buf, at, at + 4))
}

pub fn read_u16(buf: &[u8], at: usize) -> (r: u16)
    requires
        at + 2 <= buf@.len(),
    ensures
        r == u16_at(buf@, at as int),
{
    let _n = buf.len();
    u16_from_le_bytes(slice_subrange(buf, at, at + 2))
}

/// The offset in a buffer that starts at address `base` and holds `len`
/// bytes of a block of `size` bytes at address `addr`; `None` for the null
/// address and for a block that does not lie wholly inside the buffer.
pub open spec fn offset_of(base: u64, len: int, addr: u64, size: int) -> Option<int> {
    if addr != 0 && addr >= base && addr - base + size <= len {
        Some(addr - base)
    } else {
        None
    }
}

/// Translates an address into an offset in the buffer, as `offset_of`.
pub fn locate(base: u64, len: usize, addr: u64, size: usize) -> (r: Option<usize>)
    ensures
        match offset_of(base, len as int, addr, size as int) {
            Some(o) => r == Some(o as usize),
            None => r is None,
        },
{
    if addr != 0 && addr >= base && (addr - base) as u128 + size as u128 <= len as u128 {
        Some((addr - base) as usize)
    } else {
        None
    }
}

} // verus!
