//! Byte-order strategy: 16- and 32-bit integer loads from a byte buffer,
//! either most-significant-byte-first or least-significant-byte-first.
//!
//! The order is selected once per stream from the header marker and then
//! passed down as a flag, `true` meaning little-endian.

use vstd::prelude::*;

verus! {

/// The 16-bit value stored at `p`, as a mathematical integer.
pub open spec fn spec_u16(d: Seq<u8>, le: bool, p: int) -> int {
    if le {
        (d[p] as int) + 256 * (d[p + 1] as int)
    } else {
        256 * (d[p] as int) + (d[p + 1] as int)
    }
}

/// The 32-bit value stored at `p`, as a mathematical integer.
pub open spec fn spec_u32(d: Seq<u8>, le: bool, p: int) -> int {
    if le {
        spec_u16(d, le, p) + 65536 * spec_u16(d, le, p + 2)
    } else {
        65536 * spec_u16(d, le, p) + spec_u16(d, le, p + 2)
    }
}

pub proof fn lemma_u16_bounds(d: Seq<u8>, le: bool, p: int)
    requires
        0 <= p,
        p + 2 <= d.len(),
    ensures
        0 <= spec_u16(d, le, p) < 0x10000,
{
}

pub proof fn lemma_u32_bounds(d: Seq<u8>, le: bool, p: int)
    requires
        0 <= p,
        p + 4 <= d.len(),
    ensures
        0 <= spec_u32(d, le, p) < 0x1_0000_0000,
{
    lemma_u16_bounds(d, le, p);
    lemma_u16_bounds(d, le, p + 2);
}

/// Load a 16-bit integer at `p` in the given byte order.
pub fn loadu16(d: &[u8], p: usize, le: bool) -> (r: u16)
    requires
        p + 2 <= d@.len(),
    ensures
        r as int == spec_u16(d@, le, p as int),
{
    let lo: u16;
    let hi: u16;
    if le {
        lo = d[p] as u16;
        hi = d[p + 1] as u16;
    } else {
        hi = d[p] as u16;
        lo = d[p + 1] as u16;
    }
    lo + 256 * hi
}

/// Load a 32-bit integer at `p` in the given byte order.
pub fn loadu32(d: &[u8], p: usize, le: bool) -> (r: u32)
    requires
        p + 4 <= d@.len(),
    ensures
        r as int == spec_u32(d@, le, p as int),
{
    let n: usize = d.len();
    assert(p + 2 <= n);
    let lo: u32;
    let hi: u32;
    if le {
        lo = loadu16(d, p, le) as u32;
        hi = loadu16(d, p + 2, le) as u32;
    } else {
        hi = loadu16(d, p, le) as u32;
        lo = loadu16(d, p + 2, le) as u32;
    }
    lo + 65536 * hi
}

} // verus!
