//! The bit layout of a raw tile identifier: the three highest bits are
//! orientation flags, the low 29 bits are the global tile id.

use vstd::prelude::*;

verus! {

/// Set when the tile is flipped horizontally.
pub const FLIPPED_HORIZONTALLY_FLAG: u32 = 0x8000_0000;

/// Set when the tile is flipped vertically.
pub const FLIPPED_VERTICALLY_FLAG: u32 = 0x4000_0000;

/// Set when the tile is flipped along its diagonal (rotated).
pub const FLIPPED_DIAGONALLY_FLAG: u32 = 0x2000_0000;

/// The bits of a raw tile id that hold the global tile id.
pub const GID_MASK: u32 = 0x1FFF_FFFF;

/// A raw tile id taken apart: the global tile id and the three flags.
#[derive(Clone, Copy, Debug, PartialEq, Eq, Structural)]
pub struct TileFlags {
    pub gid: u32,
    pub flip_h: bool,
    pub flip_v: bool,
    pub flip_d: bool,
}

pub open spec fn spec_split(raw: u32) -> TileFlags {
    TileFlags {
        gid: raw & 0x1FFF_FFFF,
        flip_h: raw & 0x8000_0000 != 0,
        flip_v: raw & 0x4000_0000 != 0,
        flip_d: raw & 0x2000_0000 != 0,
    }
}

pub open spec fn flag_bits(on: bool, bit: u32) -> u32 {
    if on {
        bit
    } else {
        0
    }
}

/// The raw id of a gid and its flags; gid bits above the low 29 are dropped.
pub open spec fn spec_combine(t: TileFlags) -> u32 {
    (t.gid & 0x1FFF_FFFF) | flag_bits(t.flip_h, 0x8000_0000) | flag_bits(t.flip_v, 0x4000_0000)
        | flag_bits(t.flip_d, 0x2000_0000)
}

/// Splits a raw tile id into its global tile id and its orientation flags.
pub fn split(raw: u32) -> (r: TileFlags)
    ensures
        r == spec_split(raw),
        r.gid < 0x2000_0000,
{
    let r = TileFlags {
        gid: raw & GID_MASK,
        flip_h: raw & FLIPPED_HORIZONTALLY_FLAG != 0,
        flip_v: raw & FLIPPED_VERTICALLY_FLAG != 0,
        flip_d: raw & FLIPPED_DIAGONALLY_FLAG != 0,
    };
    assert(raw & 0x1FFF_FFFF < 0x2000_0000) by (bit_vector);
    r
}

/// Puts a global tile id and its orientation flags back into one raw id.
pub fn combine(t: TileFlags) -> (r: u32)
    ensures
        r == spec_combine(t),
{
    let h: u32 = if t.flip_h { FLIPPED_HORIZONTALLY_FLAG } else { 0 };
    let v: u32 = if t.flip_v { FLIPPED_VERTICALLY_FLAG } else { 0 };
    let d: u32 = if t.flip_d { FLIPPED_DIAGONALLY_FLAG } else { 0 };
    (t.gid & GID_MASK) | h | v | d
}

/// Splitting a raw tile id and combining the parts gives the same raw id back,
/// for every `u32`.
pub proof fn lemma_split_combine(raw: u32)
    ensures
        spec_combine(spec_split(raw)) == raw,
{
    let g = raw & 0x1FFF_FFFF;
    let h: u32 = if raw & 0x8000_0000 != 0 { 0x8000_0000 } else { 0 };
    let v: u32 = if raw & 0x4000_0000 != 0 { 0x4000_0000 } else { 0 };
    let d: u32 = if raw & 0x2000_0000 != 0 { 0x2000_0000 } else { 0 };
    assert((g & 0x1FFF_FFFF) | h | v | d == raw) by (bit_vector)
        requires
            g == raw & 0x1FFF_FFFF,
            h == (if raw & 0x8000_0000 != 0 { 0x8000_0000u32 } else { 0u32 }),
            v == (if raw & 0x4000_0000 != 0 { 0x4000_0000u32 } else { 0u32 }),
            d == (if raw & 0x2000_0000 != 0 { 0x2000_0000u32 } else { 0u32 }),
    ;
}

/// Combining a global tile id that fits in 29 bits with any flags, then
/// splitting the result, gives the same id and flags back.
pub proof fn lemma_combine_split(t: TileFlags)
    requires
        t.gid < 0x2000_0000,
    ensures
        spec_split(spec_combine(t)) == t,
{
    let g = t.gid;
    let h = flag_bits(t.flip_h, 0x8000_0000);
    let v = flag_bits(t.flip_v, 0x4000_0000);
    let d = flag_bits(t.flip_d, 0x2000_0000);
    let raw = (g & 0x1FFF_FFFF) | h | v | d;
    assert(raw & 0x1FFF_FFFF == g && (raw & 0x8000_0000 != 0) == (h != 0) && (raw & 0x4000_0000
        != 0) == (v != 0) && (raw & 0x2000_0000 != 0) == (d != 0)) by (bit_vector)
        requires
            g < 0x2000_0000,
            h == 0 || h == 0x8000_0000,
            v == 0 || v == 0x4000_0000,
            d == 0 || d == 0x2000_0000,
            raw == (g & 0x1FFF_FFFF) | h | v | d,
    ;
}

} // verus!
