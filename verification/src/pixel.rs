//! Two-bit colour indices of 8-pixel tile rows, shared by both screens.
use vstd::prelude::*;

verus! {

/// The colour index (0..=3) of the pixel at bit `bit` of a tile row with
/// bit planes `lo` and `hi`.
pub open spec fn color_id_spec(lo: u8, hi: u8, bit: u8) -> u8 {
    (((hi >> bit) & 1) << 1) | ((lo >> bit) & 1)
}

pub fn color_id(lo: u8, hi: u8, bit: u8) -> (r: u8)
    requires
        bit < 8,
    ensures
        r == color_id_spec(lo, hi, bit),
        r < 4,
{
    let r = (((hi >> bit) & 1) << 1) | ((lo >> bit) & 1);
    assert(r < 4) by (bit_vector)
        requires
            r == (((hi >> bit) & 1) << 1) | ((lo >> bit) & 1),
            bit < 8,
    ;
    r
}

} // verus!
