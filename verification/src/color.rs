//! Hex color codes, split into their sRGB channel bytes.
use vstd::prelude::*;

verus! {

/// The sRGB bytes `(r, g, b, a)` of a hex code: `0xRRGGBBAA` when the code
/// is above `0xFFFFFF`, else `0xRRGGBB` with an opaque alpha of 255.
pub open spec fn spec_hex_channels(hex: u32) -> (u8, u8, u8, u8) {
    let h = hex as nat;
    if h > 0xFF_FF_FF {
        (
            ((h / 0x100_0000) % 256) as u8,
            ((h / 0x1_0000) % 256) as u8,
            ((h / 0x100) % 256) as u8,
            (h % 256) as u8,
        )
    } else {
        (((h / 0x1_0000) % 256) as u8, ((h / 0x100) % 256) as u8, (h % 256) as u8, 255u8)
    }
}

/// The sRGB channel bytes of a hex color code: `0xRRGGBB` (opaque) or
/// `0xRRGGBBAA`.
pub fn hex_channels(hex: u32) -> (c: (u8, u8, u8, u8))
    ensures
        c == spec_hex_channels(hex),
{
    proof {
        assert((hex >> 24) & 0xFF == (hex / 0x100_0000) % 256) by (bit_vector);
        assert((hex >> 16) & 0xFF == (hex / 0x1_0000) % 256) by (bit_vector);
        assert((hex >> 8) & 0xFF == (hex / 0x100) % 256) by (bit_vector);
        assert(hex & 0xFF == hex % 256) by (bit_vector);
    }
    if hex > 0xFF_FF_FF {
        (((hex >> 24) & 0xFF) as u8, ((hex >> 16) & 0xFF) as u8, ((hex >> 8) & 0xFF) as u8, (hex & 0xFF) as u8)
    } else {
        (((hex >> 16) & 0xFF) as u8, ((hex >> 8) & 0xFF) as u8, (hex & 0xFF) as u8, 255u8)
    }
}

} // verus!
