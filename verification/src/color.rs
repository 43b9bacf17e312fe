//! Per-folder announcement colors: a random RGB triple packed into the 24-bit
//! integer form that the cache persists.

use vstd::prelude::*;

verus! {

/// Draws a random color from the crate's bounded palette.
///
/// Relies on random_color's `RandomColor::to_rgb_array`, which returns one
/// RGB triple as three bytes; the draw depends on an OS-seeded generator, so
/// nothing is promised beyond each channel fitting in a byte.
#[verifier::external_body]
fn random_rgb() -> (c: (u32, u32, u32))
    ensures
        c.0 < 256,
        c.1 < 256,
        c.2 < 256,
{
    let rgb = random_color::RandomColor::new().to_rgb_array();
    (rgb[0] as u32, rgb[1] as u32, rgb[2] as u32)
}

/// A freshly drawn folder color, packed into its persisted 24-bit form.
pub fn random_packed_color() -> (c: u32)
    ensures
        c < 0x1000000,
{
    let (r, g, b) = random_rgb();
    pack_rgb(r, g, b)
}

/// Packs an RGB triple into a single 24-bit integer, `r` in the high byte.
pub fn pack_rgb(r: u32, g: u32, b: u32) -> (c: u32)
    requires
        r < 256,
        g < 256,
        b < 256,
    ensures
        c == r * 0x10000 + g * 0x100 + b,
        c < 0x1000000,
{
    r * 0x10000 + g * 0x100 + b
}

} // verus!
