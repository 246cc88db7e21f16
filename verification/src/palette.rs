//! The per-session color table: slot 0 is fixed opaque black, the remaining
//! slots are drawn at random once and stay fixed for the run.

use vstd::prelude::*;
use crate::NUM_COLORS;

verus! {

/// One RGBA color, one byte per channel.
#[derive(Clone, Copy, PartialEq, Eq, Structural, Debug)]
pub struct Color {
    pub r: u8,
    pub g: u8,
    pub b: u8,
    pub a: u8,
}

/// Opaque black, the color of points that never escape.
pub open spec fn black() -> Color {
    Color { r: 0, g: 0, b: 0, a: 255 }
}

/// Every entry of the table is fully opaque. A random table need not
/// satisfy this: the random slots draw their alpha channel too.
pub open spec fn palette_opaque(colors: Seq<Color>) -> bool {
    forall|k: int| 0 <= k < colors.len() ==> #[trigger] colors[k].a == 255
}

/// Relies on rand::random::<u8>: one byte from the thread-local random
/// generator. Nothing can be promised of its value.
#[verifier::external_body]
fn random_byte() -> u8 {
    rand::random()
}

/// Draw the color table for this run: opaque black in slot 0, random bytes
/// in every channel of the other slots.
pub fn random_color_space() -> (colors: Vec<Color>)
    ensures
        colors@.len() == NUM_COLORS,
        colors@[0] == black(),
{
    let mut colors: Vec<Color> = Vec::new();
    colors.push(Color { r: 0, g: 0, b: 0, a: 255 });
    let mut i: usize = 1;
    while i < NUM_COLORS
        invariant
            1 <= i <= NUM_COLORS,
            colors@.len() == i,
            colors@[0] == black(),
        decreases NUM_COLORS - i,
    {
        let c = Color { r: random_byte(), g: random_byte(), b: random_byte(), a: random_byte() };
        colors.push(c);
        i = i + 1;
    }
    colors
}

} // verus!
