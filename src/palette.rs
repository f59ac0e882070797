//! Display colors of the color classes.
use vstd::prelude::*;

verus! {

/// Number of distinct display colors; classes beyond it reuse them in turn.
pub const PALETTE_LEN: usize = 6;

/// RGBA of palette slot `n`: red, orange, yellow, green, blue, purple.
pub open spec fn base_color(n: int) -> [u8; 4] {
    if n == 0 {
        [255u8, 0u8, 0u8, 255u8]
    } else if n == 1 {
        [255u8, 128u8, 0u8, 255u8]
    } else if n == 2 {
        [255u8, 255u8, 0u8, 255u8]
    } else if n == 3 {
        [0u8, 255u8, 0u8, 255u8]
    } else if n == 4 {
        [0u8, 0u8, 255u8, 255u8]
    } else {
        [255u8, 0u8, 255u8, 255u8]
    }
}

/// Display color of a color class.
pub fn color_of(class: usize) -> (c: [u8; 4])
    ensures
        c == base_color((class % PALETTE_LEN) as int),
{
    let n = class % PALETTE_LEN;
    if n == 0 {
        [255, 0, 0, 255]
    } else if n == 1 {
        [255, 128, 0, 255]
    } else if n == 2 {
        [255, 255, 0, 255]
    } else if n == 3 {
        [0, 255, 0, 255]
    } else if n == 4 {
        [0, 0, 255, 255]
    } else {
        [255, 0, 255, 255]
    }
}

/// The display colors of classes `0 .. k`.
pub fn palette(k: usize) -> (p: Vec<[u8; 4]>)
    ensures
        p@.len() == k,
        forall|i: int| 0 <= i < k ==> #[trigger] p@[i] == base_color(i % PALETTE_LEN as int),
{
    let mut p: Vec<[u8; 4]> = Vec::new();
    let mut i: usize = 0;
    while i < k
        invariant
            i <= k,
            p@.len() == i,
            forall|j: int| 0 <= j < i ==> #[trigger] p@[j] == base_color(j % PALETTE_LEN as int),
        decreases k - i,
    {
        p.push(color_of(i));
        i = i + 1;
    }
    p
}

} // verus!
