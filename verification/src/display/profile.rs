//! Geometry of the Xteink X4 panel: a 480×800 portrait page shown on an
//! 800×480 panel turned 270 degrees.

use vstd::prelude::*;
use crate::display::error::{DisplayError, DisplayResult};

verus! {

pub const LOGICAL_WIDTH: u16 = 480;
pub const LOGICAL_HEIGHT: u16 = 800;
pub const PHYSICAL_WIDTH: u16 = 800;
pub const PHYSICAL_HEIGHT: u16 = 480;
pub const ROTATION_DEGREES: i16 = 270;
pub const CHUNK_ROWS: u16 = 16;
pub const CHUNK_COUNT: u8 = 30;
pub const ROW_BYTES: usize = 100;
pub const PLANE_BYTES: usize = 48000;

/// The panel position of a page pixel: page row `y` becomes panel column
/// `799 - y`, page column `x` becomes panel row `x`.
pub open spec fn physical_of(logical_x: u16, logical_y: u16) -> (u16, u16) {
    ((LOGICAL_HEIGHT - 1 - logical_y) as u16, logical_x)
}

pub fn logical_to_physical(logical_x: u16, logical_y: u16) -> (r: (u16, u16))
    requires
        logical_y < LOGICAL_HEIGHT,
    ensures
        r == physical_of(logical_x, logical_y),
{
    (LOGICAL_HEIGHT - 1 - logical_y, logical_x)
}

/// The rotation is one to one from the page onto the panel.
pub proof fn lemma_rotation_bijective(x1: u16, y1: u16, x2: u16, y2: u16)
    requires
        x1 < LOGICAL_WIDTH,
        y1 < LOGICAL_HEIGHT,
        x2 < LOGICAL_WIDTH,
        y2 < LOGICAL_HEIGHT,
    ensures
        physical_of(x1, y1).0 < PHYSICAL_WIDTH,
        physical_of(x1, y1).1 < PHYSICAL_HEIGHT,
        physical_of(x1, y1) == physical_of(x2, y2) ==> x1 == x2 && y1 == y2,
{
}

/// The page pixel that panel pixel `p` (row-major over 800×480) shows: panel
/// row `p / 800` is page column, panel column `p % 800` is page row `799 - it`.
pub open spec fn page_index_of_panel(p: int) -> int {
    (799 - p % 800) * 480 + p / 800
}

/// The 2-bit value stored for pixel `p` in a packed plane.
pub open spec fn packed_pixel(data: Seq<u8>, p: int) -> u8 {
    (data[p / 4] >> ((6 - (p % 4) * 2) as u8)) & 3u8
}

/// The byte that packs four 2-bit values, the first in the top bits.
pub open spec fn pack4(a: u8, b: u8, c: u8, d: u8) -> u8 {
    ((a << 6u8) | (b << 4u8) | (c << 2u8) | d) as u8
}

/// Each of the four values comes back out of its place in the packed byte.
pub proof fn lemma_pack4(a: u8, b: u8, c: u8, d: u8)
    requires
        a < 4,
        b < 4,
        c < 4,
        d < 4,
    ensures
        (pack4(a, b, c, d) >> 6u8) & 3u8 == a,
        (pack4(a, b, c, d) >> 4u8) & 3u8 == b,
        (pack4(a, b, c, d) >> 2u8) & 3u8 == c,
        (pack4(a, b, c, d) >> 0u8) & 3u8 == d,
{
    assert(a < 4 && b < 4 && c < 4 && d < 4 ==> {
        let x = ((a << 6u8) | (b << 4u8) | (c << 2u8) | d) as u8;
        &&& (x >> 6u8) & 3u8 == a
        &&& (x >> 4u8) & 3u8 == b
        &&& (x >> 2u8) & 3u8 == c
        &&& (x >> 0u8) & 3u8 == d
    }) by (bit_vector);
}

proof fn lemma_panel_index(p: int)
    requires
        0 <= p < 384000,
    ensures
        0 <= page_index_of_panel(p) < 384000,
{
    assert(0 <= p / 800 < 480);
    assert(0 <= p % 800 < 800);
    assert(0 <= (799 - p % 800) * 480 <= 799 * 480) by (nonlinear_arith)
        requires
            0 <= p % 800 < 800,
    ;
}

/// A packed byte at position `k` holds pixels `4k` to `4k + 3`.
pub proof fn lemma_packed_byte(out: Seq<u8>, k: int, a: u8, b: u8, c: u8, d: u8)
    requires
        0 <= k < out.len(),
        out[k] == pack4(a, b, c, d),
        a < 4,
        b < 4,
        c < 4,
        d < 4,
    ensures
        packed_pixel(out, 4 * k) == a,
        packed_pixel(out, 4 * k + 1) == b,
        packed_pixel(out, 4 * k + 2) == c,
        packed_pixel(out, 4 * k + 3) == d,
{
    lemma_pack4(a, b, c, d);
    assert((4 * k) / 4 == k && (4 * k) % 4 == 0);
    assert((4 * k + 1) / 4 == k && (4 * k + 1) % 4 == 1);
    assert((4 * k + 2) / 4 == k && (4 * k + 2) % 4 == 2);
    assert((4 * k + 3) / 4 == k && (4 * k + 3) % 4 == 3);
}

/// Writing byte `k` keeps every pixel packed before it.
pub proof fn lemma_update_keeps_pixels(before: Seq<u8>, k: int, x: u8)
    requires
        0 <= k < before.len(),
    ensures
        forall|p: int|
            0 <= p < 4 * k ==> #[trigger] packed_pixel(before.update(k, x), p) == packed_pixel(
                before,
                p,
            ),
{
    assert forall|p: int| 0 <= p < 4 * k implies #[trigger] packed_pixel(before.update(k, x), p)
        == packed_pixel(before, p) by {
        assert(p / 4 < k);
    }
}

/// Rotates a page of 480×800 one-byte GRAY2 values (row-major) onto the panel
/// and packs it, four pixels per byte, into the first 96000 bytes of `output`;
/// the rest of `output` is untouched. A page of another size is
/// `InvalidPage`, a short output `BufferTooSmall`, a value above 3 `Render`.
pub fn logical_gray2_to_physical_packed(logical: &[u8], output: &mut [u8]) -> (r: DisplayResult<()>)
    ensures
        logical@.len() != 384000 ==> r == Err::<(), DisplayError>(DisplayError::InvalidPage)
            && final(output)@ == old(output)@,
        logical@.len() == 384000 && old(output)@.len() < 96000 ==> r == Err::<(), DisplayError>(
            DisplayError::BufferTooSmall { required: 96000, provided: old(output)@.len() as usize },
        ) && final(output)@ == old(output)@,
        logical@.len() == 384000 && old(output)@.len() >= 96000 && (exists|i: int|
            0 <= i < 384000 && #[trigger] logical@[i] > 3) ==> r == Err::<(), DisplayError>(
            DisplayError::Render,
        ) && final(output)@ == old(output)@,
        r is Ok ==> {
            &&& logical@.len() == 384000
            &&& final(output)@.len() == old(output)@.len()
            &&& forall|p: int|
                0 <= p < 384000 ==> #[trigger] packed_pixel(final(output)@, p)
                    == logical@[page_index_of_panel(p)]
            &&& forall|i: int| 96000 <= i < old(output)@.len() ==> final(output)@[i] == old(output)@[i]
        },
        logical@.len() == 384000 && old(output)@.len() >= 96000 && (forall|i: int|
            0 <= i < 384000 ==> #[trigger] logical@[i] <= 3) ==> r is Ok,
{
    let required_input: usize = 384000;
    let required_output: usize = 96000;
    if logical.len() != required_input {
        return Err(DisplayError::InvalidPage);
    }
    if output.len() < required_output {
        return Err(DisplayError::BufferTooSmall { required: required_output, provided: output.len() });
    }
    let mut i: usize = 0;
    while i < required_input
        invariant
            required_input == 384000,
            output@ == old(output)@,
            old(output)@.len() >= 96000,
            i <= 384000,
            logical@.len() == 384000,
            forall|j: int| 0 <= j < i ==> logical@[j] <= 3,
        decreases 384000 - i,
    {
        if logical[i] > 3 {
            return Err(DisplayError::Render);
        }
        i = i + 1;
    }
    let mut k: usize = 0;
    while k < required_output
        invariant
            required_output == 96000,
            k <= 96000,
            logical@.len() == 384000,
            forall|j: int| 0 <= j < 384000 ==> logical@[j] <= 3,
            output@.len() == old(output)@.len(),
            old(output)@.len() >= 96000,
            forall|p: int|
                0 <= p < 4 * k ==> #[trigger] packed_pixel(output@, p)
                    == logical@[page_index_of_panel(p)],
            forall|j: int| k <= j < output@.len() ==> output@[j] == old(output)@[j],
        decreases 96000 - k,
    {
        let p0 = 4 * k;
        proof {
            lemma_panel_index(p0 as int);
            lemma_panel_index(p0 + 1);
            lemma_panel_index(p0 + 2);
            lemma_panel_index(p0 + 3);
        }
        let a = logical[(799 - p0 % 800) * 480 + p0 / 800];
        let b = logical[(799 - (p0 + 1) % 800) * 480 + (p0 + 1) / 800];
        let c = logical[(799 - (p0 + 2) % 800) * 480 + (p0 + 2) / 800];
        let d = logical[(799 - (p0 + 3) % 800) * 480 + (p0 + 3) / 800];
        let ghost before = output@;
        let byte: u8 = (a << 6u8) | (b << 4u8) | (c << 2u8) | d;
        output[k] = byte;
        proof {
            assert(output@ == before.update(k as int, byte));
            lemma_update_keeps_pixels(before, k as int, byte);
            lemma_packed_byte(output@, k as int, a, b, c, d);
            assert forall|p: int| 0 <= p < 4 * (k + 1) implies #[trigger] packed_pixel(output@, p)
                == logical@[page_index_of_panel(p)] by {
                if p < 4 * k {
                    assert(packed_pixel(output@, p) == packed_pixel(before, p));
                } else if p == 4 * k {
                } else if p == 4 * k + 1 {
                } else if p == 4 * k + 2 {
                } else {
                }
            }
        }
        k = k + 1;
    }
    Ok(())
}

} // verus!
