//! Conversion of the logical GRAY2 framebuffer into the panel's absolute
//! red/black RAM rows.
//!
//! Panel rows are 800 pixels, 100 bytes, the first pixel in the most
//! significant bit of the last byte: RAM bit `8k + b` (bit `0x80 >> b` of byte
//! `k`) holds panel column `799 - (8k + b)`, which shows page row `8k + b`.

use vstd::prelude::*;
use crate::display::error::DisplayResult;
use crate::display::framebuffer::{gray_at, pixel_index, Gray2Framebuffer, FRAMEBUFFER_BYTES};
use crate::display::profile::{
    lemma_packed_byte, lemma_update_keeps_pixels, packed_pixel, CHUNK_ROWS, PHYSICAL_HEIGHT,
    ROW_BYTES,
};

verus! {

/// Whether bit `b` (counted from the most significant) of `x` is set.
pub open spec fn bit_set(x: u8, b: int) -> bool {
    x & (0x80u8 >> (b as u8)) != 0
}

/// Setting bit `b` sets it and leaves the other bits.
proof fn lemma_or_bit(x: u8, b: u8, c: u8)
    requires
        b < 8,
        c < 8,
    ensures
        bit_set(x | (0x80u8 >> b), c as int) == (b == c || bit_set(x, c as int)),
{
    assert(b < 8 && c < 8 ==> (((x | (0x80u8 >> b)) & (0x80u8 >> c) != 0) == (b == c || x & (
    0x80u8 >> c) != 0))) by (bit_vector);
}

/// The 2-bit value that the black-row conversion reads for panel column
/// `phys_x` of row `row_y`, if the byte lies inside `packed`.
pub open spec fn packed_gray(packed: Seq<u8>, row_y: u16, phys_x: int) -> Option<u8> {
    let idx = row_y * 120 + phys_x / 4;
    if idx < packed.len() {
        Some((packed[idx] >> ((6 - (phys_x % 4) * 2) as u8)) & 3u8)
    } else {
        None
    }
}

/// Whether the black-row conversion marks panel column `phys_x` black.
pub open spec fn black_row_bit(packed: Seq<u8>, row_y: u16, phys_x: int) -> bool {
    match packed_gray(packed, row_y, phys_x) {
        Some(g) => g == 0 || g == 1,
        None => false,
    }
}

/// The black RAM row for `row_y`: RAM bit `8k + b` is set exactly when the
/// packed byte read for panel column `799 - (8k + b)` holds black or dark gray.
pub fn logical_gray2_to_black_row(packed: &[u8], row_y: u16) -> (r: [u8; ROW_BYTES])
    ensures
        forall|k: int, b: int|
            0 <= k < 100 && 0 <= b < 8 ==> (#[trigger] bit_set(r@[k], b) <==> black_row_bit(
                packed@,
                row_y,
                799 - (8 * k + b),
            )),
{
    let mut row = [0u8; ROW_BYTES];
    assert forall|k: int, b: int| 0 <= k < 100 && 0 <= b < 8 implies !#[trigger] bit_set(row@[k], b) by {
        let bb = b as u8;
        assert(bb < 8 ==> 0u8 & (0x80u8 >> bb) == 0) by (bit_vector);
    }
    let mut phys_x: usize = 0;
    while phys_x < 800
        invariant
            phys_x <= 800,
            row@.len() == 100,
            forall|k: int, b: int|
                0 <= k < 100 && 0 <= b < 8 ==> (#[trigger] bit_set(row@[k], b) <==> (799 - (8 * k
                    + b) < phys_x && black_row_bit(packed@, row_y, 799 - (8 * k + b)))),
        decreases 800 - phys_x,
    {
        let byte_idx = (row_y as usize) * 120 + phys_x / 4;
        if byte_idx < packed.len() {
            let shift = 6 - (phys_x % 4) * 2;
            let gray = (packed[byte_idx] >> (shift as u8)) & 0x03;
            let ram_bit = 799 - phys_x;
            let out_byte = ram_bit / 8;
            let out_bit = (ram_bit % 8) as u8;
            if gray == 0 || gray == 1 {
                let old_row = row;
                row[out_byte] = row[out_byte] | (0x80u8 >> out_bit);
                assert forall|k: int, b: int| 0 <= k < 100 && 0 <= b < 8 implies (#[trigger] bit_set(row@[k],
                    b,
                ) <==> (799 - (8 * k + b) < phys_x + 1 && black_row_bit(
                    packed@,
                    row_y,
                    799 - (8 * k + b),
                ))) by {
                    if k == out_byte {
                        lemma_or_bit(old_row@[k], out_bit, b as u8);
                    }
                }
            } else {
                assert forall|k: int, b: int| 0 <= k < 100 && 0 <= b < 8 implies (#[trigger] bit_set(row@[k],
                    b,
                ) <==> (799 - (8 * k + b) < phys_x + 1 && black_row_bit(
                    packed@,
                    row_y,
                    799 - (8 * k + b),
                ))) by {
                    if 799 - (8 * k + b) == phys_x {
                        assert(8 * k + b == ram_bit);
                    }
                }
            }
        }
        phys_x = phys_x + 1;
    }
    row
}

/// The page pixel shown at RAM bit `8k + b` of panel row `phys_y`.
pub open spec fn panel_gray(fb: Seq<u8>, phys_y: int, k: int, b: int) -> u8 {
    gray_at(fb, (8 * k + b) * 480 + phys_y)
}

/// Red RAM marks black and light gray; black RAM marks black and dark gray.
pub open spec fn red_marks(g: u8) -> bool {
    g == 0 || g == 2
}

pub open spec fn black_marks(g: u8) -> bool {
    g == 0 || g == 1
}

/// Adds panel row `phys_y` of the framebuffer to the first 100 bytes of `red`
/// and `black`: a bit is set afterwards when it was set before or when the
/// pixel it shows marks that plane. Bytes past the first 100 are untouched.
pub fn fill_absolute_row_packed(
    fb: &Gray2Framebuffer,
    phys_y: usize,
    red: &mut [u8],
    black: &mut [u8],
) -> (r: DisplayResult<()>)
    requires
        phys_y < 480,
        old(red)@.len() >= 100,
        old(black)@.len() >= 100,
    ensures
        r is Ok,
        final(red)@.len() == old(red)@.len(),
        final(black)@.len() == old(black)@.len(),
        forall|i: int| 100 <= i < old(red)@.len() ==> final(red)@[i] == old(red)@[i],
        forall|i: int| 100 <= i < old(black)@.len() ==> final(black)@[i] == old(black)@[i],
        forall|k: int, b: int|
            0 <= k < 100 && 0 <= b < 8 ==> (#[trigger] bit_set(final(red)@[k], b) <==> (bit_set(
                old(red)@[k],
                b,
            ) || red_marks(panel_gray(fb@, phys_y as int, k, b)))),
        forall|k: int, b: int|
            0 <= k < 100 && 0 <= b < 8 ==> (#[trigger] bit_set(final(black)@[k], b) <==> (bit_set(
                old(black)@[k],
                b,
            ) || black_marks(panel_gray(fb@, phys_y as int, k, b)))),
{
    proof {
        fb.lemma_len();
    }
    let mut phys_x: usize = 0;
    while phys_x < 800
        invariant
            phys_x <= 800,
            phys_y < 480,
            fb@.len() == FRAMEBUFFER_BYTES,
            red@.len() == old(red)@.len(),
            black@.len() == old(black)@.len(),
            old(red)@.len() >= 100,
            old(black)@.len() >= 100,
            forall|i: int| 100 <= i < old(red)@.len() ==> red@[i] == old(red)@[i],
            forall|i: int| 100 <= i < old(black)@.len() ==> black@[i] == old(black)@[i],
            forall|k: int, b: int|
                0 <= k < 100 && 0 <= b < 8 ==> (#[trigger] bit_set(red@[k], b) <==> (bit_set(
                    old(red)@[k],
                    b,
                ) || (799 - (8 * k + b) < phys_x && red_marks(
                    panel_gray(fb@, phys_y as int, k, b),
                )))),
            forall|k: int, b: int|
                0 <= k < 100 && 0 <= b < 8 ==> (#[trigger] bit_set(black@[k], b) <==> (bit_set(
                    old(black)@[k],
                    b,
                ) || (799 - (8 * k + b) < phys_x && black_marks(
                    panel_gray(fb@, phys_y as int, k, b),
                )))),
        decreases 800 - phys_x,
    {
        let logical_x = phys_y as u16;
        let logical_y = 799 - phys_x as u16;
        let ram_bit = 799 - phys_x;
        let byte_idx = ram_bit / 8;
        let bit_idx = (ram_bit % 8) as u8;
        assert(pixel_index(logical_x, logical_y) == (8 * byte_idx + bit_idx) * 480 + phys_y);
        let gray = fb.get_pixel(logical_x, logical_y).value();
        let ghost old_red = red@;
        let ghost old_black = black@;
        if gray == 0 || gray == 2 {
            red[byte_idx] = red[byte_idx] | (0x80u8 >> bit_idx);
        }
        if gray == 0 || gray == 1 {
            black[byte_idx] = black[byte_idx] | (0x80u8 >> bit_idx);
        }
        assert forall|k: int, b: int| 0 <= k < 100 && 0 <= b < 8 implies (#[trigger] bit_set(red@[k],
            b,
        ) <==> (bit_set(old(red)@[k], b) || (799 - (8 * k + b) < phys_x + 1 && red_marks(
            panel_gray(fb@, phys_y as int, k, b),
        )))) by {
            if k == byte_idx && (gray == 0 || gray == 2) {
                lemma_or_bit(old_red[k], bit_idx, b as u8);
            }
        }
        assert forall|k: int, b: int| 0 <= k < 100 && 0 <= b < 8 implies (#[trigger] bit_set(black@[k],
            b,
        ) <==> (bit_set(old(black)@[k], b) || (799 - (8 * k + b) < phys_x + 1 && black_marks(
            panel_gray(fb@, phys_y as int, k, b),
        )))) by {
            if k == byte_idx && (gray == 0 || gray == 1) {
                lemma_or_bit(old_black[k], bit_idx, b as u8);
            }
        }
        phys_x = phys_x + 1;
    }
    Ok(())
}

/// Adds every panel row of strip `strip` to the same first 100 bytes of `red`
/// and `black`, one row after another.
pub fn fill_absolute_from_fb(
    fb: &Gray2Framebuffer,
    strip: u8,
    red: &mut [u8],
    black: &mut [u8],
) -> (r: DisplayResult<()>)
    requires
        old(red)@.len() >= 100,
        old(black)@.len() >= 100,
    ensures
        r is Ok,
        final(red)@.len() == old(red)@.len(),
        final(black)@.len() == old(black)@.len(),
        forall|k: int, b: int|
            0 <= k < 100 && 0 <= b < 8 ==> (#[trigger] bit_set(final(red)@[k], b) <==> (bit_set(
                old(red)@[k],
                b,
            ) || exists|y: int|
                strip * 16 <= y < strip * 16 + 16 && y < 480 && red_marks(
                    #[trigger] panel_gray(fb@, y, k, b),
                ))),
        forall|k: int, b: int|
            0 <= k < 100 && 0 <= b < 8 ==> (#[trigger] bit_set(final(black)@[k], b) <==> (bit_set(
                old(black)@[k],
                b,
            ) || exists|y: int|
                strip * 16 <= y < strip * 16 + 16 && y < 480 && black_marks(
                    #[trigger] panel_gray(fb@, y, k, b),
                ))),
{
    let rows: usize = CHUNK_ROWS as usize;
    let height: usize = PHYSICAL_HEIGHT as usize;
    assert(rows == 16 && height == 480);
    let row_dst = (strip as usize) * rows;
    let row_end = if row_dst + rows < height {
        row_dst + rows
    } else {
        height
    };
    let mut phys_y = row_dst;
    while phys_y < row_end
        invariant
            row_dst == strip * 16,
            row_end == if strip * 16 + 16 < 480 { strip * 16 + 16 } else { 480 },
            row_dst <= phys_y,
            phys_y <= row_end || phys_y == row_dst,
            red@.len() == old(red)@.len(),
            black@.len() == old(black)@.len(),
            old(red)@.len() >= 100,
            old(black)@.len() >= 100,
            forall|k: int, b: int|
                0 <= k < 100 && 0 <= b < 8 ==> (#[trigger] bit_set(red@[k], b) <==> (bit_set(
                    old(red)@[k],
                    b,
                ) || exists|y: int|
                    row_dst <= y < phys_y && y < 480 && red_marks(
                        #[trigger] panel_gray(fb@, y, k, b),
                    ))),
            forall|k: int, b: int|
                0 <= k < 100 && 0 <= b < 8 ==> (#[trigger] bit_set(black@[k], b) <==> (bit_set(
                    old(black)@[k],
                    b,
                ) || exists|y: int|
                    row_dst <= y < phys_y && y < 480 && black_marks(
                        #[trigger] panel_gray(fb@, y, k, b),
                    ))),
        decreases row_end - phys_y,
    {
        let ghost red_before = red@;
        let ghost black_before = black@;
        let _ = fill_absolute_row_packed(fb, phys_y, red, black);
        assert forall|k: int, b: int| 0 <= k < 100 && 0 <= b < 8 implies (#[trigger] bit_set(red@[k],
            b,
        ) <==> (bit_set(old(red)@[k], b) || exists|y: int|
            row_dst <= y < phys_y + 1 && y < 480 && red_marks(
                #[trigger] panel_gray(fb@, y, k, b),
            ))) by {
            assert(bit_set(red@[k], b) <==> (bit_set(red_before[k], b) || red_marks(
                panel_gray(fb@, phys_y as int, k, b),
            )));
        }
        assert forall|k: int, b: int| 0 <= k < 100 && 0 <= b < 8 implies (#[trigger] bit_set(black@[k],
            b,
        ) <==> (bit_set(old(black)@[k], b) || exists|y: int|
            row_dst <= y < phys_y + 1 && y < 480 && black_marks(
                #[trigger] panel_gray(fb@, y, k, b),
            ))) by {
            assert(bit_set(black@[k], b) <==> (bit_set(black_before[k], b) || black_marks(
                panel_gray(fb@, phys_y as int, k, b),
            )));
        }
        phys_y = phys_y + 1;
    }
    assert forall|k: int, b: int| 0 <= k < 100 && 0 <= b < 8 implies (#[trigger] bit_set(red@[k], b) <==> (bit_set(
        old(red)@[k],
        b,
    ) || exists|y: int|
        strip * 16 <= y < strip * 16 + 16 && y < 480 && red_marks(
            #[trigger] panel_gray(fb@, y, k, b),
        ))) by {
        if exists|y: int|
            strip * 16 <= y < strip * 16 + 16 && y < 480 && red_marks(
                #[trigger] panel_gray(fb@, y, k, b),
            ) {
            let y = choose|y: int|
                strip * 16 <= y < strip * 16 + 16 && y < 480 && red_marks(
                    #[trigger] panel_gray(fb@, y, k, b),
                );
            assert(row_dst <= y < phys_y);
        }
        if exists|y: int|
            row_dst <= y < phys_y && y < 480 && red_marks(
                #[trigger] panel_gray(fb@, y, k, b),
            ) {
            let y = choose|y: int|
                row_dst <= y < phys_y && y < 480 && red_marks(
                    #[trigger] panel_gray(fb@, y, k, b),
                );
            assert(strip * 16 <= y < strip * 16 + 16);
        }
    }
    assert forall|k: int, b: int| 0 <= k < 100 && 0 <= b < 8 implies (#[trigger] bit_set(black@[k], b) <==> (bit_set(
        old(black)@[k],
        b,
    ) || exists|y: int|
        strip * 16 <= y < strip * 16 + 16 && y < 480 && black_marks(
            #[trigger] panel_gray(fb@, y, k, b),
        ))) by {
        if exists|y: int|
            strip * 16 <= y < strip * 16 + 16 && y < 480 && black_marks(
                #[trigger] panel_gray(fb@, y, k, b),
            ) {
            let y = choose|y: int|
                strip * 16 <= y < strip * 16 + 16 && y < 480 && black_marks(
                    #[trigger] panel_gray(fb@, y, k, b),
                );
            assert(row_dst <= y < phys_y);
        }
        if exists|y: int|
            row_dst <= y < phys_y && y < 480 && black_marks(
                #[trigger] panel_gray(fb@, y, k, b),
            ) {
            let y = choose|y: int|
                row_dst <= y < phys_y && y < 480 && black_marks(
                    #[trigger] panel_gray(fb@, y, k, b),
                );
            assert(strip * 16 <= y < strip * 16 + 16);
        }
    }
    Ok(())
}

/// Gathers panel row `phys_y` of the framebuffer as a canonical GRAY2 row,
/// the input of the staged plane conversion: 800 panel pixels, four to a
/// byte, the first in the top bits; panel pixel `x` shows page pixel
/// (`phys_y`, `799 - x`).
pub fn canonical_row_from_fb(fb: &Gray2Framebuffer, phys_y: u16, row: &mut [u8; 200])
    requires
        phys_y < 480,
    ensures
        forall|x: int|
            0 <= x < 800 ==> #[trigger] packed_pixel(final(row)@, x) == gray_at(
                fb@,
                (799 - x) * 480 + phys_y,
            ),
{
    let mut k: usize = 0;
    while k < 200
        invariant
            phys_y < 480,
            k <= 200,
            row@.len() == 200,
            forall|x: int|
                0 <= x < 4 * k ==> #[trigger] packed_pixel(row@, x) == gray_at(
                    fb@,
                    (799 - x) * 480 + phys_y,
                ),
        decreases 200 - k,
    {
        let x0 = (4 * k) as u16;
        let a = fb.get_pixel(phys_y, 799 - x0).value();
        let b = fb.get_pixel(phys_y, 799 - (x0 + 1)).value();
        let c = fb.get_pixel(phys_y, 799 - (x0 + 2)).value();
        let d = fb.get_pixel(phys_y, 799 - (x0 + 3)).value();
        let ghost before = row@;
        let byte: u8 = (a << 6u8) | (b << 4u8) | (c << 2u8) | d;
        row[k] = byte;
        proof {
            assert(row@ == before.update(k as int, byte));
            lemma_update_keeps_pixels(before, k as int, byte);
            lemma_packed_byte(row@, k as int, a, b, c, d);
            assert forall|x: int| 0 <= x < 4 * (k + 1) implies #[trigger] packed_pixel(row@, x)
                == gray_at(fb@, (799 - x) * 480 + phys_y) by {
                if x < 4 * k {
                    assert(packed_pixel(row@, x) == packed_pixel(before, x));
                }
            }
        }
        k = k + 1;
    }
}

} // verus!
