//! GRAY2 framebuffer of the 480×800 logical page: 2 bits per pixel, four
//! pixels per byte, row-major, the first pixel in the top bits of its byte.
//! Values: black 0, dark gray 1, light gray 2, white 3.

use vstd::prelude::*;
use vstd::array::*;
use vstd::slice::*;

verus! {

broadcast use {vstd::slice::group_slice_axioms, vstd::array::group_array_axioms};

/// Total byte size of the framebuffer (480 × 800 pixels, four per byte).
pub const FRAMEBUFFER_BYTES: usize = 96000;
/// Bytes of one logical row.
pub const FRAMEBUFFER_ROW_BYTES: usize = 120;

/// A 2-bit gray value.
#[derive(Copy, Clone, Debug, PartialEq, Eq)]
pub enum Gray2Color {
    Black,
    DarkGray,
    LightGray,
    White,
}

impl View for Gray2Color {
    type V = u8;

    open spec fn view(&self) -> u8 {
        match self {
            Gray2Color::Black => 0,
            Gray2Color::DarkGray => 1,
            Gray2Color::LightGray => 2,
            Gray2Color::White => 3,
        }
    }
}

impl Gray2Color {
    /// The color given by the two low bits of `value`.
    pub fn new(value: u8) -> (r: Self)
        ensures
            r@ == value & 3,
    {
        proof {
            assert(value & 3 < 4) by (bit_vector);
        }
        match value & 0x03 {
            0 => Gray2Color::Black,
            1 => Gray2Color::DarkGray,
            2 => Gray2Color::LightGray,
            _ => Gray2Color::White,
        }
    }

    /// The 2-bit value of the color.
    pub fn value(self) -> (r: u8)
        ensures
            r == self@,
            r < 4,
    {
        match self {
            Gray2Color::Black => 0,
            Gray2Color::DarkGray => 1,
            Gray2Color::LightGray => 2,
            Gray2Color::White => 3,
        }
    }
}

/// Index of a pixel in row-major order.
pub open spec fn pixel_index(x: u16, y: u16) -> int {
    y * 480 + x
}

/// Bit position of the two bits of pixel `i` within its byte.
pub open spec fn shift_of(i: int) -> u8 {
    (6 - (i % 4) * 2) as u8
}

/// The 2-bit value stored at pixel `i`.
pub open spec fn gray_at(data: Seq<u8>, i: int) -> u8 {
    (data[i / 4] >> shift_of(i)) & 3u8
}

/// A byte with the two bits at `shift` replaced by `c`.
pub open spec fn with_bits(b: u8, shift: u8, c: u8) -> u8 {
    (b & !((3u8 << shift) as u8)) | ((c << shift) as u8)
}

/// The byte whose four pixels all have value `c`.
pub open spec fn fill_byte(c: u8) -> u8 {
    if c == 0 {
        0x00u8
    } else if c == 1 {
        0x55u8
    } else if c == 2 {
        0xaau8
    } else {
        0xffu8
    }
}

pub struct Gray2Framebuffer {
    data: [u8; FRAMEBUFFER_BYTES],
}

impl View for Gray2Framebuffer {
    type V = Seq<u8>;

    closed spec fn view(&self) -> Seq<u8> {
        self.data@
    }
}

/// Replacing the bits of one pixel gives that pixel the new value and keeps
/// the other pixels of the byte.
pub proof fn lemma_with_bits(b: u8, s: u8, c: u8, t: u8)
    requires
        s == 0 || s == 2 || s == 4 || s == 6,
        t == 0 || t == 2 || t == 4 || t == 6,
        c < 4,
    ensures
        (with_bits(b, s, c) >> t) & 3u8 == if s == t {
            c
        } else {
            (b >> t) & 3u8
        },
{
    assert((s == 0 || s == 2 || s == 4 || s == 6) && (t == 0 || t == 2 || t == 4 || t == 6) && c
        < 4 ==> ((((b & !((3u8 << s) as u8)) | ((c << s) as u8)) >> t) & 3u8 == if s == t {
        c
    } else {
        (b >> t) & 3u8
    })) by (bit_vector);
}

/// Every pixel of a filled byte has the fill value.
pub proof fn lemma_fill_byte(c: u8, t: u8)
    requires
        c < 4,
        t == 0 || t == 2 || t == 4 || t == 6,
    ensures
        (fill_byte(c) >> t) & 3u8 == c,
{
    assert((t == 0 || t == 2 || t == 4 || t == 6) ==> (0x00u8 >> t) & 3u8 == 0) by (bit_vector);
    assert((t == 0 || t == 2 || t == 4 || t == 6) ==> (0x55u8 >> t) & 3u8 == 1) by (bit_vector);
    assert((t == 0 || t == 2 || t == 4 || t == 6) ==> (0xaau8 >> t) & 3u8 == 2) by (bit_vector);
    assert((t == 0 || t == 2 || t == 4 || t == 6) ==> (0xffu8 >> t) & 3u8 == 3) by (bit_vector);
}

impl Gray2Framebuffer {
    /// The framebuffer always holds `FRAMEBUFFER_BYTES` bytes.
    pub proof fn lemma_len(&self)
        ensures
            self@.len() == FRAMEBUFFER_BYTES,
    {
    }

    /// A white framebuffer.
    pub fn new() -> (r: Self)
        ensures
            r@ == Seq::new(FRAMEBUFFER_BYTES as nat, |i: int| 0xffu8),
    {
        let r = Self { data: [0xffu8; FRAMEBUFFER_BYTES] };
        assert(r@ =~= Seq::new(FRAMEBUFFER_BYTES as nat, |i: int| 0xffu8));
        r
    }

    /// Sets every pixel to `color`.
    pub fn clear(&mut self, color: Gray2Color)
        ensures
            final(self)@ == Seq::new(FRAMEBUFFER_BYTES as nat, |i: int| fill_byte(color@)),
    {
        let byte: u8 = match color {
            Gray2Color::Black => 0x00,
            Gray2Color::DarkGray => 0x55,
            Gray2Color::LightGray => 0xaa,
            Gray2Color::White => 0xff,
        };
        self.data = [byte; FRAMEBUFFER_BYTES];
        assert(self@ =~= Seq::new(FRAMEBUFFER_BYTES as nat, |i: int| fill_byte(color@)));
    }

    /// The byte holding pixel `(x, y)` and the shift of its two bits.
    pub fn pixel_offset(x: u16, y: u16) -> (r: (usize, u8))
        ensures
            r.0 == pixel_index(x, y) / 4,
            r.1 == shift_of(pixel_index(x, y)),
    {
        let logical_index = (y as usize) * 480 + (x as usize);
        let byte_index = logical_index / 4;
        let shift = 6 - (logical_index % 4) * 2;
        (byte_index, shift as u8)
    }

    /// The color of pixel `(x, y)`.
    pub fn get_pixel(&self, x: u16, y: u16) -> (r: Gray2Color)
        requires
            pixel_index(x, y) < FRAMEBUFFER_BYTES * 4,
        ensures
            r@ == gray_at(self@, pixel_index(x, y)),
    {
        let (index, shift) = Self::pixel_offset(x, y);
        let b: u8 = self.data[index];
        proof {
            assert(((b >> shift) & 3u8) & 3u8 == (b >> shift) & 3u8) by (bit_vector);
        }
        Gray2Color::new((b >> shift) & 0x03)
    }

    /// Gives pixel `(x, y)` the color `color`; every other pixel keeps its value.
    pub fn set_pixel(&mut self, x: u16, y: u16, color: Gray2Color)
        requires
            pixel_index(x, y) < FRAMEBUFFER_BYTES * 4,
        ensures
            final(self)@ == old(self)@.update(
                pixel_index(x, y) / 4,
                with_bits(old(self)@[pixel_index(x, y) / 4], shift_of(pixel_index(x, y)), color@),
            ),
    {
        let (index, shift) = Self::pixel_offset(x, y);
        let mask: u8 = 0x03u8 << shift;
        let updated: u8 = (self.data[index] & !mask) | (color.value() << shift);
        self.data[index] = updated;
    }

    /// The 120 bytes of logical row `y`.
    pub fn row(&self, y: u16) -> (r: &[u8])
        requires
            y < 800,
        ensures
            r@ == self@.subrange(y * 120, y * 120 + 120),
    {
        let start = (y as usize) * FRAMEBUFFER_ROW_BYTES;
        slice_subrange(self.data.as_slice(), start, start + FRAMEBUFFER_ROW_BYTES)
    }

    /// The 120 bytes of logical row `y`, writable in place; the rest of the
    /// framebuffer is left as it was.
    pub fn row_mut(&mut self, y: u16) -> (r: &mut [u8])
        requires
            y < 800,
        ensures
            r@ == old(self)@.subrange(y * 120, y * 120 + 120),
            final(self)@ == old(self)@.take(y * 120) + final(r)@ + old(self)@.skip(y * 120 + 120),
    {
        let start = (y as usize) * FRAMEBUFFER_ROW_BYTES;
        let all = ref_mut_array_unsizing_coercion(&mut self.data);
        let (_head, tail) = all.split_at_mut(start);
        let (row, _rest) = tail.split_at_mut(FRAMEBUFFER_ROW_BYTES);
        row
    }

    /// The packed framebuffer.
    pub fn as_bytes(&self) -> (r: &[u8])
        ensures
            r@ == self@,
            r@.len() == FRAMEBUFFER_BYTES,
    {
        self.data.as_slice()
    }

    /// The packed framebuffer, writable in place.
    pub fn as_bytes_mut(&mut self) -> (r: &mut [u8])
        ensures
            r@ == old(self)@,
            final(r)@ == final(self)@,
    {
        ref_mut_array_unsizing_coercion(&mut self.data)
    }
}

impl Default for Gray2Framebuffer {
    fn default() -> (r: Self)
        ensures
            r@ == Seq::new(FRAMEBUFFER_BYTES as nat, |i: int| 0xffu8),
    {
        Self::new()
    }
}

/// Reading a pixel gives back the color last set there, and setting one
/// pixel leaves every other pixel as it was.
pub proof fn lemma_set_then_get(data: Seq<u8>, i: int, c: u8, j: int)
    requires
        0 <= i < data.len() * 4,
        0 <= j < data.len() * 4,
        c < 4,
    ensures
        gray_at(data.update(i / 4, with_bits(data[i / 4], shift_of(i), c)), j) == if i == j {
            c
        } else {
            gray_at(data, j)
        },
{
    let d2 = data.update(i / 4, with_bits(data[i / 4], shift_of(i), c));
    if i / 4 == j / 4 {
        lemma_with_bits(data[i / 4], shift_of(i), c, shift_of(j));
    }
}

/// After `clear`, every pixel has the cleared color.
pub proof fn lemma_clear_then_get(c: u8, j: int)
    requires
        c < 4,
        0 <= j < FRAMEBUFFER_BYTES * 4,
    ensures
        gray_at(Seq::new(FRAMEBUFFER_BYTES as nat, |i: int| fill_byte(c)), j) == c,
{
    lemma_fill_byte(c, shift_of(j));
}

// ---------------------------------------------------------------------------
// Drawing
// ---------------------------------------------------------------------------

/// The lower edge of a clipped range: `v`, or 0 when negative, as a `u16`.
pub open spec fn clip_low(v: i32) -> u16 {
    (if v < 0 {
        0int
    } else {
        v as int
    }) as u16
}

/// The upper edge of a clipped range starting at `v` with `len` pixels, in a
/// dimension of `limit` pixels.
pub open spec fn clip_high(v: i32, len: u32, limit: i32) -> u16 {
    let end: int = v + (len as i32);
    let m: int = if end < limit {
        end
    } else {
        limit as int
    };
    (if m < 0 {
        0int
    } else {
        m
    }) as u16
}

/// Whether pixel `q` lies in the rectangle of columns `[x0, x1)` and rows
/// `[y0, y1)`.
pub open spec fn in_area(q: int, x0: int, x1: int, y0: int, y1: int) -> bool {
    x0 <= q % 480 < x1 && y0 <= q / 480 < y1
}

/// Every pixel has the value `f` gives it.
pub open spec fn pixels_are(data: Seq<u8>, f: spec_fn(int) -> u8) -> bool {
    forall|q: int| 0 <= q < 384000 ==> #[trigger] gray_at(data, q) == f(q)
}

impl Gray2Framebuffer {
    /// Sets pixel `(x, y)` to `color` when it lies on the page; other
    /// positions are ignored.
    pub fn draw_point(&mut self, x: i32, y: i32, color: Gray2Color)
        ensures
            pixels_are(
                final(self)@,
                |q: int|
                    if 0 <= x < 480 && 0 <= y < 800 && q == y * 480 + x {
                        color@
                    } else {
                        gray_at(old(self)@, q)
                    },
            ),
    {
        let ghost before = self@;
        proof {
            self.lemma_len();
        }
        if x >= 0 && x < 480 && y >= 0 && y < 800 {
            self.set_pixel(x as u16, y as u16, color);
            proof {
                assert forall|q: int| 0 <= q < 384000 implies #[trigger] gray_at(self@, q) == (
                if q == y * 480 + x {
                    color@
                } else {
                    gray_at(before, q)
                }) by {
                    lemma_set_then_get(before, pixel_index(x as u16, y as u16), color@, q);
                }
            }
        }
    }

    /// Sets one pixel inside the page and says so pixel by pixel.
    fn put(&mut self, x: u16, y: u16, color: Gray2Color)
        requires
            x < 480,
            y < 800,
        ensures
            forall|q: int|
                0 <= q < 384000 ==> #[trigger] gray_at(final(self)@, q) == if q == y * 480 + x {
                    color@
                } else {
                    gray_at(old(self)@, q)
                },
    {
        let ghost before = self@;
        proof {
            self.lemma_len();
        }
        self.set_pixel(x, y, color);
        proof {
            assert forall|q: int| 0 <= q < 384000 implies #[trigger] gray_at(self@, q) == (if q == y
                * 480 + x {
                color@
            } else {
                gray_at(before, q)
            }) by {
                lemma_set_then_get(before, pixel_index(x, y), color@, q);
            }
        }
    }

    /// Fills the part of the rectangle at `(x, y)` of `width` × `height`
    /// pixels that lies on the page with `color`.
    pub fn fill_solid(&mut self, x: i32, y: i32, width: u32, height: u32, color: Gray2Color)
        requires
            i32::MIN <= x + (width as i32) <= i32::MAX,
            i32::MIN <= y + (height as i32) <= i32::MAX,
        ensures
            pixels_are(
                final(self)@,
                |q: int|
                    if in_area(
                        q,
                        clip_low(x) as int,
                        clip_high(x, width, 480) as int,
                        clip_low(y) as int,
                        clip_high(y, height, 800) as int,
                    ) {
                        color@
                    } else {
                        gray_at(old(self)@, q)
                    },
            ),
    {
        let ghost before = self@;
        let x0: u16 = if x < 0 { 0 } else { x as u16 };
        let y0: u16 = if y < 0 { 0 } else { y as u16 };
        let xe: i32 = x + width as i32;
        let xm: i32 = if xe < 480 { xe } else { 480 };
        let x1: u16 = if xm < 0 { 0 } else { xm as u16 };
        let ye: i32 = y + height as i32;
        let ym: i32 = if ye < 800 { ye } else { 800 };
        let y1: u16 = if ym < 0 { 0 } else { ym as u16 };
        let w: u16 = x1.saturating_sub(x0);
        assert(x0 == clip_low(x) && y0 == clip_low(y));
        assert(x1 == clip_high(x, width, 480) && y1 == clip_high(y, height, 800));
        let mut row: u16 = y0;
        while row < y1
            invariant
                x1 <= 480,
                y1 <= 800,
                w == (if x1 > x0 { x1 - x0 } else { 0 }),
                y0 <= row,
                row <= y1 || row == y0,
                pixels_are(
                    self@,
                    |q: int|
                        if in_area(q, x0 as int, x1 as int, y0 as int, row as int) {
                            color@
                        } else {
                            gray_at(before, q)
                        },
                ),
            decreases y1 - row,
        {
            let mut col: u16 = x0;
            let end: u16 = x0.saturating_add(w);
            while col < end
                invariant
                    x1 <= 480,
                    row < y1 <= 800,
                    y0 <= row,
                    end == (if x1 > x0 { x1 } else { x0 }),
                    x0 <= col,
                    col <= end,
                    pixels_are(
                        self@,
                        |q: int|
                            if in_area(q, x0 as int, x1 as int, y0 as int, row as int) || (q / 480
                                == row && x0 <= q % 480 < col) {
                                color@
                            } else {
                                gray_at(before, q)
                            },
                    ),
                decreases end - col,
            {
                let ghost prev = self@;
                self.put(col, row, color);
                assert forall|q: int| 0 <= q < 384000 implies #[trigger] gray_at(self@, q) == (if in_area(
                    q,
                    x0 as int,
                    x1 as int,
                    y0 as int,
                    row as int,
                ) || (q / 480 == row && x0 <= q % 480 < col + 1) {
                    color@
                } else {
                    gray_at(before, q)
                }) by {
                    assert(gray_at(prev, q) == (if in_area(q, x0 as int, x1 as int, y0 as int, row as int)
                        || (q / 480 == row && x0 <= q % 480 < col) {
                        color@
                    } else {
                        gray_at(before, q)
                    }));
                    if q == row * 480 + col {
                        assert(q / 480 == row && q % 480 == col);
                    }
                }
                col = col + 1;
            }
            assert forall|q: int| 0 <= q < 384000 implies #[trigger] gray_at(self@, q) == (if in_area(
                q,
                x0 as int,
                x1 as int,
                y0 as int,
                row + 1,
            ) {
                color@
            } else {
                gray_at(before, q)
            }) by {
                assert(gray_at(self@, q) == (if in_area(q, x0 as int, x1 as int, y0 as int, row as int)
                    || (q / 480 == row && x0 <= q % 480 < col) {
                    color@
                } else {
                    gray_at(before, q)
                }));
            }
            row = row + 1;
        }
        assert forall|q: int| 0 <= q < 384000 implies #[trigger] gray_at(self@, q) == (if in_area(
            q,
            clip_low(x) as int,
            clip_high(x, width, 480) as int,
            clip_low(y) as int,
            clip_high(y, height, 800) as int,
        ) {
            color@
        } else {
            gray_at(before, q)
        }) by {
            assert(gray_at(self@, q) == (if in_area(q, x0 as int, x1 as int, y0 as int, row as int) {
                color@
            } else {
                gray_at(before, q)
            }));
            if y1 > y0 {
                assert(row == y1);
            }
        }
    }

    /// Fills the part of the rectangle at `(x, y)` of `width` × `height`
    /// pixels that lies on the page, row by row, with the colors of `colors`
    /// in order; positions past the end of `colors` keep their value.
    pub fn fill_contiguous(
        &mut self,
        x: i32,
        y: i32,
        width: u32,
        height: u32,
        colors: &[Gray2Color],
    )
        requires
            i32::MIN <= x + (width as i32) <= i32::MAX,
            i32::MIN <= y + (height as i32) <= i32::MAX,
        ensures
            pixels_are(
                final(self)@,
                |q: int|
                    contiguous_pixel(
                        old(self)@,
                        colors@,
                        clip_low(x) as int,
                        clip_high(x, width, 480) as int,
                        clip_low(y) as int,
                        clip_high(y, height, 800) as int,
                        q,
                    ),
            ),
    {
        let ghost before = self@;
        let x0: u16 = if x < 0 { 0 } else { x as u16 };
        let y0: u16 = if y < 0 { 0 } else { y as u16 };
        let xe: i32 = x + width as i32;
        let xm: i32 = if xe < 480 { xe } else { 480 };
        let x1: u16 = if xm < 0 { 0 } else { xm as u16 };
        let ye: i32 = y + height as i32;
        let ym: i32 = if ye < 800 { ye } else { 800 };
        let y1: u16 = if ym < 0 { 0 } else { ym as u16 };
        let w: u16 = x1.saturating_sub(x0);
        let h: u16 = y1.saturating_sub(y0);
        assert(x0 == clip_low(x) && y0 == clip_low(y));
        assert(x1 == clip_high(x, width, 480) && y1 == clip_high(y, height, 800));
        let mut next: usize = 0;
        let mut row: u16 = y0;
        let row_end: u16 = y0.saturating_add(h);
        while row < row_end
            invariant
                x1 <= 480,
                y1 <= 800,
                w == (if x1 > x0 { x1 - x0 } else { 0 }),
                row_end == (if y1 > y0 { y1 } else { y0 }),
                y0 <= row <= row_end,
                next == (row - y0) * w,
                pixels_are(
                    self@,
                    |q: int|
                        contiguous_pixel(
                            before,
                            colors@,
                            x0 as int,
                            x1 as int,
                            y0 as int,
                            row as int,
                            q,
                        ),
                ),
            decreases row_end - row,
        {
            self.fill_contiguous_row(x0, x1, y0, row, w, next, colors, Ghost(before));
            proof {
                assert((row + 1 - y0) * w == (row - y0) * w + w) by (nonlinear_arith);
                assert((row + 1 - y0) * w <= 800 * 480) by (nonlinear_arith)
                    requires
                        y0 <= row < 800,
                        w <= 480,
                ;
            }
            next = next + w as usize;
            row = row + 1;
        }
        assert forall|q: int| 0 <= q < 384000 implies #[trigger] gray_at(self@, q)
            == contiguous_pixel(before, colors@, x0 as int, x1 as int, y0 as int, y1 as int, q) by {
            assert(gray_at(self@, q) == contiguous_pixel(
                before,
                colors@,
                x0 as int,
                x1 as int,
                y0 as int,
                row as int,
                q,
            ));
            if y1 > y0 {
                assert(row == y1);
            } else {
                assert(row == y0);
            }
        }
    }

    /// Writes row `row` of a contiguous fill: columns `[x0, x1)` take the
    /// colors from position `next` on.
    fn fill_contiguous_row(
        &mut self,
        x0: u16,
        x1: u16,
        y0: u16,
        row: u16,
        w: u16,
        next: usize,
        colors: &[Gray2Color],
        Ghost(before): Ghost<Seq<u8>>,
    )
        requires
            x1 <= 480,
            y0 <= row < 800,
            w == (if x1 > x0 { x1 - x0 } else { 0 }),
            next == (row - y0) * w,
            pixels_are(
                old(self)@,
                |q: int|
                    contiguous_pixel(
                        before,
                        colors@,
                        x0 as int,
                        x1 as int,
                        y0 as int,
                        row as int,
                        q,
                    ),
            ),
        ensures
            pixels_are(
                final(self)@,
                |q: int|
                    contiguous_pixel(
                        before,
                        colors@,
                        x0 as int,
                        x1 as int,
                        y0 as int,
                        row + 1,
                        q,
                    ),
            ),
    {
        let end: u16 = x0.saturating_add(w);
        let mut col: u16 = x0;
        let mut k: usize = next;
        while col < end
            invariant
                x1 <= 480,
                y0 <= row < 800,
                w == (if x1 > x0 { x1 - x0 } else { 0 }),
                end == (if x1 > x0 { x1 } else { x0 }),
                x0 <= col <= end,
                k == (row - y0) * w + (col - x0),
                pixels_are(
                    self@,
                    |q: int|
                        if q / 480 == row && x0 <= q % 480 < col {
                            contiguous_pixel(
                                before,
                                colors@,
                                x0 as int,
                                x1 as int,
                                y0 as int,
                                row + 1,
                                q,
                            )
                        } else {
                            contiguous_pixel(
                                before,
                                colors@,
                                x0 as int,
                                x1 as int,
                                y0 as int,
                                row as int,
                                q,
                            )
                        },
                ),
            decreases end - col,
        {
            let ghost prev = self@;
            assert(k < 384000) by (nonlinear_arith)
                requires
                    k == (row - y0) * w + (col - x0),
                    y0 <= row < 800,
                    w <= 480,
                    x0 <= col,
                    col - x0 < w,
            ;
            if k < colors.len() {
                self.put(col, row, colors[k]);
            }
            assert forall|q: int| 0 <= q < 384000 implies #[trigger] gray_at(self@, q) == (if q
                / 480 == row && x0 <= q % 480 < col + 1 {
                contiguous_pixel(before, colors@, x0 as int, x1 as int, y0 as int, row + 1, q)
            } else {
                contiguous_pixel(before, colors@, x0 as int, x1 as int, y0 as int, row as int, q)
            }) by {
                assert(gray_at(prev, q) == (if q / 480 == row && x0 <= q % 480 < col {
                    contiguous_pixel(before, colors@, x0 as int, x1 as int, y0 as int, row + 1, q)
                } else {
                    contiguous_pixel(before, colors@, x0 as int, x1 as int, y0 as int, row as int, q)
                }));
                if q == row * 480 + col {
                    assert(q / 480 == row && q % 480 == col);
                    assert(in_area(q, x0 as int, x1 as int, y0 as int, row + 1));
                    assert(!in_area(q, x0 as int, x1 as int, y0 as int, row as int));
                } else if q / 480 == row && q % 480 == col {
                    assert(q == row * 480 + col);
                }
            }
            k = k + 1;
            col = col + 1;
        }
        assert forall|q: int| 0 <= q < 384000 implies #[trigger] gray_at(self@, q)
            == contiguous_pixel(before, colors@, x0 as int, x1 as int, y0 as int, row + 1, q) by {
            assert(gray_at(self@, q) == (if q / 480 == row && x0 <= q % 480 < col {
                contiguous_pixel(before, colors@, x0 as int, x1 as int, y0 as int, row + 1, q)
            } else {
                contiguous_pixel(before, colors@, x0 as int, x1 as int, y0 as int, row as int, q)
            }));
            if q / 480 != row || !(x0 <= q % 480 < x1) {
                assert(in_area(q, x0 as int, x1 as int, y0 as int, row + 1) == in_area(
                    q,
                    x0 as int,
                    x1 as int,
                    y0 as int,
                    row as int,
                ));
            }
        }
    }
}

/// What pixel `q` holds after a contiguous fill of columns `[x0, x1)` and
/// rows `[y0, y1)` of a page that held `before`: the color at the pixel's
/// position in the clipped rectangle, taken row by row, where `colors` has
/// one; otherwise the value it held.
pub open spec fn contiguous_pixel(
    before: Seq<u8>,
    colors: Seq<Gray2Color>,
    x0: int,
    x1: int,
    y0: int,
    y1: int,
    q: int,
) -> u8 {
    let w = if x1 > x0 {
        x1 - x0
    } else {
        0
    };
    let k = (q / 480 - y0) * w + (q % 480 - x0);
    if in_area(q, x0, x1, y0, y1) && k < colors.len() {
        colors[k]@
    } else {
        gray_at(before, q)
    }
}

} // verus!
