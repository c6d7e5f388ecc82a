//! Panel geometry seen from the firmware, and the corner smoke pattern.

use vstd::prelude::*;
use vstd::array::*;
use crate::display::stream::CompressionMethod;

verus! {

#[derive(Debug, Clone, Copy, PartialEq, Eq, Structural)]
pub enum PanelMode {
    Unknown,
    Grayscale,
    Bw,
}

#[derive(Debug, Clone, Copy, PartialEq, Eq, Structural)]
pub enum GrayRenderOutcome {
    Completed,
    Cancelled,
}

#[derive(Debug, Clone, Copy, PartialEq, Eq, Structural)]
pub enum BaseSyncOutcome {
    Completed,
    Cancelled,
}

pub const GRAY1_ROW_BYTES: usize = 60;
pub const GRAY2_ROW_BYTES: usize = 200;
pub const DISPLAY_ROW_BYTES: usize = 100;
pub const PAGE_WIDTH: u16 = 480;
pub const PAGE_HEIGHT: u16 = 800;
pub const DISPLAY_WIDTH: u16 = 800;
pub const DISPLAY_HEIGHT: u16 = 480;
pub const PROBE_BOX_WIDTH: u16 = 128;
pub const PROBE_BOX_HEIGHT: u16 = 96;
pub const X4_CHUNK_ROWS: u16 = 16;

/// The panel position of page pixel `(x, y)`: page row `y` is panel column
/// `799 - y`, page column `x` is panel row `x`.
pub fn logical_to_physical(logical_x: u16, logical_y: u16) -> (r: (u16, u16))
    requires
        logical_y < PAGE_HEIGHT,
    ensures
        r == ((PAGE_HEIGHT - 1 - logical_y) as u16, logical_x),
{
    (PAGE_HEIGHT - 1 - logical_y, logical_x)
}

/// The four 128×96 windows in the panel corners, as (x, y, width, height):
/// top left, top right, bottom left, bottom right.
pub fn smoke_probe_windows() -> (r: [(u16, u16, u16, u16); 4])
    ensures
        r@ == seq![
            (0u16, 0u16, 128u16, 96u16),
            (672u16, 0u16, 128u16, 96u16),
            (0u16, 384u16, 128u16, 96u16),
            (672u16, 384u16, 128u16, 96u16),
        ],
{
    let r = [
        (0, 0, PROBE_BOX_WIDTH, PROBE_BOX_HEIGHT),
        (DISPLAY_WIDTH - PROBE_BOX_WIDTH, 0, PROBE_BOX_WIDTH, PROBE_BOX_HEIGHT),
        (0, DISPLAY_HEIGHT - PROBE_BOX_HEIGHT, PROBE_BOX_WIDTH, PROBE_BOX_HEIGHT),
        (
            DISPLAY_WIDTH - PROBE_BOX_WIDTH,
            DISPLAY_HEIGHT - PROBE_BOX_HEIGHT,
            PROBE_BOX_WIDTH,
            PROBE_BOX_HEIGHT,
        ),
    ];
    assert(r@ =~= seq![
        (0u16, 0u16, 128u16, 96u16),
        (672u16, 0u16, 128u16, 96u16),
        (0u16, 384u16, 128u16, 96u16),
        (672u16, 384u16, 128u16, 96u16),
    ]);
    r
}

/// The byte of panel row `row` at `index` in the smoke pattern: black (0x00)
/// in the 16 bytes at each end of the rows that cross a corner window, white
/// (0xFF) elsewhere.
pub open spec fn smoke_byte(row: u16, index: int) -> u8 {
    if (row < 96 || row >= 384) && (index < 16 || index >= 84) {
        0x00
    } else {
        0xFF
    }
}

/// Fills `row_buf` with panel row `row` of the smoke pattern.
pub fn build_display_smoke_row(row: u16, row_buf: &mut [u8; DISPLAY_ROW_BYTES])
    ensures
        forall|i: int| 0 <= i < 100 ==> #[trigger] final(row_buf)@[i] == smoke_byte(row, i),
{
    let corner_row = row < PROBE_BOX_HEIGHT || row >= DISPLAY_HEIGHT - PROBE_BOX_HEIGHT;
    let probe_byte_width = (PROBE_BOX_WIDTH / 8) as usize;
    let mut i: usize = 0;
    while i < DISPLAY_ROW_BYTES
        invariant
            i <= 100,
            probe_byte_width == 16,
            corner_row == (row < 96 || row >= 384),
            row_buf@.len() == 100,
            forall|j: int| 0 <= j < i ==> #[trigger] row_buf@[j] == smoke_byte(row, j),
        decreases 100 - i,
    {
        let byte: u8 = if corner_row && (i < probe_byte_width || i >= DISPLAY_ROW_BYTES
            - probe_byte_width) {
            0x00
        } else {
            0xFF
        };
        row_buf[i] = byte;
        i = i + 1;
    }
}

// ---------------------------------------------------------------------------
// Stored pages and chunks
// ---------------------------------------------------------------------------

/// How a stored page packs its pixels.
#[derive(Debug, Clone, Copy, PartialEq, Eq, Structural)]
pub enum PixelFormat {
    Gray1Packed,
    Gray2Packed,
}

/// Where a plane or chunk lies, relative to the page data.
#[derive(Debug, Clone, Copy, PartialEq, Eq, Structural)]
pub struct StoredSpan {
    pub offset: u64,
    pub length: u32,
}

/// What the firmware reads of a stored page record.
#[derive(Debug, Clone, Copy, PartialEq, Eq, Structural)]
pub struct PageLayout {
    pub pixel_format: PixelFormat,
    pub compression_method: CompressionMethod,
    pub stored_width: u16,
    pub stored_height: u16,
    /// One bit per plane slot that the page stores.
    pub plane_bitmap: u8,
    /// The first overlay plane, when the page stores it.
    pub overlay_msb: Option<StoredSpan>,
}

/// Whether a page is one the embedded book path shows: packed GRAY2,
/// PackBits, panel-sized, with only the first plane.
pub open spec fn embedded_gray2(page: PageLayout) -> bool {
    &&& page.pixel_format == PixelFormat::Gray2Packed
    &&& page.compression_method == CompressionMethod::RlePackBits
    &&& page.stored_width == DISPLAY_WIDTH
    &&& page.stored_height == DISPLAY_HEIGHT
    &&& page.plane_bitmap == 0x01
}

pub fn is_supported_embedded_gray2_page(page: &PageLayout) -> (r: bool)
    ensures
        r == embedded_gray2(*page),
{
    page.pixel_format == PixelFormat::Gray2Packed && page.compression_method
        == CompressionMethod::RlePackBits && page.stored_width == DISPLAY_WIDTH
        && page.stored_height == DISPLAY_HEIGHT && page.plane_bitmap == 0x01
}

/// The byte range `[start, end)` of a span of the page data in a book of
/// `book_len` bytes: none when the sums pass the address range or the span
/// runs past the book.
pub open spec fn span_range(book_len: nat, page_data_offset: u64, span: StoredSpan) -> Option<
    (int, int),
> {
    let start = page_data_offset + span.offset;
    let end = start + span.length;
    if start > u64::MAX || start > usize::MAX || end > usize::MAX || end > book_len {
        None
    } else {
        Some((start, end))
    }
}

/// The bytes of a span of the page data within the book.
fn span_slice<'a>(book_bytes: &'a [u8], page_data_offset: u64, span: StoredSpan) -> (r: Option<
    &'a [u8],
>)
    ensures
        match span_range(book_bytes@.len(), page_data_offset, span) {
            Some((start, end)) => (r matches Some(b) && b@ == book_bytes@.subrange(start, end)),
            None => r is None,
        },
{
    let offset = match page_data_offset.checked_add(span.offset) {
        Some(o) => o,
        None => return None,
    };
    if offset > usize::MAX as u64 {
        return None;
    }
    let start = offset as usize;
    if (span.length as u64) > (usize::MAX as u64) {
        return None;
    }
    let size = span.length as usize;
    let end = match start.checked_add(size) {
        Some(e) => e,
        None => return None,
    };
    if end > book_bytes.len() {
        return None;
    }
    Some(vstd::slice::slice_subrange(book_bytes, start, end))
}

/// The first plane of a supported page, within the book: none for a page
/// the embedded path does not show, one without that plane, or a plane that
/// does not lie within the book.
pub fn embedded_page_slice<'a>(book_bytes: &'a [u8], page_data_offset: u64, page: &PageLayout) -> (r:
    Option<&'a [u8]>)
    ensures
        !embedded_gray2(*page) || page.overlay_msb is None ==> r is None,
        embedded_gray2(*page) && page.overlay_msb is Some ==> match span_range(
            book_bytes@.len(),
            page_data_offset,
            page.overlay_msb->Some_0,
        ) {
            Some((start, end)) => (r matches Some(b) && b@ == book_bytes@.subrange(start, end)),
            None => r is None,
        },
{
    if !is_supported_embedded_gray2_page(page) {
        return None;
    }
    match page.overlay_msb {
        Some(span) => span_slice(book_bytes, page_data_offset, span),
        None => None,
    }
}

/// The compressed bytes of a chunk within the book, when they lie within it.
pub fn embedded_chunk_slice<'a>(book_bytes: &'a [u8], page_data_offset: u64, chunk: &StoredSpan) -> (r:
    Option<&'a [u8]>)
    ensures
        match span_range(book_bytes@.len(), page_data_offset, *chunk) {
            Some((start, end)) => (r matches Some(b) && b@ == book_bytes@.subrange(start, end)),
            None => r is None,
        },
{
    span_slice(book_bytes, page_data_offset, *chunk)
}

/// A recorded page-to-page transition and the chunks it changes.
#[derive(Debug, Clone, Copy, PartialEq, Eq, Structural)]
pub struct Transition {
    pub from: u32,
    pub to: u32,
    pub changed_chunk_mask: u32,
}

/// The changed-chunk mask for going from `previous` to `target`: that of the
/// first readable transition between them; none without a previous page, for
/// the same page, or when no transition matches. Entries that could not be
/// read are `None`.
pub open spec fn transition_mask(previous: Option<u32>, target: u32, transitions: Seq<Option<Transition>>) -> Option<u32>
    decreases transitions.len(),
{
    match previous {
        None => None,
        Some(prev) => if prev == target || transitions.len() == 0 {
            None
        } else {
            match transitions[0] {
                Some(t) => if t.from == prev && t.to == target {
                    Some(t.changed_chunk_mask)
                } else {
                    transition_mask(previous, target, transitions.drop_first())
                },
                None => transition_mask(previous, target, transitions.drop_first()),
            }
        },
    }
}

pub fn find_transition_mask(previous_page: Option<u32>, target_page: u32, transitions: &[Option<Transition>]) -> (r: Option<u32>)
    ensures
        r == transition_mask(previous_page, target_page, transitions@),
{
    let prev = match previous_page {
        Some(p) => p,
        None => return None,
    };
    if prev == target_page {
        return None;
    }
    let mut i: usize = 0;
    assert(transitions@.skip(0) =~= transitions@);
    while i < transitions.len()
        invariant
            i <= transitions@.len(),
            previous_page == Some(prev),
            prev != target_page,
            transition_mask(previous_page, target_page, transitions@) == transition_mask(
                previous_page,
                target_page,
                transitions@.skip(i as int),
            ),
        decreases transitions@.len() - i,
    {
        assert(transitions@.skip(i as int)[0] == transitions@[i as int]);
        assert(transitions@.skip(i as int).drop_first() =~= transitions@.skip(i + 1));
        if let Some(t) = transitions[i] {
            if t.from == prev && t.to == target_page {
                return Some(t.changed_chunk_mask);
            }
        }
        i = i + 1;
    }
    None
}

} // verus!
