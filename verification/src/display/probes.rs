//! Panel probes: full refresh, clear to white, and four corner boxes.

use vstd::prelude::*;

verus! {

pub const DISPLAY_WIDTH: u16 = 800;
pub const DISPLAY_HEIGHT: u16 = 480;
pub const DISPLAY_ROW_BYTES: usize = 100;
pub const PROBE_BOX_WIDTH: u16 = 128;
pub const PROBE_BOX_HEIGHT: u16 = 96;

#[derive(Debug, Clone, Copy, PartialEq, Eq, Structural)]
pub enum ProbeKind {
    FullRefreshCurrent,
    ClearWhite,
    WindowCorners,
}

/// The four corner windows `(x, y, width, height)`: top-left, top-right,
/// bottom-left, bottom-right, each one probe box large.
pub fn corner_windows() -> (r: [(u16, u16, u16, u16); 4])
    ensures
        r@ == seq![
            (0u16, 0u16, PROBE_BOX_WIDTH, PROBE_BOX_HEIGHT),
            ((DISPLAY_WIDTH - PROBE_BOX_WIDTH) as u16, 0u16, PROBE_BOX_WIDTH, PROBE_BOX_HEIGHT),
            (0u16, (DISPLAY_HEIGHT - PROBE_BOX_HEIGHT) as u16, PROBE_BOX_WIDTH, PROBE_BOX_HEIGHT),
            (
                (DISPLAY_WIDTH - PROBE_BOX_WIDTH) as u16,
                (DISPLAY_HEIGHT - PROBE_BOX_HEIGHT) as u16,
                PROBE_BOX_WIDTH,
                PROBE_BOX_HEIGHT,
            ),
        ],
{
    let r = [
        (0, 0, PROBE_BOX_WIDTH, PROBE_BOX_HEIGHT),
        (DISPLAY_WIDTH - PROBE_BOX_WIDTH, 0, PROBE_BOX_WIDTH, PROBE_BOX_HEIGHT),
        (0, DISPLAY_HEIGHT - PROBE_BOX_HEIGHT, PROBE_BOX_WIDTH, PROBE_BOX_HEIGHT),
        (
            DISPLAY_WIDTH - PROBE_BOX_WIDTH,
            DISPLAY_HEIGHT - PROBE_BOX_HEIGHT,
            PROBE_BOX_WIDTH,
            PROBE_BOX_HEIGHT,
        ),
    ];
    assert(r@ =~= seq![
        (0u16, 0u16, PROBE_BOX_WIDTH, PROBE_BOX_HEIGHT),
        ((DISPLAY_WIDTH - PROBE_BOX_WIDTH) as u16, 0u16, PROBE_BOX_WIDTH, PROBE_BOX_HEIGHT),
        (0u16, (DISPLAY_HEIGHT - PROBE_BOX_HEIGHT) as u16, PROBE_BOX_WIDTH, PROBE_BOX_HEIGHT),
        (
            (DISPLAY_WIDTH - PROBE_BOX_WIDTH) as u16,
            (DISPLAY_HEIGHT - PROBE_BOX_HEIGHT) as u16,
            PROBE_BOX_WIDTH,
            PROBE_BOX_HEIGHT,
        ),
    ]);
    r
}

/// One panel row of the corner probe: white, except black corner boxes
/// (the first and last 16 bytes) in the top and bottom box-height rows.
pub open spec fn corner_row(row: u16) -> Seq<u8> {
    Seq::new(
        DISPLAY_ROW_BYTES as nat,
        |i: int|
            if (row < PROBE_BOX_HEIGHT || row >= DISPLAY_HEIGHT - PROBE_BOX_HEIGHT) && (i < 16 || i
                >= DISPLAY_ROW_BYTES - 16) {
                0u8
            } else {
                0xffu8
            },
    )
}

pub fn build_corner_row(row: u16, output: &mut [u8; DISPLAY_ROW_BYTES])
    ensures
        final(output)@ == corner_row(row),
{
    let in_band = row < PROBE_BOX_HEIGHT || row >= DISPLAY_HEIGHT - PROBE_BOX_HEIGHT;
    let width: usize = (PROBE_BOX_WIDTH / 8) as usize;
    let mut i: usize = 0;
    while i < DISPLAY_ROW_BYTES
        invariant
            i <= DISPLAY_ROW_BYTES,
            width == 16,
            output@.len() == DISPLAY_ROW_BYTES,
            in_band == (row < PROBE_BOX_HEIGHT || row >= DISPLAY_HEIGHT - PROBE_BOX_HEIGHT),
            forall|j: int| 0 <= j < i ==> output@[j] == corner_row(row)[j],
        decreases DISPLAY_ROW_BYTES - i,
    {
        let v: u8 = if in_band && (i < width || i >= DISPLAY_ROW_BYTES - width) {
            0
        } else {
            0xff
        };
        output[i] = v;
        i = i + 1;
    }
    assert(output@ =~= corner_row(row));
}

} // verus!
