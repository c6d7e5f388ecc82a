//! Decoding one plane of a page row by row: the plane's bytes are read from
//! the book into a small input buffer and decoded into each row as it is
//! asked for. Reading the book and running the PackBits decoder are the
//! caller's part; this module decides what to read and decode next.

use vstd::prelude::*;
use crate::display::error::{DisplayError, DisplayResult};
use crate::display::stream::CompressionMethod;

verus! {

/// What filling a row asks of the caller next.
#[derive(Debug, Clone, Copy, PartialEq, Eq, Structural)]
pub enum PlaneStep {
    /// Read `len` bytes of the plane at `offset` straight into the row.
    ReadRow { offset: u32, len: usize },
    /// Read `len` bytes of the plane at `offset` into the start of the
    /// input buffer.
    ReadInput { offset: u32, len: usize },
    /// Run the decoder from input bytes `[input_start, input_end)` into row
    /// bytes `[output_start, output_end)`, and report what it consumed and
    /// produced.
    Decode { input_start: usize, input_end: usize, output_start: usize, output_end: usize },
    /// The row is filled.
    Done,
    /// The fill failed with this error.
    Fail(DisplayError),
}

/// The state of a plane decoder.
pub struct PlaneDecoderView {
    pub plane_length: u32,
    pub compression: CompressionMethod,
    /// Plane bytes read so far.
    pub source_position: u32,
    /// The decoder's place in the input buffer, and where its bytes end.
    pub input_position: usize,
    pub input_length: usize,
    /// The input buffer and the row of the fill in progress, and how much of
    /// the row is filled.
    pub input_cap: usize,
    pub target: usize,
    pub written: usize,
    /// The read that must come next.
    pub refill: Option<usize>,
    pub failed: Option<DisplayError>,
}

pub open spec fn plane_wf(v: PlaneDecoderView) -> bool {
    &&& v.input_position <= v.input_length <= v.input_cap
    &&& v.written <= v.target
    &&& v.failed is None && v.written < v.target ==> v.input_cap > 0
    &&& !(v.compression is Uncompressed) ==> {
        &&& v.source_position <= v.plane_length
        &&& v.refill matches Some(n) ==> 0 < n <= v.input_cap && v.source_position + n
            <= v.plane_length
    }
}

/// What the decoder asks for next.
pub open spec fn plane_step(v: PlaneDecoderView) -> PlaneStep {
    if v.failed is Some {
        PlaneStep::Fail(v.failed->Some_0)
    } else if v.compression is Uncompressed {
        if v.refill is Some {
            PlaneStep::ReadRow { offset: v.source_position, len: v.target }
        } else {
            PlaneStep::Done
        }
    } else if v.written >= v.target {
        PlaneStep::Done
    } else if v.refill is Some {
        PlaneStep::ReadInput { offset: v.source_position, len: v.refill->Some_0 }
    } else {
        PlaneStep::Decode {
            input_start: v.input_position,
            input_end: v.input_length,
            output_start: v.written,
            output_end: v.target,
        }
    }
}

/// The decoder once a fill of a row of `target` bytes through an input
/// buffer of `input_cap` bytes starts: an empty input buffer is too small,
/// LZ4 planes cannot be decoded row by row, stored planes read the row
/// directly, PackBits planes decode into it.
pub open spec fn fill_started(v: PlaneDecoderView, input_cap: usize, target: usize) -> PlaneDecoderView {
    let v1 = PlaneDecoderView { input_cap, target, written: 0, refill: None, failed: None, ..v };
    if input_cap == 0 {
        PlaneDecoderView {
            failed: Some(DisplayError::BufferTooSmall { required: 1, provided: 0 }),
            ..v1
        }
    } else {
        match v.compression {
            CompressionMethod::Uncompressed => PlaneDecoderView { refill: Some(target), ..v1 },
            CompressionMethod::RlePackBits => v1,
            CompressionMethod::Lz4 => PlaneDecoderView { failed: Some(DisplayError::Decode), ..v1 },
        }
    }
}

/// The decoder after the decoder consumed and produced that many bytes. A
/// step that does neither needs more input: a decode error when input is
/// left unconsumed or the plane is used up, else a read of as much of the
/// rest of the plane as the input buffer holds.
pub open spec fn plane_after_decoded(v: PlaneDecoderView, consumed: usize, produced: usize) -> PlaneDecoderView {
    let v1 = PlaneDecoderView {
        input_position: (v.input_position + consumed) as usize,
        written: (v.written + produced) as usize,
        ..v
    };
    let remaining = v1.plane_length - v1.source_position;
    if consumed == 0 && produced == 0 {
        if v1.input_position != v1.input_length || remaining == 0 {
            PlaneDecoderView { failed: Some(DisplayError::Decode), ..v1 }
        } else {
            PlaneDecoderView {
                refill: Some(
                    if v1.input_cap < remaining {
                        v1.input_cap
                    } else {
                        remaining as usize
                    },
                ),
                ..v1
            }
        }
    } else {
        v1
    }
}

/// The decoder after the requested read. A stored row moves the plane
/// position past the row, a format error when that passes `u32::MAX`; an
/// input read restarts the decoder on the bytes read.
pub open spec fn plane_after_read(v: PlaneDecoderView) -> PlaneDecoderView {
    let n = v.refill->Some_0;
    if v.compression is Uncompressed {
        if v.source_position + n > u32::MAX {
            PlaneDecoderView { refill: None, failed: Some(DisplayError::Format), ..v }
        } else {
            PlaneDecoderView {
                refill: None,
                source_position: (v.source_position + n) as u32,
                written: v.target,
                ..v
            }
        }
    } else {
        PlaneDecoderView {
            input_length: n,
            source_position: (v.source_position + n) as u32,
            input_position: 0,
            refill: None,
            ..v
        }
    }
}

/// Decodes one plane of `plane_length` bytes row by row.
pub struct PlaneDecoder {
    plane_length: u32,
    compression: CompressionMethod,
    source_position: u32,
    input_position: usize,
    input_length: usize,
    input_cap: usize,
    target: usize,
    written: usize,
    refill: Option<usize>,
    failed: Option<DisplayError>,
}

impl View for PlaneDecoder {
    type V = PlaneDecoderView;

    closed spec fn view(&self) -> PlaneDecoderView {
        PlaneDecoderView {
            plane_length: self.plane_length,
            compression: self.compression,
            source_position: self.source_position,
            input_position: self.input_position,
            input_length: self.input_length,
            input_cap: self.input_cap,
            target: self.target,
            written: self.written,
            refill: self.refill,
            failed: self.failed,
        }
    }
}

impl PlaneDecoder {
    pub fn new(plane_length: u32, compression: CompressionMethod) -> (r: Self)
        ensures
            plane_wf(r@),
            r@ == (PlaneDecoderView {
                plane_length,
                compression,
                source_position: 0,
                input_position: 0,
                input_length: 0,
                input_cap: 0,
                target: 0,
                written: 0,
                refill: None,
                failed: None,
            }),
    {
        PlaneDecoder {
            plane_length,
            compression,
            source_position: 0,
            input_position: 0,
            input_length: 0,
            input_cap: 0,
            target: 0,
            written: 0,
            refill: None,
            failed: None,
        }
    }

    /// Starts filling a row of `target` bytes through an input buffer of
    /// `input_cap` bytes (the one the decoder has been reading into).
    pub fn begin_fill(&mut self, input_cap: usize, target: usize)
        requires
            plane_wf(old(self)@),
            old(self)@.input_length <= input_cap,
        ensures
            plane_wf(final(self)@),
            final(self)@ == fill_started(old(self)@, input_cap, target),
    {
        self.input_cap = input_cap;
        self.target = target;
        self.written = 0;
        self.refill = None;
        self.failed = None;
        if input_cap == 0 {
            self.failed = Some(DisplayError::BufferTooSmall { required: 1, provided: 0 });
        } else {
            match self.compression {
                CompressionMethod::Uncompressed => {
                    self.refill = Some(target);
                },
                CompressionMethod::RlePackBits => {},
                CompressionMethod::Lz4 => {
                    self.failed = Some(DisplayError::Decode);
                },
            }
        }
    }

    /// What to do next.
    pub fn next(&self) -> (r: PlaneStep)
        requires
            plane_wf(self@),
        ensures
            r == plane_step(self@),
    {
        if let Some(e) = self.failed {
            return PlaneStep::Fail(e);
        }
        match self.compression {
            CompressionMethod::Uncompressed => {
                if self.refill.is_some() {
                    PlaneStep::ReadRow { offset: self.source_position, len: self.target }
                } else {
                    PlaneStep::Done
                }
            },
            _ => {
                if self.written >= self.target {
                    PlaneStep::Done
                } else if let Some(len) = self.refill {
                    PlaneStep::ReadInput { offset: self.source_position, len }
                } else {
                    PlaneStep::Decode {
                        input_start: self.input_position,
                        input_end: self.input_length,
                        output_start: self.written,
                        output_end: self.target,
                    }
                }
            },
        }
    }

    /// Reports what the decoder did on the last `Decode`.
    pub fn decoded(&mut self, consumed: usize, produced: usize)
        requires
            plane_wf(old(self)@),
            plane_step(old(self)@) is Decode,
            consumed <= old(self)@.input_length - old(self)@.input_position,
            produced <= old(self)@.target - old(self)@.written,
        ensures
            plane_wf(final(self)@),
            final(self)@ == plane_after_decoded(old(self)@, consumed, produced),
    {
        self.input_position = self.input_position + consumed;
        self.written = self.written + produced;
        if consumed == 0 && produced == 0 {
            let remaining = self.plane_length - self.source_position;
            if self.input_position != self.input_length || remaining == 0 {
                self.failed = Some(DisplayError::Decode);
            } else {
                self.refill = Some(
                    if (self.input_cap as u64) < (remaining as u64) {
                        self.input_cap
                    } else {
                        remaining as usize
                    },
                );
            }
        }
    }

    /// Reports that the requested read is done.
    pub fn read_done(&mut self)
        requires
            plane_wf(old(self)@),
            plane_step(old(self)@) is ReadRow || plane_step(old(self)@) is ReadInput,
        ensures
            plane_wf(final(self)@),
            final(self)@ == plane_after_read(old(self)@),
    {
        let n = match self.refill {
            Some(n) => n,
            None => 0,
        };
        match self.compression {
            CompressionMethod::Uncompressed => {
                self.refill = None;
                if (n as u64) > (u32::MAX - self.source_position) as u64 {
                    self.failed = Some(DisplayError::Format);
                } else {
                    self.source_position = self.source_position + n as u32;
                    self.written = self.target;
                }
            },
            _ => {
                self.input_length = n;
                self.source_position = self.source_position + n as u32;
                self.input_position = 0;
                self.refill = None;
            },
        }
    }

    /// Whether the plane was decoded exactly: every byte read and consumed,
    /// and the decoder idle.
    pub fn finish(&self, decoder_idle: bool) -> (r: DisplayResult<()>)
        ensures
            r == if self@.source_position != self@.plane_length || self@.input_position
                != self@.input_length || !decoder_idle {
                Err::<(), DisplayError>(DisplayError::Decode)
            } else {
                Ok::<(), DisplayError>(())
            },
    {
        if self.source_position != self.plane_length || self.input_position != self.input_length
            || !decoder_idle {
            return Err(DisplayError::Decode);
        }
        Ok(())
    }
}

} // verus!
