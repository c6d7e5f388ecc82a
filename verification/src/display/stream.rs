//! Streaming a compressed plane through two small buffers: which compressed
//! bytes to read next, what to hand the decoder, and when a chunk of output
//! is complete. Reading the source, running the decoder and consuming the
//! output are the caller's part; at each step it asks what to do and reports
//! what happened.

use vstd::prelude::*;
use crate::display::error::{DisplayError, DisplayResult};

verus! {

/// How a plane's bytes are stored.
#[derive(Debug, Clone, Copy, PartialEq, Eq, Structural)]
pub enum CompressionMethod {
    Uncompressed,
    RlePackBits,
    Lz4,
}

/// What the streaming asks of its caller next.
#[derive(Debug, Clone, Copy, PartialEq, Eq, Structural)]
pub enum StreamStep {
    /// Read `len` compressed bytes at `offset` of the source into the start
    /// of the input buffer.
    Read { offset: u64, len: usize },
    /// Run the decoder from input bytes `[input_start, input_end)` into
    /// output bytes `[output_start, output_end)`, and report how many it
    /// consumed and produced.
    Decode { input_start: usize, input_end: usize, output_start: usize, output_end: usize },
    /// Hand the first `len` bytes of the output buffer on.
    Emit { len: usize },
    /// Check that the decoder is idle, and finish it.
    Finish,
    /// Stop with this error.
    Fail(DisplayError),
}

/// The state of a PackBits stream.
pub struct PackBitsView {
    pub offset: u64,
    pub compressed_len: usize,
    pub decoded_len: usize,
    pub input_cap: usize,
    pub output_cap: usize,
    /// Compressed bytes read so far.
    pub source_position: usize,
    /// The decoder's place in the input buffer, and where its bytes end.
    pub input_position: usize,
    pub input_length: usize,
    /// Output bytes handed on so far.
    pub output_position: usize,
    /// The size of the chunk being filled, and how much of it is filled.
    pub output_length: usize,
    pub written: usize,
    /// The read that must come before decoding goes on.
    pub refill: Option<usize>,
    pub failed: bool,
}

/// The size of the output chunk that starts at `position`.
pub open spec fn chunk_at(decoded_len: usize, output_cap: usize, position: usize) -> usize {
    if position < decoded_len {
        if output_cap < decoded_len - position {
            output_cap
        } else {
            (decoded_len - position) as usize
        }
    } else {
        0
    }
}

/// The invariant of a PackBits stream.
pub open spec fn packbits_wf(v: PackBitsView) -> bool {
    &&& v.input_cap > 0
    &&& v.output_cap > 0
    &&& v.offset + v.compressed_len <= u64::MAX + 1
    &&& v.source_position <= v.compressed_len
    &&& v.input_position <= v.input_length <= v.input_cap
    &&& v.output_position <= v.decoded_len
    &&& v.output_length == chunk_at(v.decoded_len, v.output_cap, v.output_position)
    &&& v.written <= v.output_length
    &&& v.refill matches Some(n) ==> {
        &&& 0 < n <= v.input_cap
        &&& v.source_position + n <= v.compressed_len
    }
}

/// What a PackBits stream asks for next: a pending read; decoding until
/// the chunk is full; handing the full chunk on; and, with all the output
/// handed on, finishing when every compressed byte was read and consumed.
pub open spec fn packbits_step(v: PackBitsView) -> StreamStep {
    if v.failed {
        StreamStep::Fail(DisplayError::Decode)
    } else if v.refill is Some {
        StreamStep::Read {
            offset: (v.offset + v.source_position) as u64,
            len: v.refill->Some_0,
        }
    } else if v.output_position < v.decoded_len {
        if v.written < v.output_length {
            StreamStep::Decode {
                input_start: v.input_position,
                input_end: v.input_length,
                output_start: v.written,
                output_end: v.output_length,
            }
        } else {
            StreamStep::Emit { len: v.output_length }
        }
    } else if v.source_position != v.compressed_len || v.input_position != v.input_length {
        StreamStep::Fail(DisplayError::Decode)
    } else {
        StreamStep::Finish
    }
}

/// The stream after the decoder consumed and produced that many bytes. A
/// step that does neither needs more input: a decode error when input is
/// left unconsumed or the source is used up, else a read of as much as the
/// input buffer holds.
pub open spec fn after_decoded(v: PackBitsView, consumed: usize, produced: usize) -> PackBitsView {
    let v1 = PackBitsView {
        input_position: (v.input_position + consumed) as usize,
        written: (v.written + produced) as usize,
        ..v
    };
    if consumed == 0 && produced == 0 {
        if v1.input_position != v1.input_length || v1.source_position == v1.compressed_len {
            PackBitsView { failed: true, ..v1 }
        } else {
            let left = (v1.compressed_len - v1.source_position) as usize;
            PackBitsView {
                refill: Some(
                    if v1.input_cap < left {
                        v1.input_cap
                    } else {
                        left
                    },
                ),
                ..v1
            }
        }
    } else {
        v1
    }
}

/// The stream after the pending read filled the input buffer.
pub open spec fn after_read(v: PackBitsView) -> PackBitsView {
    PackBitsView {
        input_length: v.refill->Some_0,
        source_position: (v.source_position + v.refill->Some_0) as usize,
        input_position: 0,
        refill: None,
        ..v
    }
}

/// The stream after the full chunk was handed on: the next chunk starts.
pub open spec fn after_emitted(v: PackBitsView) -> PackBitsView {
    let position = (v.output_position + v.output_length) as usize;
    PackBitsView {
        output_position: position,
        output_length: chunk_at(v.decoded_len, v.output_cap, position),
        written: 0,
        ..v
    }
}

/// Every step of a well-formed PackBits stream stays inside its buffers and
/// its source: reads fit the input buffer and the compressed bytes not yet
/// read, decoding works on filled input and free output room, and a full
/// chunk fits the output buffer.
pub proof fn lemma_steps_fit_buffers(v: PackBitsView)
    requires
        packbits_wf(v),
    ensures
        packbits_step(v) matches StreamStep::Read { offset, len } ==> {
            &&& 0 < len <= v.input_cap
            &&& v.offset <= offset
            &&& offset + len <= v.offset + v.compressed_len
        },
        packbits_step(v) matches StreamStep::Decode { input_start, input_end, output_start, output_end } ==> {
            &&& input_start <= input_end <= v.input_cap
            &&& output_start < output_end <= v.output_cap
        },
        packbits_step(v) matches StreamStep::Emit { len } ==> 0 < len <= v.output_cap
            && v.output_position + len <= v.decoded_len,
        packbits_step(v) is Finish ==> v.output_position == v.decoded_len && v.source_position
            == v.compressed_len,
{
}

/// A PackBits-compressed stream of `compressed_len` bytes at `offset`
/// that decodes to `decoded_len` bytes, read through an input buffer of
/// `input_cap` bytes and produced through an output buffer of `output_cap`.
pub struct PackBitsStream {
    offset: u64,
    compressed_len: usize,
    decoded_len: usize,
    input_cap: usize,
    output_cap: usize,
    source_position: usize,
    input_position: usize,
    input_length: usize,
    output_position: usize,
    output_length: usize,
    written: usize,
    refill: Option<usize>,
    failed: bool,
}

impl View for PackBitsStream {
    type V = PackBitsView;

    closed spec fn view(&self) -> PackBitsView {
        PackBitsView {
            offset: self.offset,
            compressed_len: self.compressed_len,
            decoded_len: self.decoded_len,
            input_cap: self.input_cap,
            output_cap: self.output_cap,
            source_position: self.source_position,
            input_position: self.input_position,
            input_length: self.input_length,
            output_position: self.output_position,
            output_length: self.output_length,
            written: self.written,
            refill: self.refill,
            failed: self.failed,
        }
    }
}

/// The size of the output chunk that starts at `position`: what is left of
/// the `decoded_len` bytes, at most a buffer of `output_cap`.
pub fn chunk_len(decoded_len: usize, output_cap: usize, position: usize) -> (r: usize)
    ensures
        r == chunk_at(decoded_len, output_cap, position),
{
    if position < decoded_len {
        if output_cap < decoded_len - position {
            output_cap
        } else {
            decoded_len - position
        }
    } else {
        0
    }
}

impl PackBitsStream {
    pub fn new(offset: u64, compressed_len: usize, decoded_len: usize, input_cap: usize, output_cap: usize) -> (r: Self)
        requires
            input_cap > 0,
            output_cap > 0,
            offset + compressed_len <= u64::MAX + 1,
        ensures
            packbits_wf(r@),
            r@ == (PackBitsView {
                offset,
                compressed_len,
                decoded_len,
                input_cap,
                output_cap,
                source_position: 0,
                input_position: 0,
                input_length: 0,
                output_position: 0,
                output_length: chunk_at(decoded_len, output_cap, 0),
                written: 0,
                refill: None,
                failed: false,
            }),
    {
        PackBitsStream {
            offset,
            compressed_len,
            decoded_len,
            input_cap,
            output_cap,
            source_position: 0,
            input_position: 0,
            input_length: 0,
            output_position: 0,
            output_length: chunk_len(decoded_len, output_cap, 0),
            written: 0,
            refill: None,
            failed: false,
        }
    }

    /// What to do next.
    pub fn next(&self) -> (r: StreamStep)
        requires
            packbits_wf(self@),
        ensures
            r == packbits_step(self@),
    {
        if self.failed {
            StreamStep::Fail(DisplayError::Decode)
        } else if let Some(len) = self.refill {
            StreamStep::Read { offset: self.offset + self.source_position as u64, len }
        } else if self.output_position < self.decoded_len {
            if self.written < self.output_length {
                StreamStep::Decode {
                    input_start: self.input_position,
                    input_end: self.input_length,
                    output_start: self.written,
                    output_end: self.output_length,
                }
            } else {
                StreamStep::Emit { len: self.output_length }
            }
        } else if self.source_position != self.compressed_len || self.input_position
            != self.input_length {
            StreamStep::Fail(DisplayError::Decode)
        } else {
            StreamStep::Finish
        }
    }

    /// Reports what the decoder did on the last `Decode`: it consumed at
    /// most the input it was given and produced at most the room it had.
    pub fn decoded(&mut self, consumed: usize, produced: usize)
        requires
            packbits_wf(old(self)@),
            packbits_step(old(self)@) is Decode,
            consumed <= old(self)@.input_length - old(self)@.input_position,
            produced <= old(self)@.output_length - old(self)@.written,
        ensures
            packbits_wf(final(self)@),
            final(self)@ == after_decoded(old(self)@, consumed, produced),
    {
        self.input_position = self.input_position + consumed;
        self.written = self.written + produced;
        if consumed == 0 && produced == 0 {
            if self.input_position != self.input_length || self.source_position
                == self.compressed_len {
                self.failed = true;
            } else {
                let left = self.compressed_len - self.source_position;
                self.refill = Some(
                    if self.input_cap < left {
                        self.input_cap
                    } else {
                        left
                    },
                );
            }
        }
    }

    /// Reports that the requested read filled the input buffer.
    pub fn read_done(&mut self)
        requires
            packbits_wf(old(self)@),
            packbits_step(old(self)@) is Read,
        ensures
            packbits_wf(final(self)@),
            final(self)@ == after_read(old(self)@),
    {
        let len = match self.refill {
            Some(n) => n,
            None => 0,
        };
        self.input_length = len;
        self.source_position = self.source_position + len;
        self.input_position = 0;
        self.refill = None;
    }

    /// Reports that the full chunk was handed on.
    pub fn emitted(&mut self)
        requires
            packbits_wf(old(self)@),
            packbits_step(old(self)@) is Emit,
        ensures
            packbits_wf(final(self)@),
            final(self)@ == after_emitted(old(self)@),
    {
        let position = self.output_position + self.output_length;
        self.output_position = position;
        self.output_length = chunk_len(self.decoded_len, self.output_cap, position);
        self.written = 0;
    }
}

/// How a plane is streamed once its buffers and sizes are checked.
pub enum StreamPlan {
    /// Stored bytes: read and hand on a chunk at a time (see `chunk_len`).
    Uncompressed,
    /// PackBits: driven step by step.
    PackBits(PackBitsStream),
    /// LZ4: read the whole compressed plane, decode it in one go and hand
    /// the whole output on.
    Whole { compressed_len: usize, decoded_len: usize },
}

/// Why a buffer of `provided` bytes is too small for `required`, if it is.
pub open spec fn shortfall(provided: usize, required: usize) -> Option<DisplayError> {
    if provided < required {
        Some(DisplayError::BufferTooSmall { required, provided })
    } else {
        None
    }
}

/// Starts streaming a plane of `compressed_len` bytes at `offset` that
/// decodes to `decoded_len` bytes, through an input buffer of
/// `compressed_cap` and an output buffer of `decoded_cap` bytes. Both
/// buffers must hold a byte; stored bytes must be as many as the decoded
/// ones; LZ4 needs room for the whole plane in both buffers.
pub fn start_stream(
    method: CompressionMethod,
    offset: u64,
    compressed_len: usize,
    decoded_len: usize,
    compressed_cap: usize,
    decoded_cap: usize,
) -> (r: DisplayResult<StreamPlan>)
    requires
        offset + compressed_len <= u64::MAX + 1,
    ensures
        compressed_cap == 0 || decoded_cap == 0 ==> (r matches Err(e) && e == (DisplayError::BufferTooSmall {
            required: 1,
            provided: 0,
        })),
        compressed_cap > 0 && decoded_cap > 0 ==> match method {
            CompressionMethod::Uncompressed => if compressed_len != decoded_len {
                (r matches Err(e) && e == DisplayError::Decode)
            } else {
                r matches Ok(StreamPlan::Uncompressed)
            },
            CompressionMethod::RlePackBits => (r matches Ok(StreamPlan::PackBits(s)) && packbits_wf(s@)
                && s@ == (PackBitsView {
                offset,
                compressed_len,
                decoded_len,
                input_cap: compressed_cap,
                output_cap: decoded_cap,
                source_position: 0,
                input_position: 0,
                input_length: 0,
                output_position: 0,
                output_length: chunk_at(decoded_len, decoded_cap, 0),
                written: 0,
                refill: None,
                failed: false,
            })),
            CompressionMethod::Lz4 => if shortfall(compressed_cap, compressed_len) is Some {
                (r matches Err(e) && e == shortfall(compressed_cap, compressed_len)->Some_0)
            } else if shortfall(decoded_cap, decoded_len) is Some {
                (r matches Err(e) && e == shortfall(decoded_cap, decoded_len)->Some_0)
            } else {
                (r matches Ok(StreamPlan::Whole { compressed_len: c, decoded_len: d }) && c
                    == compressed_len && d == decoded_len)
            },
        },
{
    if compressed_cap == 0 || decoded_cap == 0 {
        return Err(DisplayError::BufferTooSmall { required: 1, provided: 0 });
    }
    match method {
        CompressionMethod::Uncompressed => {
            if compressed_len != decoded_len {
                Err(DisplayError::Decode)
            } else {
                Ok(StreamPlan::Uncompressed)
            }
        },
        CompressionMethod::RlePackBits => Ok(
            StreamPlan::PackBits(
                PackBitsStream::new(offset, compressed_len, decoded_len, compressed_cap, decoded_cap),
            ),
        ),
        CompressionMethod::Lz4 => {
            if compressed_cap < compressed_len {
                return Err(
                    DisplayError::BufferTooSmall { required: compressed_len, provided: compressed_cap },
                );
            }
            if decoded_cap < decoded_len {
                return Err(
                    DisplayError::BufferTooSmall { required: decoded_len, provided: decoded_cap },
                );
            }
            Ok(StreamPlan::Whole { compressed_len, decoded_len })
        },
    }
}

} // verus!
