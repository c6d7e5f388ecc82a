//! Caller-owned working buffers for streaming a page to the panel.

use vstd::prelude::*;
use crate::display::error::{DisplayError, DisplayResult};
use crate::display::profile::ROW_BYTES;

verus! {

pub struct RenderBuffers<'a> {
    pub compressed: &'a mut [u8],
    pub decoded: &'a mut [u8],
    pub black: &'a mut [u8],
    pub red: &'a mut [u8],
}

/// `Ok` when a buffer holds `required` bytes, else the shortfall.
pub open spec fn size_check(len: nat, required: nat) -> DisplayResult<()> {
    if len < required {
        Err(DisplayError::BufferTooSmall { required: required as usize, provided: len as usize })
    } else {
        Ok(())
    }
}

impl<'a> RenderBuffers<'a> {
    pub fn new(
        compressed: &'a mut [u8],
        decoded: &'a mut [u8],
        black: &'a mut [u8],
        red: &'a mut [u8],
    ) -> (r: Self)
        ensures
            r.compressed@ == old(compressed)@,
            r.decoded@ == old(decoded)@,
            r.black@ == old(black)@,
            r.red@ == old(red)@,
    {
        Self { compressed, decoded, black, red }
    }

    /// Streaming needs a non-empty input and a non-empty output buffer.
    pub fn require_streaming(&self) -> (r: DisplayResult<()>)
        ensures
            r == match size_check(old(self.compressed)@.len(), 1) {
                Ok(()) => size_check(old(self.decoded)@.len(), 1),
                Err(e) => Err(e),
            },
    {
        match require_nonempty(self.compressed) {
            Ok(()) => {},
            Err(e) => return Err(e),
        }
        require_nonempty(self.decoded)
    }

    /// Both plane buffers must hold `required` bytes.
    pub fn require_planes(&self, required: usize) -> (r: DisplayResult<()>)
        ensures
            r == match size_check(old(self.black)@.len(), required as nat) {
                Ok(()) => size_check(old(self.red)@.len(), required as nat),
                Err(e) => Err(e),
            },
    {
        match require(self.black, required) {
            Ok(()) => {},
            Err(e) => return Err(e),
        }
        require(self.red, required)
    }
}

fn require_nonempty(buffer: &[u8]) -> (r: DisplayResult<()>)
    ensures
        r == size_check(buffer@.len(), 1),
{
    if buffer.len() == 0 {
        Err(DisplayError::BufferTooSmall { required: 1, provided: 0 })
    } else {
        Ok(())
    }
}

fn require(buffer: &[u8], required: usize) -> (r: DisplayResult<()>)
    ensures
        r == size_check(buffer@.len(), required as nat),
{
    if buffer.len() < required {
        Err(DisplayError::BufferTooSmall { required, provided: buffer.len() })
    } else {
        Ok(())
    }
}

/// A buffer must hold one panel row.
pub fn require_row(buffer: &[u8]) -> (r: DisplayResult<()>)
    ensures
        r == size_check(buffer@.len(), ROW_BYTES as nat),
{
    require(buffer, ROW_BYTES)
}

/// Splits a buffer into three parts of a third of its length each, the last
/// taking what the division leaves over; fewer than three bytes are too few.
pub fn split_three(buffer: &mut [u8]) -> (r: DisplayResult<(&mut [u8], &mut [u8], &mut [u8])>)
    ensures
        old(buffer)@.len() < 3 ==> r == Err::<(&mut [u8], &mut [u8], &mut [u8]), DisplayError>(
            DisplayError::BufferTooSmall { required: 3, provided: old(buffer)@.len() as usize },
        ) && final(buffer)@ == old(buffer)@,
        old(buffer)@.len() >= 3 ==> (r matches Ok((a, b, c)) && {
            let t: int = (old(buffer)@.len() / 3) as int;
            &&& a@ == old(buffer)@.subrange(0, t)
            &&& b@ == old(buffer)@.subrange(t, 2 * t)
            &&& c@ == old(buffer)@.subrange(2 * t, old(buffer)@.len() as int)
            &&& final(buffer)@ == final(a)@ + final(b)@ + final(c)@
        }),
{
    if buffer.len() < 3 {
        return Err(DisplayError::BufferTooSmall { required: 3, provided: buffer.len() });
    }
    let third = buffer.len() / 3;
    let (first, rest) = buffer.split_at_mut(third);
    let (second, third_buffer) = rest.split_at_mut(third);
    Ok((first, second, third_buffer))
}

/// The first three panel rows of a buffer, one after another.
pub fn row_triplet(buffer: &mut [u8]) -> (r: DisplayResult<(&mut [u8], &mut [u8], &mut [u8])>)
    ensures
        old(buffer)@.len() < 3 * ROW_BYTES ==> r == Err::<
            (&mut [u8], &mut [u8], &mut [u8]),
            DisplayError,
        >(
            DisplayError::BufferTooSmall {
                required: 300,
                provided: old(buffer)@.len() as usize,
            },
        ) && final(buffer)@ == old(buffer)@,
        old(buffer)@.len() >= 3 * ROW_BYTES ==> (r matches Ok((a, b, c)) && {
            &&& a@ == old(buffer)@.subrange(0, 100)
            &&& b@ == old(buffer)@.subrange(100, 200)
            &&& c@ == old(buffer)@.subrange(200, 300)
            &&& final(buffer)@ == final(a)@ + final(b)@ + final(c)@ + old(buffer)@.skip(300)
        }),
{
    let required: usize = ROW_BYTES * 3;
    if buffer.len() < required {
        return Err(DisplayError::BufferTooSmall { required, provided: buffer.len() });
    }
    let (first, rest) = buffer.split_at_mut(ROW_BYTES);
    let (second, rest) = rest.split_at_mut(ROW_BYTES);
    let (third, _tail) = rest.split_at_mut(ROW_BYTES);
    Ok((first, second, third))
}

/// The whole buffer as input, when it is not empty.
pub fn first_input(buffer: &mut [u8]) -> (r: DisplayResult<&mut [u8]>)
    ensures
        old(buffer)@.len() == 0 ==> r == Err::<&mut [u8], DisplayError>(
            DisplayError::BufferTooSmall { required: 1, provided: 0 },
        ) && final(buffer)@ == old(buffer)@,
        old(buffer)@.len() > 0 ==> (r matches Ok(b) && b@ == old(buffer)@
            && final(buffer)@ == final(b)@),
{
    if buffer.len() == 0 {
        Err(DisplayError::BufferTooSmall { required: 1, provided: 0 })
    } else {
        Ok(buffer)
    }
}

/// The first panel row of a buffer.
pub fn first_row(buffer: &mut [u8]) -> (r: DisplayResult<&mut [u8]>)
    ensures
        old(buffer)@.len() < ROW_BYTES ==> r == Err::<&mut [u8], DisplayError>(
            DisplayError::BufferTooSmall { required: 100, provided: old(buffer)@.len() as usize },
        ) && final(buffer)@ == old(buffer)@,
        old(buffer)@.len() >= ROW_BYTES ==> (r matches Ok(b) && b@ == old(buffer)@.subrange(0, 100)
            && final(buffer)@ == final(b)@ + old(buffer)@.skip(100)),
{
    if buffer.len() < ROW_BYTES {
        return Err(DisplayError::BufferTooSmall { required: ROW_BYTES, provided: buffer.len() });
    }
    let (row, _rest) = buffer.split_at_mut(ROW_BYTES);
    Ok(row)
}

} // verus!
