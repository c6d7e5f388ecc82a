use vstd::prelude::*;

verus! {

#[derive(Debug, Clone, Copy, PartialEq, Eq, Structural)]
pub enum DisplayError {
    Source,
    Format,
    Decode,
    Render,
    Controller,
    InvalidProfile,
    InvalidPage,
    InvalidState,
    BufferTooSmall { required: usize, provided: usize },
}

pub type DisplayResult<T> = Result<T, DisplayError>;

} // verus!
