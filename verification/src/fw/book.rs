//! Where a page's bytes lie in a book, and the source they are read from.

use vstd::prelude::*;

verus! {

/// The bytes of one page: where they start and how many there are.
#[derive(Debug, Clone, Copy, PartialEq, Eq, Structural)]
pub struct PageExtent {
    pub offset: u32,
    pub size: u32,
}

/// A source of book bytes, read at byte offsets.
pub trait PageSource {
    type Error;

    /// What a read at `offset` does to a buffer that held `before`: the
    /// buffer holds `after` and the read returns `r`. A source says what its
    /// reads do; one that says nothing promises only that the buffer keeps
    /// its length.
    open spec fn read_outcome(
        &self,
        offset: u32,
        before: Seq<u8>,
        after: Seq<u8>,
        r: Result<(), Self::Error>,
    ) -> bool {
        after.len() == before.len()
    }

    /// Fills `out` with the bytes at `offset`.
    fn read_at(&self, offset: u32, out: &mut [u8]) -> (r: Result<(), Self::Error>)
        ensures
            self.read_outcome(offset, old(out)@, final(out)@, r),
    ;

    /// Fills `out` with the bytes at the start of a page: a read at the
    /// page's offset.
    fn read_page(&self, extent: &PageExtent, out: &mut [u8]) -> (r: Result<(), Self::Error>)
        ensures
            self.read_outcome(extent.offset, old(out)@, final(out)@, r),
    {
        self.read_at(extent.offset, out)
    }
}

} // verus!
