//! Storage operations of the diagnostic protocol, as a backend implements
//! them.

use vstd::prelude::*;
use crate::protocol::StorageBackend;

verus! {

/// Storage operations for the diagnostic console. The listing and reading
/// operations write their response into `resp_buf` and return how many bytes
/// they wrote.
pub trait StorageHandle {
    /// Lists the entries at `path`.
    fn store_list(&mut self, backend: StorageBackend, path: &str, resp_buf: &mut [u8]) -> Result<
        usize,
        (),
    >;

    /// Reads a file's content.
    fn store_read(&mut self, backend: StorageBackend, path: &str, resp_buf: &mut [u8]) -> Result<
        usize,
        (),
    >;

    /// Deletes a file.
    fn store_delete(&mut self, backend: StorageBackend, path: &str) -> Result<(), ()>;

    /// Begins an upload and returns its id.
    fn store_upload_begin(
        &mut self,
        backend: StorageBackend,
        path: &str,
        file_size: u32,
        expected_crc32: u32,
    ) -> Result<u32, ()>;

    /// Writes data to an upload in progress.
    fn store_upload_write(&mut self, upload_id: u32, offset: u32, data: &[u8]) -> Result<u32, ()>;

    /// Commits an upload.
    fn store_upload_commit(&mut self, upload_id: u32) -> Result<(), ()>;

    /// Abandons an upload.
    fn store_upload_abort(&mut self, upload_id: u32) -> Result<(), ()>;
}

/// A backend with no storage behind it: every operation fails and nothing
/// is written.
pub struct UnavailableStorage;

impl StorageHandle for UnavailableStorage {
    fn store_list(&mut self, backend: StorageBackend, path: &str, resp_buf: &mut [u8]) -> (r:
        Result<usize, ()>)
        ensures
            r is Err,
            final(resp_buf)@ == old(resp_buf)@,
    {
        Err(())
    }

    fn store_read(&mut self, backend: StorageBackend, path: &str, resp_buf: &mut [u8]) -> (r:
        Result<usize, ()>)
        ensures
            r is Err,
            final(resp_buf)@ == old(resp_buf)@,
    {
        Err(())
    }

    fn store_delete(&mut self, backend: StorageBackend, path: &str) -> (r: Result<(), ()>)
        ensures
            r is Err,
    {
        Err(())
    }

    fn store_upload_begin(
        &mut self,
        backend: StorageBackend,
        path: &str,
        file_size: u32,
        expected_crc32: u32,
    ) -> (r: Result<u32, ()>)
        ensures
            r is Err,
    {
        Err(())
    }

    fn store_upload_write(&mut self, upload_id: u32, offset: u32, data: &[u8]) -> (r: Result<
        u32,
        (),
    >)
        ensures
            r is Err,
    {
        Err(())
    }

    fn store_upload_commit(&mut self, upload_id: u32) -> (r: Result<(), ()>)
        ensures
            r is Err,
    {
        Err(())
    }

    fn store_upload_abort(&mut self, upload_id: u32) -> (r: Result<(), ()>)
        ensures
            r is Err,
    {
        Err(())
    }
}

} // verus!
