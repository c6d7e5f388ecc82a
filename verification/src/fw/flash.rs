//! The layout of the reader's internal-flash storage: a table of up to eight
//! file entries at the start of the region, the files behind it, and a crash
//! sector at its end. Reading and writing the flash is the caller's part;
//! this module decides what the bytes read mean and whether what was written
//! took.

use vstd::prelude::*;
use crate::fw::diag_log::{CrashSummary, CrashSummaryError};
use crate::fw::error::{FirmwareError, FirmwareResult};
use crate::protocol::bytes::{from_le32, read_u32};

verus! {

pub const STORAGE_OFFSET: u32 = 0x00FB_0000;
pub const STORAGE_SIZE: u32 = 196608;
pub const MAX_FILE_SIZE: u32 = 184320;
pub const MAX_FILES: usize = 8;
pub const FILE_ENTRY_SIZE: usize = 44;
pub const CRASH_SECTOR_SIZE: u32 = 4096;
pub const CRASH_SECTOR_OFFSET: u32 = 0x00FD_F000;

/// Where the file table starts, relative to the storage region.
pub const FILE_TABLE_OFFSET: u32 = 0;

/// The flag byte of an entry in use.
pub const VALID_ENTRY: u8 = 0x00;

/// Where a stored file lies in flash, and how long it is.
#[derive(Debug, Clone, Copy, PartialEq, Eq, Structural)]
pub struct FileInfo {
    pub offset: u32,
    pub size: u32,
}

/// The name stored in an entry's name field: the bytes before the first
/// zero, or the whole field when it has none.
pub open spec fn stored_name(stored: Seq<u8>) -> Seq<u8> {
    if exists|i: int| 0 <= i < stored.len() && stored[i] == 0 {
        stored.take(choose|i: int| 0 <= i < stored.len() && stored[i] == 0 && forall|j: int| 0 <= j < i ==> stored[j] != 0)
    } else {
        stored
    }
}

/// Whether a stored name field holds `requested`: the field, cut at its
/// first zero byte, equals it.
pub fn entry_name_matches(stored: &[u8], requested: &[u8]) -> (r: bool)
    ensures
        r == (stored_name(stored@) == requested@),
{
    let mut len: usize = 0;
    while len < stored.len() && stored[len] != 0
        invariant
            len <= stored@.len(),
            forall|j: int| 0 <= j < len ==> stored@[j] != 0,
        decreases stored@.len() - len,
    {
        len = len + 1;
    }
    proof {
        if len < stored@.len() {
            let w = choose|i: int| 0 <= i < stored@.len() && stored@[i] == 0 && forall|j: int| 0 <= j < i ==> stored@[j] != 0;
            assert(0 <= w < stored@.len() && stored@[w] == 0 && forall|j: int| 0 <= j < w ==> stored@[j] != 0);
            assert(w == len as int) by {
                if w < len {
                    assert(stored@[w] != 0);
                } else if w > len {
                    assert(stored@[len as int] != 0);
                }
            }
        } else {
            assert(!(exists|i: int| 0 <= i < stored@.len() && stored@[i] == 0));
            assert(stored@.take(len as int) =~= stored@);
        }
        assert(stored_name(stored@) == stored@.take(len as int));
    }
    if len != requested.len() {
        assert(stored@.take(len as int).len() != requested@.len());
        return false;
    }
    let mut i: usize = 0;
    while i < len
        invariant
            len == requested@.len(),
            len <= stored@.len(),
            stored_name(stored@) == stored@.take(len as int),
            i <= len,
            forall|j: int| 0 <= j < i ==> stored@[j] == requested@[j],
        decreases len - i,
    {
        if stored[i] != requested[i] {
            assert(stored@.take(len as int)[i as int] != requested@[i as int]);
            return false;
        }
        i = i + 1;
    }
    assert(stored@.take(len as int) =~= requested@);
    true
}

/// Where entry `index` of the file table lies in the storage region.
pub fn file_entry_offset(index: usize) -> (r: u32)
    requires
        index < MAX_FILES,
    ensures
        r == FILE_TABLE_OFFSET + index * FILE_ENTRY_SIZE,
{
    FILE_TABLE_OFFSET + (index * FILE_ENTRY_SIZE) as u32
}

/// The file an entry describes when it is in use and carries `name`: a flag
/// byte of zero at 40, the name in the first 32 bytes, the file's offset and
/// size as little-endian `u32`s at 32 and 36.
pub open spec fn entry_file(entry: Seq<u8>, name: Seq<u8>) -> Option<FileInfo> {
    if entry[40] == VALID_ENTRY && stored_name(entry.take(32)) == name {
        Some(
            FileInfo {
                offset: from_le32(entry.subrange(32, 36)),
                size: from_le32(entry.subrange(36, 40)),
            },
        )
    } else {
        None
    }
}

/// The file entry `entry` describes, if it is in use and named `name`.
pub fn file_entry_info(entry: &[u8; FILE_ENTRY_SIZE], name: &[u8]) -> (r: Option<FileInfo>)
    ensures
        r == entry_file(entry@, name@),
{
    if entry[40] != VALID_ENTRY {
        return None;
    }
    let stored = vstd::slice::slice_subrange(entry.as_slice(), 0, 32);
    assert(stored@ =~= entry@.take(32));
    if entry_name_matches(stored, name) {
        Some(FileInfo { offset: read_u32(entry.as_slice(), 32), size: read_u32(entry.as_slice(), 36) })
    } else {
        None
    }
}

/// The flash address of `len` bytes at `offset` in a file. A range that
/// ends past the file (with the end saturating at `u32::MAX`) is
/// `InvalidParameter`.
pub fn file_read_address(info: FileInfo, offset: u32, len: u32) -> (r: FirmwareResult<u32>)
    requires
        (if offset + len > u32::MAX {
            u32::MAX as int
        } else {
            offset + len
        }) <= info.size ==> info.offset + offset <= u32::MAX,
    ensures
        r == if (if offset + len > u32::MAX {
            u32::MAX as int
        } else {
            offset + len
        }) > info.size {
            Err::<u32, FirmwareError>(FirmwareError::InvalidParameter)
        } else {
            Ok::<u32, FirmwareError>((info.offset + offset) as u32)
        },
{
    let end = offset.saturating_add(len);
    if end > info.size {
        return Err(FirmwareError::InvalidParameter);
    }
    Ok(info.offset + offset)
}

/// What reading the crash sector gave: an erased sector is no summary, a
/// valid one its summary, and a damaged one a storage error.
pub fn crash_read_outcome(decoded: Result<Option<CrashSummary>, CrashSummaryError>) -> (r:
    FirmwareResult<Option<CrashSummary>>)
    ensures
        r == match decoded {
            Ok(found) => Ok::<Option<CrashSummary>, FirmwareError>(found),
            Err(_) => Err::<Option<CrashSummary>, FirmwareError>(FirmwareError::Storage),
        },
{
    match decoded {
        Ok(found) => Ok(found),
        Err(CrashSummaryError::BadMagic) => Err(FirmwareError::Storage),
        Err(CrashSummaryError::BadCrc) => Err(FirmwareError::Storage),
    }
}

/// Whether a write took: the bytes read back equal the bytes written; a
/// storage error otherwise.
pub fn check_written(written: &[u8], read_back: &[u8]) -> (r: FirmwareResult<()>)
    ensures
        r == if written@ == read_back@ {
            Ok::<(), FirmwareError>(())
        } else {
            Err::<(), FirmwareError>(FirmwareError::Storage)
        },
{
    if written.len() != read_back.len() {
        assert(written@.len() != read_back@.len());
        return Err(FirmwareError::Storage);
    }
    let mut i: usize = 0;
    while i < written.len()
        invariant
            written@.len() == read_back@.len(),
            i <= written@.len(),
            forall|j: int| 0 <= j < i ==> written@[j] == read_back@[j],
        decreases written@.len() - i,
    {
        if written[i] != read_back[i] {
            return Err(FirmwareError::Storage);
        }
        i = i + 1;
    }
    assert(written@ =~= read_back@);
    Ok(())
}

/// Whether an erase took: every byte read back is `0xFF`; a storage error
/// otherwise.
pub fn check_erased(read_back: &[u8]) -> (r: FirmwareResult<()>)
    ensures
        r == if forall|i: int| 0 <= i < read_back@.len() ==> read_back@[i] == 0xFF {
            Ok::<(), FirmwareError>(())
        } else {
            Err::<(), FirmwareError>(FirmwareError::Storage)
        },
{
    let mut i: usize = 0;
    while i < read_back.len()
        invariant
            i <= read_back@.len(),
            forall|j: int| 0 <= j < i ==> read_back@[j] == 0xFF,
        decreases read_back@.len() - i,
    {
        if read_back[i] != 0xFF {
            return Err(FirmwareError::Storage);
        }
        i = i + 1;
    }
    Ok(())
}

/// The range the crash sector covers, as the erase call takes it.
pub fn crash_sector_range() -> (r: (u32, u32))
    ensures
        r == (CRASH_SECTOR_OFFSET, (CRASH_SECTOR_OFFSET + CRASH_SECTOR_SIZE) as u32),
        r.0 == STORAGE_OFFSET + STORAGE_SIZE - CRASH_SECTOR_SIZE,
{
    (CRASH_SECTOR_OFFSET, CRASH_SECTOR_OFFSET + CRASH_SECTOR_SIZE)
}

} // verus!
