use binbook_x4::fw::book::{PageExtent, PageSource};
use binbook_x4::fw::diag_log::{CrashSummary, CrashSummaryError};
use binbook_x4::fw::diag_storage::{StorageHandle, UnavailableStorage};
use binbook_x4::fw::error::FirmwareError;
use binbook_x4::fw::flash::{
    check_erased, check_written, crash_read_outcome, crash_sector_range, entry_name_matches,
    file_entry_info, file_entry_offset, file_read_address, FileInfo, CRASH_SECTOR_OFFSET,
    FILE_ENTRY_SIZE, MAX_FILES, STORAGE_OFFSET, STORAGE_SIZE,
};
use binbook_x4::fw::resume::{resume_write_plan, ResumeRecord};
use binbook_x4::protocol::StorageBackend;

fn entry(name: &[u8], offset: u32, size: u32, flag: u8) -> [u8; FILE_ENTRY_SIZE] {
    let mut e = [0u8; FILE_ENTRY_SIZE];
    e[..name.len()].copy_from_slice(name);
    e[32..36].copy_from_slice(&offset.to_le_bytes());
    e[36..40].copy_from_slice(&size.to_le_bytes());
    e[40] = flag;
    e
}

#[test]
fn names_match_up_to_the_first_zero() {
    let mut stored = [0u8; 32];
    stored[..4].copy_from_slice(b"book");
    assert!(entry_name_matches(&stored, b"book"));
    assert!(!entry_name_matches(&stored, b"boo"));
    assert!(!entry_name_matches(&stored, b"book2"));
    let full = [b'a'; 32];
    assert!(entry_name_matches(&full, &[b'a'; 32]));
    assert!(!entry_name_matches(&full, &[b'a'; 31]));
    assert!(entry_name_matches(&[0u8; 32], b""));
}

#[test]
fn file_entries_give_offset_and_size() {
    let e = entry(b"probe.binbook", 0x1000, 2048, 0x00);
    assert_eq!(
        file_entry_info(&e, b"probe.binbook"),
        Some(FileInfo { offset: 0x1000, size: 2048 })
    );
    assert_eq!(file_entry_info(&e, b"other"), None);
    let unused = entry(b"probe.binbook", 0x1000, 2048, 0xFF);
    assert_eq!(file_entry_info(&unused, b"probe.binbook"), None);
    assert_eq!(file_entry_offset(0), 0);
    assert_eq!(file_entry_offset(MAX_FILES - 1), 7 * 44);
}

#[test]
fn file_reads_stay_inside_the_file() {
    let info = FileInfo { offset: 0x2000, size: 100 };
    assert_eq!(file_read_address(info, 10, 90), Ok(0x200A));
    assert_eq!(file_read_address(info, 10, 91), Err(FirmwareError::InvalidParameter));
    assert_eq!(file_read_address(info, u32::MAX, 2), Err(FirmwareError::InvalidParameter));
    assert_eq!(file_read_address(info, 100, 0), Ok(0x2064));
}

#[test]
fn crash_sector_sits_at_the_end_of_storage() {
    let (start, end) = crash_sector_range();
    assert_eq!(start, STORAGE_OFFSET + STORAGE_SIZE - 4096);
    assert_eq!(start, CRASH_SECTOR_OFFSET);
    assert_eq!(end, STORAGE_OFFSET + STORAGE_SIZE);
}

#[test]
fn crash_store_outcomes() {
    assert_eq!(crash_read_outcome(Ok(None)), Ok(None));
    assert_eq!(
        crash_read_outcome(Err(CrashSummaryError::BadCrc)),
        Err::<Option<CrashSummary>, FirmwareError>(FirmwareError::Storage)
    );
    assert_eq!(
        crash_read_outcome(Err(CrashSummaryError::BadMagic)),
        Err::<Option<CrashSummary>, FirmwareError>(FirmwareError::Storage)
    );
    assert_eq!(check_written(&[1, 2, 3], &[1, 2, 3]), Ok(()));
    assert_eq!(check_written(&[1, 2, 3], &[1, 2, 4]), Err(FirmwareError::Storage));
    assert_eq!(check_written(&[1, 2, 3], &[1, 2]), Err(FirmwareError::Storage));
    assert_eq!(check_erased(&[0xFF; 128]), Ok(()));
    let mut almost = [0xFF; 128];
    almost[127] = 0xFE;
    assert_eq!(check_erased(&almost), Err(FirmwareError::Storage));
}

#[test]
fn resume_writes_only_what_changed() {
    let mut record = ResumeRecord::empty();
    record.last_page = 9;
    let mut stored = [0u8; ResumeRecord::SIZE];
    record.encode(&mut stored).unwrap();
    assert_eq!(resume_write_plan(&record, &stored), None);
    let mut changed = record;
    changed.menu_selected = 2;
    let bytes = resume_write_plan(&changed, &stored).unwrap();
    assert_eq!(bytes.len(), ResumeRecord::SIZE);
    assert_eq!(ResumeRecord::decode(&bytes), Ok(changed));
    assert!(resume_write_plan(&record, &[0xFF; ResumeRecord::SIZE]).is_some());
}

#[test]
fn unavailable_storage_refuses_everything() {
    let mut storage = UnavailableStorage;
    let mut buf = [7u8; 8];
    assert_eq!(storage.store_list(StorageBackend::Sd, "/", &mut buf), Err(()));
    assert_eq!(storage.store_read(StorageBackend::Flash, "/a", &mut buf), Err(()));
    assert_eq!(buf, [7u8; 8]);
    assert_eq!(storage.store_delete(StorageBackend::Sd, "/a"), Err(()));
    assert_eq!(storage.store_upload_begin(StorageBackend::Sd, "/a", 10, 0), Err(()));
    assert_eq!(storage.store_upload_write(1, 0, &[1, 2]), Err(()));
    assert_eq!(storage.store_upload_commit(1), Err(()));
    assert_eq!(storage.store_upload_abort(1), Err(()));
}

struct BytesSource(Vec<u8>);

impl PageSource for BytesSource {
    type Error = ();

    fn read_at(&self, offset: u32, out: &mut [u8]) -> Result<(), ()> {
        let start = offset as usize;
        let end = start.checked_add(out.len()).ok_or(())?;
        if end > self.0.len() {
            return Err(());
        }
        out.copy_from_slice(&self.0[start..end]);
        Ok(())
    }
}

#[test]
fn pages_are_read_from_their_offset() {
    let source = BytesSource((0u8..32).collect());
    let mut out = [0u8; 4];
    source.read_page(&PageExtent { offset: 10, size: 4 }, &mut out).unwrap();
    assert_eq!(out, [10, 11, 12, 13]);
    assert_eq!(source.read_page(&PageExtent { offset: 30, size: 4 }, &mut out), Err(()));
}
