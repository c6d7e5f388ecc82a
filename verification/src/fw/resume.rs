//! Resume record: the last book, page and menu position, kept in internal
//! flash so the reader reopens where it was.
//!
//! Layout (81 bytes): magic `"BRSM"`, version, three reserved bytes, the
//! book name (64 bytes, zero padded), the page and the menu top (little-endian
//! `u32`s) and the selected menu row.

use vstd::prelude::*;
use vstd::slice::*;
use crate::fw::error::{FirmwareError, FirmwareResult};
use crate::protocol::bytes::{copy_prefix, from_le32, group_le, le32, push_slice, push_u32, read_u32};

verus! {

broadcast use group_le, vstd::seq_lib::group_seq_properties, vstd::slice::group_slice_axioms;

pub const RESUME_MAGIC: [u8; 4] = [0x42, 0x52, 0x53, 0x4D];
pub const RESUME_VERSION: u8 = 1;
pub const RESUME_RECORD_SIZE: usize = 81;

#[derive(Debug, Clone, Copy, PartialEq, Eq)]
pub struct ResumeRecord {
    pub last_book_name: [u8; 64],
    pub last_page: u32,
    pub menu_top: u32,
    pub menu_selected: u8,
}

/// The 81-byte encoding of a record.
pub open spec fn resume_bytes(r: ResumeRecord) -> Seq<u8> {
    RESUME_MAGIC@ + seq![RESUME_VERSION, 0u8, 0u8, 0u8] + r.last_book_name@ + le32(r.last_page)
        + le32(r.menu_top) + seq![r.menu_selected]
}

/// Whether `data` can be read as a record: at least 81 bytes, starting with
/// the magic.
pub open spec fn resume_decodes(data: Seq<u8>) -> bool {
    data.len() >= RESUME_RECORD_SIZE && data.take(4) == RESUME_MAGIC@
}

/// Whether the fields of `v` are those stored in `data`.
pub open spec fn resume_fields(data: Seq<u8>, v: ResumeRecord) -> bool {
    &&& v.last_book_name@ == data.subrange(8, 72)
    &&& le32(v.last_page) == data.subrange(72, 76)
    &&& le32(v.menu_top) == data.subrange(76, 80)
    &&& v.menu_selected == data[80]
}

/// What the resume slot holds after a write planned as `plan` over the
/// bytes `current`: unchanged when nothing was planned, else the planned
/// bytes.
pub open spec fn resume_slot_after(current: Seq<u8>, plan: Option<Seq<u8>>) -> Seq<u8> {
    match plan {
        Some(bytes) => bytes,
        None => current,
    }
}

impl ResumeRecord {
    /// Record size in bytes.
    pub const SIZE: usize = 81;

    /// The record with no book: all fields zero.
    pub fn empty() -> (r: Self)
        ensures
            r.last_book_name@ == Seq::new(64, |i: int| 0u8),
            r.last_page == 0,
            r.menu_top == 0,
            r.menu_selected == 0,
    {
        let r = Self { last_book_name: [0u8; 64], last_page: 0, menu_top: 0, menu_selected: 0 };
        assert(r.last_book_name@ =~= Seq::new(64, |i: int| 0u8));
        r
    }

    /// Writes the record at the start of `out`.
    pub fn encode(&self, out: &mut [u8]) -> (r: FirmwareResult<()>)
        ensures
            old(out)@.len() < Self::SIZE ==> r == Err::<(), FirmwareError>(
                FirmwareError::InvalidParameter,
            ) && final(out)@ == old(out)@,
            old(out)@.len() >= Self::SIZE ==> r is Ok && final(out)@ == resume_bytes(*self) + old(
                out,
            )@.skip(Self::SIZE as int),
    {
        if out.len() < Self::SIZE {
            return Err(FirmwareError::InvalidParameter);
        }
        let mut v: Vec<u8> = Vec::new();
        push_slice(&mut v, RESUME_MAGIC.as_slice());
        v.push(RESUME_VERSION);
        v.push(0);
        v.push(0);
        v.push(0);
        push_slice(&mut v, self.last_book_name.as_slice());
        push_u32(&mut v, self.last_page);
        push_u32(&mut v, self.menu_top);
        v.push(self.menu_selected);
        assert(v@ =~= resume_bytes(*self));
        copy_prefix(out, v.as_slice());
        Ok(())
    }

    /// Reads a record: `InvalidParameter` for fewer than 81 bytes, `Storage`
    /// without the magic. The version and reserved bytes are not checked.
    pub fn decode(data: &[u8]) -> (r: FirmwareResult<Self>)
        ensures
            data@.len() < Self::SIZE ==> r == Err::<Self, FirmwareError>(
                FirmwareError::InvalidParameter,
            ),
            data@.len() >= Self::SIZE && data@.take(4) != RESUME_MAGIC@ ==> r == Err::<
                Self,
                FirmwareError,
            >(FirmwareError::Storage),
            r is Ok <==> resume_decodes(data@),
            r matches Ok(v) ==> resume_fields(data@, v),
    {
        if data.len() < Self::SIZE {
            return Err(FirmwareError::InvalidParameter);
        }
        if data[0] != RESUME_MAGIC[0] || data[1] != RESUME_MAGIC[1] || data[2] != RESUME_MAGIC[2]
            || data[3] != RESUME_MAGIC[3] {
            assert(data@.take(4)[0] == data@[0] && data@.take(4)[1] == data@[1]
                && data@.take(4)[2] == data@[2] && data@.take(4)[3] == data@[3]);
            return Err(FirmwareError::Storage);
        }
        assert(data@.take(4) =~= RESUME_MAGIC@);
        let mut last_book_name = [0u8; 64];
        let mut i: usize = 0;
        while i < 64
            invariant
                i <= 64,
                data@.len() >= 81,
                last_book_name@.len() == 64,
                forall|j: int| 0 <= j < i ==> last_book_name@[j] == data@[8 + j],
            decreases 64 - i,
        {
            last_book_name[i] = data[8 + i];
            i = i + 1;
        }
        assert(last_book_name@ =~= data@.subrange(8, 72));
        let last_page = read_u32(data, 72);
        let menu_top = read_u32(data, 76);
        let menu_selected = data[80];
        Ok(Self { last_book_name, last_page, menu_top, menu_selected })
    }

    /// Whether the record names no book.
    pub fn is_empty(&self) -> (r: bool)
        ensures
            r == (self.last_book_name@[0] == 0),
    {
        self.last_book_name[0] == 0
    }
}

/// The bytes to store for `record`, given what the resume slot holds now:
/// none when the slot already holds exactly the record's encoding, which
/// spares the flash an erase.
pub fn resume_write_plan(record: &ResumeRecord, current: &[u8]) -> (r: Option<Vec<u8>>)
    ensures
        r matches Some(bytes) ==> bytes@ == resume_bytes(*record),
        r is None <==> current@ == resume_bytes(*record),
{
    let mut data: Vec<u8> = vec![0u8; RESUME_RECORD_SIZE];
    let _ = record.encode(data.as_mut_slice());
    assert(data@ =~= resume_bytes(*record));
    if current.len() == data.len() {
        let mut i: usize = 0;
        let mut same = true;
        while i < data.len()
            invariant
                current@.len() == data@.len(),
                i <= data@.len(),
                same ==> forall|j: int| 0 <= j < i ==> data@[j] == current@[j],
                !same ==> data@ != current@,
            decreases data@.len() - i,
        {
            if data[i] != current[i] {
                same = false;
            }
            i = i + 1;
        }
        if same {
            assert(data@ =~= current@);
            return None;
        }
    }
    Some(data)
}

/// A decoded record is the record that was encoded.
pub proof fn lemma_resume_roundtrip(r: ResumeRecord)
    ensures
        resume_bytes(r).len() == ResumeRecord::SIZE,
        resume_bytes(r).take(4) == RESUME_MAGIC@,
        resume_bytes(r).subrange(8, 72) == r.last_book_name@,
        resume_bytes(r).subrange(72, 76) == le32(r.last_page),
        resume_bytes(r).subrange(76, 80) == le32(r.menu_top),
        resume_bytes(r)[80] == r.menu_selected,
{
    let b = resume_bytes(r);
    assert(b.take(4) =~= RESUME_MAGIC@);
    assert(b.subrange(8, 72) =~= r.last_book_name@);
    assert(b.subrange(72, 76) =~= le32(r.last_page));
    assert(b.subrange(76, 80) =~= le32(r.menu_top));
}

/// Writing a record and reading it back gives the same record. Whatever the
/// slot held before (`current`), a plan with the contract of
/// `resume_write_plan` writes nothing exactly when the slot already holds
/// the record's encoding; either way the slot then holds that encoding,
/// `ResumeRecord::decode` of it succeeds, and the record it reads is `r`.
pub proof fn lemma_resume_write_then_read(
    r: ResumeRecord,
    current: Seq<u8>,
    plan: Option<Seq<u8>>,
    read_back: ResumeRecord,
)
    requires
        plan matches Some(bytes) ==> bytes == resume_bytes(r),
        plan is None <==> current == resume_bytes(r),
        resume_fields(resume_slot_after(current, plan), read_back),
    ensures
        plan is None ==> resume_slot_after(current, plan) == current,
        resume_slot_after(current, plan) == resume_bytes(r),
        resume_decodes(resume_slot_after(current, plan)),
        read_back == r,
{
    lemma_resume_roundtrip(r);
    let b = resume_bytes(r);
    assert(read_back.last_book_name@ == r.last_book_name@);
    assert(read_back.last_book_name =~= r.last_book_name) by {
        assert forall|i: int| 0 <= i < 64 implies read_back.last_book_name[i]
            == r.last_book_name[i] by {
            assert(read_back.last_book_name@[i] == r.last_book_name@[i]);
        }
    }
    assert(from_le32(le32(read_back.last_page)) == from_le32(le32(r.last_page)));
    assert(from_le32(le32(read_back.menu_top)) == from_le32(le32(r.menu_top)));
}

} // verus!
