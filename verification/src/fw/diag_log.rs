//! Diagnostic event log: a fixed-capacity ring of numbered records, the crash
//! summary kept across resets, and the idle-event deduplication.
//!
//! Every pushed record gets the next sequence number. When the ring is full
//! the oldest record is overwritten and counted as dropped. A crash summary is
//! 128 bytes: magic `"BBCR"`, version, flags, copied record count, panel mode,
//! boot counter, last error, last page, last log sequence (little-endian), four
//! 24-byte log slots, four zero bytes and the CRC-32 (IEEE) of the first 124
//! bytes.

use vstd::prelude::*;
use vstd::arithmetic::div_mod::{lemma_mod_sub_multiples_vanish, lemma_small_mod};
use crate::protocol::bytes::{
    copy_at, from_le16, from_le32, from_le_i32, group_le, le16, le32, le_i32, push_i32, push_slice,
    push_u16, push_u32, read_i32, read_u16, read_u32,
};

pub use crate::protocol::{
    EVT_ADC_SAMPLE, EVT_BUTTON_EVENT, EVT_BW_BASE_SYNC_CANCELLED, EVT_BW_BASE_SYNC_COMPLETE,
    EVT_BW_BASE_SYNC_START, EVT_CMD_ERROR, EVT_CMD_RECEIPT, EVT_CONTROLLER_RAM_STATE,
    EVT_DISPLAY_ERROR, EVT_DISPLAY_RECOVERY, EVT_FIRMWARE_STARTED, EVT_GRAY_DELAY_CANCELLED,
    EVT_GRAY_OVERLAY_ACTIVATE, EVT_GRAY_OVERLAY_CANCELLED, EVT_GRAY_OVERLAY_COMPLETE,
    EVT_GRAY_OVERLAY_START, EVT_IDLE_ENTERED, EVT_IDLE_LEFT, EVT_IDLE_SUMMARY, EVT_INPUT_DECISION, EVT_INPUT_TRANSITION, EVT_KEY_PRESS,
    EVT_PAGE_DECISION, EVT_PAGE_TURN, EVT_PANEL_MODE, EVT_REFRESH_DECISION, EVT_REFRESH_PHASE,
    EVT_RENDER_FAILURE, EVT_RENDER_START, EVT_RENDER_SUCCESS, EVT_RESEED_COMPLETE,
    EVT_RESEED_START, EVT_TURN_BOUNDARY_NOOP, EVT_TURN_DEQUEUED, EVT_TURN_DROPPED,
    EVT_TURN_QUEUED, EVT_TURN_STARTED, EVT_WAVEFORM_SELECTED,
};

verus! {

broadcast use group_le, vstd::seq_lib::group_seq_properties, vstd::slice::group_slice_axioms;

pub const DIAG_LOG_RECORDS: usize = 256;
pub const DEFAULT_LOG_CAPACITY: usize = DIAG_LOG_RECORDS;
pub const IDLE_SUMMARY_MS: u32 = 5000;
pub const ADC_SAMPLE_INTERVAL_MS: u32 = 100;

pub const LEVEL_TRACE: u8 = 0;
pub const LEVEL_DEBUG: u8 = 1;
pub const LEVEL_INFO: u8 = 2;
pub const LEVEL_WARN: u8 = 3;
pub const LEVEL_ERROR: u8 = 4;

pub const SUB_SYSTEM: u8 = 0;
pub const SUB_DISPLAY: u8 = 1;
pub const SUB_INPUT: u8 = 2;
pub const SUB_NAV: u8 = 3;
pub const SUB_STORAGE: u8 = 4;
pub const SUB_SERIAL: u8 = 5;
pub const SUB_IDLE: u8 = 6;

pub const CRASH_MAGIC: [u8; 4] = [0x42, 0x42, 0x43, 0x52];
pub const CRASH_VERSION: u8 = 1;
pub const CRASH_RECORD_BYTES: usize = 128;
pub const CRASH_LOG_RECORDS: usize = 4;

#[derive(Debug, Clone, Copy, PartialEq, Eq, Structural)]
pub enum CrashSummaryError {
    BadMagic,
    BadCrc,
}

#[derive(Debug, Clone, Copy, PartialEq, Eq, Structural)]
pub struct CrashLogSlot {
    pub sequence: u32,
    pub tick_ms: u32,
    pub level: u8,
    pub subsystem: u8,
    pub event: u16,
    pub arg0: i32,
    pub arg1: i32,
    pub arg2: i32,
}

#[derive(Debug, Clone, Copy, PartialEq, Eq)]
pub struct CrashSummary {
    pub flags: u8,
    pub copied_log_count: u8,
    pub panel_mode: u8,
    pub boot_counter: u32,
    pub last_error: i32,
    pub last_page: u32,
    pub last_log_sequence: u32,
    pub records: [CrashLogSlot; CRASH_LOG_RECORDS],
}

// ---------------------------------------------------------------------------
// CRC-32 (IEEE, reflected)
// ---------------------------------------------------------------------------

/// One bit step of the reflected CRC-32 register (polynomial 0xEDB88320).
pub open spec fn crc32_shift(crc: u32) -> u32 {
    if crc & 1 != 0 {
        (crc >> 1u32) ^ 0xEDB8_8320u32
    } else {
        crc >> 1u32
    }
}

/// `n` bit steps of the register.
pub open spec fn crc32_bits(crc: u32, n: nat) -> u32
    decreases n,
{
    if n == 0 {
        crc
    } else {
        crc32_bits(crc32_shift(crc), (n - 1) as nat)
    }
}

/// The register after feeding `data`, starting from `init`.
pub open spec fn crc32_update(init: u32, data: Seq<u8>) -> u32
    decreases data.len(),
{
    if data.len() == 0 {
        init
    } else {
        crc32_bits(crc32_update(init, data.drop_last()) ^ (data.last() as u32), 8)
    }
}

/// CRC-32/IEEE: initial value 0xFFFFFFFF, reflected, final complement.
pub open spec fn crc32(data: Seq<u8>) -> u32 {
    !crc32_update(0xFFFF_FFFF, data)
}

pub fn crc32_ieee(data: &[u8]) -> (r: u32)
    ensures
        r == crc32(data@),
{
    let mut crc: u32 = 0xFFFF_FFFF;
    let mut i: usize = 0;
    while i < data.len()
        invariant
            i <= data@.len(),
            crc == crc32_update(0xFFFF_FFFF, data@.take(i as int)),
        decreases data@.len() - i,
    {
        crc = crc ^ (data[i] as u32);
        let ghost start = crc;
        let mut k: u32 = 0;
        while k < 8
            invariant
                k <= 8,
                crc32_bits(start, 8) == crc32_bits(crc, (8 - k) as nat),
            decreases 8 - k,
        {
            assert(crc32_bits(crc, (8 - k) as nat) == crc32_bits(
                crc32_shift(crc),
                (8 - k - 1) as nat,
            ));
            if crc & 1 != 0 {
                crc = (crc >> 1u32) ^ 0xEDB8_8320;
            } else {
                crc = crc >> 1u32;
            }
            k = k + 1;
        }
        assert(data@.take(i + 1).drop_last() =~= data@.take(i as int));
        i = i + 1;
    }
    assert(data@.take(data@.len() as int) =~= data@);
    !crc
}

// ---------------------------------------------------------------------------
// Crash summary
// ---------------------------------------------------------------------------

/// The 24 bytes of a log slot.
pub open spec fn slot_bytes(s: CrashLogSlot) -> Seq<u8> {
    le32(s.sequence) + le32(s.tick_ms) + seq![s.level, s.subsystem] + le16(s.event) + le_i32(
        s.arg0,
    ) + le_i32(s.arg1) + le_i32(s.arg2)
}

/// The slot that 24 bytes hold.
pub open spec fn slot_of(b: Seq<u8>) -> CrashLogSlot {
    CrashLogSlot {
        sequence: from_le32(b.subrange(0, 4)),
        tick_ms: from_le32(b.subrange(4, 8)),
        level: b[8],
        subsystem: b[9],
        event: from_le16(b.subrange(10, 12)),
        arg0: from_le_i32(b.subrange(12, 16)),
        arg1: from_le_i32(b.subrange(16, 20)),
        arg2: from_le_i32(b.subrange(20, 24)),
    }
}

/// The first 124 bytes of an encoded summary, which the CRC covers.
pub open spec fn crash_body(c: CrashSummary) -> Seq<u8> {
    CRASH_MAGIC@ + seq![CRASH_VERSION, c.flags, c.copied_log_count, c.panel_mode] + le32(
        c.boot_counter,
    ) + le_i32(c.last_error) + le32(c.last_page) + le32(c.last_log_sequence) + slot_bytes(
        c.records@[0],
    ) + slot_bytes(c.records@[1]) + slot_bytes(c.records@[2]) + slot_bytes(c.records@[3])
        + seq![0u8, 0u8, 0u8, 0u8]
}

/// The 128-byte encoding of a summary.
pub open spec fn crash_bytes(c: CrashSummary) -> Seq<u8> {
    crash_body(c) + le32(crc32(crash_body(c)))
}

/// Whether every byte is 0xFF (erased flash).
pub open spec fn all_erased(b: Seq<u8>) -> bool {
    forall|i: int| 0 <= i < b.len() ==> b[i] == 0xFF
}

/// Whether `b` starts with the crash magic.
pub open spec fn has_crash_magic(b: Seq<u8>) -> bool {
    b.len() >= 4 && b.take(4) == CRASH_MAGIC@
}

/// Whether the CRC stored in a 128-byte record matches its first 124 bytes.
pub open spec fn crash_crc_ok(b: Seq<u8>) -> bool {
    from_le32(b.subrange(124, 128)) == crc32(b.take(124))
}

/// Whether `c` holds the fields that the 128 bytes `b` carry (the version byte
/// and the four reserved bytes are not read).
pub open spec fn crash_fields(c: CrashSummary, b: Seq<u8>) -> bool {
    &&& c.flags == b[5]
    &&& c.copied_log_count == b[6]
    &&& c.panel_mode == b[7]
    &&& c.boot_counter == from_le32(b.subrange(8, 12))
    &&& c.last_error == from_le_i32(b.subrange(12, 16))
    &&& c.last_page == from_le32(b.subrange(16, 20))
    &&& c.last_log_sequence == from_le32(b.subrange(20, 24))
    &&& forall|i: int|
        0 <= i < 4 ==> #[trigger] c.records@[i] == slot_of(b.subrange(24 + 24 * i, 48 + 24 * i))
}

impl CrashLogSlot {
    /// The all-zero slot.
    pub fn default() -> (r: Self)
        ensures
            r == (CrashLogSlot {
                sequence: 0,
                tick_ms: 0,
                level: 0,
                subsystem: 0,
                event: 0,
                arg0: 0,
                arg1: 0,
                arg2: 0,
            }),
    {
        Self { sequence: 0, tick_ms: 0, level: 0, subsystem: 0, event: 0, arg0: 0, arg1: 0, arg2: 0 }
    }

    /// Writes the slot over the first 24 bytes of `buf`.
    pub fn encode(&self, buf: &mut [u8])
        requires
            old(buf)@.len() >= 24,
        ensures
            final(buf)@ == slot_bytes(*self) + old(buf)@.skip(24),
    {
        let mut v: Vec<u8> = Vec::new();
        push_u32(&mut v, self.sequence);
        push_u32(&mut v, self.tick_ms);
        v.push(self.level);
        v.push(self.subsystem);
        push_u16(&mut v, self.event);
        push_i32(&mut v, self.arg0);
        push_i32(&mut v, self.arg1);
        push_i32(&mut v, self.arg2);
        assert(v@ =~= slot_bytes(*self));
        copy_at(buf, 0, v.as_slice());
        assert(final(buf)@ =~= slot_bytes(*self) + old(buf)@.skip(24));
    }

    /// Reads a slot from the first 24 bytes of `buf`.
    pub fn decode(buf: &[u8]) -> (r: Self)
        requires
            buf@.len() >= 24,
        ensures
            r == slot_of(buf@.take(24)),
    {
        let r = Self {
            sequence: read_u32(buf, 0),
            tick_ms: read_u32(buf, 4),
            level: buf[8],
            subsystem: buf[9],
            event: read_u16(buf, 10),
            arg0: read_i32(buf, 12),
            arg1: read_i32(buf, 16),
            arg2: read_i32(buf, 20),
        };
        let ghost b = buf@.take(24);
        assert(b.subrange(0, 4) =~= buf@.subrange(0, 4));
        assert(b.subrange(4, 8) =~= buf@.subrange(4, 8));
        assert(b.subrange(10, 12) =~= buf@.subrange(10, 12));
        assert(b.subrange(12, 16) =~= buf@.subrange(12, 16));
        assert(b.subrange(16, 20) =~= buf@.subrange(16, 20));
        assert(b.subrange(20, 24) =~= buf@.subrange(20, 24));
        r
    }
}

/// A slot decodes back to the slot encoded.
pub proof fn lemma_slot_roundtrip(s: CrashLogSlot)
    ensures
        slot_bytes(s).len() == 24,
        slot_of(slot_bytes(s)) == s,
{
    let b = slot_bytes(s);
    assert(b.subrange(0, 4) =~= le32(s.sequence));
    assert(b.subrange(4, 8) =~= le32(s.tick_ms));
    assert(b.subrange(10, 12) =~= le16(s.event));
    assert(b.subrange(12, 16) =~= le_i32(s.arg0));
    assert(b.subrange(16, 20) =~= le_i32(s.arg1));
    assert(b.subrange(20, 24) =~= le_i32(s.arg2));
}

impl CrashSummary {
    /// Writes the 128-byte encoding of the summary into `buf`.
    pub fn encode(&self, buf: &mut [u8; CRASH_RECORD_BYTES])
        ensures
            final(buf)@ == crash_bytes(*self),
    {
        let mut v: Vec<u8> = Vec::new();
        push_slice(&mut v, CRASH_MAGIC.as_slice());
        v.push(CRASH_VERSION);
        v.push(self.flags);
        v.push(self.copied_log_count);
        v.push(self.panel_mode);
        push_u32(&mut v, self.boot_counter);
        push_i32(&mut v, self.last_error);
        push_u32(&mut v, self.last_page);
        push_u32(&mut v, self.last_log_sequence);
        let mut i: usize = 0;
        while i < CRASH_LOG_RECORDS
            invariant
                i <= 4,
                v@ == CRASH_MAGIC@ + seq![CRASH_VERSION, self.flags, self.copied_log_count, self.panel_mode]
                    + le32(self.boot_counter) + le_i32(self.last_error) + le32(self.last_page)
                    + le32(self.last_log_sequence) + slots_prefix(self.records@, i as int),
            decreases 4 - i,
        {
            let slot = self.records[i];
            push_u32(&mut v, slot.sequence);
            push_u32(&mut v, slot.tick_ms);
            v.push(slot.level);
            v.push(slot.subsystem);
            push_u16(&mut v, slot.event);
            push_i32(&mut v, slot.arg0);
            push_i32(&mut v, slot.arg1);
            push_i32(&mut v, slot.arg2);
            assert(slots_prefix(self.records@, i + 1) =~= slots_prefix(self.records@, i as int)
                + slot_bytes(self.records@[i as int]));
            i = i + 1;
        }
        v.push(0);
        v.push(0);
        v.push(0);
        v.push(0);
        assert(slots_prefix(self.records@, 4) =~= slot_bytes(self.records@[0]) + slot_bytes(
            self.records@[1],
        ) + slot_bytes(self.records@[2]) + slot_bytes(self.records@[3])) by {
            reveal_with_fuel(slots_prefix, 5);
        }
        assert(v@ =~= crash_body(*self));
        let crc = crc32_ieee(v.as_slice());
        push_u32(&mut v, crc);
        assert(v@ =~= crash_bytes(*self));
        let mut k: usize = 0;
        while k < CRASH_RECORD_BYTES
            invariant
                k <= 128,
                v@ == crash_bytes(*self),
                v@.len() == 128,
                buf@.len() == 128,
                forall|j: int| 0 <= j < k ==> buf@[j] == v@[j],
            decreases 128 - k,
        {
            buf[k] = v[k];
            k = k + 1;
        }
        assert(buf@ =~= crash_bytes(*self));
    }

    /// Reads a summary. Erased flash (all 0xFF) is `None`; a short buffer or
    /// a wrong magic is `BadMagic`; a CRC that does not match is `BadCrc`.
    pub fn decode(buf: &[u8]) -> (r: Result<Option<Self>, CrashSummaryError>)
        ensures
            (buf@.len() < 128 || !has_crash_magic(buf@)) ==> r == (if all_erased(buf@) {
                Ok::<Option<Self>, CrashSummaryError>(None)
            } else {
                Err(CrashSummaryError::BadMagic)
            }),
            (buf@.len() >= 128 && has_crash_magic(buf@) && !crash_crc_ok(buf@)) ==> r == Err::<
                Option<Self>,
                CrashSummaryError,
            >(CrashSummaryError::BadCrc),
            (buf@.len() >= 128 && has_crash_magic(buf@) && crash_crc_ok(buf@)) ==> (r matches Ok(
                Some(c),
            ) && crash_fields(c, buf@)),
    {
        if buf.len() < CRASH_RECORD_BYTES || buf[0] != CRASH_MAGIC[0] || buf[1] != CRASH_MAGIC[1]
            || buf[2] != CRASH_MAGIC[2] || buf[3] != CRASH_MAGIC[3] {
            proof {
                if buf@.len() >= 128 && has_crash_magic(buf@) {
                    assert(buf@.take(4)[0] == buf@[0]);
                    assert(buf@.take(4)[1] == buf@[1]);
                    assert(buf@.take(4)[2] == buf@[2]);
                    assert(buf@.take(4)[3] == buf@[3]);
                }
            }
            if all_ff(buf) {
                return Ok(None);
            }
            return Err(CrashSummaryError::BadMagic);
        }
        assert(buf@.take(4) =~= CRASH_MAGIC@);
        let stored_crc = read_u32(buf, 124);
        let computed_crc = crc32_ieee(vstd::slice::slice_subrange(buf, 0, 124));
        assert(buf@.subrange(0, 124) =~= buf@.take(124));
        if stored_crc != computed_crc {
            return Err(CrashSummaryError::BadCrc);
        }
        let mut records = [CrashLogSlot::default();CRASH_LOG_RECORDS];
        let mut i: usize = 0;
        while i < CRASH_LOG_RECORDS
            invariant
                i <= 4,
                buf@.len() >= 128,
                records@.len() == 4,
                forall|j: int|
                    0 <= j < i ==> #[trigger] records@[j] == slot_of(
                        buf@.subrange(24 + 24 * j, 48 + 24 * j),
                    ),
            decreases 4 - i,
        {
            let offset = 24 + i * 24;
            let slot = CrashLogSlot::decode(vstd::slice::slice_subrange(buf, offset, offset + 24));
            assert(buf@.subrange(offset as int, offset + 24).take(24) =~= buf@.subrange(
                24 + 24 * i,
                48 + 24 * i,
            ));
            records[i] = slot;
            i = i + 1;
        }
        Ok(
            Some(
                CrashSummary {
                    flags: buf[5],
                    copied_log_count: buf[6],
                    panel_mode: buf[7],
                    boot_counter: read_u32(buf, 8),
                    last_error: read_i32(buf, 12),
                    last_page: read_u32(buf, 16),
                    last_log_sequence: read_u32(buf, 20),
                    records,
                },
            ),
        )
    }
}

/// The encodings of the first `n` slots, in order.
pub open spec fn slots_prefix(records: Seq<CrashLogSlot>, n: int) -> Seq<u8>
    decreases n,
{
    if n <= 0 {
        Seq::empty()
    } else {
        slots_prefix(records, n - 1) + slot_bytes(records[n - 1])
    }
}

/// Whether every byte of `buf` is 0xFF.
fn all_ff(buf: &[u8]) -> (r: bool)
    ensures
        r == all_erased(buf@),
{
    let mut i: usize = 0;
    while i < buf.len()
        invariant
            i <= buf@.len(),
            forall|j: int| 0 <= j < i ==> buf@[j] == 0xFF,
        decreases buf@.len() - i,
    {
        if buf[i] != 0xFF {
            return false;
        }
        i = i + 1;
    }
    true
}

/// A summary survives encoding: the bytes carry the magic and a matching
/// CRC, and their fields are the summary's.
pub proof fn lemma_crash_roundtrip(c: CrashSummary)
    ensures
        crash_bytes(c).len() == 128,
        has_crash_magic(crash_bytes(c)),
        crash_crc_ok(crash_bytes(c)),
        crash_fields(c, crash_bytes(c)),
        forall|d: CrashSummary| crash_fields(d, crash_bytes(c)) ==> d == c,
{
    let b = crash_bytes(c);
    let body = crash_body(c);
    lemma_slot_roundtrip(c.records@[0]);
    lemma_slot_roundtrip(c.records@[1]);
    lemma_slot_roundtrip(c.records@[2]);
    lemma_slot_roundtrip(c.records@[3]);
    assert(body.len() == 124);
    assert(b.take(4) =~= CRASH_MAGIC@);
    assert(b.take(124) =~= body);
    assert(b.subrange(124, 128) =~= le32(crc32(body)));
    assert(b.subrange(8, 12) =~= le32(c.boot_counter));
    assert(b.subrange(12, 16) =~= le_i32(c.last_error));
    assert(b.subrange(16, 20) =~= le32(c.last_page));
    assert(b.subrange(20, 24) =~= le32(c.last_log_sequence));
    assert(b.subrange(24, 48) =~= slot_bytes(c.records@[0]));
    assert(b.subrange(48, 72) =~= slot_bytes(c.records@[1]));
    assert(b.subrange(72, 96) =~= slot_bytes(c.records@[2]));
    assert(b.subrange(96, 120) =~= slot_bytes(c.records@[3]));
    assert forall|i: int| 0 <= i < 4 implies #[trigger] c.records@[i] == slot_of(
        b.subrange(24 + 24 * i, 48 + 24 * i),
    ) by {
        if i == 0 {
        } else if i == 1 {
        } else if i == 2 {
        } else {
        }
    }
    assert forall|d: CrashSummary| crash_fields(d, b) implies d == c by {
        assert(d.records@ =~= c.records@) by {
            assert forall|i: int| 0 <= i < 4 implies d.records@[i] == c.records@[i] by {
                assert(d.records@[i] == slot_of(b.subrange(24 + 24 * i, 48 + 24 * i)));
                assert(c.records@[i] == slot_of(b.subrange(24 + 24 * i, 48 + 24 * i)));
            }
        }
        assert(d.records =~= c.records);
    }
}

// ---------------------------------------------------------------------------
// The log ring
// ---------------------------------------------------------------------------

#[derive(Debug, Clone, Copy, PartialEq, Eq, Structural)]
pub struct DiagEvent {
    pub level: u8,
    pub subsystem: u8,
    pub event: u16,
    pub arg0: i32,
    pub arg1: i32,
    pub arg2: i32,
}

#[derive(Debug, Clone, Copy, PartialEq, Eq, Structural)]
pub struct DiagLogRecord {
    pub sequence: u32,
    pub tick_ms: u32,
    pub level: u8,
    pub subsystem: u8,
    pub event: u16,
    pub arg0: i32,
    pub arg1: i32,
    pub arg2: i32,
}

impl DiagLogRecord {
    /// The all-zero record.
    pub fn default() -> (r: Self)
        ensures
            r == (DiagLogRecord {
                sequence: 0,
                tick_ms: 0,
                level: 0,
                subsystem: 0,
                event: 0,
                arg0: 0,
                arg1: 0,
                arg2: 0,
            }),
    {
        Self { sequence: 0, tick_ms: 0, level: 0, subsystem: 0, event: 0, arg0: 0, arg1: 0, arg2: 0 }
    }
}

#[derive(Debug, Clone, Copy, PartialEq, Eq, Structural)]
pub struct LogReadResult {
    pub next_cursor: u32,
    pub dropped_log_count: u32,
    pub record_count: u16,
}

/// The record that a push of `event` at `tick_ms` stores under `sequence`.
pub open spec fn record_of(sequence: u32, tick_ms: u32, event: DiagEvent) -> DiagLogRecord {
    DiagLogRecord {
        sequence,
        tick_ms,
        level: event.level,
        subsystem: event.subsystem,
        event: event.event,
        arg0: event.arg0,
        arg1: event.arg1,
        arg2: event.arg2,
    }
}

/// The log slot a record is copied into.
pub open spec fn slot_from_record(r: DiagLogRecord) -> CrashLogSlot {
    CrashLogSlot {
        sequence: r.sequence,
        tick_ms: r.tick_ms,
        level: r.level,
        subsystem: r.subsystem,
        event: r.event,
        arg0: r.arg0,
        arg1: r.arg1,
        arg2: r.arg2,
    }
}

/// What a log holds: its records from oldest to newest, the sequence number
/// of the next record, and how many records were overwritten.
pub struct DiagLogView {
    pub records: Seq<DiagLogRecord>,
    pub next_sequence: u32,
    pub dropped: u32,
}

/// The records after one more is pushed into a ring of `capacity` records.
pub open spec fn ring_push(
    records: Seq<DiagLogRecord>,
    record: DiagLogRecord,
    capacity: nat,
) -> Seq<DiagLogRecord> {
    if records.len() < capacity {
        records.push(record)
    } else {
        records.drop_first().push(record)
    }
}

/// The log after pushing `event` at `tick_ms` into a ring of `capacity` records.
pub open spec fn log_after_push(
    log: DiagLogView,
    tick_ms: u32,
    event: DiagEvent,
    capacity: nat,
) -> DiagLogView {
    DiagLogView {
        records: ring_push(log.records, record_of(log.next_sequence, tick_ms, event), capacity),
        next_sequence: (log.next_sequence + 1) as u32,
        dropped: if log.records.len() < capacity {
            log.dropped
        } else {
            (log.dropped + 1) as u32
        },
    }
}

/// The sequence number of the oldest record, or the next one when the log is
/// empty.
pub open spec fn oldest_of(log: DiagLogView) -> int {
    log.next_sequence - log.records.len()
}

pub struct DiagLog<const N: usize> {
    records: Vec<DiagLogRecord>,
    write_index: usize,
    count: usize,
    next_sequence: u32,
    dropped: u32,
}

/// `x % n` for `0 <= x < 2n`, without division.
proof fn lemma_mod_below_twice(x: int, n: int)
    requires
        0 < n,
        0 <= x < 2 * n,
    ensures
        x % n == if x < n {
            x
        } else {
            x - n
        },
{
    if x < n {
        lemma_small_mod(x as nat, n as nat);
    } else {
        lemma_small_mod((x - n) as nat, n as nat);
        lemma_mod_sub_multiples_vanish(x, n);
    }
}

impl<const N: usize> View for DiagLog<N> {
    type V = DiagLogView;

    closed spec fn view(&self) -> DiagLogView {
        DiagLogView {
            records: Seq::new(
                self.count as nat,
                |i: int| self.records@[(self.write_index + N - self.count + i) % (N as int)],
            ),
            next_sequence: self.next_sequence,
            dropped: self.dropped,
        }
    }
}

impl<const N: usize> DiagLog<N> {
    /// The ring's internal consistency.
    pub closed spec fn wf(&self) -> bool {
        &&& self.records@.len() == N
        &&& N <= isize::MAX
        &&& (N == 0 ==> self.write_index == 0)
        &&& (N > 0 ==> self.write_index < N)
        &&& self.count <= N
        &&& self.dropped + self.count <= self.next_sequence
        &&& forall|i: int|
            0 <= i < self.count ==> (#[trigger] self@.records[i]).sequence == self.next_sequence
                - self.count + i
    }

    /// What a well-formed log keeps: at most `N` records, numbered
    /// consecutively up to the next sequence number, and no more dropped
    /// records than the sequence numbers handed out before them.
    pub proof fn lemma_wf(&self)
        requires
            self.wf(),
        ensures
            self@.records.len() <= N,
            self@.dropped + self@.records.len() <= self@.next_sequence,
            forall|i: int|
                0 <= i < self@.records.len() ==> (#[trigger] self@.records[i]).sequence
                    == oldest_of(self@) + i,
    {
    }

    /// An empty log.
    pub fn new() -> (r: Self)
        requires
            N <= isize::MAX,
        ensures
            r.wf(),
            r@.records == Seq::<DiagLogRecord>::empty(),
            r@.next_sequence == 0,
            r@.dropped == 0,
    {
        let mut records: Vec<DiagLogRecord> = Vec::new();
        let mut i: usize = 0;
        while i < N
            invariant
                i <= N,
                records@.len() == i,
            decreases N - i,
        {
            records.push(DiagLogRecord::default());
            i = i + 1;
        }
        let r = Self { records, write_index: 0, count: 0, next_sequence: 0, dropped: 0 };
        assert(r@.records =~= Seq::<DiagLogRecord>::empty());
        r
    }

    /// Appends a record of `event` at `tick_ms`, numbered with the next
    /// sequence number, which it returns; when the ring is full the oldest
    /// record is overwritten and counted as dropped.
    pub fn push(&mut self, tick_ms: u32, event: DiagEvent) -> (r: u32)
        requires
            old(self).wf(),
            N > 0,
            old(self)@.next_sequence < u32::MAX,
        ensures
            final(self).wf(),
            r == old(self)@.next_sequence,
            final(self)@ == log_after_push(old(self)@, tick_ms, event, N as nat),
    {
        let ghost old_view = self@;
        let ghost old_data = self.records@;
        let ghost w = self.write_index as int;
        let ghost c = self.count as int;
        let seq = self.next_sequence;
        let record = DiagLogRecord {
            sequence: seq,
            tick_ms,
            level: event.level,
            subsystem: event.subsystem,
            event: event.event,
            arg0: event.arg0,
            arg1: event.arg1,
            arg2: event.arg2,
        };
        self.records.set(self.write_index, record);
        self.write_index = (self.write_index + 1) % N;
        if self.count < N {
            self.count = self.count + 1;
        } else {
            self.dropped = self.dropped + 1;
        }
        self.next_sequence = self.next_sequence + 1;
        proof {
            let n = N as int;
            lemma_mod_below_twice(w + 1, n);
            let expected = log_after_push(old_view, tick_ms, event, N as nat);
            assert forall|j: int| 0 <= j < self.count implies #[trigger] self@.records[j]
                == expected.records[j] by {
                let pos = (self.write_index + n - self.count + j) % n;
                if c < n {
                    lemma_mod_below_twice(self.write_index + n - self.count + j, n);
                    lemma_mod_below_twice(w + n - c + j, n);
                    if j < c {
                        assert(pos == (w + n - c + j) % n);
                        assert(pos != w);
                    } else {
                        assert(pos == w);
                    }
                } else {
                    lemma_mod_below_twice(self.write_index + n - self.count + j, n);
                    lemma_mod_below_twice(w + n - c + j + 1, n);
                    if j < c - 1 {
                        assert(pos == (w + n - c + j + 1) % n);
                        assert(pos != w);
                    } else {
                        assert(pos == w);
                    }
                }
            }
            assert(self@.records =~= expected.records);
        }
        seq
    }

    /// The same as `push`, with the arguments the other way round.
    pub fn push_event(&mut self, event: DiagEvent, tick_ms: u32)
        requires
            old(self).wf(),
            N > 0,
            old(self)@.next_sequence < u32::MAX,
        ensures
            final(self).wf(),
            final(self)@ == log_after_push(old(self)@, tick_ms, event, N as nat),
    {
        self.push(tick_ms, event);
    }

    /// Copies records from sequence number `cursor` on (or from the oldest
    /// record, when `cursor` is older) into `out`, as many as fit; the rest of
    /// `out` is untouched. The result gives the cursor to continue from, the
    /// dropped count and the number of records copied.
    pub fn read_from_sequence(&self, cursor: u32, out: &mut [DiagLogRecord]) -> (r: LogReadResult)
        requires
            self.wf(),
        ensures
            ({
                let log = self@;
                let oldest = oldest_of(log);
                let start = if cursor < oldest {
                    oldest
                } else {
                    cursor as int
                };
                if start >= log.next_sequence {
                    &&& r == LogReadResult {
                        next_cursor: log.next_sequence,
                        dropped_log_count: log.dropped,
                        record_count: 0,
                    }
                    &&& final(out)@ == old(out)@
                } else {
                    let n = if log.next_sequence - start < old(out)@.len() {
                        log.next_sequence - start
                    } else {
                        old(out)@.len() as int
                    };
                    &&& r == LogReadResult {
                        next_cursor: (start + n) as u32,
                        dropped_log_count: log.dropped,
                        record_count: n as u16,
                    }
                    &&& final(out)@ == log.records.subrange(start - oldest, start - oldest + n)
                        + old(out)@.skip(n)
                }
            }),
    {
        let oldest = match self.oldest_sequence() {
            Some(s) => s,
            None => self.next_sequence,
        };
        let effective_cursor = if cursor < oldest {
            oldest
        } else {
            cursor
        };
        if effective_cursor >= self.next_sequence {
            return LogReadResult {
                next_cursor: self.next_sequence,
                dropped_log_count: self.dropped,
                record_count: 0,
            };
        }
        let available = (self.next_sequence - effective_cursor) as usize;
        let to_copy = if available < out.len() {
            available
        } else {
            out.len()
        };
        let start_offset = (effective_cursor - oldest) as usize;
        let start_index = (self.write_index + N - self.count + start_offset) % N;
        let ghost out0 = out@;
        let ghost view = self@.records;
        let mut i: usize = 0;
        while i < to_copy
            invariant
                self.wf(),
                view == self@.records,
                N > 0,
                i <= to_copy,
                to_copy <= out0.len(),
                out@.len() == out0.len(),
                start_offset + to_copy <= self.count,
                start_index == (self.write_index + N - self.count + start_offset) % (N as int),
                forall|j: int| 0 <= j < i ==> out@[j] == view[start_offset + j],
                forall|j: int| to_copy <= j < out0.len() ==> out@[j] == out0[j],
            decreases to_copy - i,
        {
            proof {
                let n = N as int;
                let a = self.write_index + n - self.count + start_offset;
                lemma_mod_below_twice(a, n);
                lemma_mod_below_twice(start_index + i, n);
                lemma_mod_below_twice(a + i, n);
            }
            out[i] = self.records[(start_index + i) % N];
            i = i + 1;
        }
        assert(out@ =~= view.subrange(start_offset as int, start_offset + to_copy) + out0.skip(
            to_copy as int,
        ));
        LogReadResult {
            next_cursor: effective_cursor + to_copy as u32,
            dropped_log_count: self.dropped,
            record_count: to_copy as u16,
        }
    }

    /// The sequence number of the oldest record, if any.
    pub fn oldest_sequence(&self) -> (r: Option<u32>)
        requires
            self.wf(),
        ensures
            r == (if self@.records.len() == 0 {
                None
            } else {
                Some(oldest_of(self@) as u32)
            }),
    {
        if self.count == 0 {
            None
        } else {
            Some(self.next_sequence - self.count as u32)
        }
    }

    /// The sequence number of the newest record, if any.
    pub fn newest_sequence(&self) -> (r: Option<u32>)
        requires
            self.wf(),
        ensures
            r == (if self@.records.len() == 0 {
                None
            } else {
                Some((self@.next_sequence - 1) as u32)
            }),
    {
        if self.count == 0 {
            None
        } else {
            Some(self.next_sequence - 1)
        }
    }

    /// Forgets every record and the dropped count; numbering continues.
    pub fn clear(&mut self)
        requires
            old(self).wf(),
        ensures
            final(self).wf(),
            final(self)@ == (DiagLogView {
                records: Seq::empty(),
                next_sequence: old(self)@.next_sequence,
                dropped: 0,
            }),
    {
        self.write_index = 0;
        self.count = 0;
        self.dropped = 0;
        assert(self@.records =~= Seq::<DiagLogRecord>::empty());
    }

    pub fn dropped_records(&self) -> (r: u32)
        ensures
            r == self@.dropped,
    {
        self.dropped
    }

    pub fn next_sequence(&self) -> (r: u32)
        ensures
            r == self@.next_sequence,
    {
        self.next_sequence
    }

    pub fn record_count(&self) -> (r: usize)
        ensures
            r == self@.records.len(),
    {
        self.count
    }

    /// Copies the newest records, oldest first, into the start of `out`, as
    /// many as fit, and returns their number; the rest of `out` is untouched.
    pub fn copy_recent_crash_slots(&self, out: &mut [CrashLogSlot]) -> (r: usize)
        requires
            self.wf(),
            N > 0,
        ensures
            r == (if self@.records.len() < old(out)@.len() {
                self@.records.len()
            } else {
                old(out)@.len()
            }),
            final(out)@.len() == old(out)@.len(),
            forall|i: int|
                0 <= i < r ==> #[trigger] final(out)@[i] == slot_from_record(
                    self@.records[self@.records.len() - r + i],
                ),
            forall|i: int| r <= i < old(out)@.len() ==> #[trigger] final(out)@[i] == old(out)@[i],
    {
        let to_copy = if self.count < out.len() {
            self.count
        } else {
            out.len()
        };
        let first = (self.write_index + N - to_copy) % N;
        let ghost out0 = out@;
        let ghost view = self@.records;
        let mut index: usize = 0;
        while index < to_copy
            invariant
                self.wf(),
                view == self@.records,
                N > 0,
                index <= to_copy,
                to_copy <= self.count,
                to_copy <= out0.len(),
                out@.len() == out0.len(),
                first == (self.write_index + N - to_copy) % (N as int),
                forall|j: int|
                    0 <= j < index ==> #[trigger] out@[j] == slot_from_record(
                        view[self.count - to_copy + j],
                    ),
                forall|j: int| index <= j < out0.len() ==> #[trigger] out@[j] == out0[j],
            decreases to_copy - index,
        {
            proof {
                let n = N as int;
                lemma_mod_below_twice(self.write_index + n - to_copy, n);
                lemma_mod_below_twice(first + index, n);
                lemma_mod_below_twice(self.write_index + n - to_copy + index, n);
                lemma_mod_below_twice(
                    self.write_index + n - self.count + (self.count - to_copy + index),
                    n,
                );
            }
            let record = self.records[(first + index) % N];
            out[index] = CrashLogSlot {
                sequence: record.sequence,
                tick_ms: record.tick_ms,
                level: record.level,
                subsystem: record.subsystem,
                event: record.event,
                arg0: record.arg0,
                arg1: record.arg1,
                arg2: record.arg2,
            };
            index = index + 1;
        }
        to_copy
    }
}

/// A record read back right after its push is the record pushed: it is the
/// newest one and carries the sequence number that `push` returned.
pub proof fn lemma_push_then_newest(log: DiagLogView, tick_ms: u32, event: DiagEvent, capacity: nat)
    requires
        capacity > 0,
        log.records.len() <= capacity,
    ensures
        ({
            let after = log_after_push(log, tick_ms, event, capacity);
            &&& after.records.len() == if log.records.len() < capacity {
                log.records.len() + 1
            } else {
                capacity
            }
            &&& after.records.last() == record_of(log.next_sequence, tick_ms, event)
        }),
{
}

// ---------------------------------------------------------------------------
// Idle deduplication
// ---------------------------------------------------------------------------

#[derive(Debug, Clone, Copy, PartialEq, Eq, Structural)]
pub enum IdlePhase {
    Active,
    Idle,
}

pub struct DiagDeduper {
    last_idle_tick: u32,
    idle_suppressed: u32,
    phase: IdlePhase,
    last_summary_tick: u32,
}

pub struct DiagDeduperView {
    pub last_idle_tick: u32,
    pub idle_suppressed: u32,
    pub phase: IdlePhase,
    pub last_summary_tick: u32,
}

impl View for DiagDeduper {
    type V = DiagDeduperView;

    closed spec fn view(&self) -> DiagDeduperView {
        DiagDeduperView {
            last_idle_tick: self.last_idle_tick,
            idle_suppressed: self.idle_suppressed,
            phase: self.phase,
            last_summary_tick: self.last_summary_tick,
        }
    }
}

/// An idle event of the given kind with one argument.
pub open spec fn idle_event(event: u16, arg0: i32) -> DiagEvent {
    DiagEvent { level: 2, subsystem: 6, event, arg0, arg1: 0, arg2: 0 }
}

/// Milliseconds from `since` to `now`, or zero when `now` is earlier.
pub open spec fn elapsed_since(now: u32, since: u32) -> u32 {
    if now >= since {
        (now - since) as u32
    } else {
        0
    }
}

impl DiagDeduper {
    pub fn new() -> (r: Self)
        ensures
            r@ == (DiagDeduperView {
                last_idle_tick: 0,
                idle_suppressed: 0,
                phase: IdlePhase::Active,
                last_summary_tick: 0,
            }),
    {
        Self { last_idle_tick: 0, idle_suppressed: 0, phase: IdlePhase::Active, last_summary_tick: 0 }
    }

    /// Enters the idle phase at `tick_ms` and logs that it did.
    pub fn push_enter_idle<const LOG_N: usize>(&mut self, log: &mut DiagLog<LOG_N>, tick_ms: u32)
        requires
            old(log).wf(),
            LOG_N > 0,
            old(log)@.next_sequence < u32::MAX,
        ensures
            final(log).wf(),
            final(log)@ == log_after_push(
                old(log)@,
                tick_ms,
                idle_event(EVT_IDLE_ENTERED, 0),
                LOG_N as nat,
            ),
            final(self)@ == (DiagDeduperView {
                last_idle_tick: tick_ms,
                idle_suppressed: 0,
                phase: IdlePhase::Idle,
                last_summary_tick: tick_ms,
            }),
    {
        self.phase = IdlePhase::Idle;
        self.last_idle_tick = tick_ms;
        self.last_summary_tick = tick_ms;
        self.idle_suppressed = 0;
        log.push(
            tick_ms,
            DiagEvent { level: 2, subsystem: 6, event: EVT_IDLE_ENTERED, arg0: 0, arg1: 0, arg2: 0 },
        );
    }

    /// Counts one more idle tick, or, once `IDLE_SUMMARY_MS` have passed since
    /// the last summary, logs a summary of the ticks counted and starts over.
    pub fn push_idle_tick<const LOG_N: usize>(&mut self, log: &mut DiagLog<LOG_N>, tick_ms: u32)
        requires
            old(log).wf(),
            LOG_N > 0,
            old(log)@.next_sequence < u32::MAX,
            elapsed_since(tick_ms, old(self)@.last_summary_tick) < IDLE_SUMMARY_MS
                ==> old(self)@.idle_suppressed < u32::MAX,
        ensures
            final(log).wf(),
            elapsed_since(tick_ms, old(self)@.last_summary_tick) >= IDLE_SUMMARY_MS ==> {
                &&& final(log)@ == log_after_push(
                    old(log)@,
                    tick_ms,
                    idle_event(EVT_IDLE_SUMMARY, old(self)@.idle_suppressed as i32),
                    LOG_N as nat,
                )
                &&& final(self)@ == DiagDeduperView {
                    idle_suppressed: 0,
                    last_summary_tick: tick_ms,
                    ..old(self)@
                }
            },
            elapsed_since(tick_ms, old(self)@.last_summary_tick) < IDLE_SUMMARY_MS ==> {
                &&& final(log)@ == old(log)@
                &&& final(self)@ == DiagDeduperView {
                    idle_suppressed: (old(self)@.idle_suppressed + 1) as u32,
                    ..old(self)@
                }
            },
    {
        let elapsed = tick_ms.saturating_sub(self.last_summary_tick);
        if elapsed >= IDLE_SUMMARY_MS {
            log.push(
                tick_ms,
                DiagEvent {
                    level: 2,
                    subsystem: 6,
                    event: EVT_IDLE_SUMMARY,
                    arg0: self.idle_suppressed as i32,
                    arg1: 0,
                    arg2: 0,
                },
            );
            self.idle_suppressed = 0;
            self.last_summary_tick = tick_ms;
        } else {
            self.idle_suppressed = self.idle_suppressed + 1;
        }
    }

    /// Leaves the idle phase, logging how many idle ticks were counted.
    pub fn push_leave_idle<const LOG_N: usize>(&mut self, log: &mut DiagLog<LOG_N>, tick_ms: u32)
        requires
            old(log).wf(),
            LOG_N > 0,
            old(log)@.next_sequence < u32::MAX,
        ensures
            final(log).wf(),
            final(log)@ == log_after_push(
                old(log)@,
                tick_ms,
                idle_event(EVT_IDLE_LEFT, old(self)@.idle_suppressed as i32),
                LOG_N as nat,
            ),
            final(self)@ == (DiagDeduperView {
                phase: IdlePhase::Active,
                idle_suppressed: 0,
                ..old(self)@
            }),
    {
        log.push(
            tick_ms,
            DiagEvent {
                level: 2,
                subsystem: 6,
                event: EVT_IDLE_LEFT,
                arg0: self.idle_suppressed as i32,
                arg1: 0,
                arg2: 0,
            },
        );
        self.phase = IdlePhase::Active;
        self.idle_suppressed = 0;
    }

    /// Like `push_idle_tick`, measured from the last idle tick instead of the
    /// last summary.
    pub fn push_idle_or_summary<const LOG_N: usize>(
        &mut self,
        log: &mut DiagLog<LOG_N>,
        tick_ms: u32,
    )
        requires
            old(log).wf(),
            LOG_N > 0,
            old(log)@.next_sequence < u32::MAX,
            elapsed_since(tick_ms, old(self)@.last_idle_tick) < IDLE_SUMMARY_MS
                ==> old(self)@.idle_suppressed < u32::MAX,
        ensures
            final(log).wf(),
            elapsed_since(tick_ms, old(self)@.last_idle_tick) >= IDLE_SUMMARY_MS ==> {
                &&& final(log)@ == log_after_push(
                    old(log)@,
                    tick_ms,
                    idle_event(EVT_IDLE_SUMMARY, old(self)@.idle_suppressed as i32),
                    LOG_N as nat,
                )
                &&& final(self)@ == DiagDeduperView {
                    idle_suppressed: 0,
                    last_idle_tick: tick_ms,
                    ..old(self)@
                }
            },
            elapsed_since(tick_ms, old(self)@.last_idle_tick) < IDLE_SUMMARY_MS ==> {
                &&& final(log)@ == old(log)@
                &&& final(self)@ == DiagDeduperView {
                    idle_suppressed: (old(self)@.idle_suppressed + 1) as u32,
                    ..old(self)@
                }
            },
    {
        let elapsed = tick_ms.saturating_sub(self.last_idle_tick);
        if elapsed >= IDLE_SUMMARY_MS {
            log.push(
                tick_ms,
                DiagEvent {
                    level: 2,
                    subsystem: 6,
                    event: EVT_IDLE_SUMMARY,
                    arg0: self.idle_suppressed as i32,
                    arg1: 0,
                    arg2: 0,
                },
            );
            self.idle_suppressed = 0;
            self.last_idle_tick = tick_ms;
        } else {
            self.idle_suppressed = self.idle_suppressed + 1;
        }
    }
}

} // verus!
