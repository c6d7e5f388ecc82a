//! The diagnostic serial console: byte stream framing, command dispatch,
//! queued hardware commands, and the responses sent back.

use vstd::prelude::*;
use vstd::slice::*;
use vstd::string::StringSliceAdditionalSpecFns;
use crate::fw::diag_log::{
    log_after_push, oldest_of, DiagEvent, DiagLog, DiagLogRecord, DiagLogView, EVT_CMD_ERROR,
    EVT_CMD_RECEIPT, EVT_KEY_PRESS, EVT_PAGE_DECISION, LEVEL_ERROR, LEVEL_INFO, SUB_INPUT, SUB_NAV,
    SUB_SERIAL,
};
use crate::fw::input::{Button, PageTurn};
use crate::fw::input::{apply_page_turn, page_turn_for_button, turn_of, turned_page};
use crate::protocol::bytes::{copy_at, le32, push_slice};
use crate::protocol::frame::{
    cobs_encoding, decode_frame, decode_raw_frame, decode_raw_spec, encode_frame, encode_raw_frame,
    known_header, lemma_cobs_encoding_len, lemma_cobs_len_bound, lemma_parse_raw_frame_bytes,
    raw_frame_bytes,
};
use crate::protocol::{
    encode_log_record, encode_log_response_header, log_record_bytes, log_response_header_bytes,
    LogRecordPayload, LogResponseHeader, LOG_RECORD_BYTES, LOG_RESPONSE_HEADER_BYTES,
    MAX_PAYLOAD_BYTES, encode_page_response, ProtocolError, RawFrameHeader,
    decode_key_payload, decode_log_get_payload, decode_page_payload, decode_probe_payload,
    encode_hello_response, encode_status_payload, hello_bytes, FrameHeader, FrameKind,
    HelloResponse, KeyAction, KeyCode, KeyPayload, LogGetPayload, Opcode, PageAction, PagePayload,
    PanelModeCode, ProbeCode, Status, StatusPayload, ALL_CAPABILITIES, FRAME_DELIMITER,
    MAX_FRAME_BYTES, PROTOCOL_VERSION, status_bytes,
};

verus! {

broadcast use vstd::seq_lib::group_seq_properties, vstd::slice::group_slice_axioms,
    vstd::string::group_string_axioms, crate::protocol::bytes::group_le;

pub const SERIAL_RX_BUF_SIZE: usize = 8252;
pub const SERIAL_TX_BUF_SIZE: usize = 4126;

#[derive(Debug, Clone, Copy, PartialEq, Eq, Structural)]
pub enum DisplayProbeKind {
    FullRefreshCurrent,
    ClearWhite,
    WindowCorners,
}

#[derive(Debug, Clone, Copy, PartialEq, Eq, Structural)]
pub struct DiagnosticSnapshot {
    pub current_page: u32,
    pub page_count: u32,
    pub panel_mode: PanelModeCode,
    pub dropped_log_count: u32,
    pub protocol_error_count: u32,
    pub last_error: i32,
}

/// The status payload that reports a snapshot.
pub open spec fn snapshot_status(s: DiagnosticSnapshot) -> StatusPayload {
    StatusPayload {
        current_page: s.current_page,
        page_count: s.page_count,
        panel_mode: s.panel_mode,
        dropped_log_count: s.dropped_log_count,
        protocol_error_count: s.protocol_error_count,
        last_error: s.last_error,
    }
}

impl DiagnosticSnapshot {
    pub fn status_payload(&self) -> (r: StatusPayload)
        ensures
            r == snapshot_status(*self),
    {
        StatusPayload {
            current_page: self.current_page,
            page_count: self.page_count,
            panel_mode: self.panel_mode,
            dropped_log_count: self.dropped_log_count,
            protocol_error_count: self.protocol_error_count,
            last_error: self.last_error,
        }
    }
}

pub struct DiagnosticState {
    pub current_page: u32,
    pub page_count: u32,
    pub panel_mode: PanelModeCode,
    pub last_error: i32,
}

// ---------------------------------------------------------------------------
// Commands waiting for the hardware
// ---------------------------------------------------------------------------

#[derive(Debug, Clone, Copy, PartialEq, Eq, Structural)]
pub enum PendingAction {
    RenderTurn { turn: PageTurn },
    RenderPage { target_page: u32 },
    DisplayProbe(DisplayProbeKind),
    CrashGet,
    CrashClear,
}

#[derive(Debug, Clone, Copy, PartialEq, Eq, Structural)]
pub struct PendingCommand {
    pub header: crate::protocol::FrameHeader,
    pub action: PendingAction,
}

/// A first-in first-out queue of at most `N` pending commands.
pub struct DiagnosticPendingQueue<const N: usize> {
    items: Vec<Option<PendingCommand>>,
    head: usize,
    len: usize,
}

impl<const N: usize> View for DiagnosticPendingQueue<N> {
    type V = Seq<PendingCommand>;

    closed spec fn view(&self) -> Seq<PendingCommand> {
        Seq::new(self.len as nat, |i: int| self.items@[(self.head + i) % (N as int)]->Some_0)
    }
}

impl<const N: usize> DiagnosticPendingQueue<N> {
    /// The ring's internal consistency.
    pub closed spec fn wf(&self) -> bool {
        &&& self.items@.len() == N
        &&& N <= isize::MAX
        &&& (N == 0 ==> self.head == 0)
        &&& (N > 0 ==> self.head < N)
        &&& self.len <= N
        &&& forall|i: int|
            0 <= i < self.len ==> (#[trigger] self.items@[(self.head + i) % (N as int)]) is Some
    }

    /// A queue never holds more than `N` commands.
    pub proof fn lemma_wf(&self)
        requires
            self.wf(),
        ensures
            self@.len() <= N,
    {
    }

    /// An empty queue.
    pub fn new() -> (r: Self)
        requires
            N <= isize::MAX,
        ensures
            r.wf(),
            r@ == Seq::<PendingCommand>::empty(),
    {
        let mut items: Vec<Option<PendingCommand>> = Vec::new();
        let mut i: usize = 0;
        while i < N
            invariant
                i <= N,
                items@.len() == i,
            decreases N - i,
        {
            items.push(None);
            i = i + 1;
        }
        let r = Self { items, head: 0, len: 0 };
        assert(r@ =~= Seq::<PendingCommand>::empty());
        r
    }

    pub fn len(&self) -> (r: usize)
        ensures
            r == self@.len(),
    {
        self.len
    }

    /// The oldest command, if any.
    pub fn front(&self) -> (r: Option<PendingCommand>)
        requires
            self.wf(),
        ensures
            r == (if self@.len() == 0 {
                None
            } else {
                Some(self@[0])
            }),
    {
        if self.len == 0 {
            None
        } else {
            proof {
                lemma_mod_small(self.head as int, N as int);
                assert(self.items@[(self.head + 0) % (N as int)] is Some);
            }
            self.items[self.head]
        }
    }

    /// Appends `pending` at the back, or hands it back when the queue is full.
    pub fn try_push(&mut self, pending: PendingCommand) -> (r: Result<(), PendingCommand>)
        requires
            old(self).wf(),
        ensures
            final(self).wf(),
            old(self)@.len() == N ==> r == Err::<(), PendingCommand>(pending) && final(self)@ == old(self)@,
            old(self)@.len() < N ==> r is Ok && final(self)@ == old(self)@.push(pending),
    {
        if self.len == N {
            return Err(pending);
        }
        let ghost old_view = self@;
        let ghost old_items = self.items@;
        let index = (self.head + self.len) % N;
        self.items.set(index, Some(pending));
        self.len = self.len + 1;
        proof {
            let n = N as int;
            assert forall|i: int| 0 <= i < self.len implies (#[trigger] self.items@[(self.head + i)
                % n]) is Some by {
                if i < self.len - 1 {
                    lemma_mod_below_twice_q(self.head + i, n);
                    lemma_mod_below_twice_q(self.head + self.len - 1, n);
                }
            }
            assert forall|i: int| 0 <= i < self.len implies #[trigger] self@[i] == old_view.push(
                pending,
            )[i] by {
                lemma_mod_below_twice_q(self.head + i, n);
                lemma_mod_below_twice_q(self.head + self.len - 1, n);
            }
            assert(self@ =~= old_view.push(pending));
        }
        Ok(())
    }

    /// Removes and returns the oldest command, if any.
    pub fn pop(&mut self) -> (r: Option<PendingCommand>)
        requires
            old(self).wf(),
        ensures
            final(self).wf(),
            old(self)@.len() == 0 ==> r is None && final(self)@ == old(self)@,
            old(self)@.len() > 0 ==> r == Some(old(self)@[0]) && final(self)@ == old(self)@.drop_first(),
    {
        if self.len == 0 {
            return None;
        }
        let ghost old_view = self@;
        let ghost old_head = self.head as int;
        proof {
            lemma_mod_small(self.head as int, N as int);
            assert(self.items@[(self.head + 0) % (N as int)] is Some);
        }
        let pending = self.items[self.head];
        self.items.set(self.head, None);
        self.head = (self.head + 1) % N;
        self.len = self.len - 1;
        proof {
            let n = N as int;
            lemma_mod_below_twice_q(old_head + 1, n);
            assert forall|i: int| 0 <= i < self.len implies (#[trigger] self.items@[(self.head + i)
                % n]) is Some by {
                lemma_mod_below_twice_q(self.head + i, n);
                lemma_mod_below_twice_q(old_head + i + 1, n);
                assert(self.items@[(self.head + i) % n] == old(self).items@[(old_head + (i + 1))
                    % n]);
            }
            assert forall|i: int| 0 <= i < self.len implies #[trigger] self@[i]
                == old_view.drop_first()[i] by {
                lemma_mod_below_twice_q(self.head + i, n);
                lemma_mod_below_twice_q(old_head + i + 1, n);
            }
            assert(self@ =~= old_view.drop_first());
        }
        pending
    }
}

/// `x % n == x` for `0 <= x < n`.
proof fn lemma_mod_small(x: int, n: int)
    requires
        0 <= x < n,
    ensures
        x % n == x,
{
    vstd::arithmetic::div_mod::lemma_small_mod(x as nat, n as nat);
}

/// `x % n` for `0 <= x < 2n`, without division.
proof fn lemma_mod_below_twice_q(x: int, n: int)
    requires
        0 < n,
        0 <= x < 2 * n,
    ensures
        x % n == if x < n {
            x
        } else {
            x - n
        },
{
    if x < n {
        vstd::arithmetic::div_mod::lemma_small_mod(x as nat, n as nat);
    } else {
        vstd::arithmetic::div_mod::lemma_small_mod((x - n) as nat, n as nat);
        vstd::arithmetic::div_mod::lemma_mod_sub_multiples_vanish(x, n);
    }
}

// ---------------------------------------------------------------------------
// Loop state
// ---------------------------------------------------------------------------

pub struct DiagnosticLoopState<const PENDING: usize, const LOG: usize> {
    snapshot: DiagnosticSnapshot,
    pending: DiagnosticPendingQueue<PENDING>,
    log: DiagLog<LOG>,
}

pub struct DiagnosticLoopView {
    pub snapshot: DiagnosticSnapshot,
    pub pending: Seq<PendingCommand>,
    pub log: DiagLogView,
}

impl<const PENDING: usize, const LOG: usize> View for DiagnosticLoopState<PENDING, LOG> {
    type V = DiagnosticLoopView;

    closed spec fn view(&self) -> DiagnosticLoopView {
        DiagnosticLoopView { snapshot: self.snapshot, pending: self.pending@, log: self.log@ }
    }
}

impl<const PENDING: usize, const LOG: usize> DiagnosticLoopState<PENDING, LOG> {
    pub closed spec fn wf(&self) -> bool {
        self.pending.wf() && self.log.wf()
    }

    /// The log the loop owns.
    pub closed spec fn log(&self) -> DiagLog<LOG> {
        self.log
    }

    /// The loop's log is the log it shows.
    pub proof fn lemma_log(&self)
        requires
            self.wf(),
        ensures
            self.log().wf(),
            self.log()@ == self@.log,
    {
    }

    pub fn new(snapshot: DiagnosticSnapshot, log: DiagLog<LOG>) -> (r: Self)
        requires
            log.wf(),
            PENDING <= isize::MAX,
        ensures
            r.wf(),
            r@ == (DiagnosticLoopView {
                snapshot,
                pending: Seq::empty(),
                log: log@,
            }),
    {
        Self { snapshot, pending: DiagnosticPendingQueue::new(), log }
    }

    pub fn enqueue_pending(&mut self, pending: PendingCommand) -> (r: Result<(), PendingCommand>)
        requires
            old(self).wf(),
        ensures
            final(self).wf(),
            final(self)@.snapshot == old(self)@.snapshot,
            final(self)@.log == old(self)@.log,
            old(self)@.pending.len() == PENDING ==> r == Err::<(), PendingCommand>(pending)
                && final(self)@.pending == old(self)@.pending,
            old(self)@.pending.len() < PENDING ==> r is Ok && final(self)@.pending == old(self)@.pending.push(pending),
    {
        self.pending.try_push(pending)
    }

    /// Queues `pending`, answering `Success` when it fit and `Error` when the
    /// queue was full.
    pub fn enqueue_pending_with_status(&mut self, pending: PendingCommand) -> (r: Status)
        requires
            old(self).wf(),
        ensures
            final(self).wf(),
            final(self)@.snapshot == old(self)@.snapshot,
            final(self)@.log == old(self)@.log,
            old(self)@.pending.len() == PENDING ==> r == Status::Error && final(self)@.pending
                == old(self)@.pending,
            old(self)@.pending.len() < PENDING ==> r == Status::Success && final(self)@.pending
                == old(self)@.pending.push(pending),
    {
        match self.pending.try_push(pending) {
            Ok(()) => Status::Success,
            Err(_) => Status::Error,
        }
    }

    pub fn pending_len(&self) -> (r: usize)
        ensures
            r == self@.pending.len(),
    {
        self.pending.len()
    }

    pub fn status_payload(&self) -> (r: StatusPayload)
        ensures
            r == snapshot_status(self@.snapshot),
    {
        self.snapshot.status_payload()
    }

    pub fn snapshot(&self) -> (r: DiagnosticSnapshot)
        ensures
            r == self@.snapshot,
    {
        self.snapshot
    }

    pub fn update_snapshot(&mut self, snapshot: DiagnosticSnapshot)
        requires
            old(self).wf(),
        ensures
            final(self).wf(),
            final(self)@ == (DiagnosticLoopView { snapshot, ..old(self)@ }),
    {
        self.snapshot = snapshot;
    }

    /// The log, for the caller to write to; the rest of the state stays.
    pub fn log_mut(&mut self) -> (r: &mut DiagLog<LOG>)
        requires
            old(self).wf(),
        ensures
            *r == old(self).log(),
            final(self).log() == *final(r),
            final(r).wf() ==> final(self).wf(),
            final(self)@.snapshot == old(self)@.snapshot,
            final(self)@.pending == old(self)@.pending,
    {
        &mut self.log
    }

    /// Removes and returns the oldest pending command, if any.
    /// Writes the answer to a log read from `cursor` into `resp_buf`, as
    /// `resolve_log_get` does on the loop's log, and returns its length.
    pub fn resolve_log_get(&self, cursor: u32, max_bytes: u16, resp_buf: &mut [u8]) -> (r: usize)
        requires
            self.wf(),
        ensures
            final(resp_buf)@ == log_get_response(self@.log, cursor, max_bytes, old(resp_buf)@.len() as int)
                + old(resp_buf)@.skip(r as int),
            r == log_get_response(self@.log, cursor, max_bytes, old(resp_buf)@.len() as int).len(),
    {
        resolve_log_get(&self.log, cursor, max_bytes, resp_buf)
    }

    pub fn complete_pending(&mut self) -> (r: Option<PendingCommand>)
        requires
            old(self).wf(),
        ensures
            final(self).wf(),
            final(self)@.snapshot == old(self)@.snapshot,
            final(self)@.log == old(self)@.log,
            old(self)@.pending.len() == 0 ==> r is None && final(self)@.pending == old(self)@.pending,
            old(self)@.pending.len() > 0 ==> r == Some(old(self)@.pending[0]) && final(self)@.pending == old(self)@.pending.drop_first(),
    {
        self.pending.pop()
    }
}

// ---------------------------------------------------------------------------
// Command context
// ---------------------------------------------------------------------------

#[derive(Debug, Clone, Copy, PartialEq, Eq, Structural)]
pub struct CommandContext {
    pub current_page: u32,
    pub page_count: u32,
    pub last_error: i32,
    pub panel_mode: PanelModeCode,
    pub protocol_errors: u32,
    pub dropped_records: u32,
    pub tick_ms: u32,
}

/// The panel mode a raw code names, `Unknown` for codes that name none.
pub open spec fn panel_mode_of(code: u8) -> PanelModeCode {
    if code == 1 {
        PanelModeCode::Grayscale
    } else if code == 2 {
        PanelModeCode::Bw
    } else {
        PanelModeCode::Unknown
    }
}

impl CommandContext {
    pub fn new(current_page: u32, page_count: u32, last_error: i32, panel_mode: u8) -> (r: Self)
        ensures
            r == (CommandContext {
                current_page,
                page_count,
                last_error,
                panel_mode: panel_mode_of(panel_mode),
                protocol_errors: 0,
                dropped_records: 0,
                tick_ms: 0,
            }),
    {
        let mode = match PanelModeCode::from_u8(panel_mode) {
            Some(m) => m,
            None => PanelModeCode::Unknown,
        };
        Self {
            current_page,
            page_count,
            last_error,
            panel_mode: mode,
            protocol_errors: 0,
            dropped_records: 0,
            tick_ms: 0,
        }
    }
}

/// The button a key request names.
pub open spec fn button_of_key(key: KeyCode) -> Button {
    match key {
        KeyCode::Left => Button::Left,
        KeyCode::Right => Button::Right,
        KeyCode::Up => Button::Up,
        KeyCode::Down => Button::Down,
        KeyCode::Select => Button::Select,
        KeyCode::Back => Button::Back,
        KeyCode::Power => Button::Power,
    }
}

pub fn keycode_to_button(key: KeyCode) -> (r: Option<Button>)
    ensures
        r == Some(button_of_key(key)),
{
    match key {
        KeyCode::Left => Some(Button::Left),
        KeyCode::Right => Some(Button::Right),
        KeyCode::Up => Some(Button::Up),
        KeyCode::Down => Some(Button::Down),
        KeyCode::Select => Some(Button::Select),
        KeyCode::Back => Some(Button::Back),
        KeyCode::Power => Some(Button::Power),
    }
}

// ---------------------------------------------------------------------------
// Serial framing
// ---------------------------------------------------------------------------

#[derive(Debug, Clone, Copy, PartialEq, Eq, Structural)]
pub enum TransportError {
    BufferFull,
}

pub struct FeedResult {
    pub consumed: usize,
    pub frame_ready: bool,
}

/// What the serial state holds: the received bytes not yet taken as frames,
/// the bytes waiting to be sent, the protocol error count, and whether input
/// is being skipped up to the next delimiter after an overflow.
pub struct SerialView {
    pub rx: Seq<u8>,
    pub tx: Seq<u8>,
    pub protocol_errors: u32,
    pub discarding: bool,
}

pub struct SerialState {
    rx: Vec<u8>,
    tx: Vec<u8>,
    protocol_errors: u32,
    discard_until_delimiter: bool,
}

impl View for SerialState {
    type V = SerialView;

    closed spec fn view(&self) -> SerialView {
        SerialView {
            rx: self.rx@,
            tx: self.tx@,
            protocol_errors: self.protocol_errors,
            discarding: self.discard_until_delimiter,
        }
    }
}

/// Whether the received byte `b` is stored by a state `m`.
pub open spec fn stores(m: SerialView) -> bool {
    !m.discarding && m.rx.len() < SERIAL_RX_BUF_SIZE
}

/// The state after one received byte: skipped while discarding (a delimiter
/// ends the skipping); on a full receive buffer the buffer is emptied, an
/// error counted and skipping begins; otherwise the byte is stored.
pub open spec fn feed_byte(m: SerialView, b: u8) -> SerialView {
    if m.discarding {
        SerialView { discarding: b != FRAME_DELIMITER, ..m }
    } else if m.rx.len() >= SERIAL_RX_BUF_SIZE {
        SerialView {
            rx: Seq::empty(),
            protocol_errors: (m.protocol_errors + 1) as u32,
            discarding: true,
            ..m
        }
    } else {
        SerialView { rx: m.rx.push(b), ..m }
    }
}

/// The state after the received bytes `bytes`, in order.
pub open spec fn feed_bytes(m: SerialView, bytes: Seq<u8>) -> SerialView
    decreases bytes.len(),
{
    if bytes.len() == 0 {
        m
    } else {
        feed_byte(feed_bytes(m, bytes.drop_last()), bytes.last())
    }
}

/// How many overflows the bytes cause.
pub open spec fn feed_overflows(m: SerialView, bytes: Seq<u8>) -> nat
    decreases bytes.len(),
{
    if bytes.len() == 0 {
        0
    } else {
        let before = feed_bytes(m, bytes.drop_last());
        feed_overflows(m, bytes.drop_last()) + if !before.discarding && before.rx.len()
            >= SERIAL_RX_BUF_SIZE {
            1nat
        } else {
            0nat
        }
    }
}

/// Whether some byte stored while feeding `bytes` is a delimiter.
pub open spec fn feed_stores_delimiter(m: SerialView, bytes: Seq<u8>) -> bool
    decreases bytes.len(),
{
    if bytes.len() == 0 {
        false
    } else {
        feed_stores_delimiter(m, bytes.drop_last()) || (stores(feed_bytes(m, bytes.drop_last()))
            && bytes.last() == FRAME_DELIMITER)
    }
}

/// The position of the first delimiter in `s`, if any.
pub open spec fn first_delimiter(s: Seq<u8>) -> Option<int> {
    if exists|i: int| 0 <= i < s.len() && s[i] == FRAME_DELIMITER {
        Some(
            choose|i: int|
                0 <= i < s.len() && s[i] == FRAME_DELIMITER && forall|j: int|
                    0 <= j < i ==> s[j] != FRAME_DELIMITER,
        )
    } else {
        None
    }
}

/// The state after taking the next frame out of the received bytes, and that
/// frame (with its delimiter). Frames longer than `MAX_FRAME_BYTES` are dropped
/// and counted as errors; `None` when no complete frame remains.
pub open spec fn take_frame(m: SerialView) -> (SerialView, Option<Seq<u8>>)
    decreases m.rx.len(),
{
    match first_delimiter(m.rx) {
        None => (m, None),
        Some(p) => if p + 1 > MAX_FRAME_BYTES {
            proof {
                lemma_first_delimiter(m.rx);
            }
            take_frame(
                SerialView {
                    rx: m.rx.skip(p + 1),
                    protocol_errors: (m.protocol_errors + 1) as u32,
                    ..m
                },
            )
        } else {
            (SerialView { rx: m.rx.skip(p + 1), ..m }, Some(m.rx.take(p + 1)))
        },
    }
}

/// How many oversized frames `take_frame` drops.
pub open spec fn take_frame_drops(rx: Seq<u8>) -> nat
    decreases rx.len(),
{
    match first_delimiter(rx) {
        None => 0,
        Some(p) => if p + 1 > MAX_FRAME_BYTES {
            proof {
                lemma_first_delimiter(rx);
            }
            1 + take_frame_drops(rx.skip(p + 1))
        } else {
            0
        },
    }
}

/// `first_delimiter` finds the first delimiter of a byte sequence, or
/// tells that there is none.
pub proof fn lemma_first_delimiter(s: Seq<u8>)
    ensures
        first_delimiter(s) matches Some(p) ==> 0 <= p < s.len() && s[p] == FRAME_DELIMITER
            && forall|j: int| 0 <= j < p ==> s[j] != FRAME_DELIMITER,
        first_delimiter(s) is None ==> forall|j: int| 0 <= j < s.len() ==> s[j] != FRAME_DELIMITER,
{
    if exists|i: int| 0 <= i < s.len() && s[i] == FRAME_DELIMITER {
        let i = choose|i: int| 0 <= i < s.len() && s[i] == FRAME_DELIMITER;
        lemma_min_delimiter(s, i);
    }
}

/// A sequence with a delimiter has a first one.
pub proof fn lemma_min_delimiter(s: Seq<u8>, i: int)
    requires
        0 <= i < s.len(),
        s[i] == FRAME_DELIMITER,
    ensures
        exists|k: int|
            0 <= k < s.len() && s[k] == FRAME_DELIMITER && forall|j: int|
                0 <= j < k ==> s[j] != FRAME_DELIMITER,
    decreases i,
{
    if exists|j: int| 0 <= j < i && s[j] == FRAME_DELIMITER {
        let j = choose|j: int| 0 <= j < i && s[j] == FRAME_DELIMITER;
        lemma_min_delimiter(s, j);
    } else {
        assert(0 <= i < s.len() && s[i] == FRAME_DELIMITER && forall|j: int|
            0 <= j < i ==> s[j] != FRAME_DELIMITER);
    }
}

/// Bytes that fit the receive buffer of a state that is not discarding are
/// all stored in order, none overflows, and a delimiter among them is
/// reported.
pub proof fn lemma_feed_fits(m: SerialView, bytes: Seq<u8>)
    requires
        !m.discarding,
        m.rx.len() + bytes.len() <= SERIAL_RX_BUF_SIZE,
    ensures
        feed_bytes(m, bytes) == (SerialView { rx: m.rx + bytes, ..m }),
        feed_overflows(m, bytes) == 0,
        feed_stores_delimiter(m, bytes) <==> exists|i: int|
            0 <= i < bytes.len() && bytes[i] == FRAME_DELIMITER,
    decreases bytes.len(),
{
    if bytes.len() == 0 {
        assert(m.rx + bytes =~= m.rx);
    } else {
        let init = bytes.drop_last();
        lemma_feed_fits(m, init);
        assert((m.rx + init).push(bytes.last()) =~= m.rx + bytes);
        if exists|i: int| 0 <= i < init.len() && init[i] == FRAME_DELIMITER {
            let i = choose|i: int| 0 <= i < init.len() && init[i] == FRAME_DELIMITER;
            assert(bytes[i] == FRAME_DELIMITER);
        }
        if exists|i: int| 0 <= i < bytes.len() && bytes[i] == FRAME_DELIMITER {
            let i = choose|i: int| 0 <= i < bytes.len() && bytes[i] == FRAME_DELIMITER;
            if i < init.len() {
                assert(init[i] == FRAME_DELIMITER);
            }
        }
    }
}

/// A frame fed whole into an empty receive buffer, with the start of the
/// next frame behind it, comes out exactly: every byte is stored without
/// error, a complete frame is reported, the next take gives the frame with
/// its delimiter and leaves the partial frame, and no second frame comes
/// out.
pub proof fn lemma_feed_then_take(m: SerialView, f: Seq<u8>, g: Seq<u8>)
    requires
        !m.discarding,
        m.rx.len() == 0,
        1 <= f.len() <= MAX_FRAME_BYTES,
        f.last() == FRAME_DELIMITER,
        forall|i: int| 0 <= i < f.len() - 1 ==> f[i] != FRAME_DELIMITER,
        forall|i: int| 0 <= i < g.len() ==> g[i] != FRAME_DELIMITER,
        f.len() + g.len() <= SERIAL_RX_BUF_SIZE,
    ensures
        feed_bytes(m, f + g) == (SerialView { rx: f + g, ..m }),
        feed_overflows(m, f + g) == 0,
        feed_stores_delimiter(m, f + g),
        take_frame_drops(f + g) == 0,
        take_frame(feed_bytes(m, f + g)) == (SerialView { rx: g, ..m }, Some(f)),
        take_frame_drops(g) == 0,
        take_frame(SerialView { rx: g, ..m }) == (SerialView { rx: g, ..m }, None::<Seq<u8>>),
{
    let s = f + g;
    lemma_feed_fits(m, s);
    assert(m.rx + s =~= s);
    let last = f.len() - 1;
    assert(s[last] == FRAME_DELIMITER);
    lemma_first_delimiter(s);
    let p = first_delimiter(s)->Some_0;
    if p < last {
        assert(s[p] == f[p]);
    } else if p > last {
        assert(s[last] != FRAME_DELIMITER);
    }
    assert(p == last);
    assert(s.skip(f.len() as int) =~= g);
    assert(s.take(f.len() as int) =~= f);
    lemma_first_delimiter(g);
}

/// On a fresh serial state (`SerialState::new`), feeding one delimited frame
/// `f` followed by bytes `g` without a delimiter, with no more than two
/// frames' worth of bytes in all, consumes every byte without a protocol
/// error and reports a ready frame (`feed_rx`); the first `next_frame` then
/// gives exactly `f`, a second one gives nothing, and the error count stays
/// zero throughout. The states are those that the contracts of `feed_rx` and
/// `next_frame` give, and their preconditions hold at each step.
pub proof fn lemma_fresh_feed_then_take(f: Seq<u8>, g: Seq<u8>)
    requires
        1 <= f.len() <= MAX_FRAME_BYTES,
        f.last() == FRAME_DELIMITER,
        forall|i: int| 0 <= i < f.len() - 1 ==> f[i] != FRAME_DELIMITER,
        forall|i: int| 0 <= i < g.len() ==> g[i] != FRAME_DELIMITER,
        f.len() + g.len() <= 2 * MAX_FRAME_BYTES,
    ensures
        ({
            let m0 = SerialView {
                rx: Seq::empty(),
                tx: Seq::empty(),
                protocol_errors: 0,
                discarding: false,
            };
            let m1 = feed_bytes(m0, f + g);
            let (m2, first) = take_frame(m1);
            let (m3, second) = take_frame(m2);
            &&& m0.protocol_errors + feed_overflows(m0, f + g) <= u32::MAX
            &&& feed_stores_delimiter(m0, f + g)
            &&& m1.rx == f + g
            &&& m1.rx.len() <= SERIAL_RX_BUF_SIZE
            &&& m1.protocol_errors == 0
            &&& m1.protocol_errors + take_frame_drops(m1.rx) <= u32::MAX
            &&& first == Some(f)
            &&& m2.protocol_errors == 0
            &&& m2.protocol_errors + take_frame_drops(m2.rx) <= u32::MAX
            &&& second is None
            &&& m3 == m2
            &&& m3.protocol_errors == 0
        }),
{
    let m0 = SerialView {
        rx: Seq::empty(),
        tx: Seq::empty(),
        protocol_errors: 0,
        discarding: false,
    };
    lemma_feed_then_take(m0, f, g);
}

impl SerialState {
    pub closed spec fn wf(&self) -> bool {
        self.rx@.len() <= SERIAL_RX_BUF_SIZE && self.tx@.len() <= SERIAL_TX_BUF_SIZE
    }

    /// The buffers never exceed their sizes.
    pub proof fn lemma_wf(&self)
        requires
            self.wf(),
        ensures
            self@.rx.len() <= SERIAL_RX_BUF_SIZE,
            self@.tx.len() <= SERIAL_TX_BUF_SIZE,
    {
    }

    pub fn new() -> (r: Self)
        ensures
            r.wf(),
            r@ == (SerialView {
                rx: Seq::empty(),
                tx: Seq::empty(),
                protocol_errors: 0,
                discarding: false,
            }),
    {
        Self { rx: Vec::new(), tx: Vec::new(), protocol_errors: 0, discard_until_delimiter: false }
    }

    /// Takes in received bytes; all of them are consumed, and `frame_ready`
    /// tells whether a delimiter was stored.
    pub fn feed_rx(&mut self, bytes: &[u8]) -> (r: FeedResult)
        requires
            old(self).wf(),
            old(self)@.protocol_errors + feed_overflows(old(self)@, bytes@) <= u32::MAX,
        ensures
            final(self).wf(),
            final(self)@ == feed_bytes(old(self)@, bytes@),
            r.consumed == bytes@.len(),
            r.frame_ready == feed_stores_delimiter(old(self)@, bytes@),
    {
        let ghost m0 = self@;
        let mut consumed: usize = 0;
        let mut frame_ready = false;
        let mut i: usize = 0;
        while i < bytes.len()
            invariant
                self.wf(),
                i <= bytes@.len(),
                consumed == i,
                self@ == feed_bytes(m0, bytes@.take(i as int)),
                frame_ready == feed_stores_delimiter(m0, bytes@.take(i as int)),
                m0.protocol_errors + feed_overflows(m0, bytes@) <= u32::MAX,
                self@.protocol_errors == m0.protocol_errors + feed_overflows(
                    m0,
                    bytes@.take(i as int),
                ),
            decreases bytes@.len() - i,
        {
            let byte = bytes[i];
            proof {
                assert(bytes@.take(i + 1).drop_last() =~= bytes@.take(i as int));
                assert(bytes@.take(i + 1).last() == byte);
                lemma_overflows_monotone(m0, bytes@, i + 1);
            }
            if self.discard_until_delimiter {
                consumed = consumed + 1;
                if byte == FRAME_DELIMITER {
                    self.discard_until_delimiter = false;
                }
                i = i + 1;
                continue;
            }
            if self.rx.len() >= SERIAL_RX_BUF_SIZE {
                self.protocol_errors = self.protocol_errors + 1;
                self.discard_until_delimiter = true;
                self.rx = Vec::new();
                consumed = consumed + 1;
                i = i + 1;
                continue;
            }
            self.rx.push(byte);
            consumed = consumed + 1;
            if byte == FRAME_DELIMITER && !frame_ready {
                frame_ready = true;
            }
            i = i + 1;
        }
        assert(bytes@.take(bytes@.len() as int) =~= bytes@);
        FeedResult { consumed, frame_ready }
    }

    /// Takes the next complete frame (with its delimiter) into the start of
    /// `out` and returns its length; oversized frames are dropped and counted.
    pub fn next_frame(&mut self, out: &mut [u8; MAX_FRAME_BYTES]) -> (r: Option<usize>)
        requires
            old(self).wf(),
            old(self)@.protocol_errors + take_frame_drops(old(self)@.rx) <= u32::MAX,
        ensures
            final(self).wf(),
            final(self)@ == take_frame(old(self)@).0,
            match take_frame(old(self)@).1 {
                Some(frame) => r == Some(frame.len() as usize) && final(out)@ == frame + old(out)@.skip(frame.len() as int),
                None => r is None && final(out)@ == old(out)@,
            },
        decreases old(self)@.rx.len(),
    {
        let pos = match find_delimiter(&self.rx) {
            Some(p) => p,
            None => return None,
        };
        proof {
            lemma_first_delimiter(self@.rx);
        }
        let frame_len = pos + 1;
        let ghost m = self@;
        if frame_len > MAX_FRAME_BYTES {
            self.protocol_errors = self.protocol_errors + 1;
            self.rx = tail_of(&self.rx, frame_len);
            assert(self@ == SerialView {
                rx: m.rx.skip(pos + 1),
                protocol_errors: (m.protocol_errors + 1) as u32,
                ..m
            });
            return self.next_frame(out);
        }
        copy_frame(out, &self.rx, frame_len);
        self.rx = tail_of(&self.rx, frame_len);
        Some(frame_len)
    }

    /// Appends a frame to the bytes waiting to be sent, if it fits.
    pub fn queue_tx(&mut self, frame: &[u8]) -> (r: Result<(), TransportError>)
        requires
            old(self).wf(),
        ensures
            final(self).wf(),
            old(self)@.tx.len() + frame@.len() > SERIAL_TX_BUF_SIZE ==> r == Err::<
                (),
                TransportError,
            >(TransportError::BufferFull) && final(self)@ == old(self)@,
            old(self)@.tx.len() + frame@.len() <= SERIAL_TX_BUF_SIZE ==> r is Ok && final(self)@
                == (SerialView { tx: old(self)@.tx + frame@, ..old(self)@ }),
    {
        if frame.len() > SERIAL_TX_BUF_SIZE - self.tx.len() {
            return Err(TransportError::BufferFull);
        }
        let ghost m = self@;
        let mut i: usize = 0;
        while i < frame.len()
            invariant
                i <= frame@.len(),
                self.tx@ == m.tx + frame@.take(i as int),
                self@.rx == m.rx,
                self@.protocol_errors == m.protocol_errors,
                self@.discarding == m.discarding,
            decreases frame@.len() - i,
        {
            self.tx.push(frame[i]);
            i = i + 1;
            assert(self.tx@ =~= m.tx + frame@.take(i as int));
        }
        assert(frame@.take(frame@.len() as int) =~= frame@);
        Ok(())
    }

    /// The bytes waiting to be sent.
    pub fn pending_tx(&self) -> (r: &[u8])
        ensures
            r@ == self@.tx,
    {
        self.tx.as_slice()
    }

    /// Drops the first `written` bytes that were sent.
    pub fn consume_tx(&mut self, written: usize)
        requires
            old(self).wf(),
        ensures
            final(self).wf(),
            final(self)@ == (SerialView {
                tx: if written >= old(self)@.tx.len() {
                    Seq::empty()
                } else {
                    old(self)@.tx.skip(written as int)
                },
                ..old(self)@
            }),
    {
        if written >= self.tx.len() {
            self.tx = Vec::new();
        } else {
            self.tx = tail_of(&self.tx, written);
        }
        assert(self@.tx =~= if written >= old(self)@.tx.len() {
            Seq::empty()
        } else {
            old(self)@.tx.skip(written as int)
        });
    }

    pub fn protocol_error_count(&self) -> (r: u32)
        ensures
            r == self@.protocol_errors,
    {
        self.protocol_errors
    }
}

/// The position of the first delimiter in `s`.
fn find_delimiter(s: &Vec<u8>) -> (r: Option<usize>)
    ensures
        r matches Some(p) ==> first_delimiter(s@) == Some(p as int),
        r is None ==> first_delimiter(s@) is None,
{
    proof {
        lemma_first_delimiter(s@);
    }
    let mut pos: usize = 0;
    while pos < s.len()
        invariant
            pos <= s@.len(),
            forall|j: int| 0 <= j < pos ==> s@[j] != FRAME_DELIMITER,
        decreases s@.len() - pos,
    {
        if s[pos] == FRAME_DELIMITER {
            proof {
                let q = first_delimiter(s@)->Some_0;
                assert(q == pos as int);
            }
            return Some(pos);
        }
        pos = pos + 1;
    }
    None
}

/// Copies the first `len` bytes of `src` over the start of `out`.
fn copy_frame(out: &mut [u8; MAX_FRAME_BYTES], src: &Vec<u8>, len: usize)
    requires
        len <= MAX_FRAME_BYTES,
        len <= src@.len(),
    ensures
        final(out)@ == src@.take(len as int) + old(out)@.skip(len as int),
{
    let mut k: usize = 0;
    while k < len
        invariant
            k <= len,
            len <= MAX_FRAME_BYTES,
            len <= src@.len(),
            out@.len() == MAX_FRAME_BYTES,
            forall|j: int| 0 <= j < k ==> out@[j] == src@[j],
            forall|j: int| k <= j < MAX_FRAME_BYTES ==> out@[j] == old(out)@[j],
        decreases len - k,
    {
        out[k] = src[k];
        k = k + 1;
    }
    assert(out@ =~= src@.take(len as int) + old(out)@.skip(len as int));
}

/// The bytes of `v` from `from` on.
fn tail_of(v: &Vec<u8>, from: usize) -> (r: Vec<u8>)
    requires
        from <= v@.len(),
    ensures
        r@ == v@.skip(from as int),
{
    let mut r: Vec<u8> = Vec::new();
    let mut i: usize = from;
    while i < v.len()
        invariant
            from <= i <= v@.len(),
            r@ == v@.subrange(from as int, i as int),
        decreases v@.len() - i,
    {
        r.push(v[i]);
        i = i + 1;
        assert(r@ =~= v@.subrange(from as int, i as int));
    }
    assert(v@.subrange(from as int, v@.len() as int) =~= v@.skip(from as int));
    r
}

/// Overflow counts only grow as more bytes are fed.
proof fn lemma_overflows_monotone(m: SerialView, bytes: Seq<u8>, n: int)
    requires
        0 <= n <= bytes.len(),
    ensures
        feed_overflows(m, bytes.take(n)) <= feed_overflows(m, bytes),
    decreases bytes.len() - n,
{
    if n < bytes.len() {
        lemma_overflows_monotone(m, bytes, n + 1);
        assert(bytes.take(n + 1).drop_last() =~= bytes.take(n));
    } else {
        assert(bytes.take(n) =~= bytes);
    }
}

// ---------------------------------------------------------------------------
// Dispatch
// ---------------------------------------------------------------------------

#[derive(Debug, Clone, Copy, PartialEq, Eq, Structural)]
pub enum DispatchResult {
    RenderTurn { turn: PageTurn },
    RenderPage { target_page: u32 },
    NoAction,
    LogGet { cursor: u32, max_bytes: u16 },
    LogClear,
    CrashGet,
    CrashClear,
    DisplayProbe(DisplayProbeKind),
    Response { status: Status, payload_len: usize },
}

/// The firmware name that a hello response reports.
pub open spec fn firmware_name_bytes() -> Seq<u8> {
    seq![98u8, 105u8, 110u8, 98u8, 111u8, 111u8, 107u8, 45u8, 102u8, 119u8]
}

/// The target name that a hello response reports.
pub open spec fn target_bytes() -> Seq<u8> {
    seq![120u8, 116u8, 101u8, 105u8, 110u8, 107u8, 45u8, 120u8, 52u8]
}

/// The payload of this firmware's hello response.
pub open spec fn hello_payload() -> Seq<u8> {
    hello_bytes(
        PROTOCOL_VERSION,
        MAX_FRAME_BYTES as u16,
        ALL_CAPABILITIES,
        firmware_name_bytes(),
        target_bytes(),
    )
}

/// The status a command context reports.
pub open spec fn context_status(ctx: CommandContext) -> StatusPayload {
    StatusPayload {
        current_page: ctx.current_page,
        page_count: ctx.page_count,
        panel_mode: ctx.panel_mode,
        dropped_log_count: ctx.dropped_records,
        protocol_error_count: ctx.protocol_errors,
        last_error: ctx.last_error,
    }
}

pub open spec fn key_code_of(b: u8) -> KeyCode {
    if b == 1 {
        KeyCode::Left
    } else if b == 2 {
        KeyCode::Right
    } else if b == 3 {
        KeyCode::Up
    } else if b == 4 {
        KeyCode::Down
    } else if b == 5 {
        KeyCode::Select
    } else if b == 6 {
        KeyCode::Back
    } else {
        KeyCode::Power
    }
}

/// The key request a payload carries, if it is a valid one.
pub open spec fn key_request(p: Seq<u8>) -> Option<KeyPayload> {
    if p.len() == 2 && 1 <= p[0] <= 7 && 1 <= p[1] <= 2 {
        Some(
            KeyPayload {
                key: key_code_of(p[0]),
                action: if p[1] == 1 {
                    KeyAction::Press
                } else {
                    KeyAction::Release
                },
            },
        )
    } else {
        None
    }
}

pub open spec fn page_action_of(b: u8) -> PageAction {
    if b == 1 {
        PageAction::Next
    } else if b == 2 {
        PageAction::Previous
    } else if b == 3 {
        PageAction::First
    } else if b == 4 {
        PageAction::Last
    } else if b == 5 {
        PageAction::Goto
    } else {
        PageAction::Current
    }
}

/// The page request a payload carries, if it is a valid one.
pub open spec fn page_request(p: Seq<u8>) -> Option<PagePayload> {
    if p.len() > 0 && 1 <= p[0] <= 6 && p.len() == (if p[0] == 5 {
        5int
    } else {
        1int
    }) {
        Some(
            PagePayload {
                action: page_action_of(p[0]),
                page_index: if p[0] == 5 {
                    Some(crate::protocol::bytes::from_le32(p.subrange(1, 5)))
                } else {
                    None
                },
            },
        )
    } else {
        None
    }
}

/// The probe a probe request asks for, if the payload is a valid one.
pub open spec fn probe_request(p: Seq<u8>) -> Option<DisplayProbeKind> {
    if p.len() == 1 && p[0] == 1 {
        Some(DisplayProbeKind::FullRefreshCurrent)
    } else if p.len() == 1 && p[0] == 2 {
        Some(DisplayProbeKind::ClearWhite)
    } else if p.len() == 1 && p[0] == 3 {
        Some(DisplayProbeKind::WindowCorners)
    } else {
        None
    }
}

/// The log request a payload carries, if it is a valid one.
pub open spec fn log_get_request(p: Seq<u8>) -> Option<LogGetPayload> {
    if p.len() == 6 {
        Some(
            LogGetPayload {
                cursor_sequence: crate::protocol::bytes::from_le32(p.subrange(0, 4)),
                max_bytes: crate::protocol::bytes::from_le16(p.subrange(4, 6)),
            },
        )
    } else {
        None
    }
}

/// The last page of a book, or 0 for an empty one.
pub open spec fn last_page(page_count: u32) -> u32 {
    if page_count == 0 {
        0
    } else {
        (page_count - 1) as u32
    }
}

/// The page a page request leads to.
pub open spec fn page_target(action: PageAction, page_index: Option<u32>, ctx: CommandContext) -> u32 {
    match action {
        PageAction::Next => turned_page(ctx.current_page, ctx.page_count, PageTurn::Next),
        PageAction::Previous => turned_page(ctx.current_page, ctx.page_count, PageTurn::Previous),
        PageAction::First => 0,
        PageAction::Last => last_page(ctx.page_count),
        PageAction::Goto => {
            let raw = match page_index {
                Some(i) => i,
                None => 0,
            };
            if raw < last_page(ctx.page_count) {
                raw
            } else {
                last_page(ctx.page_count)
            }
        },
        PageAction::Current => ctx.current_page,
    }
}

fn resolve_page_action(action: PageAction, page_index: Option<u32>, ctx: &CommandContext) -> (r: u32)
    ensures
        r == page_target(action, page_index, *ctx),
{
    match action {
        PageAction::Next => apply_page_turn(ctx.current_page, ctx.page_count, PageTurn::Next),
        PageAction::Previous => apply_page_turn(ctx.current_page, ctx.page_count, PageTurn::Previous),
        PageAction::First => 0,
        PageAction::Last => ctx.page_count.saturating_sub(1),
        PageAction::Goto => {
            let raw = match page_index {
                Some(i) => i,
                None => 0,
            };
            let last = ctx.page_count.saturating_sub(1);
            if raw < last {
                raw
            } else {
                last
            }
        },
        PageAction::Current => ctx.current_page,
    }
}

/// Where a page request leads: First to page 0 and Last to the book's last
/// page whatever page is shown; Current stays; Goto to the page asked for
/// when it is in the book (page 0 when none is given); Next one page on and
/// Previous one page back, staying at the ends. From a page of the book the
/// target is always a page of the book.
pub proof fn lemma_page_targets(action: PageAction, page_index: Option<u32>, ctx: CommandContext)
    ensures
        action == PageAction::First ==> page_target(action, page_index, ctx) == 0,
        action == PageAction::Last && ctx.page_count > 0 ==> page_target(action, page_index, ctx)
            == ctx.page_count - 1,
        action == PageAction::Last && ctx.page_count == 0 ==> page_target(action, page_index, ctx)
            == 0,
        action == PageAction::Current ==> page_target(action, page_index, ctx) == ctx.current_page,
        action == PageAction::Goto && page_index is None ==> page_target(action, page_index, ctx)
            == 0,
        action == PageAction::Goto && page_index is Some && page_index->Some_0 < ctx.page_count
            ==> page_target(action, page_index, ctx) == page_index->Some_0,
        action == PageAction::Goto && page_index is Some && page_index->Some_0 >= ctx.page_count
            && ctx.page_count > 0 ==> page_target(action, page_index, ctx) == ctx.page_count - 1,
        action == PageAction::Next && ctx.current_page < ctx.page_count ==> page_target(
            action,
            page_index,
            ctx,
        ) == if ctx.current_page + 1 < ctx.page_count {
            ctx.current_page + 1
        } else {
            ctx.current_page as int
        },
        action == PageAction::Previous && ctx.current_page < ctx.page_count ==> page_target(
            action,
            page_index,
            ctx,
        ) == if ctx.current_page == 0 {
            0
        } else {
            ctx.current_page - 1
        },
        ctx.current_page < ctx.page_count ==> page_target(action, page_index, ctx)
            < ctx.page_count,
{
}

/// A well-formed request for the first page (payload `[3]`) renders page 0
/// unless page 0 is already shown, and one for the last page (payload `[4]`)
/// renders the book's last page unless it is already shown.
pub proof fn lemma_first_and_last_page_requests(
    header: FrameHeader,
    ctx: CommandContext,
    resp_len: int,
)
    requires
        header.kind == FrameKind::Request,
        header.status == Status::Success,
        header.opcode == Opcode::Page,
        ctx.page_count > 0,
    ensures
        dispatch_spec(header, seq![3u8], ctx, resp_len) == if ctx.current_page == 0 {
            DispatchResult::NoAction
        } else {
            DispatchResult::RenderPage { target_page: 0 }
        },
        dispatch_spec(header, seq![4u8], ctx, resp_len) == if ctx.current_page == ctx.page_count
            - 1 {
            DispatchResult::NoAction
        } else {
            DispatchResult::RenderPage { target_page: (ctx.page_count - 1) as u32 }
        },
{
    assert(page_request(seq![3u8]) == Some(PagePayload { action: PageAction::First, page_index: None }));
    assert(page_request(seq![4u8]) == Some(PagePayload { action: PageAction::Last, page_index: None }));
}

/// A response with no payload.
pub open spec fn bare(status: Status) -> DispatchResult {
    DispatchResult::Response { status, payload_len: 0 }
}

/// What a request asks for, given the context and the size of the response
/// buffer: malformed requests are `BadRequest`; hello and status answer at
/// once (or `InternalError` when the buffer is too small); a key press or
/// page request that moves to another page asks for a render, one that does
/// not is `NoAction`; log, crash and probe requests are handed on; storage
/// requests are `Unsupported`.
pub open spec fn dispatch_spec(
    header: FrameHeader,
    payload: Seq<u8>,
    ctx: CommandContext,
    resp_len: int,
) -> DispatchResult {
    if header.kind != FrameKind::Request || header.status != Status::Success {
        bare(Status::BadRequest)
    } else {
        match header.opcode {
            Opcode::Hello => if resp_len >= hello_payload().len() {
                DispatchResult::Response {
                    status: Status::Success,
                    payload_len: hello_payload().len() as usize,
                }
            } else {
                bare(Status::InternalError)
            },
            Opcode::Key => match key_request(payload) {
                None => bare(Status::BadRequest),
                Some(k) => if k.action != KeyAction::Press {
                    DispatchResult::NoAction
                } else {
                    match turn_of(button_of_key(k.key)) {
                        None => DispatchResult::NoAction,
                        Some(turn) => if turned_page(ctx.current_page, ctx.page_count, turn)
                            == ctx.current_page {
                            DispatchResult::NoAction
                        } else {
                            DispatchResult::RenderTurn { turn }
                        },
                    }
                },
            },
            Opcode::Page => match page_request(payload) {
                None => bare(Status::BadRequest),
                Some(pp) => if pp.action == PageAction::Goto && (match pp.page_index {
                    Some(i) => i,
                    None => 0,
                }) >= ctx.page_count {
                    bare(Status::BadRequest)
                } else if page_target(pp.action, pp.page_index, ctx) == ctx.current_page {
                    DispatchResult::NoAction
                } else {
                    DispatchResult::RenderPage {
                        target_page: page_target(pp.action, pp.page_index, ctx),
                    }
                },
            },
            Opcode::Status => if resp_len >= 21 {
                DispatchResult::Response { status: Status::Success, payload_len: 21 }
            } else {
                bare(Status::InternalError)
            },
            Opcode::DisplayProbe => match probe_request(payload) {
                None => bare(Status::BadRequest),
                Some(kind) => DispatchResult::DisplayProbe(kind),
            },
            Opcode::LogGet => match log_get_request(payload) {
                None => bare(Status::BadRequest),
                Some(g) => DispatchResult::LogGet {
                    cursor: g.cursor_sequence,
                    max_bytes: g.max_bytes,
                },
            },
            Opcode::LogClear => DispatchResult::LogClear,
            Opcode::CrashGet => DispatchResult::CrashGet,
            Opcode::CrashClear => DispatchResult::CrashClear,
            _ => bare(Status::Unsupported),
        }
    }
}

/// The bytes a request writes into the response buffer when they fit: the
/// hello payload or the status payload.
pub open spec fn dispatch_written(header: FrameHeader, ctx: CommandContext) -> Option<Seq<u8>> {
    if header.kind != FrameKind::Request || header.status != Status::Success {
        None
    } else if header.opcode == Opcode::Hello {
        Some(hello_payload())
    } else if header.opcode == Opcode::Status {
        Some(status_bytes(context_status(ctx)))
    } else {
        None
    }
}

/// The response buffer after a request: what it writes, in front of the old
/// contents, when that fits; else unchanged.
pub open spec fn after_dispatch(
    header: FrameHeader,
    ctx: CommandContext,
    old_resp: Seq<u8>,
) -> Seq<u8> {
    match dispatch_written(header, ctx) {
        Some(b) => if old_resp.len() >= b.len() {
            b + old_resp.skip(b.len() as int)
        } else {
            old_resp
        },
        None => old_resp,
    }
}

pub fn dispatch_command(
    header: FrameHeader,
    payload: &[u8],
    ctx: &mut CommandContext,
    resp_buf: &mut [u8],
) -> (r: DispatchResult)
    ensures
        *final(ctx) == *old(ctx),
        r == dispatch_spec(header, payload@, *old(ctx), old(resp_buf)@.len() as int),
        final(resp_buf)@ == after_dispatch(header, *old(ctx), old(resp_buf)@),
{
    if header.kind != FrameKind::Request || header.status != Status::Success {
        return DispatchResult::Response { status: Status::BadRequest, payload_len: 0 };
    }
    match header.opcode {
        Opcode::Hello => {
            let hello = HelloResponse {
                protocol_version: PROTOCOL_VERSION,
                max_frame_bytes: 4126u16,
                capabilities: ALL_CAPABILITIES,
                firmware_name: "binbook-fw",
                target: "xteink-x4",
            };
            proof {
                reveal_strlit("binbook-fw");
                reveal_strlit("xteink-x4");
                assert(vstd::string::is_ascii(hello.firmware_name));
                assert(vstd::string::is_ascii(hello.target));
                assert(hello.firmware_name.spec_bytes() =~= firmware_name_bytes());
                assert(hello.target.spec_bytes() =~= target_bytes());
            }
            match encode_hello_response(&hello, resp_buf) {
                Ok(len) => DispatchResult::Response { status: Status::Success, payload_len: len },
                Err(_) => DispatchResult::Response { status: Status::InternalError, payload_len: 0 },
            }
        },
        Opcode::Key => {
            let key_payload = match decode_key_payload(payload) {
                Ok(value) => value,
                Err(_) => {
                    return DispatchResult::Response { status: Status::BadRequest, payload_len: 0 };
                },
            };
            proof {
                assert(payload@[0] == key_payload.key.to_u8());
                assert(payload@[1] == key_payload.action.to_u8());
                assert(key_request(payload@) == Some(key_payload));
            }
            if key_payload.action != KeyAction::Press {
                return DispatchResult::NoAction;
            }
            let button = match keycode_to_button(key_payload.key) {
                Some(b) => b,
                None => {
                    return DispatchResult::Response { status: Status::BadRequest, payload_len: 0 };
                },
            };
            match page_turn_for_button(button) {
                None => DispatchResult::NoAction,
                Some(turn) => {
                    if apply_page_turn(ctx.current_page, ctx.page_count, turn) == ctx.current_page {
                        DispatchResult::NoAction
                    } else {
                        DispatchResult::RenderTurn { turn }
                    }
                },
            }
        },
        Opcode::Page => {
            let page_payload = match decode_page_payload(payload) {
                Ok(value) => value,
                Err(_) => {
                    return DispatchResult::Response { status: Status::BadRequest, payload_len: 0 };
                },
            };
            proof {
                assert(payload@[0] == page_payload.action.to_u8());
                if page_payload.action == PageAction::Goto {
                    assert(payload@ =~= seq![payload@[0]] + le32(page_payload.page_index->Some_0));
                    assert(payload@.subrange(1, 5) =~= le32(page_payload.page_index->Some_0));
                }
                assert(page_request(payload@) == Some(page_payload));
            }
            if page_payload.action == PageAction::Goto {
                let raw = match page_payload.page_index {
                    Some(i) => i,
                    None => 0,
                };
                if raw >= ctx.page_count {
                    return DispatchResult::Response { status: Status::BadRequest, payload_len: 0 };
                }
            }
            let target = resolve_page_action(page_payload.action, page_payload.page_index, ctx);
            if target == ctx.current_page {
                DispatchResult::NoAction
            } else {
                DispatchResult::RenderPage { target_page: target }
            }
        },
        Opcode::Status => {
            let status_payload = StatusPayload {
                current_page: ctx.current_page,
                page_count: ctx.page_count,
                panel_mode: ctx.panel_mode,
                dropped_log_count: ctx.dropped_records,
                protocol_error_count: ctx.protocol_errors,
                last_error: ctx.last_error,
            };
            match encode_status_payload(status_payload, resp_buf) {
                Ok(len) => DispatchResult::Response { status: Status::Success, payload_len: len },
                Err(_) => DispatchResult::Response { status: Status::InternalError, payload_len: 0 },
            }
        },
        Opcode::DisplayProbe => match decode_probe_payload(payload) {
            Ok(ProbeCode::FullRefreshCurrent) => DispatchResult::DisplayProbe(
                DisplayProbeKind::FullRefreshCurrent,
            ),
            Ok(ProbeCode::ClearWhite) => DispatchResult::DisplayProbe(DisplayProbeKind::ClearWhite),
            Ok(ProbeCode::WindowCorners) => DispatchResult::DisplayProbe(
                DisplayProbeKind::WindowCorners,
            ),
            Err(_) => DispatchResult::Response { status: Status::BadRequest, payload_len: 0 },
        },
        Opcode::LogGet => {
            let get_payload = match decode_log_get_payload(payload) {
                Ok(p) => p,
                Err(_) => {
                    return DispatchResult::Response { status: Status::BadRequest, payload_len: 0 };
                },
            };
            proof {
                assert(payload@.subrange(0, 4) =~= le32(get_payload.cursor_sequence));
                assert(payload@.subrange(4, 6) =~= crate::protocol::bytes::le16(
                    get_payload.max_bytes,
                ));
            }
            DispatchResult::LogGet {
                cursor: get_payload.cursor_sequence,
                max_bytes: get_payload.max_bytes,
            }
        },
        Opcode::LogClear => DispatchResult::LogClear,
        Opcode::CrashGet => DispatchResult::CrashGet,
        Opcode::CrashClear => DispatchResult::CrashClear,
        _ => DispatchResult::Response { status: Status::Unsupported, payload_len: 0 },
    }
}

// ---------------------------------------------------------------------------
// Log responses
// ---------------------------------------------------------------------------

/// The records a read from `cursor` copies when there is room for `limit`,
/// and the cursor to continue from.
pub open spec fn log_window(log: DiagLogView, cursor: u32, limit: int) -> (Seq<DiagLogRecord>, u32) {
    let oldest = oldest_of(log);
    let start = if cursor < oldest {
        oldest
    } else {
        cursor as int
    };
    if start >= log.next_sequence {
        (Seq::empty(), log.next_sequence)
    } else {
        let n = if log.next_sequence - start < limit {
            log.next_sequence - start
        } else {
            limit
        };
        (log.records.subrange(start - oldest, start - oldest + n), (start + n) as u32)
    }
}

/// The wire form of a log record.
pub open spec fn record_payload(r: DiagLogRecord) -> LogRecordPayload {
    LogRecordPayload {
        sequence: r.sequence,
        tick_ms: r.tick_ms,
        level: r.level,
        subsystem: r.subsystem,
        event: r.event,
        arg0: r.arg0,
        arg1: r.arg1,
        arg2: r.arg2,
    }
}

/// The encodings of `recs`, one after another.
pub open spec fn records_bytes(recs: Seq<DiagLogRecord>) -> Seq<u8>
    decreases recs.len(),
{
    if recs.len() == 0 {
        Seq::empty()
    } else {
        records_bytes(recs.drop_last()) + log_record_bytes(record_payload(recs.last()))
    }
}

proof fn lemma_records_bytes_len(recs: Seq<DiagLogRecord>)
    ensures
        records_bytes(recs).len() == 24 * recs.len(),
    decreases recs.len(),
{
    if recs.len() > 0 {
        lemma_records_bytes_len(recs.drop_last());
    }
}

/// The cursor that an empty log response reports: the request's cursor, or
/// the oldest record's sequence number when the cursor is older.
pub open spec fn clamped_cursor(log: DiagLogView, cursor: u32) -> u32 {
    if cursor < oldest_of(log) {
        oldest_of(log) as u32
    } else {
        cursor
    }
}

/// The budget a log response may fill.
pub open spec fn log_budget(max_bytes: u16, resp_len: int) -> int {
    if max_bytes < resp_len {
        max_bytes as int
    } else {
        resp_len
    }
}

/// The records a log request gets, given its budget.
pub open spec fn log_get_window(log: DiagLogView, cursor: u32, budget: int) -> (Seq<DiagLogRecord>, u32) {
    let max_records = (budget - 10) / 24;
    log_window(log, cursor, if max_records < 64 { max_records } else { 64 })
}

/// The answer to a log request into a buffer of `resp_len` bytes: nothing
/// when not even the header fits; else the header (next cursor, dropped
/// count, record count) and as many whole records (at most 64) as fit.
pub open spec fn log_get_response(log: DiagLogView, cursor: u32, max_bytes: u16, resp_len: int) -> Seq<u8> {
    let budget = log_budget(max_bytes, resp_len);
    if budget < 10 {
        Seq::empty()
    } else if budget < 34 {
        log_response_header_bytes(
            LogResponseHeader {
                next_cursor: clamped_cursor(log, cursor),
                dropped_log_count: log.dropped,
                record_count: 0,
            },
        )
    } else {
        let (recs, next) = log_get_window(log, cursor, budget);
        log_response_header_bytes(
            LogResponseHeader {
                next_cursor: next,
                dropped_log_count: log.dropped,
                record_count: recs.len() as u16,
            },
        ) + records_bytes(recs)
    }
}

/// Answers a log request into `resp_buf`: a header with the next cursor, the
/// dropped count and the record count, then as many whole records (at most
/// 64) as `max_bytes` and the buffer allow. Returns the bytes written: none
/// when not even the header fits.
#[verifier::spinoff_prover]
#[verifier::rlimit(40)]
pub fn resolve_log_get<const N: usize>(
    log: &DiagLog<N>,
    cursor: u32,
    max_bytes: u16,
    resp_buf: &mut [u8],
) -> (r: usize)
    requires
        log.wf(),
    ensures
        final(resp_buf)@ == log_get_response(log@, cursor, max_bytes, old(resp_buf)@.len() as int)
            + old(resp_buf)@.skip(r as int),
        r == log_get_response(log@, cursor, max_bytes, old(resp_buf)@.len() as int).len(),
{
    let budget = if (max_bytes as usize) < resp_buf.len() {
        max_bytes as usize
    } else {
        resp_buf.len()
    };
    if budget < LOG_RESPONSE_HEADER_BYTES {
        assert(old(resp_buf)@.skip(0) =~= old(resp_buf)@);
        return 0;
    }
    let record_budget = budget - LOG_RESPONSE_HEADER_BYTES;
    let max_records = record_budget / LOG_RECORD_BYTES;
    if max_records == 0 {
        proof {
            log.lemma_wf();
        }
        let oldest = match log.oldest_sequence() {
            Some(s) => s,
            None => log.next_sequence(),
        };
        let header = LogResponseHeader {
            next_cursor: if cursor < oldest {
                oldest
            } else {
                cursor
            },
            dropped_log_count: log.dropped_records(),
            record_count: 0,
        };
        assert(log_response_header_bytes(header).len() == 10);
        return match encode_log_response_header(header, resp_buf) {
            Ok(n) => n,
            Err(_) => 0,
        };
    }
    let read_limit = if max_records < 64 {
        max_records
    } else {
        64
    };
    let mut records: Vec<DiagLogRecord> = Vec::new();
    let mut i: usize = 0;
    while i < read_limit
        invariant
            i <= read_limit,
            records@.len() == i,
        decreases read_limit - i,
    {
        records.push(DiagLogRecord::default());
        i = i + 1;
    }
    let result = log.read_from_sequence(cursor, records.as_mut_slice());
    let count = result.record_count as usize;
    let ghost window = log_get_window(log@, cursor, budget as int);
    assert(count == window.0.len());
    assert(records@.take(count as int) =~= window.0);
    let mut body: Vec<u8> = Vec::new();
    let mut k: usize = 0;
    while k < count
        invariant
            k <= count,
            count <= records@.len(),
            count <= 64,
            body@ == records_bytes(records@.take(k as int)),
        decreases count - k,
    {
        let rec = records[k];
        let payload = LogRecordPayload {
            sequence: rec.sequence,
            tick_ms: rec.tick_ms,
            level: rec.level,
            subsystem: rec.subsystem,
            event: rec.event,
            arg0: rec.arg0,
            arg1: rec.arg1,
            arg2: rec.arg2,
        };
        let mut scratch: Vec<u8> = vec![0u8; LOG_RECORD_BYTES];
        let _ = encode_log_record(payload, scratch.as_mut_slice());
        assert(scratch@ =~= log_record_bytes(record_payload(records@[k as int])));
        push_slice(&mut body, scratch.as_slice());
        assert(records@.take(k + 1).drop_last() =~= records@.take(k as int));
        k = k + 1;
    }
    proof {
        lemma_records_bytes_len(window.0);
    }
    copy_at(resp_buf, LOG_RESPONSE_HEADER_BYTES, body.as_slice());
    let pos = LOG_RESPONSE_HEADER_BYTES + body.len();
    let ghost after_records = resp_buf@;
    let _ = encode_log_response_header(
        LogResponseHeader {
            next_cursor: result.next_cursor,
            dropped_log_count: result.dropped_log_count,
            record_count: count as u16,
        },
        resp_buf,
    );
    assert(resp_buf@ =~= log_response_header_bytes(
        LogResponseHeader {
            next_cursor: window.1,
            dropped_log_count: log@.dropped,
            record_count: window.0.len() as u16,
        },
    ) + records_bytes(window.0) + old(resp_buf)@.skip(pos as int));
    pos
}

/// Clears the log and returns the next sequence number and the dropped count
/// (now zero).
pub fn resolve_log_clear<const N: usize>(log: &mut DiagLog<N>) -> (r: (u32, u32))
    requires
        old(log).wf(),
    ensures
        final(log).wf(),
        final(log)@ == (DiagLogView {
            records: Seq::empty(),
            next_sequence: old(log)@.next_sequence,
            dropped: 0,
        }),
        r == (old(log)@.next_sequence, 0u32),
{
    log.clear();
    (log.next_sequence(), log.dropped_records())
}

// ---------------------------------------------------------------------------
// Responses
// ---------------------------------------------------------------------------

/// The header of the response to a request.
pub open spec fn response_header(request: FrameHeader, status: Status, payload_len: nat) -> FrameHeader {
    FrameHeader {
        kind: FrameKind::Response,
        opcode: request.opcode,
        status,
        sequence: request.sequence,
        payload_len: payload_len as u16,
    }
}

/// The wire bytes of the response to `request` with `status` and `payload`.
pub open spec fn response_frame(request: FrameHeader, status: Status, payload: Seq<u8>) -> Seq<u8> {
    cobs_encoding(raw_frame_bytes(response_header(request, status, payload.len()).raw(), payload))
}

/// Replaces the bytes waiting to be sent with the response to `header`; they
/// are left empty when the payload is too large to send.
fn build_response_frame(header: &FrameHeader, status: Status, payload: &[u8], state: &mut SerialState)
    requires
        old(state).wf(),
    ensures
        final(state).wf(),
        final(state)@ == (SerialView {
            tx: if payload@.len() <= MAX_PAYLOAD_BYTES {
                response_frame(*header, status, payload@)
            } else {
                Seq::empty()
            },
            ..old(state)@
        }),
{
    let resp_header = FrameHeader {
        kind: FrameKind::Response,
        opcode: header.opcode,
        status,
        sequence: header.sequence,
        payload_len: payload.len() as u16,
    };
    let mut buf: Vec<u8> = vec![0u8; SERIAL_TX_BUF_SIZE];
    proof {
        if payload@.len() <= MAX_PAYLOAD_BYTES {
            lemma_cobs_len_bound(raw_frame_bytes(resp_header.raw(), payload@));
            lemma_cobs_encoding_len(raw_frame_bytes(resp_header.raw(), payload@));
            crate::protocol::frame::lemma_parse_raw_frame_bytes(resp_header.raw(), payload@);
        }
    }
    let tx_len = match encode_frame(&resp_header, payload, buf.as_mut_slice()) {
        Ok(n) => n,
        Err(_) => 0,
    };
    let tx = prefix_of(&buf, tx_len);
    state.tx = tx;
}

/// The first `len` bytes of `v`.
fn prefix_of(v: &Vec<u8>, len: usize) -> (r: Vec<u8>)
    requires
        len <= v@.len(),
    ensures
        r@ == v@.take(len as int),
{
    let mut r: Vec<u8> = Vec::new();
    let mut i: usize = 0;
    while i < len
        invariant
            i <= len,
            len <= v@.len(),
            r@ == v@.take(i as int),
        decreases len - i,
    {
        r.push(v[i]);
        i = i + 1;
        assert(r@ =~= v@.take(i as int));
    }
    r
}

/// Replaces the bytes waiting to be sent with the response to `header`.
pub fn queue_runtime_response(
    serial: &mut SerialState,
    header: FrameHeader,
    status: Status,
    payload: &[u8],
)
    requires
        old(serial).wf(),
    ensures
        final(serial).wf(),
        final(serial)@ == (SerialView {
            tx: if payload@.len() <= MAX_PAYLOAD_BYTES {
                response_frame(header, status, payload@)
            } else {
                Seq::empty()
            },
            ..old(serial)@
        }),
{
    build_response_frame(&header, status, payload, serial);
}

/// The payload that completes a pending command: none on failure, the
/// resulting page for page requests, else the action's own payload.
pub open spec fn completion_payload(
    pending: PendingCommand,
    status: Status,
    resulting_page: u32,
    action_payload: Seq<u8>,
) -> Seq<u8> {
    if status != Status::Success {
        Seq::empty()
    } else if pending.header.opcode == Opcode::Page {
        le32(resulting_page)
    } else {
        action_payload
    }
}

/// Queues the response that completes `pending`. `BufferFull` when the
/// action payload is larger than a payload may be, or when the response does
/// not fit behind the bytes already waiting.
pub fn complete_pending_command(
    serial: &mut SerialState,
    pending: PendingCommand,
    status: Status,
    resulting_page: u32,
    action_payload: &[u8],
) -> (r: Result<(), TransportError>)
    requires
        old(serial).wf(),
    ensures
        final(serial).wf(),
        ({
            let payload = completion_payload(pending, status, resulting_page, action_payload@);
            let frame = response_frame(pending.header, status, payload);
            if payload.len() > MAX_PAYLOAD_BYTES || old(serial)@.tx.len() + frame.len()
                > SERIAL_TX_BUF_SIZE {
                r == Err::<(), TransportError>(TransportError::BufferFull) && final(serial)@ == old(serial)@
            } else {
                r is Ok && final(serial)@ == SerialView { tx: old(serial)@.tx + frame, ..old(serial)@ }
            }
        }),
{
    let mut payload: Vec<u8> = vec![0u8; MAX_PAYLOAD_BYTES];
    let payload_len: usize = if status != Status::Success {
        0
    } else if pending.header.opcode == Opcode::Page {
        match encode_page_response(resulting_page, payload.as_mut_slice()) {
            Ok(n) => n,
            Err(_) => return Err(TransportError::BufferFull),
        }
    } else {
        if action_payload.len() > payload.len() {
            return Err(TransportError::BufferFull);
        }
        crate::protocol::bytes::copy_prefix(payload.as_mut_slice(), action_payload);
        action_payload.len()
    };
    let ghost expected = completion_payload(pending, status, resulting_page, action_payload@);
    assert(payload@.take(payload_len as int) =~= expected);
    let response_header = FrameHeader {
        kind: FrameKind::Response,
        opcode: pending.header.opcode,
        status,
        sequence: pending.header.sequence,
        payload_len: payload_len as u16,
    };
    let body = prefix_of(&payload, payload_len);
    let mut encoded: Vec<u8> = vec![0u8; MAX_FRAME_BYTES];
    proof {
        lemma_cobs_len_bound(raw_frame_bytes(response_header.raw(), body@));
        lemma_cobs_encoding_len(raw_frame_bytes(response_header.raw(), body@));
        crate::protocol::frame::lemma_parse_raw_frame_bytes(response_header.raw(), body@);
    }
    let encoded_len = match encode_frame(&response_header, body.as_slice(), encoded.as_mut_slice()) {
        Ok(n) => n,
        Err(_) => return Err(TransportError::BufferFull),
    };
    let frame = prefix_of(&encoded, encoded_len);
    serial.queue_tx(frame.as_slice())
}

// ---------------------------------------------------------------------------
// Reading requests
// ---------------------------------------------------------------------------

/// What a received frame is as a request: its header and payload, or why it
/// is not one.
pub open spec fn request_of(frame: Seq<u8>) -> Result<(FrameHeader, Seq<u8>), ProtocolError> {
    match decode_raw_spec(frame, MAX_PAYLOAD_BYTES as int) {
        Err(e) => Err(e),
        Ok((h, p)) => match known_header(h) {
            Ok(fh) => Ok((fh, p)),
            Err(e) => Err(e),
        },
    }
}

/// The header of the `BadRequest` reply to a request with an unknown opcode.
pub open spec fn unknown_reply_header(raw: RawFrameHeader) -> RawFrameHeader {
    RawFrameHeader { kind: 2, opcode: raw.opcode, status: 2, sequence: raw.sequence, payload_len: 0 }
}

/// The reply to a frame with an unknown opcode, when the frame is a request.
pub open spec fn unknown_opcode_reply(frame: Seq<u8>) -> Option<Seq<u8>> {
    match decode_raw_spec(frame, MAX_PAYLOAD_BYTES as int) {
        Ok((raw, _)) => if raw.kind == 1 {
            Some(cobs_encoding(raw_frame_bytes(unknown_reply_header(raw), Seq::empty())))
        } else {
            None
        },
        Err(_) => None,
    }
}

/// `x + 1`, saturating at `u32::MAX`.
pub open spec fn saturating_inc(x: u32) -> u32 {
    if x == u32::MAX {
        x
    } else {
        (x + 1) as u32
    }
}

/// The serial state after a frame that is not a valid request: a request with
/// an unknown opcode gets a `BadRequest` reply queued (when it fits), and the
/// error is counted.
pub open spec fn after_bad_frame(m: SerialView, frame: Seq<u8>, e: ProtocolError) -> SerialView {
    let m1 = if e == ProtocolError::UnknownOpcode {
        match unknown_opcode_reply(frame) {
            Some(reply) => if m.tx.len() + reply.len() <= SERIAL_TX_BUF_SIZE {
                SerialView { tx: m.tx + reply, ..m }
            } else {
                m
            },
            None => m,
        }
    } else {
        m
    };
    SerialView { protocol_errors: saturating_inc(m1.protocol_errors), ..m1 }
}

/// Whether the protocol error count cannot overflow while the next frame is
/// taken.
pub open spec fn frame_errors_fit(m: SerialView) -> bool {
    m.protocol_errors + take_frame_drops(m.rx) <= u32::MAX
}

/// Takes the next frame and reads it as a request. Frames that are no valid
/// request are answered or counted as `after_bad_frame` says.
fn next_request(serial: &mut SerialState) -> (r: Option<(FrameHeader, Vec<u8>)>)
    requires
        old(serial).wf(),
        frame_errors_fit(old(serial)@),
    ensures
        final(serial).wf(),
        ({
            let (m1, frame) = take_frame(old(serial)@);
            match frame {
                None => r is None && final(serial)@ == m1,
                Some(f) => match request_of(f) {
                    Err(e) => r is None && final(serial)@ == after_bad_frame(m1, f, e),
                    Ok((h, p)) => final(serial)@ == m1 && (r matches Some((hh, pv)) && hh == h
                        && pv@ == p),
                },
            }
        }),
{
    let mut frame_buf = [0u8; MAX_FRAME_BYTES];
    let frame_len = match serial.next_frame(&mut frame_buf) {
        Some(n) => n,
        None => return None,
    };
    let frame = slice_subrange(frame_buf.as_slice(), 0, frame_len);
    let mut request_payload: Vec<u8> = vec![0u8; MAX_PAYLOAD_BYTES];
    match decode_frame(frame, request_payload.as_mut_slice()) {
        Ok((header, payload_len)) => {
            let payload = prefix_of(&request_payload, payload_len);
            Some((header, payload))
        },
        Err(e) => {
            reject_frame(serial, frame, e);
            None
        },
    }
}

/// Answers a frame that is no valid request, as `after_bad_frame` says.
fn reject_frame(serial: &mut SerialState, frame: &[u8], e: ProtocolError)
    requires
        old(serial).wf(),
    ensures
        final(serial).wf(),
        final(serial)@ == after_bad_frame(old(serial)@, frame@, e),
{
    if e == ProtocolError::UnknownOpcode {
        let mut scratch: Vec<u8> = vec![0u8; MAX_PAYLOAD_BYTES];
        if let Ok((raw, _)) = decode_raw_frame(frame, scratch.as_mut_slice()) {
            if raw.kind == FrameKind::Request.to_u8() {
                let response = RawFrameHeader {
                    kind: FrameKind::Response.to_u8(),
                    opcode: raw.opcode,
                    status: Status::BadRequest.to_u8(),
                    sequence: raw.sequence,
                    payload_len: 0,
                };
                let empty: Vec<u8> = Vec::new();
                let mut encoded: Vec<u8> = vec![0u8; MAX_FRAME_BYTES];
                proof {
                    lemma_parse_raw_frame_bytes(response, empty@);
                    lemma_cobs_len_bound(raw_frame_bytes(response, empty@));
                    lemma_cobs_encoding_len(raw_frame_bytes(response, empty@));
                }
                if let Ok(len) = encode_raw_frame(&response, empty.as_slice(), encoded.as_mut_slice()) {
                    let reply = prefix_of(&encoded, len);
                    let _ = serial.queue_tx(reply.as_slice());
                }
            }
        }
    }
    serial.protocol_errors = serial.protocol_errors.saturating_add(1);
}

// ---------------------------------------------------------------------------
// Runtime commands
// ---------------------------------------------------------------------------

#[derive(Debug, Clone, Copy, PartialEq, Eq)]
pub enum RuntimeCommand {
    Hardware(PendingCommand),
    LogGet { header: FrameHeader, cursor: u32, max_bytes: u16 },
    LogClear { header: FrameHeader },
    Immediate {
        header: FrameHeader,
        status: Status,
        payload: [u8; MAX_PAYLOAD_BYTES],
        payload_len: usize,
    },
}

impl RuntimeCommand {
    /// The header of the request the command answers.
    #[verifier::allow_in_spec]
    pub fn header(&self) -> FrameHeader
        returns
            (match *self {
                RuntimeCommand::Hardware(pending) => pending.header,
                RuntimeCommand::LogGet { header, .. } => header,
                RuntimeCommand::LogClear { header } => header,
                RuntimeCommand::Immediate { header, .. } => header,
            }),
    {
        match *self {
            RuntimeCommand::Hardware(pending) => pending.header,
            RuntimeCommand::LogGet { header, .. } => header,
            RuntimeCommand::LogClear { header } => header,
            RuntimeCommand::Immediate { header, .. } => header,
        }
    }
}

/// The command context a snapshot gives, with the serial error count.
pub open spec fn snapshot_context(snap: DiagnosticSnapshot, errors: u32) -> CommandContext {
    CommandContext {
        current_page: snap.current_page,
        page_count: snap.page_count,
        last_error: snap.last_error,
        panel_mode: snap.panel_mode,
        protocol_errors: errors,
        dropped_records: snap.dropped_log_count,
        tick_ms: 0,
    }
}

/// A zeroed payload buffer.
pub open spec fn zero_payload() -> Seq<u8> {
    Seq::new(MAX_PAYLOAD_BYTES as nat, |i: int| 0u8)
}

/// The pending command a dispatch result hands to the hardware, if any.
pub open spec fn hardware_action(d: DispatchResult) -> Option<PendingAction> {
    match d {
        DispatchResult::RenderTurn { turn } => Some(PendingAction::RenderTurn { turn }),
        DispatchResult::RenderPage { target_page } => Some(PendingAction::RenderPage { target_page }),
        DispatchResult::DisplayProbe(kind) => Some(PendingAction::DisplayProbe(kind)),
        DispatchResult::CrashGet => Some(PendingAction::CrashGet),
        DispatchResult::CrashClear => Some(PendingAction::CrashClear),
        _ => None,
    }
}

/// Whether `r` is the runtime command for request `h` with payload `p`, given
/// the snapshot and the serial error count: hardware work as a pending
/// command, log requests as such, and everything else as an immediate reply
/// whose payload buffer holds what the dispatch wrote (a page reply holds the
/// current page).
pub open spec fn is_runtime_command(
    r: RuntimeCommand,
    h: FrameHeader,
    p: Seq<u8>,
    snap: DiagnosticSnapshot,
    errors: u32,
) -> bool {
    let ctx = snapshot_context(snap, errors);
    let d = dispatch_spec(h, p, ctx, MAX_PAYLOAD_BYTES as int);
    match hardware_action(d) {
        Some(action) => r == RuntimeCommand::Hardware(PendingCommand { header: h, action }),
        None => match d {
            DispatchResult::LogGet { cursor, max_bytes } => r == RuntimeCommand::LogGet {
                header: h,
                cursor,
                max_bytes,
            },
            DispatchResult::LogClear => r == RuntimeCommand::LogClear { header: h },
            DispatchResult::NoAction => {
                &&& r matches RuntimeCommand::Immediate { header, status, payload, payload_len }
                &&& header == h
                &&& status == Status::Success
                &&& if h.opcode == Opcode::Page {
                    payload_len == 4 && payload@ == le32(snap.current_page) + zero_payload().skip(4)
                } else {
                    payload_len == 0 && payload@ == zero_payload()
                }
            },
            DispatchResult::Response { status: st, payload_len: n } => {
                &&& r matches RuntimeCommand::Immediate { header, status, payload, payload_len }
                &&& header == h
                &&& status == st
                &&& payload_len == n
                &&& payload@ == after_dispatch(h, ctx, zero_payload())
            },
            _ => false,
        },
    }
}

/// Reads one request and turns it into a runtime command, without touching
/// any snapshot or log state: the caller services log requests and hardware
/// work. Frames that are no valid request give `None`.
pub fn poll_runtime_command(serial: &mut SerialState, snapshot: DiagnosticSnapshot) -> (r: Option<
    RuntimeCommand,
>)
    requires
        old(serial).wf(),
        frame_errors_fit(old(serial)@),
    ensures
        final(serial).wf(),
        ({
            let (m1, frame) = take_frame(old(serial)@);
            match frame {
                None => r is None && final(serial)@ == m1,
                Some(f) => match request_of(f) {
                    Err(e) => r is None && final(serial)@ == after_bad_frame(m1, f, e),
                    Ok((h, p)) => final(serial)@ == m1 && (r matches Some(c) && is_runtime_command(
                        c,
                        h,
                        p,
                        snapshot,
                        m1.protocol_errors,
                    )),
                },
            }
        }),
{
    let (header, request_payload) = match next_request(serial) {
        Some(v) => v,
        None => return None,
    };
    let mut context = CommandContext::new(
        snapshot.current_page,
        snapshot.page_count,
        snapshot.last_error,
        snapshot.panel_mode.to_u8(),
    );
    context.protocol_errors = serial.protocol_error_count();
    context.dropped_records = snapshot.dropped_log_count;
    let ghost ctx = context;
    assert(ctx == snapshot_context(snapshot, serial@.protocol_errors));
    let mut response_payload = [0u8; MAX_PAYLOAD_BYTES];
    assert(response_payload@ =~= zero_payload());
    let result = dispatch_command(
        header,
        request_payload.as_slice(),
        &mut context,
        &mut response_payload,
    );
    match result {
        DispatchResult::RenderTurn { turn } => Some(
            RuntimeCommand::Hardware(
                PendingCommand { header, action: PendingAction::RenderTurn { turn } },
            ),
        ),
        DispatchResult::RenderPage { target_page } => Some(
            RuntimeCommand::Hardware(
                PendingCommand { header, action: PendingAction::RenderPage { target_page } },
            ),
        ),
        DispatchResult::DisplayProbe(probe) => Some(
            RuntimeCommand::Hardware(
                PendingCommand { header, action: PendingAction::DisplayProbe(probe) },
            ),
        ),
        DispatchResult::CrashGet => Some(
            RuntimeCommand::Hardware(PendingCommand { header, action: PendingAction::CrashGet }),
        ),
        DispatchResult::CrashClear => Some(
            RuntimeCommand::Hardware(PendingCommand { header, action: PendingAction::CrashClear }),
        ),
        DispatchResult::LogGet { cursor, max_bytes } => Some(
            RuntimeCommand::LogGet { header, cursor, max_bytes },
        ),
        DispatchResult::LogClear => Some(RuntimeCommand::LogClear { header }),
        DispatchResult::NoAction => {
            let payload_len = if header.opcode == Opcode::Page {
                match encode_page_response(snapshot.current_page, &mut response_payload) {
                    Ok(n) => n,
                    Err(_) => 0,
                }
            } else {
                0
            };
            Some(
                RuntimeCommand::Immediate {
                    header,
                    status: Status::Success,
                    payload: response_payload,
                    payload_len,
                },
            )
        },
        DispatchResult::Response { status, payload_len } => Some(
            RuntimeCommand::Immediate { header, status, payload: response_payload, payload_len },
        ),
    }
}

// ---------------------------------------------------------------------------
// Pending commands with logging
// ---------------------------------------------------------------------------

/// The event logged when a request arrives.
pub open spec fn receipt_event(h: FrameHeader) -> DiagEvent {
    DiagEvent {
        level: 2,
        subsystem: 5,
        event: EVT_CMD_RECEIPT,
        arg0: h.opcode.to_u8() as i32,
        arg1: h.sequence as i32,
        arg2: 0,
    }
}

/// The event logged for a valid key request.
pub open spec fn key_event(k: KeyPayload) -> DiagEvent {
    DiagEvent {
        level: 2,
        subsystem: 2,
        event: EVT_KEY_PRESS,
        arg0: k.key.to_u8() as i32,
        arg1: k.action.to_u8() as i32,
        arg2: 0,
    }
}

/// The event logged for a page request: the page shown and the page chosen.
pub open spec fn page_event(current: u32, target: u32) -> DiagEvent {
    DiagEvent {
        level: 2,
        subsystem: 3,
        event: EVT_PAGE_DECISION,
        arg0: current as i32,
        arg1: target as i32,
        arg2: 0,
    }
}

/// The event logged when a request is answered with an error status.
pub open spec fn error_event(h: FrameHeader, status: Status) -> DiagEvent {
    DiagEvent {
        level: 4,
        subsystem: 5,
        event: EVT_CMD_ERROR,
        arg0: h.opcode.to_u8() as i32,
        arg1: status.to_u8() as i32,
        arg2: 0,
    }
}

/// The key or page decision logged after the receipt, if any.
pub open spec fn decision_events(
    h: FrameHeader,
    p: Seq<u8>,
    d: DispatchResult,
    current_page: u32,
) -> Seq<DiagEvent> {
    if h.opcode == Opcode::Key {
        match key_request(p) {
            Some(k) => seq![key_event(k)],
            None => Seq::empty(),
        }
    } else if h.opcode == Opcode::Page {
        seq![
            page_event(
                current_page,
                match d {
                    DispatchResult::RenderPage { target_page } => target_page,
                    _ => current_page,
                },
            ),
        ]
    } else {
        Seq::empty()
    }
}

/// The error answer logged last, if any.
pub open spec fn error_events(h: FrameHeader, d: DispatchResult) -> Seq<DiagEvent> {
    match d {
        DispatchResult::Response { status, .. } => if status != Status::Success {
            seq![error_event(h, status)]
        } else {
            Seq::empty()
        },
        _ => Seq::empty(),
    }
}

/// The events logged after the receipt: the key or page decision, then the
/// error answer, if any.
pub open spec fn followup_events(
    h: FrameHeader,
    p: Seq<u8>,
    d: DispatchResult,
    current_page: u32,
) -> Seq<DiagEvent> {
    decision_events(h, p, d, current_page) + error_events(h, d)
}

/// The log after pushing `events` in order at `tick_ms`.
pub open spec fn log_after_events(
    log: DiagLogView,
    tick_ms: u32,
    events: Seq<DiagEvent>,
    capacity: nat,
) -> DiagLogView
    decreases events.len(),
{
    if events.len() == 0 {
        log
    } else {
        log_after_push(
            log_after_events(log, tick_ms, events.drop_last(), capacity),
            tick_ms,
            events.last(),
            capacity,
        )
    }
}

/// The context a pending request is dispatched in.
pub open spec fn pending_context(
    current_page: u32,
    page_count: u32,
    last_error: i32,
    panel_mode: u8,
    errors: u32,
    dropped: u32,
    tick_ms: u32,
) -> CommandContext {
    CommandContext {
        current_page,
        page_count,
        last_error,
        panel_mode: panel_mode_of(panel_mode),
        protocol_errors: errors,
        dropped_records: dropped,
        tick_ms,
    }
}

/// Everything a valid request leads to in `poll_pending_command`: the log
/// after it, the response it is answered with at once (status and payload),
/// if any, and the hardware action it hands on, if any.
pub struct PendingOutcome {
    pub log: DiagLogView,
    pub response: Option<(Status, Seq<u8>)>,
    pub action: Option<PendingAction>,
}

pub open spec fn pending_outcome(
    h: FrameHeader,
    p: Seq<u8>,
    current_page: u32,
    page_count: u32,
    last_error: i32,
    panel_mode: u8,
    errors: u32,
    log: DiagLogView,
    tick_ms: u32,
    capacity: nat,
) -> PendingOutcome {
    let log1 = log_after_push(log, tick_ms, receipt_event(h), capacity);
    let ctx = pending_context(
        current_page,
        page_count,
        last_error,
        panel_mode,
        errors,
        log1.dropped,
        tick_ms,
    );
    let d = dispatch_spec(h, p, ctx, MAX_PAYLOAD_BYTES as int);
    let log2 = log_after_events(log1, tick_ms, followup_events(h, p, d, current_page), capacity);
    match hardware_action(d) {
        Some(action) => PendingOutcome { log: log2, response: None, action: Some(action) },
        None => match d {
            DispatchResult::NoAction => PendingOutcome {
                log: log2,
                response: Some(
                    (
                        Status::Success,
                        if h.opcode == Opcode::Page {
                            le32(current_page)
                        } else {
                            Seq::empty()
                        },
                    ),
                ),
                action: None,
            },
            DispatchResult::LogGet { cursor, max_bytes } => PendingOutcome {
                log: log2,
                response: Some(
                    (
                        Status::Success,
                        log_get_response(log2, cursor, max_bytes, MAX_PAYLOAD_BYTES as int),
                    ),
                ),
                action: None,
            },
            DispatchResult::LogClear => PendingOutcome {
                log: DiagLogView { records: Seq::empty(), next_sequence: log2.next_sequence, dropped: 0 },
                response: Some(
                    (
                        Status::Success,
                        log_response_header_bytes(
                            LogResponseHeader {
                                next_cursor: log2.next_sequence,
                                dropped_log_count: 0,
                                record_count: 0,
                            },
                        ),
                    ),
                ),
                action: None,
            },
            DispatchResult::Response { status, payload_len } => PendingOutcome {
                log: log2,
                response: Some(
                    (status, after_dispatch(h, ctx, zero_payload()).take(payload_len as int)),
                ),
                action: None,
            },
            _ => PendingOutcome { log: log2, response: None, action: None },
        },
    }
}

/// How many events a valid request logs.
pub open spec fn pending_event_count(
    h: FrameHeader,
    p: Seq<u8>,
    current_page: u32,
    page_count: u32,
    last_error: i32,
    panel_mode: u8,
    errors: u32,
    log: DiagLogView,
    tick_ms: u32,
    capacity: nat,
) -> nat {
    let log1 = log_after_push(log, tick_ms, receipt_event(h), capacity);
    let ctx = pending_context(
        current_page,
        page_count,
        last_error,
        panel_mode,
        errors,
        log1.dropped,
        tick_ms,
    );
    let d = dispatch_spec(h, p, ctx, MAX_PAYLOAD_BYTES as int);
    1 + followup_events(h, p, d, current_page).len()
}

/// Whether the log's sequence numbers cannot overflow while the next request
/// is handled.
pub open spec fn pending_log_fits(
    m: SerialView,
    current_page: u32,
    page_count: u32,
    last_error: i32,
    panel_mode: u8,
    log: DiagLogView,
    tick_ms: u32,
    capacity: nat,
) -> bool {
    let (m1, frame) = take_frame(m);
    match frame {
        Some(f) => match request_of(f) {
            Ok((h, p)) => log.next_sequence + pending_event_count(
                h,
                p,
                current_page,
                page_count,
                last_error,
                panel_mode,
                m1.protocol_errors,
                log,
                tick_ms,
                capacity,
            ) <= u32::MAX,
            Err(_) => true,
        },
        None => true,
    }
}

proof fn lemma_log_after_events_wf_len(log: DiagLogView, tick_ms: u32, events: Seq<DiagEvent>, capacity: nat)
    ensures
        log_after_events(log, tick_ms, events, capacity).next_sequence == if log.next_sequence
            + events.len() <= u32::MAX {
            log.next_sequence + events.len()
        } else {
            log_after_events(log, tick_ms, events, capacity).next_sequence as int
        },
    decreases events.len(),
{
    if events.len() > 0 {
        lemma_log_after_events_wf_len(log, tick_ms, events.drop_last(), capacity);
    }
}

/// Pushes one event, for the request handler.
fn push_event_to<const N: usize>(log: &mut DiagLog<N>, tick_ms: u32, event: DiagEvent)
    requires
        old(log).wf(),
        N > 0,
        old(log)@.next_sequence < u32::MAX,
    ensures
        final(log).wf(),
        final(log)@ == log_after_push(old(log)@, tick_ms, event, N as nat),
{
    log.push(tick_ms, event);
}

/// Reads one request. Requests that need the hardware are returned as pending
/// commands and nothing is sent for them yet; every other request is answered
/// at once, replacing the bytes waiting to be sent. The receipt and the
/// decisions are logged.
pub fn poll_pending_command<const N: usize>(
    serial: &mut SerialState,
    current_page: u32,
    page_count: u32,
    last_error: i32,
    panel_mode: u8,
    log: &mut DiagLog<N>,
    tick_ms: u32,
) -> (r: Option<PendingCommand>)
    requires
        old(serial).wf(),
        frame_errors_fit(old(serial)@),
        old(log).wf(),
        N > 0,
        pending_log_fits(
            old(serial)@,
            current_page,
            page_count,
            last_error,
            panel_mode,
            old(log)@,
            tick_ms,
            N as nat,
        ),
    ensures
        final(serial).wf(),
        final(log).wf(),
        ({
            let (m1, frame) = take_frame(old(serial)@);
            match frame {
                None => r is None && final(serial)@ == m1 && final(log)@ == old(log)@,
                Some(f) => match request_of(f) {
                    Err(e) => r is None && final(serial)@ == after_bad_frame(m1, f, e) && final(log)@ == old(log)@,
                    Ok((h, p)) => {
                        let out = pending_outcome(
                            h,
                            p,
                            current_page,
                            page_count,
                            last_error,
                            panel_mode,
                            m1.protocol_errors,
                            old(log)@,
                            tick_ms,
                            N as nat,
                        );
                        &&& final(log)@ == out.log
                        &&& r == match out.action {
                            Some(action) => Some(PendingCommand { header: h, action }),
                            None => None,
                        }
                        &&& final(serial)@ == match out.response {
                            Some((status, payload)) => SerialView {
                                tx: response_frame(h, status, payload),
                                ..m1
                            },
                            None => m1,
                        }
                    },
                },
            }
        }),
{
    let (header, request_payload) = match next_request(serial) {
        Some(v) => v,
        None => return None,
    };
    handle_pending_request(
        serial,
        header,
        request_payload.as_slice(),
        current_page,
        page_count,
        last_error,
        panel_mode,
        log,
        tick_ms,
    )
}

fn handle_pending_request<const N: usize>(
    serial: &mut SerialState,
    header: FrameHeader,
    payload: &[u8],
    current_page: u32,
    page_count: u32,
    last_error: i32,
    panel_mode: u8,
    log: &mut DiagLog<N>,
    tick_ms: u32,
) -> (r: Option<PendingCommand>)
    requires
        old(serial).wf(),
        old(log).wf(),
        N > 0,
        payload@.len() <= MAX_PAYLOAD_BYTES,
        old(log)@.next_sequence + pending_event_count(
            header,
            payload@,
            current_page,
            page_count,
            last_error,
            panel_mode,
            old(serial)@.protocol_errors,
            old(log)@,
            tick_ms,
            N as nat,
        ) <= u32::MAX,
    ensures
        final(serial).wf(),
        final(log).wf(),
        ({
            let out = pending_outcome(
                header,
                payload@,
                current_page,
                page_count,
                last_error,
                panel_mode,
                old(serial)@.protocol_errors,
                old(log)@,
                tick_ms,
                N as nat,
            );
            &&& final(log)@ == out.log
            &&& r == match out.action {
                Some(action) => Some(PendingCommand { header, action }),
                None => None,
            }
            &&& final(serial)@ == match out.response {
                Some((status, bytes)) => SerialView {
                    tx: response_frame(header, status, bytes),
                    ..old(serial)@
                },
                None => old(serial)@,
            }
        }),
{
    push_event_to(
        log,
        tick_ms,
        DiagEvent {
            level: LEVEL_INFO,
            subsystem: SUB_SERIAL,
            event: EVT_CMD_RECEIPT,
            arg0: header.opcode.to_u8() as i32,
            arg1: header.sequence as i32,
            arg2: 0,
        },
    );
    let ghost log1 = log@;
    let mut context = CommandContext::new(current_page, page_count, last_error, panel_mode);
    context.protocol_errors = serial.protocol_error_count();
    context.dropped_records = log.dropped_records();
    context.tick_ms = tick_ms;
    let ghost ctx = context;
    let mut response_payload = [0u8; MAX_PAYLOAD_BYTES];
    assert(response_payload@ =~= zero_payload());
    let result = dispatch_command(header, payload, &mut context, &mut response_payload);
    proof {
        lemma_log_after_events_split(
            log1,
            tick_ms,
            decision_events(header, payload@, result, current_page),
            error_events(header, result),
            N as nat,
        );
    }
    log_decision(log, header, payload, result, current_page, tick_ms);
    answer_request(serial, log, header, result, &mut response_payload, current_page, tick_ms)
}

/// Pushing two runs of events is pushing them one after the other.
proof fn lemma_log_after_events_split(
    log: DiagLogView,
    tick_ms: u32,
    a: Seq<DiagEvent>,
    b: Seq<DiagEvent>,
    capacity: nat,
)
    ensures
        log_after_events(log, tick_ms, a + b, capacity) == log_after_events(
            log_after_events(log, tick_ms, a, capacity),
            tick_ms,
            b,
            capacity,
        ),
        log_after_events(log, tick_ms, a, capacity).next_sequence == if log.next_sequence
            + a.len() <= u32::MAX {
            log.next_sequence + a.len()
        } else {
            log_after_events(log, tick_ms, a, capacity).next_sequence as int
        },
    decreases b.len(),
{
    lemma_log_after_events_wf_len(log, tick_ms, a, capacity);
    if b.len() == 0 {
        assert(a + b =~= a);
    } else {
        lemma_log_after_events_split(log, tick_ms, a, b.drop_last(), capacity);
        assert((a + b).drop_last() =~= a + b.drop_last());
    }
}

/// Logs the key or page decision of a request.
fn log_decision<const N: usize>(
    log: &mut DiagLog<N>,
    header: FrameHeader,
    payload: &[u8],
    result: DispatchResult,
    current_page: u32,
    tick_ms: u32,
)
    requires
        old(log).wf(),
        N > 0,
        old(log)@.next_sequence + decision_events(header, payload@, result, current_page).len()
            <= u32::MAX,
    ensures
        final(log).wf(),
        final(log)@ == log_after_events(
            old(log)@,
            tick_ms,
            decision_events(header, payload@, result, current_page),
            N as nat,
        ),
{
    let ghost events = decision_events(header, payload@, result, current_page);
    proof {
        reveal_with_fuel(log_after_events, 2);
    }
    if header.opcode == Opcode::Key {
        if let Ok(key) = decode_key_payload(payload) {
            proof {
                assert(payload@[0] == key.key.to_u8());
                assert(payload@[1] == key.action.to_u8());
                assert(key_request(payload@) == Some(key));
                assert(events.drop_last() =~= Seq::<DiagEvent>::empty());
            }
            push_event_to(
                log,
                tick_ms,
                DiagEvent {
                    level: LEVEL_INFO,
                    subsystem: SUB_INPUT,
                    event: EVT_KEY_PRESS,
                    arg0: key.key.to_u8() as i32,
                    arg1: key.action.to_u8() as i32,
                    arg2: 0,
                },
            );
        }
    } else if header.opcode == Opcode::Page {
        let target = match result {
            DispatchResult::RenderPage { target_page } => target_page,
            _ => current_page,
        };
        assert(events.drop_last() =~= Seq::<DiagEvent>::empty());
        push_event_to(
            log,
            tick_ms,
            DiagEvent {
                level: LEVEL_INFO,
                subsystem: SUB_NAV,
                event: EVT_PAGE_DECISION,
                arg0: current_page as i32,
                arg1: target as i32,
                arg2: 0,
            },
        );
    }
}

/// Answers a dispatched request: hardware work is handed back, everything else
/// is answered at once (logging an error answer first).
fn answer_request<const N: usize>(
    serial: &mut SerialState,
    log: &mut DiagLog<N>,
    header: FrameHeader,
    result: DispatchResult,
    response_payload: &mut [u8; MAX_PAYLOAD_BYTES],
    current_page: u32,
    tick_ms: u32,
) -> (r: Option<PendingCommand>)
    requires
        old(serial).wf(),
        old(log).wf(),
        N > 0,
        old(log)@.next_sequence + error_events(header, result).len() <= u32::MAX,
        result matches DispatchResult::Response { payload_len, .. } ==> payload_len
            <= MAX_PAYLOAD_BYTES,
    ensures
        final(serial).wf(),
        final(log).wf(),
        final(log)@ == (match result {
            DispatchResult::LogClear => DiagLogView {
                records: Seq::empty(),
                next_sequence: old(log)@.next_sequence,
                dropped: 0,
            },
            _ => log_after_events(old(log)@, tick_ms, error_events(header, result), N as nat),
        }),
        r == match hardware_action(result) {
            Some(action) => Some(PendingCommand { header, action }),
            None => None,
        },
        final(serial)@ == match hardware_action(result) {
            Some(_) => old(serial)@,
            None => SerialView {
                tx: response_frame(
                    header,
                    match result {
                        DispatchResult::Response { status, .. } => status,
                        _ => Status::Success,
                    },
                    match result {
                        DispatchResult::NoAction => if header.opcode == Opcode::Page {
                            le32(current_page)
                        } else {
                            Seq::empty()
                        },
                        DispatchResult::LogGet { cursor, max_bytes } => log_get_response(
                            old(log)@,
                            cursor,
                            max_bytes,
                            MAX_PAYLOAD_BYTES as int,
                        ),
                        DispatchResult::LogClear => log_response_header_bytes(
                            LogResponseHeader {
                                next_cursor: old(log)@.next_sequence,
                                dropped_log_count: 0,
                                record_count: 0,
                            },
                        ),
                        DispatchResult::Response { payload_len, .. } => old(
                            response_payload,
                        )@.take(payload_len as int),
                        _ => Seq::empty(),
                    },
                ),
                ..old(serial)@
            },
        },
{
    proof {
        reveal_with_fuel(log_after_events, 2);
    }
    match result {
        DispatchResult::RenderTurn { turn } => {
            Some(PendingCommand { header, action: PendingAction::RenderTurn { turn } })
        },
        DispatchResult::RenderPage { target_page } => {
            Some(PendingCommand { header, action: PendingAction::RenderPage { target_page } })
        },
        DispatchResult::DisplayProbe(probe) => {
            Some(PendingCommand { header, action: PendingAction::DisplayProbe(probe) })
        },
        DispatchResult::CrashGet => Some(PendingCommand { header, action: PendingAction::CrashGet }),
        DispatchResult::CrashClear => Some(
            PendingCommand { header, action: PendingAction::CrashClear },
        ),
        DispatchResult::NoAction => {
            let payload_len = if header.opcode == Opcode::Page {
                match encode_page_response(current_page, response_payload) {
                    Ok(n) => n,
                    Err(_) => 0,
                }
            } else {
                0
            };
            let body = slice_subrange(response_payload.as_slice(), 0, payload_len);
            assert(body@ =~= if header.opcode == Opcode::Page {
                le32(current_page)
            } else {
                Seq::<u8>::empty()
            });
            build_response_frame(&header, Status::Success, body, serial);
            None
        },
        DispatchResult::LogGet { cursor, max_bytes } => {
            let payload_len = resolve_log_get(log, cursor, max_bytes, response_payload);
            let body = slice_subrange(response_payload.as_slice(), 0, payload_len);
            assert(body@ =~= log_get_response(log@, cursor, max_bytes, MAX_PAYLOAD_BYTES as int));
            build_response_frame(&header, Status::Success, body, serial);
            None
        },
        DispatchResult::LogClear => {
            let (next_cursor, dropped_log_count) = resolve_log_clear(log);
            let payload_len = match encode_log_response_header(
                LogResponseHeader { next_cursor, dropped_log_count, record_count: 0 },
                response_payload,
            ) {
                Ok(n) => n,
                Err(_) => 0,
            };
            let body = slice_subrange(response_payload.as_slice(), 0, payload_len);
            assert(body@ =~= log_response_header_bytes(
                LogResponseHeader { next_cursor, dropped_log_count: 0, record_count: 0 },
            ));
            build_response_frame(&header, Status::Success, body, serial);
            None
        },
        DispatchResult::Response { status, payload_len } => {
            if status != Status::Success {
                push_event_to(
                    log,
                    tick_ms,
                    DiagEvent {
                        level: LEVEL_ERROR,
                        subsystem: SUB_SERIAL,
                        event: EVT_CMD_ERROR,
                        arg0: header.opcode.to_u8() as i32,
                        arg1: status.to_u8() as i32,
                        arg2: 0,
                    },
                );
                assert(error_events(header, result).drop_last() =~= Seq::<DiagEvent>::empty());
            }
            let body = slice_subrange(response_payload.as_slice(), 0, payload_len);
            build_response_frame(&header, status, body, serial);
            None
        },
    }
}

} // verus!
