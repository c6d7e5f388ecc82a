//! The diagnostic view of runtime events: a snapshot of the reader's state,
//! the log of what happened, and the protocol commands waiting for their
//! completion.

use vstd::prelude::*;
use crate::display::engine::ControllerRamState;
use crate::display::events::PanelMode;
use crate::fw::async_refresh::{DisplayProbeKind, RefreshPhase};
use crate::fw::diag::{snapshot_status, DiagnosticSnapshot, PendingCommand};
use crate::fw::diag_log::{
    log_after_push, DiagEvent, DiagLog, DiagLogView, EVT_BW_BASE_SYNC_CANCELLED,
    EVT_BW_BASE_SYNC_COMPLETE, EVT_BW_BASE_SYNC_START, EVT_CMD_RECEIPT, EVT_CONTROLLER_RAM_STATE,
    EVT_DISPLAY_ERROR, EVT_DISPLAY_RECOVERY, EVT_FIRMWARE_STARTED, EVT_GRAY_DELAY_CANCELLED,
    EVT_GRAY_OVERLAY_ACTIVATE, EVT_GRAY_OVERLAY_CANCELLED, EVT_GRAY_OVERLAY_COMPLETE,
    EVT_GRAY_OVERLAY_START, EVT_PAGE_TURN, EVT_PANEL_MODE, EVT_REFRESH_PHASE, EVT_RENDER_FAILURE,
    EVT_RENDER_START, EVT_RENDER_SUCCESS, EVT_TURN_DEQUEUED, EVT_TURN_DROPPED, EVT_TURN_QUEUED,
    EVT_WAVEFORM_SELECTED, LEVEL_ERROR, LEVEL_INFO, SUB_DISPLAY, SUB_INPUT, SUB_NAV, SUB_SERIAL,
    SUB_SYSTEM,
};
use crate::fw::error::FirmwareError;
use crate::fw::input::PageTurn;
use crate::fw::runtime_engine::{
    RuntimeCompletion, RuntimeCompletionStatus, RuntimeEvent, RuntimeEventKind,
};
use crate::protocol::{PanelModeCode, StatusPayload};

verus! {

#[derive(Debug, Clone, Copy, PartialEq, Eq, Structural)]
pub enum ReserveError {
    DuplicateSequence,
    Full,
    EnqueueFailed,
}

#[derive(Debug, Clone, Copy, PartialEq, Eq, Structural)]
pub struct CommittedCompletion {
    pub pending: PendingCommand,
    pub completion: RuntimeCompletion,
    pub snapshot: DiagnosticSnapshot,
    pub log_sequence: Option<u32>,
}

// ---------------------------------------------------------------------------
// Log codes
// ---------------------------------------------------------------------------

#[verifier::allow_in_spec]
pub fn phase_code(phase: RefreshPhase) -> i32
    returns
        (match phase {
            RefreshPhase::BwReady => 0i32,
            RefreshPhase::BwRefreshing => 1i32,
            RefreshPhase::GrayDelay => 2i32,
            RefreshPhase::GrayRefreshing => 3i32,
            RefreshPhase::BaseSync => 4i32,
            RefreshPhase::Recovering => 5i32,
            RefreshPhase::Fault => 6i32,
        }),
{
    match phase {
        RefreshPhase::BwReady => 0,
        RefreshPhase::BwRefreshing => 1,
        RefreshPhase::GrayDelay => 2,
        RefreshPhase::GrayRefreshing => 3,
        RefreshPhase::BaseSync => 4,
        RefreshPhase::Recovering => 5,
        RefreshPhase::Fault => 6,
    }
}

#[verifier::allow_in_spec]
pub fn panel_mode_code(mode: PanelMode) -> i32
    returns
        (match mode {
            PanelMode::Unknown => 0i32,
            PanelMode::Grayscale => 1i32,
            PanelMode::Bw => 2i32,
        }),
{
    match mode {
        PanelMode::Unknown => 0,
        PanelMode::Grayscale => 1,
        PanelMode::Bw => 2,
    }
}

#[verifier::allow_in_spec]
pub fn controller_code(state: ControllerRamState) -> i32
    returns
        (match state {
            ControllerRamState::BwBaseReady => 0i32,
            ControllerRamState::GrayOverlayResident => 1i32,
            ControllerRamState::BaseSyncInProgress => 2i32,
            ControllerRamState::NeedsFullBwInputs => 3i32,
        }),
{
    match state {
        ControllerRamState::BwBaseReady => 0,
        ControllerRamState::GrayOverlayResident => 1,
        ControllerRamState::BaseSyncInProgress => 2,
        ControllerRamState::NeedsFullBwInputs => 3,
    }
}

#[verifier::allow_in_spec]
pub fn turn_code(turn: PageTurn) -> i32
    returns
        (match turn {
            PageTurn::Previous => 0i32,
            PageTurn::Next => 1i32,
            PageTurn::First => 2i32,
            PageTurn::Last => 3i32,
        }),
{
    match turn {
        PageTurn::Previous => 0,
        PageTurn::Next => 1,
        PageTurn::First => 2,
        PageTurn::Last => 3,
    }
}

#[verifier::allow_in_spec]
pub fn probe_code(kind: DisplayProbeKind) -> i32
    returns
        (match kind {
            DisplayProbeKind::FullRefreshCurrent => 0i32,
            DisplayProbeKind::ClearWhite => 1i32,
            DisplayProbeKind::WindowCorners => 2i32,
        }),
{
    match kind {
        DisplayProbeKind::FullRefreshCurrent => 0,
        DisplayProbeKind::ClearWhite => 1,
        DisplayProbeKind::WindowCorners => 2,
    }
}

/// The error number a firmware error is reported with.
#[verifier::allow_in_spec]
pub fn error_code(error: FirmwareError) -> i32
    returns
        (match error {
            FirmwareError::Spi => -1i32,
            FirmwareError::Gpio => -2i32,
            FirmwareError::Storage => -3i32,
            FirmwareError::Timeout => -4i32,
            FirmwareError::InvalidParameter => -5i32,
        }),
{
    match error {
        FirmwareError::Spi => -1,
        FirmwareError::Gpio => -2,
        FirmwareError::Storage => -3,
        FirmwareError::Timeout => -4,
        FirmwareError::InvalidParameter => -5,
    }
}

/// The status code a panel mode is reported with.
pub open spec fn panel_mode_status(mode: PanelMode) -> PanelModeCode {
    match mode {
        PanelMode::Unknown => PanelModeCode::Unknown,
        PanelMode::Grayscale => PanelModeCode::Grayscale,
        PanelMode::Bw => PanelModeCode::Bw,
    }
}

fn panel_mode(mode: PanelMode) -> (r: PanelModeCode)
    ensures
        r == panel_mode_status(mode),
{
    match mode {
        PanelMode::Unknown => PanelModeCode::Unknown,
        PanelMode::Grayscale => PanelModeCode::Grayscale,
        PanelMode::Bw => PanelModeCode::Bw,
    }
}

/// The subsystem an event number is filed under: queue events under input,
/// page turns under navigation, the rest under display.
pub open spec fn subsystem_of(event: u16) -> u8 {
    if event == EVT_TURN_QUEUED || event == EVT_TURN_DEQUEUED || event == EVT_TURN_DROPPED {
        SUB_INPUT
    } else if event == EVT_PAGE_TURN {
        SUB_NAV
    } else {
        SUB_DISPLAY
    }
}

/// A display-side log entry.
pub open spec fn entry(level: u8, event: u16, arg0: i32, arg1: i32, arg2: i32) -> DiagEvent {
    DiagEvent { level, subsystem: subsystem_of(event), event, arg0, arg1, arg2 }
}

/// A sequence number as a log argument, `-1` when there is none.
pub open spec fn sequence_arg(sequence: Option<u16>) -> i32 {
    match sequence {
        Some(s) => s as i32,
        None => -1i32,
    }
}

/// The log entry a runtime event is recorded with, if any.
pub open spec fn log_entry_of(kind: RuntimeEventKind) -> Option<DiagEvent> {
    match kind {
        RuntimeEventKind::FirmwareStarted { page_count } => Some(
            DiagEvent {
                level: LEVEL_INFO,
                subsystem: SUB_SYSTEM,
                event: EVT_FIRMWARE_STARTED,
                arg0: page_count as i32,
                arg1: 0,
                arg2: 0,
            },
        ),
        RuntimeEventKind::ProtocolCommand { opcode, sequence } => Some(
            DiagEvent {
                level: LEVEL_INFO,
                subsystem: SUB_SERIAL,
                event: EVT_CMD_RECEIPT,
                arg0: opcode as i32,
                arg1: sequence as i32,
                arg2: 0,
            },
        ),
        RuntimeEventKind::PhaseChanged(phase) => Some(
            entry(LEVEL_INFO, EVT_REFRESH_PHASE, phase_code(phase), 0, 0),
        ),
        RuntimeEventKind::GrayDelayCancelled { page } => Some(
            entry(LEVEL_INFO, EVT_GRAY_DELAY_CANCELLED, page as i32, 0, 0),
        ),
        RuntimeEventKind::PanelModeChanged(mode) => Some(
            entry(LEVEL_INFO, EVT_PANEL_MODE, panel_mode_code(mode), 0, 0),
        ),
        RuntimeEventKind::ControllerRamStateChanged(state) => Some(
            entry(LEVEL_INFO, EVT_CONTROLLER_RAM_STATE, controller_code(state), 0, 0),
        ),
        RuntimeEventKind::TurnQueued { sequence, turn } => Some(
            entry(LEVEL_INFO, EVT_TURN_QUEUED, sequence_arg(sequence), turn_code(turn), 0),
        ),
        RuntimeEventKind::PageDisplayed { from, page } => Some(
            entry(LEVEL_INFO, EVT_PAGE_TURN, from as i32, page as i32, 0),
        ),
        RuntimeEventKind::GrayStarted { page } => Some(
            entry(LEVEL_INFO, EVT_GRAY_OVERLAY_START, page as i32, 0, 0),
        ),
        RuntimeEventKind::GrayCancelled { page } => Some(
            entry(LEVEL_INFO, EVT_GRAY_OVERLAY_CANCELLED, page as i32, 0, 0),
        ),
        RuntimeEventKind::GrayActivated { page } => Some(
            entry(LEVEL_INFO, EVT_GRAY_OVERLAY_ACTIVATE, page as i32, 0, 0),
        ),
        RuntimeEventKind::WaveformSelected { waveform_hint, lut_revision } => Some(
            entry(LEVEL_INFO, EVT_WAVEFORM_SELECTED, waveform_hint as i32, lut_revision as i32, 0),
        ),
        RuntimeEventKind::GrayCompleted { page } => Some(
            entry(LEVEL_INFO, EVT_GRAY_OVERLAY_COMPLETE, page as i32, 0, 0),
        ),
        RuntimeEventKind::BaseSyncStarted { page } => Some(
            entry(LEVEL_INFO, EVT_BW_BASE_SYNC_START, page as i32, 0, 0),
        ),
        RuntimeEventKind::BaseSyncCancelled { page } => Some(
            entry(LEVEL_INFO, EVT_BW_BASE_SYNC_CANCELLED, page as i32, 0, -1i32),
        ),
        RuntimeEventKind::BaseSyncCompleted { page } => Some(
            entry(LEVEL_INFO, EVT_BW_BASE_SYNC_COMPLETE, page as i32, 0, 0),
        ),
        RuntimeEventKind::RecoveryStarted { page } => Some(
            entry(LEVEL_INFO, EVT_DISPLAY_RECOVERY, page as i32, 0, 0),
        ),
        RuntimeEventKind::RecoveryCompleted { page } => Some(
            entry(LEVEL_INFO, EVT_DISPLAY_RECOVERY, page as i32, 1, 0),
        ),
        RuntimeEventKind::ProbeStarted { sequence, kind } => Some(
            entry(LEVEL_INFO, EVT_RENDER_START, sequence as i32, probe_code(kind), 0),
        ),
        RuntimeEventKind::ProbeCompleted { sequence, kind } => Some(
            entry(LEVEL_INFO, EVT_RENDER_SUCCESS, sequence as i32, probe_code(kind), 0),
        ),
        RuntimeEventKind::TurnDropped { turn } => Some(
            entry(LEVEL_ERROR, EVT_TURN_DROPPED, turn_code(turn), 0, 0),
        ),
        RuntimeEventKind::DisplayFailure { error, page } => Some(
            entry(LEVEL_ERROR, EVT_DISPLAY_ERROR, error_code(error), page as i32, 0),
        ),
        RuntimeEventKind::Completion(value) => Some(
            if value.status == RuntimeCompletionStatus::Success {
                entry(LEVEL_INFO, EVT_TURN_DEQUEUED, sequence_arg(value.sequence), value.page as i32, 0)
            } else {
                entry(
                    LEVEL_ERROR,
                    EVT_RENDER_FAILURE,
                    sequence_arg(value.sequence),
                    value.page as i32,
                    0,
                )
            },
        ),
        _ => None,
    }
}

/// The snapshot after a runtime event, before the dropped count is refreshed:
/// panel mode changes, displayed pages, failures and completions update it.
pub open spec fn snapshot_after(snap: DiagnosticSnapshot, kind: RuntimeEventKind) -> DiagnosticSnapshot {
    match kind {
        RuntimeEventKind::PanelModeChanged(mode) => DiagnosticSnapshot {
            panel_mode: panel_mode_status(mode),
            ..snap
        },
        RuntimeEventKind::PageDisplayed { page, .. } => DiagnosticSnapshot { current_page: page, ..snap },
        RuntimeEventKind::DisplayFailure { error, .. } => DiagnosticSnapshot {
            last_error: error_code(error),
            ..snap
        },
        RuntimeEventKind::Completion(value) => DiagnosticSnapshot {
            current_page: value.page,
            last_error: match value.error {
                Some(e) => error_code(e),
                None => snap.last_error,
            },
            ..snap
        },
        _ => snap,
    }
}

/// The snapshot follows the page on display: after a page is displayed the
/// snapshot shows that page, whichever page it was turned from, and a
/// completion shows the page it ended on. Only failures (a display failure,
/// a completion with an error) change the last error, only a panel mode
/// change the panel mode, and no event changes the page count or the
/// protocol error count.
pub proof fn lemma_snapshot_follows_display(
    snap: DiagnosticSnapshot,
    kind: RuntimeEventKind,
    from: u32,
    other_from: u32,
    page: u32,
)
    ensures
        snapshot_after(snap, RuntimeEventKind::PageDisplayed { from, page }).current_page == page,
        snapshot_after(snap, RuntimeEventKind::PageDisplayed { from, page }) == snapshot_after(
            snap,
            RuntimeEventKind::PageDisplayed { from: other_from, page },
        ),
        snapshot_after(snap, RuntimeEventKind::PageDisplayed { from, page }) == (
        DiagnosticSnapshot { current_page: page, ..snap }),
        kind matches RuntimeEventKind::Completion(value) ==> snapshot_after(snap, kind).current_page
            == value.page,
        !(kind is PageDisplayed || kind is Completion) ==> snapshot_after(snap, kind).current_page
            == snap.current_page,
        kind matches RuntimeEventKind::DisplayFailure { error, .. } ==> snapshot_after(
            snap,
            kind,
        ).last_error == error_code(error),
        kind matches RuntimeEventKind::Completion(value) ==> snapshot_after(snap, kind).last_error
            == match value.error {
            Some(e) => error_code(e),
            None => snap.last_error,
        },
        !(kind is DisplayFailure || kind is Completion) ==> snapshot_after(snap, kind).last_error
            == snap.last_error,
        !(kind is PanelModeChanged) ==> snapshot_after(snap, kind).panel_mode == snap.panel_mode,
        snapshot_after(snap, kind).page_count == snap.page_count,
        snapshot_after(snap, kind).protocol_error_count == snap.protocol_error_count,
        snapshot_after(snap, kind).dropped_log_count == snap.dropped_log_count,
{
}

// ---------------------------------------------------------------------------
// The aggregator
// ---------------------------------------------------------------------------

pub struct RuntimeAggregator<const PENDING: usize, const LOG: usize> {
    snapshot: DiagnosticSnapshot,
    pending: Vec<Option<PendingCommand>>,
    pending_len: usize,
    log: DiagLog<LOG>,
}

/// What the aggregator holds: the snapshot, the pending slots (free or
/// holding a command) and the log.
pub struct AggregatorView {
    pub snapshot: DiagnosticSnapshot,
    pub slots: Seq<Option<PendingCommand>>,
    pub log: DiagLogView,
}

impl<const PENDING: usize, const LOG: usize> View for RuntimeAggregator<PENDING, LOG> {
    type V = AggregatorView;

    closed spec fn view(&self) -> AggregatorView {
        AggregatorView { snapshot: self.snapshot, slots: self.pending@, log: self.log@ }
    }
}

/// How many slots hold a command.
pub open spec fn used_slots(slots: Seq<Option<PendingCommand>>) -> nat
    decreases slots.len(),
{
    if slots.len() == 0 {
        0
    } else {
        used_slots(slots.drop_last()) + if slots.last() is Some {
            1nat
        } else {
            0nat
        }
    }
}

/// Whether slot `i` holds a command with sequence number `sequence`.
pub open spec fn holds_sequence(slots: Seq<Option<PendingCommand>>, i: int, sequence: u16) -> bool {
    slots[i] matches Some(p) && p.header.sequence == sequence
}

/// The first slot holding a command with sequence number `sequence`.
pub open spec fn slot_of_sequence(slots: Seq<Option<PendingCommand>>, sequence: u16) -> Option<int> {
    if exists|i: int| 0 <= i < slots.len() && holds_sequence(slots, i, sequence) {
        Some(
            choose|i: int|
                0 <= i < slots.len() && holds_sequence(slots, i, sequence) && forall|j: int|
                    0 <= j < i ==> !holds_sequence(slots, j, sequence),
        )
    } else {
        None
    }
}

/// The first free slot.
pub open spec fn free_slot(slots: Seq<Option<PendingCommand>>) -> Option<int> {
    if exists|i: int| 0 <= i < slots.len() && slots[i] is None {
        Some(
            choose|i: int|
                0 <= i < slots.len() && slots[i] is None && forall|j: int|
                    0 <= j < i ==> slots[j] is Some,
        )
    } else {
        None
    }
}

/// The slots after removing the first command with `sequence`, and that
/// command.
pub open spec fn slots_after_cancel(slots: Seq<Option<PendingCommand>>, sequence: u16) -> (Seq<
    Option<PendingCommand>,
>, Option<PendingCommand>) {
    match slot_of_sequence(slots, sequence) {
        Some(i) => (slots.update(i, None), slots[i]),
        None => (slots, None),
    }
}

proof fn lemma_used_slots_update(s: Seq<Option<PendingCommand>>, i: int, v: Option<PendingCommand>)
    requires
        0 <= i < s.len(),
    ensures
        used_slots(s.update(i, v)) + (if s[i] is Some {
            1int
        } else {
            0int
        }) == used_slots(s) + (if v is Some {
            1int
        } else {
            0int
        }),
        used_slots(s) <= s.len(),
    decreases s.len(),
{
    lemma_used_slots_bound(s);
    if i < s.len() - 1 {
        lemma_used_slots_update(s.drop_last(), i, v);
        assert(s.update(i, v).drop_last() =~= s.drop_last().update(i, v));
    } else {
        assert(s.update(i, v).drop_last() =~= s.drop_last());
    }
}

proof fn lemma_used_slots_bound(s: Seq<Option<PendingCommand>>)
    ensures
        used_slots(s) <= s.len(),
    decreases s.len(),
{
    if s.len() > 0 {
        lemma_used_slots_bound(s.drop_last());
    }
}

proof fn lemma_first_match(slots: Seq<Option<PendingCommand>>, sequence: u16, i: int)
    requires
        0 <= i < slots.len(),
        holds_sequence(slots, i, sequence),
    ensures
        exists|k: int|
            0 <= k < slots.len() && holds_sequence(slots, k, sequence) && forall|j: int|
                0 <= j < k ==> !holds_sequence(slots, j, sequence),
    decreases i,
{
    if exists|j: int| 0 <= j < i && holds_sequence(slots, j, sequence) {
        let j = choose|j: int| 0 <= j < i && holds_sequence(slots, j, sequence);
        lemma_first_match(slots, sequence, j);
    } else {
        assert(0 <= i < slots.len() && holds_sequence(slots, i, sequence) && forall|j: int|
            0 <= j < i ==> !holds_sequence(slots, j, sequence));
    }
}

proof fn lemma_first_free(slots: Seq<Option<PendingCommand>>, i: int)
    requires
        0 <= i < slots.len(),
        slots[i] is None,
    ensures
        exists|k: int|
            0 <= k < slots.len() && slots[k] is None && forall|j: int| 0 <= j < k ==> slots[j] is Some,
    decreases i,
{
    if exists|j: int| 0 <= j < i && slots[j] is None {
        let j = choose|j: int| 0 <= j < i && slots[j] is None;
        lemma_first_free(slots, j);
    } else {
        assert(0 <= i < slots.len() && slots[i] is None && forall|j: int|
            0 <= j < i ==> slots[j] is Some);
    }
}

/// What `reserve_and_enqueue` does with `pending`: a held command with the
/// same sequence number makes it `DuplicateSequence` and no free slot makes
/// it `Full`, both changing nothing; otherwise the command takes the first
/// free slot and `enqueue` decides: it stays held when `enqueue` accepted it,
/// and is released again with `EnqueueFailed` when not. The snapshot and the
/// log are untouched.
pub open spec fn enqueue_outcome<F: FnOnce() -> bool>(
    before: AggregatorView,
    after: AggregatorView,
    pending: PendingCommand,
    enqueue: F,
    r: Result<(), ReserveError>,
) -> bool {
    &&& after.snapshot == before.snapshot
    &&& after.log == before.log
    &&& if slot_of_sequence(before.slots, pending.header.sequence) is Some {
        r == Err::<(), ReserveError>(ReserveError::DuplicateSequence) && after.slots == before.slots
    } else if free_slot(before.slots) is None {
        r == Err::<(), ReserveError>(ReserveError::Full) && after.slots == before.slots
    } else {
        let held = before.slots.update(free_slot(before.slots)->Some_0, Some(pending));
        ||| (r is Ok && after.slots == held && call_ensures(enqueue, (), true))
        ||| (r == Err::<(), ReserveError>(ReserveError::EnqueueFailed) && after.slots
            == slots_after_cancel(held, pending.header.sequence).0 && call_ensures(
            enqueue,
            (),
            false,
        ))
    }
}

impl<const PENDING: usize, const LOG: usize> RuntimeAggregator<PENDING, LOG> {
    pub closed spec fn wf(&self) -> bool {
        &&& self.pending@.len() == PENDING
        &&& self.pending_len == used_slots(self.pending@)
        &&& self.log.wf()
    }

    /// A well-formed aggregator has `PENDING` slots and a well-formed log.
    pub proof fn lemma_wf(&self)
        requires
            self.wf(),
        ensures
            self@.slots.len() == PENDING,
            used_slots(self@.slots) <= PENDING,
    {
        lemma_used_slots_bound(self@.slots);
    }

    pub fn new(snapshot: DiagnosticSnapshot) -> (r: Self)
        requires
            LOG <= isize::MAX,
        ensures
            r.wf(),
            r@.snapshot == snapshot,
            r@.slots == Seq::new(PENDING as nat, |i: int| None::<PendingCommand>),
            r@.log == (DiagLogView { records: Seq::empty(), next_sequence: 0, dropped: 0 }),
    {
        let mut pending: Vec<Option<PendingCommand>> = Vec::new();
        let mut i: usize = 0;
        while i < PENDING
            invariant
                i <= PENDING,
                pending@ == Seq::new(i as nat, |k: int| None::<PendingCommand>),
                used_slots(pending@) == 0,
            decreases PENDING - i,
        {
            pending.push(None);
            i = i + 1;
            assert(pending@.drop_last() =~= Seq::new((i - 1) as nat, |k: int| None::<PendingCommand>));
            assert(pending@ =~= Seq::new(i as nat, |k: int| None::<PendingCommand>));
        }
        Self { snapshot, pending, pending_len: 0, log: DiagLog::new() }
    }

    /// Holds `pending` in the first free slot until its completion is
    /// committed. `DuplicateSequence` when a held command has the same
    /// sequence number; `Full` when no slot is free.
    pub fn reserve(&mut self, pending: PendingCommand) -> (r: Result<(), ReserveError>)
        requires
            old(self).wf(),
        ensures
            final(self).wf(),
            final(self)@.snapshot == old(self)@.snapshot,
            final(self)@.log == old(self)@.log,
            slot_of_sequence(old(self)@.slots, pending.header.sequence) is Some ==> r == Err::<
                (),
                ReserveError,
            >(ReserveError::DuplicateSequence) && final(self)@.slots == old(self)@.slots,
            slot_of_sequence(old(self)@.slots, pending.header.sequence) is None && free_slot(
                old(self)@.slots,
            ) is Some ==> r is Ok && final(self)@.slots == old(self)@.slots.update(
                free_slot(old(self)@.slots)->Some_0,
                Some(pending),
            ),
            slot_of_sequence(old(self)@.slots, pending.header.sequence) is None && free_slot(
                old(self)@.slots,
            ) is None ==> r == Err::<(), ReserveError>(ReserveError::Full) && final(self)@.slots
                == old(self)@.slots,
    {
        let sequence = pending.header.sequence;
        if find_sequence(&self.pending, sequence).is_some() {
            return Err(ReserveError::DuplicateSequence);
        }
        let k = match find_free(&self.pending) {
            Some(k) => k,
            None => return Err(ReserveError::Full),
        };
        proof {
            lemma_used_slots_update(self.pending@, k as int, Some(pending));
            lemma_used_slots_bound(self.pending@.update(k as int, Some(pending)));
        }
        self.pending.set(k, Some(pending));
        self.pending_len = self.pending_len + 1;
        Ok(())
    }

    /// Releases the first held command with sequence number `sequence` and
    /// returns it.
    pub fn cancel(&mut self, sequence: u16) -> (r: Option<PendingCommand>)
        requires
            old(self).wf(),
        ensures
            final(self).wf(),
            final(self)@.snapshot == old(self)@.snapshot,
            final(self)@.log == old(self)@.log,
            (final(self)@.slots, r) == slots_after_cancel(old(self)@.slots, sequence),
    {
        match find_sequence(&self.pending, sequence) {
            Some(i) => {
                proof {
                    lemma_used_slots_update(self.pending@, i as int, None);
                }
                let taken = self.pending[i];
                self.pending.set(i, None);
                self.pending_len = self.pending_len - 1;
                taken
            },
            None => None,
        }
    }

    /// Reserves `pending` and then hands it on with `enqueue`; when that
    /// fails the reservation is released and `EnqueueFailed` returned.
    pub fn reserve_and_enqueue<F: FnOnce() -> bool>(&mut self, pending: PendingCommand, enqueue: F) -> (r: Result<(), ReserveError>)
        requires
            old(self).wf(),
            call_requires(enqueue, ()),
        ensures
            final(self).wf(),
            enqueue_outcome(old(self)@, final(self)@, pending, enqueue, r),
    {
        let sequence = pending.header.sequence;
        match self.reserve(pending) {
            Ok(()) => {},
            Err(e) => return Err(e),
        }
        if enqueue() {
            Ok(())
        } else {
            self.cancel(sequence);
            Err(ReserveError::EnqueueFailed)
        }
    }

    pub fn pending_len(&self) -> (r: usize)
        requires
            self.wf(),
        ensures
            r == used_slots(self@.slots),
    {
        self.pending_len
    }

    pub fn snapshot(&self) -> (r: DiagnosticSnapshot)
        ensures
            r == self@.snapshot,
    {
        self.snapshot
    }

    pub fn set_protocol_error_count(&mut self, count: u32)
        requires
            old(self).wf(),
        ensures
            final(self).wf(),
            final(self)@ == (AggregatorView {
                snapshot: DiagnosticSnapshot { protocol_error_count: count, ..old(self)@.snapshot },
                ..old(self)@
            }),
    {
        self.snapshot.protocol_error_count = count;
    }

    pub fn status_payload(&self) -> (r: StatusPayload)
        ensures
            r == snapshot_status(self@.snapshot),
    {
        self.snapshot.status_payload()
    }

    pub fn log(&self) -> (r: &DiagLog<LOG>)
        requires
            self.wf(),
        ensures
            r.wf(),
            r@ == self@.log,
    {
        &self.log
    }

    /// Clears the log and the dropped count; returns the next sequence number.
    pub fn clear_log(&mut self) -> (r: u32)
        requires
            old(self).wf(),
        ensures
            final(self).wf(),
            r == old(self)@.log.next_sequence,
            final(self)@ == (AggregatorView {
                snapshot: DiagnosticSnapshot { dropped_log_count: 0, ..old(self)@.snapshot },
                slots: old(self)@.slots,
                log: DiagLogView { records: Seq::empty(), next_sequence: r, dropped: 0 },
            }),
    {
        let next = self.log.next_sequence();
        self.log.clear();
        self.snapshot.dropped_log_count = 0;
        next
    }

    /// Records a runtime event: updates the snapshot, logs the event and, for
    /// the completion of a held command, releases it and returns it with the
    /// completion, the snapshot and the log sequence number. The dropped count
    /// in the snapshot is refreshed last.
    pub fn commit(&mut self, event: RuntimeEvent) -> (r: Option<CommittedCompletion>)
        requires
            old(self).wf(),
            LOG > 0,
            old(self)@.log.next_sequence < u32::MAX,
        ensures
            final(self).wf(),
            ({
                let tick = if event.timestamp_ms > u32::MAX {
                    u32::MAX
                } else {
                    event.timestamp_ms as u32
                };
                let log = match log_entry_of(event.kind) {
                    Some(e) => log_after_push(old(self)@.log, tick, e, LOG as nat),
                    None => old(self)@.log,
                };
                let snap = snapshot_after(old(self)@.snapshot, event.kind);
                &&& final(self)@.log == log
                &&& final(self)@.snapshot == DiagnosticSnapshot { dropped_log_count: log.dropped, ..snap }
                &&& match event.kind {
                    RuntimeEventKind::Completion(value) => match value.sequence {
                        Some(s) => {
                            let (slots, taken) = slots_after_cancel(old(self)@.slots, s);
                            &&& final(self)@.slots == slots
                            &&& r == match taken {
                                Some(pending) => Some(
                                    CommittedCompletion {
                                        pending,
                                        completion: value,
                                        snapshot: snap,
                                        log_sequence: Some(old(self)@.log.next_sequence),
                                    },
                                ),
                                None => None,
                            }
                        },
                        None => final(self)@.slots == old(self)@.slots && r is None,
                    },
                    _ => final(self)@.slots == old(self)@.slots && r is None,
                }
            }),
    {
        let tick_ms: u32 = if event.timestamp_ms > u32::MAX as u64 {
            u32::MAX
        } else {
            event.timestamp_ms as u32
        };
        self.snapshot = updated_snapshot(self.snapshot, event.kind);
        let mut log_sequence: u32 = 0;
        if let Some(e) = log_entry(event.kind) {
            log_sequence = self.log.push(tick_ms, e);
        }
        let mut completion: Option<CommittedCompletion> = None;
        if let RuntimeEventKind::Completion(value) = event.kind {
            if let Some(sequence) = value.sequence {
                if let Some(pending) = self.cancel(sequence) {
                    completion = Some(
                        CommittedCompletion {
                            pending,
                            completion: value,
                            snapshot: self.snapshot,
                            log_sequence: Some(log_sequence),
                        },
                    );
                }
            }
        }
        self.snapshot.dropped_log_count = self.log.dropped_records();
        completion
    }
}

/// The first slot holding a command with sequence number `sequence`.
fn find_sequence(slots: &Vec<Option<PendingCommand>>, sequence: u16) -> (r: Option<usize>)
    ensures
        r matches Some(i) ==> slot_of_sequence(slots@, sequence) == Some(i as int) && i < slots@.len()
            && holds_sequence(slots@, i as int, sequence),
        r is None ==> slot_of_sequence(slots@, sequence) is None,
{
    let mut i: usize = 0;
    while i < slots.len()
        invariant
            i <= slots@.len(),
            forall|j: int| 0 <= j < i ==> !holds_sequence(slots@, j, sequence),
        decreases slots@.len() - i,
    {
        if let Some(item) = slots[i] {
            if item.header.sequence == sequence {
                proof {
                    assert(holds_sequence(slots@, i as int, sequence));
                    lemma_first_match(slots@, sequence, i as int);
                    let f = slot_of_sequence(slots@, sequence)->Some_0;
                    assert(f == i as int);
                }
                return Some(i);
            }
        }
        i = i + 1;
    }
    None
}

/// The first free slot.
fn find_free(slots: &Vec<Option<PendingCommand>>) -> (r: Option<usize>)
    ensures
        r matches Some(i) ==> free_slot(slots@) == Some(i as int) && i < slots@.len()
            && slots@[i as int] is None,
        r is None ==> free_slot(slots@) is None,
{
    let mut k: usize = 0;
    while k < slots.len()
        invariant
            k <= slots@.len(),
            forall|j: int| 0 <= j < k ==> slots@[j] is Some,
        decreases slots@.len() - k,
    {
        if slots[k].is_none() {
            proof {
                lemma_first_free(slots@, k as int);
                let f = free_slot(slots@)->Some_0;
                assert(f == k as int);
            }
            return Some(k);
        }
        k = k + 1;
    }
    None
}

/// A command held by `reserve` is the one its completion releases, and the
/// release frees its slot again.
pub proof fn lemma_reserve_then_cancel(slots: Seq<Option<PendingCommand>>, pending: PendingCommand)
    requires
        slot_of_sequence(slots, pending.header.sequence) is None,
        free_slot(slots) is Some,
    ensures
        ({
            let i = free_slot(slots)->Some_0;
            slots_after_cancel(slots.update(i, Some(pending)), pending.header.sequence) == (
                slots,
                Some(pending),
            )
        }),
{
    let s = pending.header.sequence;
    let i0 = choose|i: int| 0 <= i < slots.len() && slots[i] is None;
    lemma_first_free(slots, i0);
    let i = free_slot(slots)->Some_0;
    let held = slots.update(i, Some(pending));
    assert(holds_sequence(held, i, s));
    lemma_first_match(held, s, i);
    let k = slot_of_sequence(held, s)->Some_0;
    assert forall|j: int| 0 <= j < slots.len() && j != i implies !holds_sequence(held, j, s) by {
        assert(held[j] == slots[j]);
        if holds_sequence(slots, j, s) {
            assert(exists|x: int| 0 <= x < slots.len() && holds_sequence(slots, x, s));
        }
    }
    assert(k == i);
    assert(held.update(i, None) =~= slots);
}

/// The snapshot after a runtime event, before the dropped count is refreshed.
fn updated_snapshot(snap: DiagnosticSnapshot, kind: RuntimeEventKind) -> (r: DiagnosticSnapshot)
    ensures
        r == snapshot_after(snap, kind),
{
    match kind {
        RuntimeEventKind::PanelModeChanged(mode) => DiagnosticSnapshot {
            panel_mode: panel_mode(mode),
            ..snap
        },
        RuntimeEventKind::PageDisplayed { page, .. } => DiagnosticSnapshot { current_page: page, ..snap },
        RuntimeEventKind::DisplayFailure { error, .. } => DiagnosticSnapshot {
            last_error: error_code(error),
            ..snap
        },
        RuntimeEventKind::Completion(value) => DiagnosticSnapshot {
            current_page: value.page,
            last_error: match value.error {
                Some(e) => error_code(e),
                None => snap.last_error,
            },
            ..snap
        },
        _ => snap,
    }
}

/// A display-side log entry, filed under the subsystem its number belongs to.
fn display_entry(level: u8, event: u16, arg0: i32, arg1: i32, arg2: i32) -> (r: DiagEvent)
    ensures
        r == entry(level, event, arg0, arg1, arg2),
{
    let subsystem = if event == EVT_TURN_QUEUED || event == EVT_TURN_DEQUEUED || event
        == EVT_TURN_DROPPED {
        SUB_INPUT
    } else if event == EVT_PAGE_TURN {
        SUB_NAV
    } else {
        SUB_DISPLAY
    };
    DiagEvent { level, subsystem, event, arg0, arg1, arg2 }
}

/// The log entry a runtime event is recorded with, if any.
fn log_entry(kind: RuntimeEventKind) -> (r: Option<DiagEvent>)
    ensures
        r == log_entry_of(kind),
{
    match kind {
        RuntimeEventKind::FirmwareStarted { page_count } => Some(
            DiagEvent {
                level: LEVEL_INFO,
                subsystem: SUB_SYSTEM,
                event: EVT_FIRMWARE_STARTED,
                arg0: page_count as i32,
                arg1: 0,
                arg2: 0,
            },
        ),
        RuntimeEventKind::ProtocolCommand { opcode, sequence } => Some(
            DiagEvent {
                level: LEVEL_INFO,
                subsystem: SUB_SERIAL,
                event: EVT_CMD_RECEIPT,
                arg0: opcode as i32,
                arg1: sequence as i32,
                arg2: 0,
            },
        ),
        RuntimeEventKind::PhaseChanged(phase) => Some(
            display_entry(LEVEL_INFO, EVT_REFRESH_PHASE, phase_code(phase), 0, 0),
        ),
        RuntimeEventKind::GrayDelayCancelled { page } => Some(
            display_entry(LEVEL_INFO, EVT_GRAY_DELAY_CANCELLED, page as i32, 0, 0),
        ),
        RuntimeEventKind::PanelModeChanged(mode) => Some(
            display_entry(LEVEL_INFO, EVT_PANEL_MODE, panel_mode_code(mode), 0, 0),
        ),
        RuntimeEventKind::ControllerRamStateChanged(state) => Some(
            display_entry(LEVEL_INFO, EVT_CONTROLLER_RAM_STATE, controller_code(state), 0, 0),
        ),
        RuntimeEventKind::TurnQueued { sequence, turn } => {
            let arg0: i32 = match sequence {
                Some(s) => s as i32,
                None => -1,
            };
            Some(display_entry(LEVEL_INFO, EVT_TURN_QUEUED, arg0, turn_code(turn), 0))
        },
        RuntimeEventKind::PageDisplayed { from, page } => Some(
            display_entry(LEVEL_INFO, EVT_PAGE_TURN, from as i32, page as i32, 0),
        ),
        RuntimeEventKind::GrayStarted { page } => Some(
            display_entry(LEVEL_INFO, EVT_GRAY_OVERLAY_START, page as i32, 0, 0),
        ),
        RuntimeEventKind::GrayCancelled { page } => Some(
            display_entry(LEVEL_INFO, EVT_GRAY_OVERLAY_CANCELLED, page as i32, 0, 0),
        ),
        RuntimeEventKind::GrayActivated { page } => Some(
            display_entry(LEVEL_INFO, EVT_GRAY_OVERLAY_ACTIVATE, page as i32, 0, 0),
        ),
        RuntimeEventKind::WaveformSelected { waveform_hint, lut_revision } => Some(
            display_entry(
                LEVEL_INFO,
                EVT_WAVEFORM_SELECTED,
                waveform_hint as i32,
                lut_revision as i32,
                0,
            ),
        ),
        RuntimeEventKind::GrayCompleted { page } => Some(
            display_entry(LEVEL_INFO, EVT_GRAY_OVERLAY_COMPLETE, page as i32, 0, 0),
        ),
        RuntimeEventKind::BaseSyncStarted { page } => Some(
            display_entry(LEVEL_INFO, EVT_BW_BASE_SYNC_START, page as i32, 0, 0),
        ),
        RuntimeEventKind::BaseSyncCancelled { page } => Some(
            display_entry(LEVEL_INFO, EVT_BW_BASE_SYNC_CANCELLED, page as i32, 0, -1),
        ),
        RuntimeEventKind::BaseSyncCompleted { page } => Some(
            display_entry(LEVEL_INFO, EVT_BW_BASE_SYNC_COMPLETE, page as i32, 0, 0),
        ),
        RuntimeEventKind::RecoveryStarted { page } => Some(
            display_entry(LEVEL_INFO, EVT_DISPLAY_RECOVERY, page as i32, 0, 0),
        ),
        RuntimeEventKind::RecoveryCompleted { page } => Some(
            display_entry(LEVEL_INFO, EVT_DISPLAY_RECOVERY, page as i32, 1, 0),
        ),
        RuntimeEventKind::ProbeStarted { sequence, kind } => Some(
            display_entry(LEVEL_INFO, EVT_RENDER_START, sequence as i32, probe_code(kind), 0),
        ),
        RuntimeEventKind::ProbeCompleted { sequence, kind } => Some(
            display_entry(LEVEL_INFO, EVT_RENDER_SUCCESS, sequence as i32, probe_code(kind), 0),
        ),
        RuntimeEventKind::TurnDropped { turn } => Some(
            display_entry(LEVEL_ERROR, EVT_TURN_DROPPED, turn_code(turn), 0, 0),
        ),
        RuntimeEventKind::DisplayFailure { error, page } => Some(
            display_entry(LEVEL_ERROR, EVT_DISPLAY_ERROR, error_code(error), page as i32, 0),
        ),
        RuntimeEventKind::Completion(value) => {
            let arg0: i32 = match value.sequence {
                Some(s) => s as i32,
                None => -1,
            };
            if value.status == RuntimeCompletionStatus::Success {
                Some(display_entry(LEVEL_INFO, EVT_TURN_DEQUEUED, arg0, value.page as i32, 0))
            } else {
                Some(display_entry(LEVEL_ERROR, EVT_RENDER_FAILURE, arg0, value.page as i32, 0))
            }
        },
        _ => None,
    }
}

} // verus!
