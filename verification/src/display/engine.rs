//! Display state: the committed page, the refresh phase, the panel mode and
//! what the controller RAM holds.

use vstd::prelude::*;
use crate::display::error::{DisplayError, DisplayResult};
use crate::display::events::{
    CompletionStatus, DisplayCompletion, DisplayEvent, DisplayEventKind, DisplayPhase,
    DisplayRequest, OperationOutcome, PageTurn, PanelMode, GRAY_SETTLE_DELAY_MS,
};
use crate::display::probes::ProbeKind;

verus! {

#[derive(Debug, Clone, Copy, PartialEq, Eq, Structural)]
pub enum ControllerRamState {
    BwBaseReady,
    GrayOverlayResident,
    BaseSyncInProgress,
    NeedsFullBwInputs,
}

/// Model of the display engine.
pub struct EngineModel {
    pub page_count: u32,
    pub current_page: u32,
    pub phase: DisplayPhase,
    pub panel_mode: PanelMode,
    pub controller_state: ControllerRamState,
    pub gray_deadline: Option<u64>,
    pub recovery_attempted: bool,
}

pub struct DisplayEngine {
    page_count: u32,
    current_page: u32,
    phase: DisplayPhase,
    panel_mode: PanelMode,
    controller_state: ControllerRamState,
    gray_deadline: Option<u64>,
    recovery_attempted: bool,
}

impl View for DisplayEngine {
    type V = EngineModel;

    closed spec fn view(&self) -> EngineModel {
        EngineModel {
            page_count: self.page_count,
            current_page: self.current_page,
            phase: self.phase,
            panel_mode: self.panel_mode,
            controller_state: self.controller_state,
            gray_deadline: self.gray_deadline,
            recovery_attempted: self.recovery_attempted,
        }
    }
}

/// The page a turn leads to from `current` in a book of `count` pages.
pub open spec fn turn_target(current: u32, count: u32, turn: PageTurn) -> u32 {
    if count == 0 {
        0
    } else {
        match turn {
            PageTurn::Next => if current < count - 1 {
                (current + 1) as u32
            } else {
                (count - 1) as u32
            },
            PageTurn::Previous => if current == 0 {
                0
            } else {
                (current - 1) as u32
            },
            PageTurn::First => 0,
            PageTurn::Last => (count - 1) as u32,
        }
    }
}

pub fn apply_page_turn(current: u32, count: u32, turn: PageTurn) -> (r: u32)
    ensures
        r == turn_target(current, count, turn),
{
    if count == 0 {
        return 0;
    }
    match turn {
        PageTurn::Next => if current < count - 1 {
            current + 1
        } else {
            count - 1
        },
        PageTurn::Previous => current.saturating_sub(1),
        PageTurn::First => 0,
        PageTurn::Last => count - 1,
    }
}

impl DisplayEngine {
    /// A display that must first recover the panel; page 0 is current.
    pub fn new(page_count: u32) -> (r: Self)
        ensures
            r@ == (EngineModel {
                page_count,
                current_page: 0,
                phase: DisplayPhase::Recovering,
                panel_mode: PanelMode::Unknown,
                controller_state: ControllerRamState::NeedsFullBwInputs,
                gray_deadline: None,
                recovery_attempted: false,
            }),
    {
        Self {
            page_count,
            current_page: 0,
            phase: DisplayPhase::Recovering,
            panel_mode: PanelMode::Unknown,
            controller_state: ControllerRamState::NeedsFullBwInputs,
            gray_deadline: None,
            recovery_attempted: false,
        }
    }

    pub fn current_page(&self) -> (r: u32)
        ensures
            r == self@.current_page,
    {
        self.current_page
    }

    pub fn phase(&self) -> (r: DisplayPhase)
        ensures
            r == self@.phase,
    {
        self.phase
    }

    pub fn panel_mode(&self) -> (r: PanelMode)
        ensures
            r == self@.panel_mode,
    {
        self.panel_mode
    }

    pub fn controller_state(&self) -> (r: ControllerRamState)
        ensures
            r == self@.controller_state,
    {
        self.controller_state
    }

    pub fn faulted(&self) -> (r: bool)
        ensures
            r == (self@.phase == DisplayPhase::Fault),
    {
        match self.phase {
            DisplayPhase::Fault => true,
            _ => false,
        }
    }

    /// A failure has been recovered from once and the display is not faulted.
    pub fn recovery_required(&self) -> (r: bool)
        ensures
            r == (self@.recovery_attempted && self@.phase != DisplayPhase::Fault),
    {
        self.recovery_attempted && !self.faulted()
    }

    /// The page a turn leads to from the committed page.
    pub fn target_for(&self, turn: PageTurn) -> (r: u32)
        ensures
            r == turn_target(self@.current_page, self@.page_count, turn),
    {
        apply_page_turn(self.current_page, self.page_count, turn)
    }

    /// Commits a displayed page; a page outside the book is refused and nothing changes.
    pub fn commit_page(&mut self, page: u32) -> (r: DisplayResult<()>)
        ensures
            page >= old(self)@.page_count ==> r == Err::<(), DisplayError>(
                DisplayError::InvalidPage,
            ) && final(self)@ == old(self)@,
            page < old(self)@.page_count ==> r is Ok && final(self)@ == (EngineModel {
                current_page: page,
                phase: DisplayPhase::BwReady,
                controller_state: ControllerRamState::BwBaseReady,
                ..old(self)@
            }),
    {
        if page >= self.page_count {
            return Err(DisplayError::InvalidPage);
        }
        self.current_page = page;
        self.phase = DisplayPhase::BwReady;
        self.controller_state = ControllerRamState::BwBaseReady;
        Ok(())
    }

    pub fn begin_overlay(&mut self)
        ensures
            final(self)@ == (EngineModel {
                phase: DisplayPhase::GrayRefreshing,
                controller_state: ControllerRamState::GrayOverlayResident,
                ..old(self)@
            }),
    {
        self.phase = DisplayPhase::GrayRefreshing;
        self.controller_state = ControllerRamState::GrayOverlayResident;
    }

    /// A cancelled overlay leaves the controller RAM unusable as a base.
    pub fn cancel_overlay(&mut self)
        ensures
            final(self)@ == (EngineModel {
                phase: DisplayPhase::BwReady,
                controller_state: ControllerRamState::NeedsFullBwInputs,
                ..old(self)@
            }),
    {
        self.phase = DisplayPhase::BwReady;
        self.controller_state = ControllerRamState::NeedsFullBwInputs;
    }

    pub fn begin_base_sync(&mut self)
        ensures
            final(self)@ == (EngineModel {
                phase: DisplayPhase::BaseSync,
                controller_state: ControllerRamState::BaseSyncInProgress,
                ..old(self)@
            }),
    {
        self.phase = DisplayPhase::BaseSync;
        self.controller_state = ControllerRamState::BaseSyncInProgress;
    }

    /// A cancelled base sync leaves the controller RAM unusable as a base.
    pub fn cancel_base_sync(&mut self)
        ensures
            final(self)@ == (EngineModel {
                phase: DisplayPhase::BwReady,
                controller_state: ControllerRamState::NeedsFullBwInputs,
                ..old(self)@
            }),
    {
        self.phase = DisplayPhase::BwReady;
        self.controller_state = ControllerRamState::NeedsFullBwInputs;
    }

    /// The first failure starts a recovery; a failure after that faults the
    /// display. The committed page stays.
    pub fn record_failure(&mut self)
        ensures
            final(self)@ == (EngineModel {
                controller_state: ControllerRamState::NeedsFullBwInputs,
                phase: if old(self)@.recovery_attempted {
                    DisplayPhase::Fault
                } else {
                    DisplayPhase::Recovering
                },
                recovery_attempted: true,
                ..old(self)@
            }),
    {
        self.controller_state = ControllerRamState::NeedsFullBwInputs;
        if self.recovery_attempted {
            self.phase = DisplayPhase::Fault;
        } else {
            self.recovery_attempted = true;
            self.phase = DisplayPhase::Recovering;
        }
    }
}

/// Two failures without a committed page in between fault the display.
pub proof fn lemma_second_failure_faults(m: EngineModel)
    requires
        !m.recovery_attempted,
    ensures
        ({
            let once = EngineModel {
                controller_state: ControllerRamState::NeedsFullBwInputs,
                phase: DisplayPhase::Recovering,
                recovery_attempted: true,
                ..m
            };
            let twice = EngineModel {
                controller_state: ControllerRamState::NeedsFullBwInputs,
                phase: DisplayPhase::Fault,
                recovery_attempted: true,
                ..once
            };
            once.current_page == m.current_page && twice.current_page == m.current_page
        }),
{
}


// ---------------------------------------------------------------------------
// Request flows
// ---------------------------------------------------------------------------

// The display's request flows as steps: each step updates the engine,
// reports events, and names the panel work to do next; the caller does that
// work and hands its outcome to the matching `*_end` step.
//
// A page turn renders the new page in black and white; the gray overlay
// follows after `GRAY_SETTLE_DELAY_MS`, then the black-and-white base is
// synchronised again. A failed operation is recovered once (reinitialise and
// redraw the page); a failure after that faults the display.


/// The panel work a step asks for, or the end of the flow.
#[derive(Debug, Clone, Copy, PartialEq, Eq, Structural)]
pub enum EngineStep {
    /// The flow is over, with its completion if it reports one.
    Done(Option<DisplayCompletion>),
    /// Render `target` in black and white over `from`; then `navigate_end`.
    RenderBw { from: u32, target: u32, sequence: Option<u16> },
    /// Reinitialise the panel in black and white and redraw `page`; then
    /// `recover_end`.
    Recover { page: u32, sequence: Option<u16> },
    /// Run a probe (after a grayscale initialisation when asked); then
    /// `probe_end`.
    Probe { kind: ProbeKind, sequence: u16, init_grayscale: bool },
    /// Render the gray overlay of `page`; then `overlay_end`.
    RenderGrayscale { page: u32, epoch: u32 },
    /// Synchronise the black-and-white base of `page`; then `base_sync_end`.
    SyncBase { page: u32, epoch: u32 },
}

/// The engine together with the events reported so far.
pub struct Trace {
    pub m: EngineModel,
    pub events: Seq<DisplayEvent>,
}

pub open spec fn emit_t(t: Trace, now: u64, kind: DisplayEventKind) -> Trace {
    Trace { events: t.events.push(DisplayEvent { timestamp_ms: now, kind }), ..t }
}

pub open spec fn phase_t(t: Trace, phase: DisplayPhase, now: u64) -> Trace {
    emit_t(
        Trace { m: EngineModel { phase, ..t.m }, ..t },
        now,
        DisplayEventKind::PhaseChanged(phase),
    )
}

pub open spec fn mode_t(t: Trace, mode: PanelMode, now: u64) -> Trace {
    if t.m.panel_mode != mode {
        emit_t(
            Trace { m: EngineModel { panel_mode: mode, ..t.m }, ..t },
            now,
            DisplayEventKind::PanelModeChanged(mode),
        )
    } else {
        t
    }
}

pub open spec fn controller_t(t: Trace, state: ControllerRamState, now: u64) -> Trace {
    if t.m.controller_state != state {
        emit_t(
            Trace { m: EngineModel { controller_state: state, ..t.m }, ..t },
            now,
            DisplayEventKind::ControllerStateChanged(state),
        )
    } else {
        t
    }
}

/// The completion the engine reports for the current page.
pub open spec fn completion_of(
    t: Trace,
    sequence: Option<u16>,
    status: CompletionStatus,
    error: Option<DisplayError>,
) -> DisplayCompletion {
    DisplayCompletion { sequence, status, page: t.m.current_page, error }
}

pub open spec fn complete_t(
    t: Trace,
    sequence: Option<u16>,
    status: CompletionStatus,
    error: Option<DisplayError>,
    now: u64,
) -> Trace {
    emit_t(t, now, DisplayEventKind::Completion(completion_of(t, sequence, status, error)))
}

/// A failure that faults the display.
pub open spec fn fail_t(t: Trace, error: DisplayError, page: u32, now: u64) -> Trace {
    let t1 = emit_t(t, now, DisplayEventKind::Failure { page, error });
    let t2 = Trace { m: EngineModel { recovery_attempted: true, ..t1.m }, ..t1 };
    phase_t(controller_t(t2, ControllerRamState::NeedsFullBwInputs, now), DisplayPhase::Fault, now)
}

/// A page is shown in black and white: it becomes current and the gray
/// overlay is due after the settle delay.
pub open spec fn shown_bw_t(t: Trace, page: u32, from: u32, completed: u64) -> Trace {
    let t1 = Trace {
        m: EngineModel { current_page: page, recovery_attempted: false, ..t.m },
        ..t
    };
    let t2 = controller_t(
        mode_t(t1, PanelMode::Bw, completed),
        ControllerRamState::BwBaseReady,
        completed,
    );
    let t3 = Trace {
        m: EngineModel { gray_deadline: Some((completed + GRAY_SETTLE_DELAY_MS) as u64), ..t2.m },
        ..t2
    };
    phase_t(
        emit_t(t3, completed, DisplayEventKind::PageDisplayed { from, page }),
        DisplayPhase::GrayDelay,
        completed,
    )
}

/// The start of a recovery after `error`: the failure is reported; a second
/// failure faults the display, else the panel is to be recovered.
pub open spec fn recover_begin_spec(
    t: Trace,
    page: u32,
    sequence: Option<u16>,
    error: DisplayError,
    now: u64,
) -> (Trace, EngineStep) {
    let t1 = emit_t(t, now, DisplayEventKind::Failure { page, error });
    if t1.m.recovery_attempted {
        let t2 = phase_t(t1, DisplayPhase::Fault, now);
        (
            complete_t(t2, sequence, CompletionStatus::Error, Some(error), now),
            EngineStep::Done(
                Some(completion_of(t2, sequence, CompletionStatus::Error, Some(error))),
            ),
        )
    } else {
        let t2 = Trace { m: EngineModel { recovery_attempted: true, ..t1.m }, ..t1 };
        (
            emit_t(
                phase_t(t2, DisplayPhase::Recovering, now),
                now,
                DisplayEventKind::RecoveryStarted { page },
            ),
            EngineStep::Recover { page, sequence },
        )
    }
}

/// The start of a move to `target`: pages outside the book fail; a pending
/// gray overlay is cancelled; a move to the current page completes at once
/// (reporting a turn that hit the book's edge); else the black-and-white
/// render is to run.
pub open spec fn navigate_begin_spec(
    t: Trace,
    target: u32,
    sequence: Option<u16>,
    boundary: Option<PageTurn>,
    now: u64,
) -> (Trace, EngineStep) {
    let from = t.m.current_page;
    if target >= t.m.page_count {
        (
            complete_t(t, sequence, CompletionStatus::Error, Some(DisplayError::InvalidPage), now),
            EngineStep::Done(
                Some(
                    completion_of(
                        t,
                        sequence,
                        CompletionStatus::Error,
                        Some(DisplayError::InvalidPage),
                    ),
                ),
            ),
        )
    } else {
        let t1 = if t.m.phase == DisplayPhase::GrayDelay {
            emit_t(
                Trace { m: EngineModel { gray_deadline: None, ..t.m }, ..t },
                now,
                DisplayEventKind::GrayDelayCancelled { page: from },
            )
        } else {
            t
        };
        if target == from {
            let t2 = match boundary {
                Some(turn) => emit_t(
                    t1,
                    now,
                    DisplayEventKind::TurnBoundaryNoop { sequence, page: from, turn },
                ),
                None => t1,
            };
            (
                complete_t(t2, sequence, CompletionStatus::Success, None, now),
                EngineStep::Done(Some(completion_of(t2, sequence, CompletionStatus::Success, None))),
            )
        } else {
            let t2 = emit_t(t1, now, DisplayEventKind::TurnStarted { sequence, from, target });
            (
                phase_t(t2, DisplayPhase::BwRefreshing, now),
                EngineStep::RenderBw { from, target, sequence },
            )
        }
    }
}

/// The sequence number a request carries.
pub open spec fn request_sequence_of(request: DisplayRequest) -> Option<u16> {
    match request {
        DisplayRequest::Turn { sequence, .. } => sequence,
        DisplayRequest::Goto { sequence, .. } => Some(sequence),
        DisplayRequest::Probe { sequence, .. } => Some(sequence),
    }
}

pub fn sequence(request: DisplayRequest) -> (r: Option<u16>)
    ensures
        r == request_sequence_of(request),
{
    match request {
        DisplayRequest::Turn { sequence, .. } => sequence,
        DisplayRequest::Goto { sequence, .. } => Some(sequence),
        DisplayRequest::Probe { sequence, .. } => Some(sequence),
    }
}

/// The start of a request: a faulted display refuses it; a probe is
/// reported and to be run; a turn or a goto moves to its target.
pub open spec fn request_begin_spec(t: Trace, request: DisplayRequest, now: u64) -> (Trace, EngineStep) {
    if t.m.phase == DisplayPhase::Fault {
        let seq = request_sequence_of(request);
        (
            complete_t(t, seq, CompletionStatus::Error, Some(DisplayError::InvalidState), now),
            EngineStep::Done(
                Some(completion_of(t, seq, CompletionStatus::Error, Some(DisplayError::InvalidState))),
            ),
        )
    } else {
        match request {
            DisplayRequest::Probe { kind, sequence } => (
                emit_t(t, now, DisplayEventKind::ProbeStarted { sequence, kind }),
                EngineStep::Probe {
                    kind,
                    sequence,
                    init_grayscale: kind == ProbeKind::FullRefreshCurrent,
                },
            ),
            DisplayRequest::Turn { turn, sequence } => navigate_begin_spec(
                t,
                turn_target(t.m.current_page, t.m.page_count, turn),
                sequence,
                Some(turn),
                now,
            ),
            DisplayRequest::Goto { page, sequence } => navigate_begin_spec(
                t,
                page,
                Some(sequence),
                None,
                now,
            ),
        }
    }
}

/// The end of the black-and-white render of `target`.
pub open spec fn navigate_end_spec(
    t: Trace,
    target: u32,
    sequence: Option<u16>,
    result: DisplayResult<()>,
    completed: u64,
    now: u64,
) -> (Trace, EngineStep) {
    match result {
        Ok(()) => {
            let t1 = shown_bw_t(t, target, t.m.current_page, completed);
            (
                complete_t(t1, sequence, CompletionStatus::Success, None, completed),
                EngineStep::Done(Some(completion_of(t1, sequence, CompletionStatus::Success, None))),
            )
        },
        Err(error) => recover_begin_spec(t, target, sequence, error, now),
    }
}

/// The end of a recovery of `page`: on success the page is current in black
/// and white; on failure the display faults.
pub open spec fn recover_end_spec(
    t: Trace,
    page: u32,
    sequence: Option<u16>,
    result: DisplayResult<()>,
    now: u64,
) -> (Trace, DisplayCompletion) {
    match result {
        Ok(()) => {
            let from = t.m.current_page;
            let t1 = Trace { m: EngineModel { current_page: page, ..t.m }, ..t };
            let t2 = emit_t(
                controller_t(mode_t(t1, PanelMode::Bw, now), ControllerRamState::BwBaseReady, now),
                now,
                DisplayEventKind::RecoveryCompleted { page },
            );
            let t3 = if from != page {
                emit_t(t2, now, DisplayEventKind::PageDisplayed { from, page })
            } else {
                t2
            };
            let t4 = phase_t(t3, DisplayPhase::BwReady, now);
            (
                complete_t(t4, sequence, CompletionStatus::Success, None, now),
                completion_of(t4, sequence, CompletionStatus::Success, None),
            )
        },
        Err(error) => {
            let t1 = fail_t(t, error, page, now);
            (
                complete_t(t1, sequence, CompletionStatus::Error, Some(error), now),
                completion_of(t1, sequence, CompletionStatus::Error, Some(error)),
            )
        },
    }
}

/// The end of a probe: the controller RAM must be rewritten afterwards; a
/// failed probe faults the display.
pub open spec fn probe_end_spec(
    t: Trace,
    kind: ProbeKind,
    sequence: u16,
    result: DisplayResult<()>,
    now: u64,
) -> (Trace, DisplayCompletion) {
    let t1 = controller_t(t, ControllerRamState::NeedsFullBwInputs, now);
    match result {
        Ok(()) => {
            let t2 = emit_t(t1, now, DisplayEventKind::ProbeCompleted { sequence, kind });
            (
                complete_t(t2, Some(sequence), CompletionStatus::Success, None, now),
                completion_of(t2, Some(sequence), CompletionStatus::Success, None),
            )
        },
        Err(error) => {
            let t2 = fail_t(t1, error, t1.m.current_page, now);
            (
                complete_t(t2, Some(sequence), CompletionStatus::Error, Some(error), now),
                completion_of(t2, Some(sequence), CompletionStatus::Error, Some(error)),
            )
        },
    }
}

/// Whether the gray overlay is due at `now`.
pub open spec fn overlay_due(m: EngineModel, now: u64) -> bool {
    m.phase == DisplayPhase::GrayDelay && now >= match m.gray_deadline {
        Some(d) => d,
        None => u64::MAX,
    }
}

/// The start of the base synchronisation after a completed overlay; skipped
/// when a newer request arrived meanwhile (`current_epoch` moved on).
pub open spec fn base_sync_begin_spec(
    t: Trace,
    page: u32,
    epoch: u32,
    current_epoch: u32,
    now: u64,
) -> (Trace, EngineStep) {
    let t1 = phase_t(
        emit_t(
            controller_t(
                mode_t(t, PanelMode::Grayscale, now),
                ControllerRamState::GrayOverlayResident,
                now,
            ),
            now,
            DisplayEventKind::GrayCompleted { page },
        ),
        DisplayPhase::BaseSync,
        now,
    );
    if current_epoch != epoch {
        (
            phase_t(
                controller_t(t1, ControllerRamState::NeedsFullBwInputs, now),
                DisplayPhase::BwReady,
                now,
            ),
            EngineStep::Done(None),
        )
    } else {
        (
            controller_t(
                emit_t(t1, now, DisplayEventKind::BaseSyncStarted { page }),
                ControllerRamState::BaseSyncInProgress,
                now,
            ),
            EngineStep::SyncBase { page, epoch },
        )
    }
}

/// The end of the gray overlay of `page`.
pub open spec fn overlay_end_spec(
    t: Trace,
    page: u32,
    epoch: u32,
    result: DisplayResult<OperationOutcome>,
    current_epoch: u32,
    now: u64,
) -> (Trace, EngineStep) {
    match result {
        Ok(OperationOutcome::Cancelled) => (
            phase_t(
                emit_t(
                    controller_t(t, ControllerRamState::NeedsFullBwInputs, now),
                    now,
                    DisplayEventKind::GrayCancelled { page },
                ),
                DisplayPhase::BwReady,
                now,
            ),
            EngineStep::Done(None),
        ),
        Ok(OperationOutcome::Completed) => base_sync_begin_spec(t, page, epoch, current_epoch, now),
        Err(error) => recover_begin_spec(t, page, None, error, now),
    }
}

/// The end of the base synchronisation of `page`.
pub open spec fn base_sync_end_spec(
    t: Trace,
    page: u32,
    result: DisplayResult<OperationOutcome>,
    now: u64,
) -> (Trace, EngineStep) {
    match result {
        Ok(OperationOutcome::Completed) => (
            phase_t(
                emit_t(
                    controller_t(t, ControllerRamState::BwBaseReady, now),
                    now,
                    DisplayEventKind::BaseSyncCompleted { page },
                ),
                DisplayPhase::BwReady,
                now,
            ),
            EngineStep::Done(None),
        ),
        Ok(OperationOutcome::Cancelled) => (
            phase_t(
                emit_t(
                    controller_t(t, ControllerRamState::NeedsFullBwInputs, now),
                    now,
                    DisplayEventKind::BaseSyncCancelled { page },
                ),
                DisplayPhase::BwReady,
                now,
            ),
            EngineStep::Done(None),
        ),
        Err(error) => recover_begin_spec(t, page, None, error, now),
    }
}

/// The end of the start-up recovery of page 0.
pub open spec fn initialize_end_spec(t: Trace, result: DisplayResult<()>, completed: u64) -> (
    Trace,
    Option<DisplayCompletion>,
) {
    match result {
        Ok(()) => {
            let t1 = Trace { m: EngineModel { current_page: 0, ..t.m }, ..t };
            let t2 = controller_t(
                mode_t(t1, PanelMode::Bw, completed),
                ControllerRamState::BwBaseReady,
                completed,
            );
            let t3 = Trace {
                m: EngineModel {
                    gray_deadline: Some((completed + GRAY_SETTLE_DELAY_MS) as u64),
                    ..t2.m
                },
                ..t2
            };
            (
                phase_t(
                    emit_t(t3, completed, DisplayEventKind::RecoveryCompleted { page: 0 }),
                    DisplayPhase::GrayDelay,
                    completed,
                ),
                None,
            )
        },
        Err(error) => {
            let t1 = fail_t(t, error, 0, completed);
            (
                complete_t(t1, None, CompletionStatus::Error, Some(error), completed),
                Some(completion_of(t1, None, CompletionStatus::Error, Some(error))),
            )
        },
    }
}

/// Reports an event at `now`.
pub fn emit(events: &mut Vec<DisplayEvent>, now: u64, kind: DisplayEventKind)
    ensures
        final(events)@ == old(events)@.push(DisplayEvent { timestamp_ms: now, kind }),
{
    events.push(DisplayEvent { timestamp_ms: now, kind });
}

impl DisplayEngine {
    /// The engine and the events, as a trace.
    pub open spec fn trace(&self, events: Seq<DisplayEvent>) -> Trace {
        Trace { m: self@, events }
    }

    /// Reports the completion of a request for the current page.
    pub fn complete(
        &self,
        sequence: Option<u16>,
        status: CompletionStatus,
        error: Option<DisplayError>,
        events: &mut Vec<DisplayEvent>,
        now: u64,
    ) -> (r: DisplayCompletion)
        ensures
            r == completion_of(self.trace(old(events)@), sequence, status, error),
            final(events)@ == complete_t(self.trace(old(events)@), sequence, status, error, now).events,
    {
        let completion = DisplayCompletion { sequence, status, page: self.current_page(), error };
        emit(events, now, DisplayEventKind::Completion(completion));
        completion
    }

    pub fn set_phase(&mut self, phase: DisplayPhase, events: &mut Vec<DisplayEvent>, now: u64)
        ensures
            final(self).trace(final(events)@) == phase_t(old(self).trace(old(events)@), phase, now),
    {
        self.phase = phase;
        emit(events, now, DisplayEventKind::PhaseChanged(phase));
    }

    pub fn set_mode(&mut self, mode: PanelMode, events: &mut Vec<DisplayEvent>, now: u64)
        ensures
            final(self).trace(final(events)@) == mode_t(old(self).trace(old(events)@), mode, now),
    {
        if self.panel_mode() != mode {
            self.panel_mode = mode;
            emit(events, now, DisplayEventKind::PanelModeChanged(mode));
        }
    }

    pub fn set_controller(
        &mut self,
        state: ControllerRamState,
        events: &mut Vec<DisplayEvent>,
        now: u64,
    )
        ensures
            final(self).trace(final(events)@) == controller_t(
                old(self).trace(old(events)@),
                state,
                now,
            ),
    {
        if self.controller_state() != state {
            self.controller_state = state;
            emit(events, now, DisplayEventKind::ControllerStateChanged(state));
        }
    }

    /// Reports `error` for `page` and faults the display.
    pub fn fail(
        &mut self,
        sequence: Option<u16>,
        error: DisplayError,
        page: u32,
        events: &mut Vec<DisplayEvent>,
        now: u64,
    ) -> (r: DisplayCompletion)
        ensures
            ({
                let t1 = fail_t(old(self).trace(old(events)@), error, page, now);
                &&& r == completion_of(t1, sequence, CompletionStatus::Error, Some(error))
                &&& final(self).trace(final(events)@) == complete_t(
                    t1,
                    sequence,
                    CompletionStatus::Error,
                    Some(error),
                    now,
                )
            }),
    {
        emit(events, now, DisplayEventKind::Failure { page, error });
        self.recovery_attempted = true;
        self.set_controller(ControllerRamState::NeedsFullBwInputs, events, now);
        self.set_phase(DisplayPhase::Fault, events, now);
        self.complete(sequence, CompletionStatus::Error, Some(error), events, now)
    }

    /// Starts the start-up recovery; the caller then initialises the panel in
    /// black and white, redraws page 0 and calls `initialize_end`.
    pub fn initialize_begin(&mut self, events: &mut Vec<DisplayEvent>, now: u64)
        ensures
            final(self).trace(final(events)@) == emit_t(
                phase_t(old(self).trace(old(events)@), DisplayPhase::Recovering, now),
                now,
                DisplayEventKind::RecoveryStarted { page: 0 },
            ),
    {
        self.set_phase(DisplayPhase::Recovering, events, now);
        emit(events, now, DisplayEventKind::RecoveryStarted { page: 0 });
    }

    /// Ends the start-up recovery, finished at `completed`.
    pub fn initialize_end(
        &mut self,
        result: DisplayResult<()>,
        completed: u64,
        events: &mut Vec<DisplayEvent>,
    ) -> (r: Option<DisplayCompletion>)
        requires
            result is Ok ==> completed + GRAY_SETTLE_DELAY_MS <= u64::MAX,
        ensures
            (final(self).trace(final(events)@), r) == initialize_end_spec(
                old(self).trace(old(events)@),
                result,
                completed,
            ),
    {
        match result {
            Ok(()) => {
                self.current_page = 0;
                self.set_mode(PanelMode::Bw, events, completed);
                self.set_controller(ControllerRamState::BwBaseReady, events, completed);
                self.gray_deadline = Some(completed + GRAY_SETTLE_DELAY_MS);
                emit(events, completed, DisplayEventKind::RecoveryCompleted { page: 0 });
                self.set_phase(DisplayPhase::GrayDelay, events, completed);
                None
            },
            Err(error) => Some(self.fail(None, error, 0, events, completed)),
        }
    }

    /// Starts a request.
    pub fn request_begin(
        &mut self,
        request: DisplayRequest,
        events: &mut Vec<DisplayEvent>,
        now: u64,
    ) -> (r: EngineStep)
        ensures
            (final(self).trace(final(events)@), r) == request_begin_spec(
                old(self).trace(old(events)@),
                request,
                now,
            ),
    {
        if self.faulted() {
            let c = self.complete(
                sequence(request),
                CompletionStatus::Error,
                Some(DisplayError::InvalidState),
                events,
                now,
            );
            return EngineStep::Done(Some(c));
        }
        match request {
            DisplayRequest::Probe { kind, sequence } => {
                emit(events, now, DisplayEventKind::ProbeStarted { sequence, kind });
                let init_grayscale = match kind {
                    ProbeKind::FullRefreshCurrent => true,
                    _ => false,
                };
                EngineStep::Probe { kind, sequence, init_grayscale }
            },
            DisplayRequest::Turn { turn, sequence } => {
                let target = self.target_for(turn);
                self.navigate_begin(target, sequence, Some(turn), events, now)
            },
            DisplayRequest::Goto { page, sequence } => {
                self.navigate_begin(page, Some(sequence), None, events, now)
            },
        }
    }

    /// Starts a move to `target`.
    pub fn navigate_begin(
        &mut self,
        target: u32,
        sequence: Option<u16>,
        boundary: Option<PageTurn>,
        events: &mut Vec<DisplayEvent>,
        now: u64,
    ) -> (r: EngineStep)
        ensures
            (final(self).trace(final(events)@), r) == navigate_begin_spec(
                old(self).trace(old(events)@),
                target,
                sequence,
                boundary,
                now,
            ),
    {
        let from = self.current_page();
        if target >= self.page_count {
            let c = self.complete(
                sequence,
                CompletionStatus::Error,
                Some(DisplayError::InvalidPage),
                events,
                now,
            );
            return EngineStep::Done(Some(c));
        }
        if self.phase() == DisplayPhase::GrayDelay {
            self.gray_deadline = None;
            emit(events, now, DisplayEventKind::GrayDelayCancelled { page: from });
        }
        if target == from {
            if let Some(turn) = boundary {
                emit(events, now, DisplayEventKind::TurnBoundaryNoop { sequence, page: from, turn });
            }
            let c = self.complete(sequence, CompletionStatus::Success, None, events, now);
            return EngineStep::Done(Some(c));
        }
        emit(events, now, DisplayEventKind::TurnStarted { sequence, from, target });
        self.set_phase(DisplayPhase::BwRefreshing, events, now);
        EngineStep::RenderBw { from, target, sequence }
    }

    /// Ends the black-and-white render of `target`, finished at `completed`.
    pub fn navigate_end(
        &mut self,
        target: u32,
        sequence: Option<u16>,
        result: DisplayResult<()>,
        completed: u64,
        events: &mut Vec<DisplayEvent>,
        now: u64,
    ) -> (r: EngineStep)
        requires
            result is Ok ==> completed + GRAY_SETTLE_DELAY_MS <= u64::MAX,
        ensures
            (final(self).trace(final(events)@), r) == navigate_end_spec(
                old(self).trace(old(events)@),
                target,
                sequence,
                result,
                completed,
                now,
            ),
    {
        match result {
            Ok(()) => {
                let from = self.current_page();
                self.current_page = target;
                self.recovery_attempted = false;
                self.set_mode(PanelMode::Bw, events, completed);
                self.set_controller(ControllerRamState::BwBaseReady, events, completed);
                self.gray_deadline = Some(completed + GRAY_SETTLE_DELAY_MS);
                emit(events, completed, DisplayEventKind::PageDisplayed { from, page: target });
                self.set_phase(DisplayPhase::GrayDelay, events, completed);
                let c = self.complete(sequence, CompletionStatus::Success, None, events, completed);
                EngineStep::Done(Some(c))
            },
            Err(error) => self.recover_begin(target, sequence, error, events, now),
        }
    }

    /// Starts a recovery after `error`.
    pub fn recover_begin(
        &mut self,
        page: u32,
        sequence: Option<u16>,
        error: DisplayError,
        events: &mut Vec<DisplayEvent>,
        now: u64,
    ) -> (r: EngineStep)
        ensures
            (final(self).trace(final(events)@), r) == recover_begin_spec(
                old(self).trace(old(events)@),
                page,
                sequence,
                error,
                now,
            ),
    {
        emit(events, now, DisplayEventKind::Failure { page, error });
        if self.recovery_attempted {
            self.set_phase(DisplayPhase::Fault, events, now);
            let c = self.complete(sequence, CompletionStatus::Error, Some(error), events, now);
            return EngineStep::Done(Some(c));
        }
        self.recovery_attempted = true;
        self.set_phase(DisplayPhase::Recovering, events, now);
        emit(events, now, DisplayEventKind::RecoveryStarted { page });
        EngineStep::Recover { page, sequence }
    }

    /// Ends the recovery of `page`.
    pub fn recover_end(
        &mut self,
        page: u32,
        sequence: Option<u16>,
        result: DisplayResult<()>,
        events: &mut Vec<DisplayEvent>,
        now: u64,
    ) -> (r: DisplayCompletion)
        ensures
            (final(self).trace(final(events)@), r) == recover_end_spec(
                old(self).trace(old(events)@),
                page,
                sequence,
                result,
                now,
            ),
    {
        match result {
            Ok(()) => {
                let from = self.current_page();
                self.current_page = page;
                self.set_mode(PanelMode::Bw, events, now);
                self.set_controller(ControllerRamState::BwBaseReady, events, now);
                emit(events, now, DisplayEventKind::RecoveryCompleted { page });
                if from != page {
                    emit(events, now, DisplayEventKind::PageDisplayed { from, page });
                }
                self.set_phase(DisplayPhase::BwReady, events, now);
                self.complete(sequence, CompletionStatus::Success, None, events, now)
            },
            Err(recovery_error) => self.fail(sequence, recovery_error, page, events, now),
        }
    }

    /// Ends a probe.
    pub fn probe_end(
        &mut self,
        kind: ProbeKind,
        sequence: u16,
        result: DisplayResult<()>,
        events: &mut Vec<DisplayEvent>,
        now: u64,
    ) -> (r: DisplayCompletion)
        ensures
            (final(self).trace(final(events)@), r) == probe_end_spec(
                old(self).trace(old(events)@),
                kind,
                sequence,
                result,
                now,
            ),
    {
        self.set_controller(ControllerRamState::NeedsFullBwInputs, events, now);
        match result {
            Ok(()) => {
                emit(events, now, DisplayEventKind::ProbeCompleted { sequence, kind });
                self.complete(Some(sequence), CompletionStatus::Success, None, events, now)
            },
            Err(error) => {
                let page = self.current_page();
                self.fail(Some(sequence), error, page, events, now)
            },
        }
    }

    /// Whether the gray overlay is due at `now`.
    pub fn advance_due(&self, now: u64) -> (r: bool)
        ensures
            r == overlay_due(self@, now),
    {
        let deadline = match self.gray_deadline {
            Some(d) => d,
            None => u64::MAX,
        };
        self.phase() == DisplayPhase::GrayDelay && now >= deadline
    }

    /// Starts the gray overlay of the current page for request epoch `epoch`.
    pub fn overlay_begin(&mut self, epoch: u32, events: &mut Vec<DisplayEvent>, now: u64) -> (r: EngineStep)
        ensures
            r == (EngineStep::RenderGrayscale { page: old(self)@.current_page, epoch }),
            final(self).trace(final(events)@) == emit_t(
                phase_t(old(self).trace(old(events)@), DisplayPhase::GrayRefreshing, now),
                now,
                DisplayEventKind::GrayStarted { page: old(self)@.current_page },
            ),
    {
        let page = self.current_page();
        self.set_phase(DisplayPhase::GrayRefreshing, events, now);
        emit(events, now, DisplayEventKind::GrayStarted { page });
        EngineStep::RenderGrayscale { page, epoch }
    }

    /// Ends the gray overlay of `page`; `current_epoch` is the request epoch
    /// now.
    pub fn overlay_end(
        &mut self,
        page: u32,
        epoch: u32,
        result: DisplayResult<OperationOutcome>,
        current_epoch: u32,
        events: &mut Vec<DisplayEvent>,
        now: u64,
    ) -> (r: EngineStep)
        ensures
            (final(self).trace(final(events)@), r) == overlay_end_spec(
                old(self).trace(old(events)@),
                page,
                epoch,
                result,
                current_epoch,
                now,
            ),
    {
        match result {
            Ok(OperationOutcome::Cancelled) => {
                self.set_controller(ControllerRamState::NeedsFullBwInputs, events, now);
                emit(events, now, DisplayEventKind::GrayCancelled { page });
                self.set_phase(DisplayPhase::BwReady, events, now);
                EngineStep::Done(None)
            },
            Ok(OperationOutcome::Completed) => {
                self.set_mode(PanelMode::Grayscale, events, now);
                self.set_controller(ControllerRamState::GrayOverlayResident, events, now);
                emit(events, now, DisplayEventKind::GrayCompleted { page });
                self.set_phase(DisplayPhase::BaseSync, events, now);
                if current_epoch != epoch {
                    self.set_controller(ControllerRamState::NeedsFullBwInputs, events, now);
                    self.set_phase(DisplayPhase::BwReady, events, now);
                    return EngineStep::Done(None);
                }
                emit(events, now, DisplayEventKind::BaseSyncStarted { page });
                self.set_controller(ControllerRamState::BaseSyncInProgress, events, now);
                EngineStep::SyncBase { page, epoch }
            },
            Err(error) => self.recover_begin(page, None, error, events, now),
        }
    }

    /// Ends the base synchronisation of `page`.
    pub fn base_sync_end(
        &mut self,
        page: u32,
        result: DisplayResult<OperationOutcome>,
        events: &mut Vec<DisplayEvent>,
        now: u64,
    ) -> (r: EngineStep)
        ensures
            (final(self).trace(final(events)@), r) == base_sync_end_spec(
                old(self).trace(old(events)@),
                page,
                result,
                now,
            ),
    {
        match result {
            Ok(OperationOutcome::Completed) => {
                self.set_controller(ControllerRamState::BwBaseReady, events, now);
                emit(events, now, DisplayEventKind::BaseSyncCompleted { page });
                self.set_phase(DisplayPhase::BwReady, events, now);
                EngineStep::Done(None)
            },
            Ok(OperationOutcome::Cancelled) => {
                self.set_controller(ControllerRamState::NeedsFullBwInputs, events, now);
                emit(events, now, DisplayEventKind::BaseSyncCancelled { page });
                self.set_phase(DisplayPhase::BwReady, events, now);
                EngineStep::Done(None)
            },
            Err(error) => self.recover_begin(page, None, error, events, now),
        }
    }
}

// ---------------------------------------------------------------------------
// Laws of the flows
// ---------------------------------------------------------------------------

/// A page becomes current only when its black-and-white render succeeded: a
/// failed render leaves the current page as it was.
pub proof fn lemma_failed_render_keeps_page(
    t: Trace,
    target: u32,
    sequence: Option<u16>,
    error: DisplayError,
    completed: u64,
    now: u64,
)
    ensures
        navigate_end_spec(t, target, sequence, Err(error), completed, now).0.m.current_page
            == t.m.current_page,
{
}

/// A successful render makes the target current, reports it displayed, and
/// only then starts the gray delay.
pub proof fn lemma_render_commits_page(
    t: Trace,
    target: u32,
    sequence: Option<u16>,
    completed: u64,
    now: u64,
)
    ensures
        ({
            let (t1, step) = navigate_end_spec(t, target, sequence, Ok(()), completed, now);
            &&& t1.m.current_page == target
            &&& t1.m.phase == DisplayPhase::GrayDelay
            &&& t1.m.controller_state == ControllerRamState::BwBaseReady
            &&& step == EngineStep::Done(
                Some(
                    DisplayCompletion {
                        sequence,
                        status: CompletionStatus::Success,
                        page: target,
                        error: None,
                    },
                ),
            )
            &&& exists|i: int, j: int|
                t.events.len() <= i < j < t1.events.len() && (#[trigger] t1.events[i]).kind
                    == DisplayEventKind::PageDisplayed { from: t.m.current_page, page: target }
                    && (#[trigger] t1.events[j]).kind == DisplayEventKind::PhaseChanged(
                    DisplayPhase::GrayDelay,
                )
        }),
{
    let from = t.m.current_page;
    let t1 = Trace {
        m: EngineModel { current_page: target, recovery_attempted: false, ..t.m },
        ..t
    };
    let t2 = controller_t(
        mode_t(t1, PanelMode::Bw, completed),
        ControllerRamState::BwBaseReady,
        completed,
    );
    let t3 = Trace {
        m: EngineModel { gray_deadline: Some((completed + GRAY_SETTLE_DELAY_MS) as u64), ..t2.m },
        ..t2
    };
    let t4 = emit_t(t3, completed, DisplayEventKind::PageDisplayed { from, page: target });
    let t5 = phase_t(t4, DisplayPhase::GrayDelay, completed);
    let (tf, _) = navigate_end_spec(t, target, sequence, Ok(()), completed, now);
    assert(t2.events.len() >= t.events.len());
    let i = t3.events.len() as int;
    let j = t4.events.len() as int;
    assert(tf.events[i].kind == DisplayEventKind::PageDisplayed { from, page: target });
    assert(tf.events[j].kind == DisplayEventKind::PhaseChanged(DisplayPhase::GrayDelay));
}

/// A failure is recovered from once; a failure while a recovery was already
/// attempted faults the display and completes the request with an error.
pub proof fn lemma_second_failure_faults_flow(
    t: Trace,
    page: u32,
    sequence: Option<u16>,
    error: DisplayError,
    now: u64,
)
    ensures
        !t.m.recovery_attempted ==> recover_begin_spec(t, page, sequence, error, now).1
            == (EngineStep::Recover { page, sequence }) && recover_begin_spec(
            t,
            page,
            sequence,
            error,
            now,
        ).0.m.recovery_attempted,
        t.m.recovery_attempted ==> (recover_begin_spec(t, page, sequence, error, now).0.m.phase
            == DisplayPhase::Fault && (recover_begin_spec(t, page, sequence, error, now).1 matches EngineStep::Done(
            Some(c),
        ) && c.status == CompletionStatus::Error)),
{
}

/// A turn that does not move (at the edge of the book) completes at once
/// without any panel work and reports the edge.
pub proof fn lemma_boundary_turn_is_noop(t: Trace, turn: PageTurn, sequence: Option<u16>, now: u64)
    requires
        t.m.phase != DisplayPhase::Fault,
        t.m.current_page < t.m.page_count,
        turn_target(t.m.current_page, t.m.page_count, turn) == t.m.current_page,
    ensures
        ({
            let (t1, step) = request_begin_spec(t, DisplayRequest::Turn { turn, sequence }, now);
            &&& step matches EngineStep::Done(Some(c))
            &&& c.status == CompletionStatus::Success
            &&& c.page == t.m.current_page
            &&& t1.m.current_page == t.m.current_page
            &&& exists|i: int|
                t.events.len() <= i < t1.events.len() && (#[trigger] t1.events[i]).kind
                    == DisplayEventKind::TurnBoundaryNoop {
                    sequence,
                    page: t.m.current_page,
                    turn,
                }
        }),
{
    let from = t.m.current_page;
    let t1 = if t.m.phase == DisplayPhase::GrayDelay {
        emit_t(
            Trace { m: EngineModel { gray_deadline: None, ..t.m }, ..t },
            now,
            DisplayEventKind::GrayDelayCancelled { page: from },
        )
    } else {
        t
    };
    let (tf, _) = request_begin_spec(t, DisplayRequest::Turn { turn, sequence }, now);
    assert(tf.events[t1.events.len() as int].kind == DisplayEventKind::TurnBoundaryNoop {
        sequence,
        page: from,
        turn,
    });
}

/// A cancelled overlay or base synchronisation never leaves the controller
/// RAM usable as a base: it must be rewritten in full, and the display is
/// ready again.
pub proof fn lemma_cancellation_invalidates_controller(
    t: Trace,
    page: u32,
    epoch: u32,
    current_epoch: u32,
    now: u64,
)
    ensures
        overlay_end_spec(t, page, epoch, Ok(OperationOutcome::Cancelled), current_epoch, now).0.m.controller_state
            == ControllerRamState::NeedsFullBwInputs,
        overlay_end_spec(t, page, epoch, Ok(OperationOutcome::Cancelled), current_epoch, now).0.m.phase
            == DisplayPhase::BwReady,
        base_sync_end_spec(t, page, Ok(OperationOutcome::Cancelled), now).0.m.controller_state
            == ControllerRamState::NeedsFullBwInputs,
        base_sync_end_spec(t, page, Ok(OperationOutcome::Cancelled), now).0.m.phase
            == DisplayPhase::BwReady,
        current_epoch != epoch ==> overlay_end_spec(
            t,
            page,
            epoch,
            Ok(OperationOutcome::Completed),
            current_epoch,
            now,
        ) == (
            overlay_end_spec(t, page, epoch, Ok(OperationOutcome::Completed), current_epoch, now).0,
            EngineStep::Done(None),
        ) && overlay_end_spec(
            t,
            page,
            epoch,
            Ok(OperationOutcome::Completed),
            current_epoch,
            now,
        ).0.m.controller_state == ControllerRamState::NeedsFullBwInputs,
{
}

} // verus!
