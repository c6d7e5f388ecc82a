//! Runtime events of the firmware, and the runtime event each display event is reported as.

use vstd::prelude::*;
use crate::display::error::DisplayError;
use crate::display::events::{
    CompletionStatus, DisplayEvent, DisplayEventKind, DisplayPhase, PageTurn as DisplayTurn,
    PanelMode,
};
use crate::display::probes::ProbeKind;
use crate::fw::async_refresh::{DisplayProbeKind, DisplayRequest, RefreshPhase};
use crate::fw::error::FirmwareError;
use crate::fw::input::{Button, PageTurn};
use crate::fw::menu::Mode;

pub use crate::display::engine::ControllerRamState;

verus! {

pub type RuntimePanelMode = PanelMode;

#[derive(Debug, Clone, Copy, PartialEq, Eq, Structural)]
pub enum RuntimeCompletionStatus {
    Success,
    Error,
}

#[derive(Debug, Clone, Copy, PartialEq, Eq, Structural)]
pub enum RuntimeRequestKind {
    Turn,
    Goto,
    Probe,
    MenuNext,
    MenuPrev,
    MenuSelect,
    MenuBack,
}

/// The kind of a display request.
pub open spec fn request_kind(request: DisplayRequest) -> RuntimeRequestKind {
    match request {
        DisplayRequest::Turn { .. } => RuntimeRequestKind::Turn,
        DisplayRequest::Goto { .. } => RuntimeRequestKind::Goto,
        DisplayRequest::Probe { .. } => RuntimeRequestKind::Probe,
        DisplayRequest::MenuNext => RuntimeRequestKind::MenuNext,
        DisplayRequest::MenuPrev => RuntimeRequestKind::MenuPrev,
        DisplayRequest::MenuSelect => RuntimeRequestKind::MenuSelect,
        DisplayRequest::MenuBack => RuntimeRequestKind::MenuBack,
    }
}

impl RuntimeRequestKind {
    pub fn from_request(request: &DisplayRequest) -> (r: Self)
        ensures
            r == request_kind(*request),
    {
        match request {
            DisplayRequest::Turn { .. } => RuntimeRequestKind::Turn,
            DisplayRequest::Goto { .. } => RuntimeRequestKind::Goto,
            DisplayRequest::Probe { .. } => RuntimeRequestKind::Probe,
            DisplayRequest::MenuNext => RuntimeRequestKind::MenuNext,
            DisplayRequest::MenuPrev => RuntimeRequestKind::MenuPrev,
            DisplayRequest::MenuSelect => RuntimeRequestKind::MenuSelect,
            DisplayRequest::MenuBack => RuntimeRequestKind::MenuBack,
        }
    }

    /// The number that stands for the kind in the log.
    #[verifier::allow_in_spec]
    pub fn log_code(self) -> i32
        returns
            (match self {
                RuntimeRequestKind::Turn => 0i32,
                RuntimeRequestKind::Goto => 1i32,
                RuntimeRequestKind::Probe => 2i32,
                RuntimeRequestKind::MenuNext => 3i32,
                RuntimeRequestKind::MenuPrev => 4i32,
                RuntimeRequestKind::MenuSelect => 5i32,
                RuntimeRequestKind::MenuBack => 6i32,
            }),
    {
        match self {
            RuntimeRequestKind::Turn => 0,
            RuntimeRequestKind::Goto => 1,
            RuntimeRequestKind::Probe => 2,
            RuntimeRequestKind::MenuNext => 3,
            RuntimeRequestKind::MenuPrev => 4,
            RuntimeRequestKind::MenuSelect => 5,
            RuntimeRequestKind::MenuBack => 6,
        }
    }
}

/// The completion sequence number a request carries, if any.
pub open spec fn sequence_of(request: DisplayRequest) -> Option<u16> {
    match request {
        DisplayRequest::Turn { completion_sequence, .. } => completion_sequence,
        DisplayRequest::Goto { completion_sequence, .. } => Some(completion_sequence),
        DisplayRequest::Probe { completion_sequence, .. } => Some(completion_sequence),
        _ => None,
    }
}

pub fn request_sequence(request: &DisplayRequest) -> (r: Option<u16>)
    ensures
        r == sequence_of(*request),
{
    match request {
        DisplayRequest::Turn { completion_sequence, .. } => *completion_sequence,
        DisplayRequest::Goto { completion_sequence, .. } => Some(*completion_sequence),
        DisplayRequest::Probe { completion_sequence, .. } => Some(*completion_sequence),
        DisplayRequest::MenuNext
        | DisplayRequest::MenuPrev
        | DisplayRequest::MenuSelect
        | DisplayRequest::MenuBack => None,
    }
}

/// How long a request waited in the queue, in milliseconds, saturated to
/// `u32::MAX` (zero when the clock went backwards); `None` when it was not
/// stamped when queued.
pub fn queue_age_ms(received_ms: u64, enqueued_ms: Option<u64>) -> (r: Option<u32>)
    ensures
        r == match enqueued_ms {
            Some(sent) => Some(
                if received_ms < sent {
                    0u32
                } else if received_ms - sent > u32::MAX {
                    u32::MAX
                } else {
                    (received_ms - sent) as u32
                },
            ),
            None => None,
        },
{
    match enqueued_ms {
        Some(sent_ms) => {
            let elapsed = received_ms.saturating_sub(sent_ms);
            if elapsed > u32::MAX as u64 {
                Some(u32::MAX)
            } else {
                Some(elapsed as u32)
            }
        },
        None => None,
    }
}

#[derive(Debug, Clone, Copy, PartialEq, Eq, Structural)]
pub enum RequestEnqueueStatus {
    Success,
    Full,
    Unmapped,
}

impl RequestEnqueueStatus {
    #[verifier::allow_in_spec]
    pub fn log_code(self) -> i32
        returns
            (match self {
                RequestEnqueueStatus::Success => 0i32,
                RequestEnqueueStatus::Full => 1i32,
                RequestEnqueueStatus::Unmapped => 2i32,
            }),
    {
        match self {
            RequestEnqueueStatus::Success => 0,
            RequestEnqueueStatus::Full => 1,
            RequestEnqueueStatus::Unmapped => 2,
        }
    }
}

#[derive(Debug, Clone, Copy, PartialEq, Eq, Structural)]
pub enum BusyWaitSite {
    GenericWaitReady,
    PanelInit,
    BwRefresh,
    GrayRefresh,
    Probe,
}

impl BusyWaitSite {
    #[verifier::allow_in_spec]
    pub fn log_code(self) -> i32
        returns
            (match self {
                BusyWaitSite::GenericWaitReady => 0i32,
                BusyWaitSite::PanelInit => 1i32,
                BusyWaitSite::BwRefresh => 2i32,
                BusyWaitSite::GrayRefresh => 3i32,
                BusyWaitSite::Probe => 4i32,
            }),
    {
        match self {
            BusyWaitSite::GenericWaitReady => 0,
            BusyWaitSite::PanelInit => 1,
            BusyWaitSite::BwRefresh => 2,
            BusyWaitSite::GrayRefresh => 3,
            BusyWaitSite::Probe => 4,
        }
    }
}

#[derive(Debug, Clone, Copy, PartialEq, Eq, Structural)]
pub enum BusyWaitStatus {
    Ready,
    Timeout,
    PinError,
}

impl BusyWaitStatus {
    #[verifier::allow_in_spec]
    pub fn log_code(self) -> i32
        returns
            (match self {
                BusyWaitStatus::Ready => 0i32,
                BusyWaitStatus::Timeout => 1i32,
                BusyWaitStatus::PinError => 2i32,
            }),
    {
        match self {
            BusyWaitStatus::Ready => 0,
            BusyWaitStatus::Timeout => 1,
            BusyWaitStatus::PinError => 2,
        }
    }
}

#[derive(Debug, Clone, Copy, PartialEq, Eq, Structural)]
pub struct RuntimeCompletion {
    pub sequence: Option<u16>,
    pub status: RuntimeCompletionStatus,
    pub page: u32,
    pub error: Option<FirmwareError>,
}

#[derive(Debug, Clone, Copy, PartialEq, Eq, Structural)]
pub enum RuntimeEventKind {
    FirmwareStarted { page_count: u32 },
    ProtocolCommand { opcode: u8, sequence: u16 },
    PhaseChanged(RefreshPhase),
    GrayDelayCancelled { page: u32 },
    PanelModeChanged(RuntimePanelMode),
    ControllerRamStateChanged(ControllerRamState),
    TurnQueued { sequence: Option<u16>, turn: PageTurn },
    RequestEnqueue {
        kind: RuntimeRequestKind,
        sequence: Option<u16>,
        status: RequestEnqueueStatus,
    },
    RequestReceive {
        kind: RuntimeRequestKind,
        sequence: Option<u16>,
        queue_age_ms: Option<u32>,
    },
    DisplayRequestStart { kind: RuntimeRequestKind, current_page: u32, target_page: Option<u32> },
    DisplayRequestEnd { kind: RuntimeRequestKind, duration_ms: u32, status: RuntimeCompletionStatus },
    BusyWaitStart { site: BusyWaitSite, timeout_ms: u32, busy_state: Option<bool> },
    BusyWaitEnd { site: BusyWaitSite, elapsed_ms: u32, status: BusyWaitStatus },
    InputTransition { ch1: u16, ch2: u16, observed: Option<Button> },
    TurnStarted { sequence: Option<u16>, from: u32, target: u32 },
    TurnBoundaryNoop { sequence: Option<u16>, page: u32, turn: PageTurn },
    PageDisplayed { from: u32, page: u32 },
    GrayStarted { page: u32 },
    GrayCancelled { page: u32 },
    GrayActivated { page: u32 },
    WaveformSelected { waveform_hint: u16, lut_revision: u16 },
    GrayCompleted { page: u32 },
    BaseSyncStarted { page: u32 },
    BaseSyncCancelled { page: u32 },
    BaseSyncCompleted { page: u32 },
    RecoveryStarted { page: u32 },
    RecoveryCompleted { page: u32 },
    ProbeStarted { sequence: u16, kind: DisplayProbeKind },
    ProbeCompleted { sequence: u16, kind: DisplayProbeKind },
    TurnDropped { turn: PageTurn },
    DisplayFailure { error: FirmwareError, page: u32 },
    Completion(RuntimeCompletion),
    MenuTransition,
    ModeChange { mode: Mode },
    BookOpen { name_index: usize },
}

#[derive(Debug, Clone, Copy, PartialEq, Eq, Structural)]
pub struct RuntimeEvent {
    pub timestamp_ms: u64,
    pub kind: RuntimeEventKind,
}

/// The firmware's page turn for the display's.
pub open spec fn turn_from_display(turn: DisplayTurn) -> PageTurn {
    match turn {
        DisplayTurn::Previous => PageTurn::Previous,
        DisplayTurn::Next => PageTurn::Next,
        DisplayTurn::First => PageTurn::First,
        DisplayTurn::Last => PageTurn::Last,
    }
}

/// The display's page turn for the firmware's.
pub open spec fn turn_to_display(turn: PageTurn) -> DisplayTurn {
    match turn {
        PageTurn::Previous => DisplayTurn::Previous,
        PageTurn::Next => DisplayTurn::Next,
        PageTurn::First => DisplayTurn::First,
        PageTurn::Last => DisplayTurn::Last,
    }
}

pub fn map_turn(turn: DisplayTurn) -> (r: PageTurn)
    ensures
        r == turn_from_display(turn),
{
    match turn {
        DisplayTurn::Previous => PageTurn::Previous,
        DisplayTurn::Next => PageTurn::Next,
        DisplayTurn::First => PageTurn::First,
        DisplayTurn::Last => PageTurn::Last,
    }
}

pub fn to_display_turn(turn: PageTurn) -> (r: DisplayTurn)
    ensures
        r == turn_to_display(turn),
{
    match turn {
        PageTurn::Previous => DisplayTurn::Previous,
        PageTurn::Next => DisplayTurn::Next,
        PageTurn::First => DisplayTurn::First,
        PageTurn::Last => DisplayTurn::Last,
    }
}

/// Converting a turn to the display's and back gives the same turn, and the
/// other way round.
pub proof fn lemma_turn_conversion_roundtrip(a: PageTurn, b: DisplayTurn)
    ensures
        turn_from_display(turn_to_display(a)) == a,
        turn_to_display(turn_from_display(b)) == b,
{
}

pub open spec fn phase_of(phase: DisplayPhase) -> RefreshPhase {
    match phase {
        DisplayPhase::BwReady => RefreshPhase::BwReady,
        DisplayPhase::BwRefreshing => RefreshPhase::BwRefreshing,
        DisplayPhase::GrayDelay => RefreshPhase::GrayDelay,
        DisplayPhase::GrayRefreshing => RefreshPhase::GrayRefreshing,
        DisplayPhase::BaseSync => RefreshPhase::BaseSync,
        DisplayPhase::Recovering => RefreshPhase::Recovering,
        DisplayPhase::Fault => RefreshPhase::Fault,
    }
}

fn map_phase(phase: DisplayPhase) -> (r: RefreshPhase)
    ensures
        r == phase_of(phase),
{
    match phase {
        DisplayPhase::BwReady => RefreshPhase::BwReady,
        DisplayPhase::BwRefreshing => RefreshPhase::BwRefreshing,
        DisplayPhase::GrayDelay => RefreshPhase::GrayDelay,
        DisplayPhase::GrayRefreshing => RefreshPhase::GrayRefreshing,
        DisplayPhase::BaseSync => RefreshPhase::BaseSync,
        DisplayPhase::Recovering => RefreshPhase::Recovering,
        DisplayPhase::Fault => RefreshPhase::Fault,
    }
}

pub open spec fn probe_of(kind: ProbeKind) -> DisplayProbeKind {
    match kind {
        ProbeKind::FullRefreshCurrent => DisplayProbeKind::FullRefreshCurrent,
        ProbeKind::ClearWhite => DisplayProbeKind::ClearWhite,
        ProbeKind::WindowCorners => DisplayProbeKind::WindowCorners,
    }
}

fn map_probe(kind: ProbeKind) -> (r: DisplayProbeKind)
    ensures
        r == probe_of(kind),
{
    match kind {
        ProbeKind::FullRefreshCurrent => DisplayProbeKind::FullRefreshCurrent,
        ProbeKind::ClearWhite => DisplayProbeKind::ClearWhite,
        ProbeKind::WindowCorners => DisplayProbeKind::WindowCorners,
    }
}

/// The firmware error a display error is reported as: source errors are
/// storage errors, controller errors are SPI errors, the rest are invalid
/// parameters.
pub open spec fn error_of(error: DisplayError) -> FirmwareError {
    match error {
        DisplayError::Source => FirmwareError::Storage,
        DisplayError::Controller => FirmwareError::Spi,
        _ => FirmwareError::InvalidParameter,
    }
}

fn map_error(error: DisplayError) -> (r: FirmwareError)
    ensures
        r == error_of(error),
{
    match error {
        DisplayError::Source => FirmwareError::Storage,
        DisplayError::Controller => FirmwareError::Spi,
        _ => FirmwareError::InvalidParameter,
    }
}

/// The runtime event a display event is reported as.
pub open spec fn runtime_kind_of(kind: DisplayEventKind) -> RuntimeEventKind {
    match kind {
        DisplayEventKind::PhaseChanged(value) => RuntimeEventKind::PhaseChanged(phase_of(value)),
        DisplayEventKind::PanelModeChanged(value) => RuntimeEventKind::PanelModeChanged(value),
        DisplayEventKind::ControllerStateChanged(value) => RuntimeEventKind::ControllerRamStateChanged(value),
        DisplayEventKind::TurnStarted { sequence, from, target } => RuntimeEventKind::TurnStarted {
            sequence,
            from,
            target,
        },
        DisplayEventKind::TurnBoundaryNoop { sequence, page, turn } => RuntimeEventKind::TurnBoundaryNoop {
            sequence,
            page,
            turn: turn_from_display(turn),
        },
        DisplayEventKind::GrayDelayCancelled { page } => RuntimeEventKind::GrayDelayCancelled { page },
        DisplayEventKind::PageDisplayed { from, page } => RuntimeEventKind::PageDisplayed { from, page },
        DisplayEventKind::GrayStarted { page } => RuntimeEventKind::GrayStarted { page },
        DisplayEventKind::GrayCancelled { page } => RuntimeEventKind::GrayCancelled { page },
        DisplayEventKind::GrayCompleted { page } => RuntimeEventKind::GrayCompleted { page },
        DisplayEventKind::BaseSyncStarted { page } => RuntimeEventKind::BaseSyncStarted { page },
        DisplayEventKind::BaseSyncCancelled { page } => RuntimeEventKind::BaseSyncCancelled { page },
        DisplayEventKind::BaseSyncCompleted { page } => RuntimeEventKind::BaseSyncCompleted { page },
        DisplayEventKind::RecoveryStarted { page } => RuntimeEventKind::RecoveryStarted { page },
        DisplayEventKind::RecoveryCompleted { page } => RuntimeEventKind::RecoveryCompleted { page },
        DisplayEventKind::ProbeStarted { sequence, kind } => RuntimeEventKind::ProbeStarted {
            sequence,
            kind: probe_of(kind),
        },
        DisplayEventKind::ProbeCompleted { sequence, kind } => RuntimeEventKind::ProbeCompleted {
            sequence,
            kind: probe_of(kind),
        },
        DisplayEventKind::Failure { page, error } => RuntimeEventKind::DisplayFailure {
            error: error_of(error),
            page,
        },
        DisplayEventKind::Completion(value) => RuntimeEventKind::Completion(
            RuntimeCompletion {
                sequence: value.sequence,
                status: match value.status {
                    CompletionStatus::Success => RuntimeCompletionStatus::Success,
                    CompletionStatus::Error => RuntimeCompletionStatus::Error,
                },
                page: value.page,
                error: match value.error {
                    Some(e) => Some(error_of(e)),
                    None => None,
                },
            },
        ),
    }
}

/// The runtime event for a display event, with the same timestamp.
pub fn map_display_event(event: DisplayEvent) -> (r: RuntimeEvent)
    ensures
        r == (RuntimeEvent { timestamp_ms: event.timestamp_ms, kind: runtime_kind_of(event.kind) }),
{
    let kind = match event.kind {
        DisplayEventKind::PhaseChanged(value) => RuntimeEventKind::PhaseChanged(map_phase(value)),
        DisplayEventKind::PanelModeChanged(value) => RuntimeEventKind::PanelModeChanged(value),
        DisplayEventKind::ControllerStateChanged(value) => RuntimeEventKind::ControllerRamStateChanged(value),
        DisplayEventKind::TurnStarted { sequence, from, target } => RuntimeEventKind::TurnStarted {
            sequence,
            from,
            target,
        },
        DisplayEventKind::TurnBoundaryNoop { sequence, page, turn } => RuntimeEventKind::TurnBoundaryNoop {
            sequence,
            page,
            turn: map_turn(turn),
        },
        DisplayEventKind::GrayDelayCancelled { page } => RuntimeEventKind::GrayDelayCancelled { page },
        DisplayEventKind::PageDisplayed { from, page } => RuntimeEventKind::PageDisplayed { from, page },
        DisplayEventKind::GrayStarted { page } => RuntimeEventKind::GrayStarted { page },
        DisplayEventKind::GrayCancelled { page } => RuntimeEventKind::GrayCancelled { page },
        DisplayEventKind::GrayCompleted { page } => RuntimeEventKind::GrayCompleted { page },
        DisplayEventKind::BaseSyncStarted { page } => RuntimeEventKind::BaseSyncStarted { page },
        DisplayEventKind::BaseSyncCancelled { page } => RuntimeEventKind::BaseSyncCancelled { page },
        DisplayEventKind::BaseSyncCompleted { page } => RuntimeEventKind::BaseSyncCompleted { page },
        DisplayEventKind::RecoveryStarted { page } => RuntimeEventKind::RecoveryStarted { page },
        DisplayEventKind::RecoveryCompleted { page } => RuntimeEventKind::RecoveryCompleted { page },
        DisplayEventKind::ProbeStarted { sequence, kind } => RuntimeEventKind::ProbeStarted {
            sequence,
            kind: map_probe(kind),
        },
        DisplayEventKind::ProbeCompleted { sequence, kind } => RuntimeEventKind::ProbeCompleted {
            sequence,
            kind: map_probe(kind),
        },
        DisplayEventKind::Failure { page, error } => RuntimeEventKind::DisplayFailure {
            error: map_error(error),
            page,
        },
        DisplayEventKind::Completion(value) => RuntimeEventKind::Completion(
            RuntimeCompletion {
                sequence: value.sequence,
                status: match value.status {
                    CompletionStatus::Success => RuntimeCompletionStatus::Success,
                    CompletionStatus::Error => RuntimeCompletionStatus::Error,
                },
                page: value.page,
                error: match value.error {
                    Some(e) => Some(map_error(e)),
                    None => None,
                },
            },
        ),
    };
    RuntimeEvent { timestamp_ms: event.timestamp_ms, kind }
}

} // verus!
