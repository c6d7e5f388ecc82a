//! What the firmware's runtime tasks decide. The tasks wait on channels, the
//! clock and the panel; at each step they hand what happened to a function
//! here and carry out what it returns.

use vstd::prelude::*;
use crate::display::engine::{turn_target, DisplayEngine};
use crate::display::events::{CompletionStatus, DisplayRequest as EngineRequest};
use crate::display::probes::ProbeKind;
use crate::fw::async_refresh::{DisplayProbeKind, DisplayRequest, MODE_MENU, MODE_READING};
use crate::fw::diag::{
    log_get_response, resolve_log_get, DiagnosticSnapshot, PendingAction, PendingCommand,
    RuntimeCommand,
};
use crate::fw::diag_log::{crash_bytes, CrashSummary};
use crate::fw::error::FirmwareError;
use crate::fw::diag_log::DiagLogView;
use crate::fw::input::{button_of, page_turn_for_button, polled, turn_of, ButtonEvent, InputState, PageTurn};
use crate::fw::menu::{after_next, after_previous, MenuAction, MenuState, Mode};
use crate::fw::runtime_aggregator::{enqueue_outcome, AggregatorView, ReserveError, RuntimeAggregator};
use crate::fw::runtime_engine::{
    request_kind, sequence_of, to_display_turn, turn_to_display, RuntimeCompletionStatus,
    RuntimeEvent, RuntimeEventKind, RuntimeRequestKind,
};
use crate::protocol::{
    crash_response_bytes, encode_crash_response, encode_log_response_header,
    log_response_header_bytes, LogResponseHeader, PanelModeCode, Status, CRASH_SUMMARY_BYTES,
};

verus! {

// ---------------------------------------------------------------------------
// Display task
// ---------------------------------------------------------------------------

/// The probe the engine runs for a firmware probe request.
pub open spec fn engine_probe(kind: DisplayProbeKind) -> ProbeKind {
    match kind {
        DisplayProbeKind::FullRefreshCurrent => ProbeKind::FullRefreshCurrent,
        DisplayProbeKind::ClearWhite => ProbeKind::ClearWhite,
        DisplayProbeKind::WindowCorners => ProbeKind::WindowCorners,
    }
}

/// The engine request for a firmware request. The display task handles the
/// menu requests itself and then hands the engine a `Goto` of page 0 with
/// sequence 0 for them.
pub open spec fn engine_request_for(request: DisplayRequest) -> EngineRequest {
    match request {
        DisplayRequest::Turn { turn, completion_sequence } => EngineRequest::Turn {
            turn: turn_to_display(turn),
            sequence: completion_sequence,
        },
        DisplayRequest::Goto { page, completion_sequence } => EngineRequest::Goto {
            page,
            sequence: completion_sequence,
        },
        DisplayRequest::Probe { kind, completion_sequence } => EngineRequest::Probe {
            kind: engine_probe(kind),
            sequence: completion_sequence,
        },
        DisplayRequest::MenuNext
        | DisplayRequest::MenuPrev
        | DisplayRequest::MenuSelect
        | DisplayRequest::MenuBack => EngineRequest::Goto { page: 0, sequence: 0 },
    }
}

pub fn display_request(request: DisplayRequest) -> (r: EngineRequest)
    ensures
        r == engine_request_for(request),
{
    match request {
        DisplayRequest::Turn { turn, completion_sequence } => EngineRequest::Turn {
            turn: to_display_turn(turn),
            sequence: completion_sequence,
        },
        DisplayRequest::Goto { page, completion_sequence } => EngineRequest::Goto {
            page,
            sequence: completion_sequence,
        },
        DisplayRequest::Probe { kind, completion_sequence } => EngineRequest::Probe {
            kind: match kind {
                DisplayProbeKind::FullRefreshCurrent => ProbeKind::FullRefreshCurrent,
                DisplayProbeKind::ClearWhite => ProbeKind::ClearWhite,
                DisplayProbeKind::WindowCorners => ProbeKind::WindowCorners,
            },
            sequence: completion_sequence,
        },
        DisplayRequest::MenuNext
        | DisplayRequest::MenuPrev
        | DisplayRequest::MenuSelect
        | DisplayRequest::MenuBack => EngineRequest::Goto { page: 0, sequence: 0 },
    }
}

/// The page a request aims at, as reported when it starts: where a turn
/// leads from the current page, or the page of a `Goto`; none otherwise.
pub fn target_page_for_request(engine: &DisplayEngine, request: DisplayRequest) -> (r: Option<u32>)
    ensures
        r == match request {
            DisplayRequest::Turn { turn, .. } => Some(
                turn_target(engine@.current_page, engine@.page_count, turn_to_display(turn)),
            ),
            DisplayRequest::Goto { page, .. } => Some(page),
            _ => None,
        },
{
    match request {
        DisplayRequest::Turn { turn, .. } => Some(engine.target_for(to_display_turn(turn))),
        DisplayRequest::Goto { page, .. } => Some(page),
        DisplayRequest::Probe { .. }
        | DisplayRequest::MenuNext
        | DisplayRequest::MenuPrev
        | DisplayRequest::MenuSelect
        | DisplayRequest::MenuBack => None,
    }
}

/// What the display task does for a request before handing it to the engine.
pub struct RequestPlan {
    /// Whether a pending grayscale overlay is abandoned.
    pub cancel_overlay: bool,
    /// Whether the menu is drawn again and shown.
    pub show_menu: bool,
    /// The display mode to switch to, if any.
    pub mode: Option<u8>,
    /// The events to report, in order.
    pub events: Vec<RuntimeEvent>,
}

/// The events the display task reports for a request before the engine
/// runs it: its receipt, then what the menu or the queue made of it.
pub open spec fn plan_events(
    request: DisplayRequest,
    selected: nat,
    names_len: nat,
    now_ms: u64,
) -> Seq<RuntimeEvent> {
    let receive = RuntimeEvent {
        timestamp_ms: now_ms,
        kind: RuntimeEventKind::RequestReceive {
            kind: request_kind(request),
            sequence: sequence_of(request),
            queue_age_ms: None,
        },
    };
    let event = |kind: RuntimeEventKind| RuntimeEvent { timestamp_ms: now_ms, kind };
    match request {
        DisplayRequest::MenuNext | DisplayRequest::MenuPrev => seq![
            receive,
            event(RuntimeEventKind::MenuTransition),
        ],
        DisplayRequest::MenuBack => seq![
            receive,
            event(RuntimeEventKind::ModeChange { mode: Mode::Menu }),
        ],
        DisplayRequest::MenuSelect => if selected < names_len {
            seq![
                receive,
                event(RuntimeEventKind::ModeChange { mode: Mode::Reading }),
                event(RuntimeEventKind::BookOpen { name_index: selected as usize }),
            ]
        } else {
            seq![receive]
        },
        DisplayRequest::Turn { turn, completion_sequence } => seq![
            receive,
            event(RuntimeEventKind::TurnQueued { sequence: completion_sequence, turn }),
        ],
        DisplayRequest::Goto { .. } | DisplayRequest::Probe { .. } => seq![receive],
    }
}

/// Decides what the display task does with `request` before the engine runs
/// it, with `names_len` book names in the menu. The arrows move the menu
/// selection and redraw the menu; Back redraws the menu and returns to menu
/// mode; Select, on a named entry, opens it in reading mode; a turn is
/// reported as queued. Each menu request but a Select on no entry abandons
/// a pending overlay.
pub fn plan_request(menu: &mut MenuState, names_len: usize, request: DisplayRequest, now_ms: u64) -> (r:
    RequestPlan)
    ensures
        final(menu)@ == match request {
            DisplayRequest::MenuNext => if old(menu)@.count == 0 {
                old(menu)@
            } else {
                after_next(old(menu)@)
            },
            DisplayRequest::MenuPrev => if old(menu)@.count == 0 {
                old(menu)@
            } else {
                after_previous(old(menu)@)
            },
            _ => old(menu)@,
        },
        r.events@ == plan_events(request, old(menu)@.selected, names_len as nat, now_ms),
        r.cancel_overlay == match request {
            DisplayRequest::MenuNext | DisplayRequest::MenuPrev | DisplayRequest::MenuBack => true,
            DisplayRequest::MenuSelect => old(menu)@.selected < names_len,
            _ => false,
        },
        r.show_menu == (request is MenuNext || request is MenuPrev || request is MenuBack),
        r.mode == match request {
            DisplayRequest::MenuBack => Some(MODE_MENU),
            DisplayRequest::MenuSelect => if old(menu)@.selected < names_len {
                Some(MODE_READING)
            } else {
                None
            },
            _ => None,
        },
{
    let mut events: Vec<RuntimeEvent> = Vec::new();
    events.push(
        RuntimeEvent {
            timestamp_ms: now_ms,
            kind: RuntimeEventKind::RequestReceive {
                kind: RuntimeRequestKind::from_request(&request),
                sequence: crate::fw::runtime_engine::request_sequence(&request),
                queue_age_ms: crate::fw::runtime_engine::queue_age_ms(now_ms, None),
            },
        },
    );
    let mut cancel_overlay = false;
    let mut show_menu = false;
    let mut mode: Option<u8> = None;
    match request {
        DisplayRequest::MenuNext | DisplayRequest::MenuPrev => {
            cancel_overlay = true;
            let action = if matches!(request, DisplayRequest::MenuPrev) {
                MenuAction::Previous
            } else {
                MenuAction::Next
            };
            let _ = menu.transition(action);
            show_menu = true;
            events.push(RuntimeEvent { timestamp_ms: now_ms, kind: RuntimeEventKind::MenuTransition });
        },
        DisplayRequest::MenuBack => {
            cancel_overlay = true;
            show_menu = true;
            mode = Some(MODE_MENU);
            events.push(
                RuntimeEvent {
                    timestamp_ms: now_ms,
                    kind: RuntimeEventKind::ModeChange { mode: Mode::Menu },
                },
            );
        },
        DisplayRequest::MenuSelect => {
            let selected = menu.selected();
            if selected < names_len {
                cancel_overlay = true;
                mode = Some(MODE_READING);
                events.push(
                    RuntimeEvent {
                        timestamp_ms: now_ms,
                        kind: RuntimeEventKind::ModeChange { mode: Mode::Reading },
                    },
                );
                events.push(
                    RuntimeEvent {
                        timestamp_ms: now_ms,
                        kind: RuntimeEventKind::BookOpen { name_index: selected },
                    },
                );
            }
        },
        DisplayRequest::Turn { turn, completion_sequence } => {
            events.push(
                RuntimeEvent {
                    timestamp_ms: now_ms,
                    kind: RuntimeEventKind::TurnQueued { sequence: completion_sequence, turn },
                },
            );
        },
        DisplayRequest::Goto { .. } | DisplayRequest::Probe { .. } => {},
    }
    RequestPlan { cancel_overlay, show_menu, mode, events }
}

/// The event that reports the start of a request: its kind, the current page
/// and the page it aims at.
pub fn request_start_event(engine: &DisplayEngine, request: DisplayRequest, start_ms: u64) -> (r:
    RuntimeEvent)
    ensures
        r == (RuntimeEvent {
            timestamp_ms: start_ms,
            kind: RuntimeEventKind::DisplayRequestStart {
                kind: request_kind(request),
                current_page: engine@.current_page,
                target_page: match request {
                    DisplayRequest::Turn { turn, .. } => Some(
                        turn_target(engine@.current_page, engine@.page_count, turn_to_display(turn)),
                    ),
                    DisplayRequest::Goto { page, .. } => Some(page),
                    _ => None,
                },
            },
        }),
{
    RuntimeEvent {
        timestamp_ms: start_ms,
        kind: RuntimeEventKind::DisplayRequestStart {
            kind: RuntimeRequestKind::from_request(&request),
            current_page: engine.current_page(),
            target_page: target_page_for_request(engine, request),
        },
    }
}

/// The event that reports the end of a request: its kind, how long the
/// engine took (zero when the clock went backwards, at most `u32::MAX`) and
/// whether it succeeded.
pub fn request_end_event(
    kind: RuntimeRequestKind,
    start_ms: u64,
    end_ms: u64,
    status: CompletionStatus,
) -> (r: RuntimeEvent)
    ensures
        r == (RuntimeEvent {
            timestamp_ms: end_ms,
            kind: RuntimeEventKind::DisplayRequestEnd {
                kind,
                duration_ms: if end_ms < start_ms {
                    0u32
                } else if end_ms - start_ms > u32::MAX {
                    u32::MAX
                } else {
                    (end_ms - start_ms) as u32
                },
                status: match status {
                    CompletionStatus::Success => RuntimeCompletionStatus::Success,
                    CompletionStatus::Error => RuntimeCompletionStatus::Error,
                },
            },
        }),
{
    let elapsed = end_ms.saturating_sub(start_ms);
    let duration_ms: u32 = if elapsed > u32::MAX as u64 {
        u32::MAX
    } else {
        elapsed as u32
    };
    RuntimeEvent {
        timestamp_ms: end_ms,
        kind: RuntimeEventKind::DisplayRequestEnd {
            kind,
            duration_ms,
            status: match status {
                CompletionStatus::Success => RuntimeCompletionStatus::Success,
                CompletionStatus::Error => RuntimeCompletionStatus::Error,
            },
        },
    }
}

// ---------------------------------------------------------------------------
// Events waiting for room in the event channel
// ---------------------------------------------------------------------------

/// How many events the display task holds back while the event channel is
/// full.
pub const PENDING_EVENT_CAPACITY: usize = 32;

/// The events the display task holds back, oldest first, while the event
/// channel has no room.
pub struct PendingEvents {
    slots: Vec<Option<RuntimeEvent>>,
    head: usize,
    len: usize,
}

impl View for PendingEvents {
    type V = Seq<RuntimeEvent>;

    closed spec fn view(&self) -> Seq<RuntimeEvent> {
        Seq::new(self.len as nat, |i: int| self.slots@[(self.head + i) % 32].unwrap())
    }
}

impl PendingEvents {
    /// The ring is well formed: 32 slots, the held events in the `len` slots
    /// from `head` on, wrapping.
    pub closed spec fn wf(&self) -> bool {
        &&& self.slots@.len() == 32
        &&& self.head < 32
        &&& self.len <= 32
        &&& forall|i: int| 0 <= i < self.len ==> (#[trigger] self.slots@[(self.head + i) % 32]) is Some
    }

    pub fn new() -> (r: Self)
        ensures
            r.wf(),
            r@ == Seq::<RuntimeEvent>::empty(),
    {
        let mut slots: Vec<Option<RuntimeEvent>> = Vec::new();
        let mut i: usize = 0;
        while i < PENDING_EVENT_CAPACITY
            invariant
                i <= 32,
                slots@.len() == i,
            decreases 32 - i,
        {
            slots.push(None);
            i = i + 1;
        }
        let r = PendingEvents { slots, head: 0, len: 0 };
        assert(r@ =~= Seq::<RuntimeEvent>::empty());
        r
    }

    pub fn len(&self) -> (r: usize)
        requires
            self.wf(),
        ensures
            r == self@.len(),
    {
        self.len
    }

    /// Holds `event` back behind the others.
    pub fn buffer(&mut self, event: RuntimeEvent)
        requires
            old(self).wf(),
            old(self)@.len() < PENDING_EVENT_CAPACITY,
        ensures
            final(self).wf(),
            final(self)@ == old(self)@.push(event),
    {
        let index = (self.head + self.len) % PENDING_EVENT_CAPACITY;
        self.slots.set(index, Some(event));
        self.len = self.len + 1;
        let ghost before = old(self)@;
        assert forall|i: int| 0 <= i < self.len implies (#[trigger] self.slots@[(self.head + i) % 32]) is Some by {
            if i < self.len - 1 {
                assert((self.head + i) % 32 != index as int);
            }
        }
        assert(self@ =~= before.push(event)) by {
            assert forall|i: int| 0 <= i < self.len - 1 implies #[trigger] self.slots@[(self.head + i) % 32]
                == old(self).slots@[(self.head + i) % 32] by {
                assert((self.head + i) % 32 != index as int);
            }
        }
    }

    /// Takes the oldest event held back, if any.
    pub fn take(&mut self) -> (r: Option<RuntimeEvent>)
        requires
            old(self).wf(),
        ensures
            final(self).wf(),
            old(self)@.len() == 0 ==> r is None && final(self)@ == old(self)@,
            old(self)@.len() > 0 ==> r == Some(old(self)@[0]) && final(self)@ == old(self)@.drop_first(),
    {
        if self.len == 0 {
            return None;
        }
        let ghost before = old(self)@;
        assert(self.slots@[(self.head + 0) % 32] is Some);
        let head = self.head;
        let event = self.slots[head];
        self.slots.set(head, None);
        self.head = (head + 1) % PENDING_EVENT_CAPACITY;
        self.len = self.len - 1;
        assert forall|i: int| 0 <= i < self.len implies (#[trigger] self.slots@[(self.head + i) % 32]) is Some by {
            assert((self.head + i) % 32 == (head + (i + 1)) % 32);
            assert((head + (i + 1)) % 32 != head as int);
            assert(old(self).slots@[(head + (i + 1)) % 32] is Some);
        }
        assert(self@ =~= before.drop_first()) by {
            assert forall|i: int| 0 <= i < self.len implies #[trigger] self.slots@[(self.head + i) % 32]
                == old(self).slots@[(head + (i + 1)) % 32] by {
                assert((self.head + i) % 32 == (head + (i + 1)) % 32);
                assert((head + (i + 1)) % 32 != head as int);
            }
        }
        event
    }

    /// Reports `event`: while events are held back it waits behind them;
    /// otherwise it is offered to the channel with `try_send`, and held back
    /// if the channel hands it back.
    pub fn push<F: FnOnce(RuntimeEvent) -> Option<RuntimeEvent>>(&mut self, event: RuntimeEvent, try_send: F)
        requires
            old(self).wf(),
            old(self)@.len() < PENDING_EVENT_CAPACITY,
            call_requires(try_send, (event,)),
        ensures
            final(self).wf(),
            old(self)@.len() > 0 ==> final(self)@ == old(self)@.push(event),
            old(self)@.len() == 0 ==> exists|back: Option<RuntimeEvent>|
                call_ensures(try_send, (event,), back) && final(self)@ == match back {
                    Some(e) => seq![e],
                    None => Seq::<RuntimeEvent>::empty(),
                },
    {
        if self.len > 0 {
            self.buffer(event);
        } else {
            let back = try_send(event);
            match back {
                Some(e) => {
                    self.buffer(e);
                    assert(self@ =~= seq![e]);
                },
                None => {},
            }
            assert(call_ensures(try_send, (event,), back));
        }
    }
}

// ---------------------------------------------------------------------------
// Input task
// ---------------------------------------------------------------------------

/// What the input task does after reading the two channels.
pub struct InputStep {
    /// The event that reports a change of the decoded button, if it changed.
    pub transition: Option<RuntimeEvent>,
    /// The press the debouncer reported, if any.
    pub press: Option<ButtonEvent>,
    /// The page turn to request, if the press asks for one.
    pub turn: Option<PageTurn>,
}

/// Feeds a reading of the two channels, taken at `tick_ms` of the task's own
/// clock, to the debouncer. A change of the decoded button is reported with
/// the raw readings, stamped `timestamp_ms`; a press of a page-turn button
/// asks for that turn.
pub fn input_step(state: &mut InputState, ch1: u16, ch2: u16, tick_ms: u64, timestamp_ms: u64) -> (r:
    InputStep)
    ensures
        (final(state)@, r.press) == polled(old(state)@, ch1, ch2, tick_ms),
        r.transition == if old(state)@.last_button != button_of(ch1, ch2) {
            Some(
                RuntimeEvent {
                    timestamp_ms,
                    kind: RuntimeEventKind::InputTransition {
                        ch1,
                        ch2,
                        observed: button_of(ch1, ch2),
                    },
                },
            )
        } else {
            None
        },
        r.turn == match r.press {
            Some(ButtonEvent::Press(button)) => turn_of(button),
            _ => None,
        },
{
    let previous = state.last_button();
    let press = state.poll_raw(ch1, ch2, tick_ms);
    let observed = state.last_button();
    let changed = match (previous, observed) {
        (Some(a), Some(b)) => a != b,
        (None, None) => false,
        _ => true,
    };
    let transition = if changed {
        Some(
            RuntimeEvent {
                timestamp_ms,
                kind: RuntimeEventKind::InputTransition { ch1, ch2, observed },
            },
        )
    } else {
        None
    };
    let turn = match press {
        Some(ButtonEvent::Press(button)) => page_turn_for_button(button),
        _ => None,
    };
    InputStep { transition, press, turn }
}

// ---------------------------------------------------------------------------
// Diagnostic aggregator task
// ---------------------------------------------------------------------------

/// A question the diagnostic console asks the aggregator.
#[derive(Debug, Clone, Copy, PartialEq, Eq, Structural)]
pub enum AggregatorQuery {
    /// Hold a hardware command and queue its display request.
    Enqueue { pending: PendingCommand, request: DisplayRequest },
    Status,
    LogGet { cursor: u32, max_bytes: u16 },
    LogClear,
    /// The serial link's protocol error count.
    ProtocolErrors(u32),
}

/// The aggregator's answer.
#[derive(Debug)]
pub enum AggregatorResponse {
    Reserve(Result<(), ReserveError>),
    Status(DiagnosticSnapshot),
    /// The payload of a log response.
    Log(Vec<u8>),
    Ack,
}

/// The snapshot the aggregator starts from for a book of `page_count` pages.
pub fn initial_snapshot(page_count: u32) -> (r: DiagnosticSnapshot)
    ensures
        r == (DiagnosticSnapshot {
            current_page: 0,
            page_count,
            panel_mode: PanelModeCode::Unknown,
            dropped_log_count: 0,
            protocol_error_count: 0,
            last_error: 0,
        }),
{
    DiagnosticSnapshot {
        current_page: 0,
        page_count,
        panel_mode: PanelModeCode::Unknown,
        dropped_log_count: 0,
        protocol_error_count: 0,
        last_error: 0,
    }
}

/// The size of the buffer a log response is built in.
pub const LOG_RESPONSE_BUFFER_BYTES: usize = 4096;

/// Answers `query`. `Enqueue` holds the command and hands it on with
/// `enqueue`, which offers the request to the display task; `Status` reports
/// the snapshot; `LogGet` answers from the log in a buffer of 4096 bytes;
/// `LogClear` clears the log and answers with an empty page of it;
/// `ProtocolErrors` records the count.
pub fn answer_query<const PENDING: usize, const LOG: usize, F: FnOnce() -> bool>(
    aggregator: &mut RuntimeAggregator<PENDING, LOG>,
    query: AggregatorQuery,
    enqueue: F,
) -> (r: AggregatorResponse)
    requires
        old(aggregator).wf(),
        call_requires(enqueue, ()),
    ensures
        final(aggregator).wf(),
        match query {
            AggregatorQuery::Enqueue { pending, .. } => (r matches AggregatorResponse::Reserve(res)
                && enqueue_outcome(old(aggregator)@, final(aggregator)@, pending, enqueue, res)),
            AggregatorQuery::Status => r == AggregatorResponse::Status(old(aggregator)@.snapshot)
                && final(aggregator)@ == old(aggregator)@,
            AggregatorQuery::LogGet { cursor, max_bytes } => (r matches AggregatorResponse::Log(
                payload,
            ) && payload@ == log_get_response(old(aggregator)@.log, cursor, max_bytes, 4096))
                && final(aggregator)@ == old(aggregator)@,
            AggregatorQuery::LogClear => (r matches AggregatorResponse::Log(payload) && payload@
                == log_response_header_bytes(
                LogResponseHeader {
                    next_cursor: old(aggregator)@.log.next_sequence,
                    dropped_log_count: 0,
                    record_count: 0,
                },
            )) && final(aggregator)@ == (AggregatorView {
                snapshot: DiagnosticSnapshot { dropped_log_count: 0, ..old(aggregator)@.snapshot },
                slots: old(aggregator)@.slots,
                log: DiagLogView {
                    records: Seq::empty(),
                    next_sequence: old(aggregator)@.log.next_sequence,
                    dropped: 0,
                },
            }),
            AggregatorQuery::ProtocolErrors(count) => r == AggregatorResponse::Ack
                && final(aggregator)@ == (AggregatorView {
                snapshot: DiagnosticSnapshot {
                    protocol_error_count: count,
                    ..old(aggregator)@.snapshot
                },
                ..old(aggregator)@
            }),
        },
{
    match query {
        AggregatorQuery::Enqueue { pending, .. } => {
            let res = aggregator.reserve_and_enqueue(pending, enqueue);
            AggregatorResponse::Reserve(res)
        },
        AggregatorQuery::Status => AggregatorResponse::Status(aggregator.snapshot()),
        AggregatorQuery::LogGet { cursor, max_bytes } => {
            let mut payload: Vec<u8> = vec![0u8; LOG_RESPONSE_BUFFER_BYTES];
            let len = resolve_log_get(aggregator.log(), cursor, max_bytes, payload.as_mut_slice());
            let ghost full = payload@;
            payload.truncate(len);
            assert(payload@ =~= full.take(len as int));
            AggregatorResponse::Log(payload)
        },
        AggregatorQuery::LogClear => {
            let next_cursor = aggregator.clear_log();
            let mut payload: Vec<u8> = vec![0u8; LOG_RESPONSE_BUFFER_BYTES];
            let ghost header = LogResponseHeader { next_cursor, dropped_log_count: 0, record_count: 0 };
            proof {
                vstd::bytes::lemma_auto_spec_u32_to_from_le_bytes();
                vstd::bytes::lemma_auto_spec_u16_to_from_le_bytes();
            }
            assert(log_response_header_bytes(header).len() == 10);
            let written = encode_log_response_header(
                LogResponseHeader { next_cursor, dropped_log_count: 0, record_count: 0 },
                payload.as_mut_slice(),
            );
            let len: usize = match written {
                Ok(n) => n,
                Err(_) => 0,
            };
            let ghost full = payload@;
            payload.truncate(len);
            assert(payload@ =~= log_response_header_bytes(header));
            AggregatorResponse::Log(payload)
        },
        AggregatorQuery::ProtocolErrors(count) => {
            aggregator.set_protocol_error_count(count);
            AggregatorResponse::Ack
        },
    }
}

// ---------------------------------------------------------------------------
// Diagnostic console task
// ---------------------------------------------------------------------------

/// The response status for a completion committed by the aggregator.
pub fn completion_status(status: RuntimeCompletionStatus) -> (r: Status)
    ensures
        r == match status {
            RuntimeCompletionStatus::Success => Status::Success,
            RuntimeCompletionStatus::Error => Status::Error,
        },
{
    match status {
        RuntimeCompletionStatus::Success => Status::Success,
        RuntimeCompletionStatus::Error => Status::Error,
    }
}

/// The event that reports a command taken from the serial link.
pub fn protocol_command_event(command: &RuntimeCommand, timestamp_ms: u64) -> (r: RuntimeEvent)
    ensures
        r == (RuntimeEvent {
            timestamp_ms,
            kind: RuntimeEventKind::ProtocolCommand {
                opcode: command.header().opcode.to_u8(),
                sequence: command.header().sequence,
            },
        }),
{
    let header = command.header();
    RuntimeEvent {
        timestamp_ms,
        kind: RuntimeEventKind::ProtocolCommand {
            opcode: header.opcode.to_u8(),
            sequence: header.sequence,
        },
    }
}

/// The firmware probe a diagnostic probe command asks for.
pub open spec fn firmware_probe(kind: crate::fw::diag::DisplayProbeKind) -> DisplayProbeKind {
    match kind {
        crate::fw::diag::DisplayProbeKind::FullRefreshCurrent => DisplayProbeKind::FullRefreshCurrent,
        crate::fw::diag::DisplayProbeKind::ClearWhite => DisplayProbeKind::ClearWhite,
        crate::fw::diag::DisplayProbeKind::WindowCorners => DisplayProbeKind::WindowCorners,
    }
}

/// The display request a hardware command asks the display task for, its
/// completion tied to the command's sequence number; none for the crash
/// commands, which the display task does not serve.
pub fn display_request_for(pending: PendingCommand) -> (r: Option<DisplayRequest>)
    ensures
        r == match pending.action {
            PendingAction::RenderTurn { turn } => Some(
                DisplayRequest::Turn { turn, completion_sequence: Some(pending.header.sequence) },
            ),
            PendingAction::RenderPage { target_page } => Some(
                DisplayRequest::Goto {
                    page: target_page,
                    completion_sequence: pending.header.sequence,
                },
            ),
            PendingAction::DisplayProbe(probe) => Some(
                DisplayRequest::Probe {
                    kind: firmware_probe(probe),
                    completion_sequence: pending.header.sequence,
                },
            ),
            PendingAction::CrashGet | PendingAction::CrashClear => None,
        },
{
    match pending.action {
        PendingAction::RenderTurn { turn } => Some(
            DisplayRequest::Turn { turn, completion_sequence: Some(pending.header.sequence) },
        ),
        PendingAction::RenderPage { target_page } => Some(
            DisplayRequest::Goto { page: target_page, completion_sequence: pending.header.sequence },
        ),
        PendingAction::DisplayProbe(probe) => Some(
            DisplayRequest::Probe {
                kind: match probe {
                    crate::fw::diag::DisplayProbeKind::FullRefreshCurrent => {
                        DisplayProbeKind::FullRefreshCurrent
                    },
                    crate::fw::diag::DisplayProbeKind::ClearWhite => DisplayProbeKind::ClearWhite,
                    crate::fw::diag::DisplayProbeKind::WindowCorners => {
                        DisplayProbeKind::WindowCorners
                    },
                },
                completion_sequence: pending.header.sequence,
            },
        ),
        PendingAction::CrashGet | PendingAction::CrashClear => None,
    }
}

/// The status and payload that answer a crash-summary request, given what
/// reading the crash store gave: a flag byte, 1 and the stored summary's 128
/// bytes or 0 alone when none is stored; a read error answers
/// `InternalError` with no payload.
pub fn crash_get_response<E>(read: Result<Option<CrashSummary>, E>) -> (r: (Status, Vec<u8>))
    ensures
        r.0 == match read {
            Ok(_) => Status::Success,
            Err(_) => Status::InternalError,
        },
        r.1@ == match read {
            Ok(Some(summary)) => crash_response_bytes(Some(crash_bytes(summary))),
            Ok(None) => crash_response_bytes(None),
            Err(_) => Seq::<u8>::empty(),
        },
{
    match read {
        Ok(found) => {
            let mut payload: Vec<u8> = vec![0u8; 1 + CRASH_SUMMARY_BYTES];
            let written = match found {
                Some(summary) => {
                    let mut encoded = [0u8; CRASH_SUMMARY_BYTES];
                    summary.encode(&mut encoded);
                    encode_crash_response(Some(&encoded), payload.as_mut_slice())
                },
                None => encode_crash_response(None, payload.as_mut_slice()),
            };
            let len: usize = match written {
                Ok(n) => n,
                Err(_) => 0,
            };
            let ghost full = payload@;
            payload.truncate(len);
            assert(payload@ =~= full.take(len as int));
            (Status::Success, payload)
        },
        Err(_) => (Status::InternalError, Vec::new()),
    }
}

/// The status that answers a crash-clear request, and the failure to report
/// when clearing the store failed.
pub fn crash_clear_outcome(cleared: bool, current_page: u32, timestamp_ms: u64) -> (r: (
    Status,
    Option<RuntimeEvent>,
))
    ensures
        r == if cleared {
            (Status::Success, None::<RuntimeEvent>)
        } else {
            (
                Status::InternalError,
                Some(
                    RuntimeEvent {
                        timestamp_ms,
                        kind: RuntimeEventKind::DisplayFailure {
                            error: FirmwareError::Storage,
                            page: current_page,
                        },
                    },
                ),
            )
        },
{
    if cleared {
        (Status::Success, None)
    } else {
        (
            Status::InternalError,
            Some(
                RuntimeEvent {
                    timestamp_ms,
                    kind: RuntimeEventKind::DisplayFailure {
                        error: FirmwareError::Storage,
                        page: current_page,
                    },
                },
            ),
        )
    }
}

} // verus!
