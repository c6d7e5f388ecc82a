use binbook_x4::display::engine::DisplayEngine;
use binbook_x4::display::events::{
    CompletionStatus, DisplayRequest as EngineRequest, PageTurn as DisplayTurn,
};
use binbook_x4::display::probes::ProbeKind;
use binbook_x4::fw::async_refresh::{DisplayProbeKind, DisplayRequest, MODE_MENU, MODE_READING};
use binbook_x4::fw::diag::{PendingAction, PendingCommand, RuntimeCommand};
use binbook_x4::fw::diag_log::{CrashLogSlot, CrashSummary};
use binbook_x4::fw::error::FirmwareError;
use binbook_x4::fw::input::{Button, ButtonEvent, InputState, PageTurn};
use binbook_x4::fw::menu::{MenuState, Mode};
use binbook_x4::fw::runtime::{
    answer_query, completion_status, crash_clear_outcome, crash_get_response, display_request,
    display_request_for, initial_snapshot, input_step, plan_request, protocol_command_event,
    request_end_event, request_start_event, target_page_for_request, AggregatorQuery,
    AggregatorResponse, PendingEvents,
};
use binbook_x4::fw::runtime_aggregator::{ReserveError, RuntimeAggregator};
use binbook_x4::fw::runtime_engine::{
    RuntimeCompletionStatus, RuntimeEvent, RuntimeEventKind, RuntimeRequestKind,
};
use binbook_x4::protocol::{FrameHeader, FrameKind, Opcode, PanelModeCode, Status};

fn header(opcode: Opcode, sequence: u16) -> FrameHeader {
    FrameHeader { kind: FrameKind::Request, opcode, status: Status::Success, sequence, payload_len: 0 }
}

fn event(kind: RuntimeEventKind) -> RuntimeEvent {
    RuntimeEvent { timestamp_ms: 5, kind }
}

#[test]
fn menu_requests_reach_the_engine_as_a_goto_of_page_zero() {
    assert_eq!(display_request(DisplayRequest::MenuNext), EngineRequest::Goto { page: 0, sequence: 0 });
    assert_eq!(
        display_request(DisplayRequest::Turn { turn: PageTurn::Previous, completion_sequence: Some(4) }),
        EngineRequest::Turn { turn: DisplayTurn::Previous, sequence: Some(4) }
    );
    assert_eq!(
        display_request(DisplayRequest::Probe {
            kind: DisplayProbeKind::WindowCorners,
            completion_sequence: 9
        }),
        EngineRequest::Probe { kind: ProbeKind::WindowCorners, sequence: 9 }
    );
}

#[test]
fn request_targets_follow_the_engine_page() {
    let engine = DisplayEngine::new(3);
    let next = DisplayRequest::Turn { turn: PageTurn::Next, completion_sequence: None };
    assert_eq!(target_page_for_request(&engine, next), Some(1));
    let last = DisplayRequest::Turn { turn: PageTurn::Last, completion_sequence: None };
    assert_eq!(target_page_for_request(&engine, last), Some(2));
    assert_eq!(
        target_page_for_request(&engine, DisplayRequest::Goto { page: 7, completion_sequence: 1 }),
        Some(7)
    );
    assert_eq!(target_page_for_request(&engine, DisplayRequest::MenuBack), None);
    let start = request_start_event(&engine, next, 12);
    assert_eq!(
        start,
        RuntimeEvent {
            timestamp_ms: 12,
            kind: RuntimeEventKind::DisplayRequestStart {
                kind: RuntimeRequestKind::Turn,
                current_page: 0,
                target_page: Some(1),
            },
        }
    );
}

#[test]
fn menu_arrows_move_the_selection_and_redraw() {
    let mut menu = MenuState::new(3);
    let plan = plan_request(&mut menu, 3, DisplayRequest::MenuNext, 5);
    assert_eq!(menu.selected(), 1);
    assert!(plan.cancel_overlay && plan.show_menu);
    assert_eq!(plan.mode, None);
    assert_eq!(
        plan.events,
        vec![
            event(RuntimeEventKind::RequestReceive {
                kind: RuntimeRequestKind::MenuNext,
                sequence: None,
                queue_age_ms: None,
            }),
            event(RuntimeEventKind::MenuTransition),
        ]
    );
    plan_request(&mut menu, 3, DisplayRequest::MenuPrev, 5);
    plan_request(&mut menu, 3, DisplayRequest::MenuPrev, 5);
    assert_eq!(menu.selected(), 2);
}

#[test]
fn select_opens_a_named_entry_only() {
    let mut menu = MenuState::new(2);
    let plan = plan_request(&mut menu, 1, DisplayRequest::MenuSelect, 5);
    assert_eq!(plan.mode, Some(MODE_READING));
    assert!(plan.cancel_overlay && !plan.show_menu);
    assert_eq!(plan.events[1], event(RuntimeEventKind::ModeChange { mode: Mode::Reading }));
    assert_eq!(plan.events[2], event(RuntimeEventKind::BookOpen { name_index: 0 }));
    let plan = plan_request(&mut menu, 0, DisplayRequest::MenuSelect, 5);
    assert_eq!(plan.mode, None);
    assert!(!plan.cancel_overlay);
    assert_eq!(plan.events.len(), 1);
}

#[test]
fn back_returns_to_the_menu_and_turns_are_reported_as_queued() {
    let mut menu = MenuState::new(2);
    let plan = plan_request(&mut menu, 2, DisplayRequest::MenuBack, 5);
    assert_eq!(plan.mode, Some(MODE_MENU));
    assert!(plan.cancel_overlay && plan.show_menu);
    assert_eq!(plan.events[1], event(RuntimeEventKind::ModeChange { mode: Mode::Menu }));
    let turn = DisplayRequest::Turn { turn: PageTurn::Next, completion_sequence: Some(3) };
    let plan = plan_request(&mut menu, 2, turn, 5);
    assert!(!plan.cancel_overlay && !plan.show_menu);
    assert_eq!(
        plan.events[1],
        event(RuntimeEventKind::TurnQueued { sequence: Some(3), turn: PageTurn::Next })
    );
    let plan = plan_request(&mut menu, 2, DisplayRequest::Goto { page: 1, completion_sequence: 8 }, 5);
    assert_eq!(plan.events.len(), 1);
}

#[test]
fn request_durations_saturate() {
    let end = request_end_event(RuntimeRequestKind::Goto, 100, 40, CompletionStatus::Success);
    assert_eq!(
        end.kind,
        RuntimeEventKind::DisplayRequestEnd {
            kind: RuntimeRequestKind::Goto,
            duration_ms: 0,
            status: RuntimeCompletionStatus::Success,
        }
    );
    let end = request_end_event(RuntimeRequestKind::Turn, 0, u64::MAX, CompletionStatus::Error);
    assert_eq!(
        end.kind,
        RuntimeEventKind::DisplayRequestEnd {
            kind: RuntimeRequestKind::Turn,
            duration_ms: u32::MAX,
            status: RuntimeCompletionStatus::Error,
        }
    );
    let end = request_end_event(RuntimeRequestKind::Probe, 10, 35, CompletionStatus::Success);
    assert_eq!(end.timestamp_ms, 35);
    assert!(matches!(end.kind, RuntimeEventKind::DisplayRequestEnd { duration_ms: 25, .. }));
}

#[test]
fn pending_events_wait_behind_each_other() {
    let mut pending = PendingEvents::new();
    let first = event(RuntimeEventKind::MenuTransition);
    let second = event(RuntimeEventKind::GrayStarted { page: 1 });
    // The channel takes the first event.
    pending.push(first, |_| None);
    assert_eq!(pending.len(), 0);
    // The channel is full: the event is held back.
    pending.push(first, |e| Some(e));
    assert_eq!(pending.len(), 1);
    // Once one event waits, the next one waits behind it without trying.
    pending.push(second, |_| panic!("the channel is not offered an event while others wait"));
    assert_eq!(pending.take(), Some(first));
    assert_eq!(pending.take(), Some(second));
    assert_eq!(pending.take(), None);
}

#[test]
fn pending_events_wrap_around_the_ring() {
    let mut pending = PendingEvents::new();
    for round in 0..3u32 {
        for page in 0..32u32 {
            pending.buffer(event(RuntimeEventKind::GrayStarted { page: round * 100 + page }));
        }
        assert_eq!(pending.len(), 32);
        for page in 0..20u32 {
            assert_eq!(
                pending.take(),
                Some(event(RuntimeEventKind::GrayStarted { page: round * 100 + page }))
            );
        }
        while pending.take().is_some() {}
    }
}

#[test]
fn input_step_reports_transitions_and_turns() {
    let mut state = InputState::new();
    // Right on the first channel, long after the last press.
    let step = input_step(&mut state, 100, 4095, 1000, 42);
    assert_eq!(step.press, Some(ButtonEvent::Press(Button::Right)));
    assert_eq!(step.turn, Some(PageTurn::Next));
    assert_eq!(
        step.transition,
        Some(RuntimeEvent {
            timestamp_ms: 42,
            kind: RuntimeEventKind::InputTransition { ch1: 100, ch2: 4095, observed: Some(Button::Right) },
        })
    );
    // Held: no change, no press.
    let step = input_step(&mut state, 100, 4095, 1050, 43);
    assert_eq!(step.transition, None);
    assert_eq!(step.press, None);
    // Released, then Select within the cooldown: a transition but no press.
    input_step(&mut state, 4095, 4095, 1060, 44);
    let step = input_step(&mut state, 2500, 4095, 1080, 45);
    assert!(step.transition.is_some());
    assert_eq!(step.press, None);
    assert_eq!(step.turn, None);
    // Select after the cooldown is a press but no turn.
    input_step(&mut state, 4095, 4095, 1200, 46);
    let step = input_step(&mut state, 2500, 4095, 1400, 47);
    assert_eq!(step.press, Some(ButtonEvent::Press(Button::Select)));
    assert_eq!(step.turn, None);
}

#[test]
fn aggregator_answers_queries() {
    let mut agg: RuntimeAggregator<2, 16> = RuntimeAggregator::new(initial_snapshot(5));
    assert_eq!(agg.snapshot().panel_mode, PanelModeCode::Unknown);
    match answer_query(&mut agg, AggregatorQuery::Status, || true) {
        AggregatorResponse::Status(s) => {
            assert_eq!(s.page_count, 5);
            assert_eq!(s.current_page, 0);
        }
        other => panic!("unexpected {other:?}"),
    }
    let pending = PendingCommand {
        header: header(Opcode::Page, 21),
        action: PendingAction::RenderPage { target_page: 2 },
    };
    let request = DisplayRequest::Goto { page: 2, completion_sequence: 21 };
    let response = answer_query(&mut agg, AggregatorQuery::Enqueue { pending, request }, || true);
    assert!(matches!(response, AggregatorResponse::Reserve(Ok(()))));
    let response = answer_query(&mut agg, AggregatorQuery::Enqueue { pending, request }, || true);
    assert!(matches!(response, AggregatorResponse::Reserve(Err(ReserveError::DuplicateSequence))));
    assert_eq!(agg.pending_len(), 1);
    let other = PendingCommand { header: header(Opcode::Page, 22), ..pending };
    let response = answer_query(&mut agg, AggregatorQuery::Enqueue { pending: other, request }, || false);
    assert!(matches!(response, AggregatorResponse::Reserve(Err(ReserveError::EnqueueFailed))));
    assert_eq!(agg.pending_len(), 1);

    assert!(matches!(answer_query(&mut agg, AggregatorQuery::ProtocolErrors(3), || true), AggregatorResponse::Ack));
    assert_eq!(agg.snapshot().protocol_error_count, 3);

    agg.commit(event(RuntimeEventKind::FirmwareStarted { page_count: 5 }));
    match answer_query(&mut agg, AggregatorQuery::LogGet { cursor: 0, max_bytes: 100 }, || true) {
        AggregatorResponse::Log(payload) => {
            // A header of 10 bytes and one record of 24.
            assert_eq!(payload.len(), 34);
            assert_eq!(&payload[8..10], &[1, 0]);
        }
        other => panic!("unexpected {other:?}"),
    }
    match answer_query(&mut agg, AggregatorQuery::LogClear, || true) {
        AggregatorResponse::Log(payload) => {
            assert_eq!(payload, vec![1, 0, 0, 0, 0, 0, 0, 0, 0, 0]);
        }
        other => panic!("unexpected {other:?}"),
    }
    assert_eq!(agg.log().record_count(), 0);
}

#[test]
fn console_maps_commands_and_outcomes() {
    assert_eq!(completion_status(RuntimeCompletionStatus::Success), Status::Success);
    assert_eq!(completion_status(RuntimeCompletionStatus::Error), Status::Error);
    let command = RuntimeCommand::LogClear { header: header(Opcode::LogClear, 77) };
    assert_eq!(
        protocol_command_event(&command, 9),
        RuntimeEvent {
            timestamp_ms: 9,
            kind: RuntimeEventKind::ProtocolCommand { opcode: Opcode::LogClear.to_u8(), sequence: 77 },
        }
    );
    let turn = PendingCommand {
        header: header(Opcode::Key, 4),
        action: PendingAction::RenderTurn { turn: PageTurn::Previous },
    };
    assert_eq!(
        display_request_for(turn),
        Some(DisplayRequest::Turn { turn: PageTurn::Previous, completion_sequence: Some(4) })
    );
    let probe = PendingCommand {
        header: header(Opcode::DisplayProbe, 6),
        action: PendingAction::DisplayProbe(binbook_x4::fw::diag::DisplayProbeKind::ClearWhite),
    };
    assert_eq!(
        display_request_for(probe),
        Some(DisplayRequest::Probe { kind: DisplayProbeKind::ClearWhite, completion_sequence: 6 })
    );
    let crash = PendingCommand { header: header(Opcode::CrashGet, 7), action: PendingAction::CrashGet };
    assert_eq!(display_request_for(crash), None);
}

#[test]
fn crash_commands_answer_from_the_store() {
    let summary = CrashSummary {
        flags: 1,
        copied_log_count: 0,
        panel_mode: 2,
        boot_counter: 3,
        last_error: -1,
        last_page: 4,
        last_log_sequence: 5,
        records: [CrashLogSlot::default(); 4],
    };
    let (status, payload) = crash_get_response::<()>(Ok(Some(summary)));
    assert_eq!(status, Status::Success);
    assert_eq!(payload.len(), 129);
    assert_eq!(payload[0], 1);
    let mut encoded = [0u8; 128];
    summary.encode(&mut encoded);
    assert_eq!(&payload[1..], &encoded[..]);
    assert_eq!(crash_get_response::<()>(Ok(None)), (Status::Success, vec![0]));
    assert_eq!(crash_get_response(Err(())), (Status::InternalError, vec![]));
    assert_eq!(crash_clear_outcome(true, 3, 1), (Status::Success, None));
    assert_eq!(
        crash_clear_outcome(false, 3, 1),
        (
            Status::InternalError,
            Some(RuntimeEvent {
                timestamp_ms: 1,
                kind: RuntimeEventKind::DisplayFailure { error: FirmwareError::Storage, page: 3 },
            })
        )
    );
}
