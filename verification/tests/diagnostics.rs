use binbook_x4::display::events::{
    CompletionStatus, DisplayCompletion, DisplayEvent, DisplayEventKind, PageTurn as Turn,
};
use binbook_x4::display::probes::ProbeKind;
use binbook_x4::fw::async_refresh::DisplayProbeKind as RuntimeProbeKind;
use binbook_x4::fw::diag::{
    complete_pending_command, dispatch_command, poll_pending_command, poll_runtime_command,
    resolve_log_clear, resolve_log_get, CommandContext, DiagnosticLoopState,
    DiagnosticPendingQueue, DiagnosticSnapshot, DispatchResult, DisplayProbeKind, PendingAction,
    PendingCommand, RuntimeCommand, SerialState, TransportError,
};
use binbook_x4::fw::diag_log::{
    crc32_ieee, CrashLogSlot, CrashSummary, CrashSummaryError, DiagDeduper, DiagEvent, DiagLog,
    DiagLogRecord, EVT_CMD_ERROR, EVT_CMD_RECEIPT, EVT_IDLE_ENTERED, EVT_IDLE_LEFT,
    EVT_IDLE_SUMMARY, EVT_KEY_PRESS, EVT_PAGE_DECISION,
};
use binbook_x4::fw::input::PageTurn;
use binbook_x4::fw::runtime_aggregator::{ReserveError, RuntimeAggregator};
use binbook_x4::fw::runtime_engine::{
    map_display_event, queue_age_ms, request_sequence, RuntimeCompletion,
    RuntimeCompletionStatus, RuntimeEvent, RuntimeEventKind,
};
use binbook_x4::protocol::frame::{decode_frame, encode_frame};
use binbook_x4::protocol::{
    FrameHeader, FrameKind, Opcode, PanelModeCode, Status, MAX_FRAME_BYTES, MAX_PAYLOAD_BYTES,
};

fn event(code: u16, arg0: i32) -> DiagEvent {
    DiagEvent { level: 2, subsystem: 1, event: code, arg0, arg1: 0, arg2: 0 }
}

fn request(opcode: Opcode, sequence: u16, payload_len: u16) -> FrameHeader {
    FrameHeader {
        kind: FrameKind::Request,
        opcode,
        status: Status::Success,
        sequence,
        payload_len,
    }
}

fn wire_request(opcode: Opcode, sequence: u16, payload: &[u8]) -> Vec<u8> {
    let header = request(opcode, sequence, payload.len() as u16);
    let mut out = vec![0u8; MAX_FRAME_BYTES];
    let n = encode_frame(&header, payload, &mut out).unwrap();
    out.truncate(n);
    out
}

fn decode_response(bytes: &[u8]) -> (FrameHeader, Vec<u8>) {
    let mut payload = vec![0u8; MAX_PAYLOAD_BYTES];
    let (header, n) = decode_frame(bytes, &mut payload).unwrap();
    payload.truncate(n);
    (header, payload)
}

fn snapshot() -> DiagnosticSnapshot {
    DiagnosticSnapshot {
        current_page: 1,
        page_count: 3,
        panel_mode: PanelModeCode::Bw,
        dropped_log_count: 0,
        protocol_error_count: 0,
        last_error: 0,
    }
}

#[test]
fn crc32_matches_the_ieee_check_value() {
    assert_eq!(crc32_ieee(b"123456789"), 0xCBF4_3926);
    assert_eq!(crc32_ieee(b""), 0);
}

fn sample_summary() -> CrashSummary {
    let mut records = [CrashLogSlot::default(); 4];
    records[2] = CrashLogSlot {
        sequence: 9,
        tick_ms: 1234,
        level: 4,
        subsystem: 1,
        event: 0x0800,
        arg0: -3,
        arg1: 7,
        arg2: 0,
    };
    CrashSummary {
        flags: 1,
        copied_log_count: 3,
        panel_mode: 2,
        boot_counter: 17,
        last_error: -4,
        last_page: 42,
        last_log_sequence: 99,
        records,
    }
}

#[test]
fn crash_summary_round_trips() {
    let summary = sample_summary();
    let mut buf = [0u8; 128];
    summary.encode(&mut buf);
    assert_eq!(&buf[0..4], b"BBCR");
    assert_eq!(buf[4], 1);
    assert_eq!(CrashSummary::decode(&buf), Ok(Some(summary)));
}

#[test]
fn crash_summary_rejects_damage() {
    let mut buf = [0u8; 128];
    sample_summary().encode(&mut buf);
    let mut bad_crc = buf;
    bad_crc[50] ^= 1;
    assert_eq!(CrashSummary::decode(&bad_crc), Err(CrashSummaryError::BadCrc));
    let mut bad_magic = buf;
    bad_magic[0] = b'X';
    assert_eq!(CrashSummary::decode(&bad_magic), Err(CrashSummaryError::BadMagic));
    assert_eq!(CrashSummary::decode(&buf[..100]), Err(CrashSummaryError::BadMagic));
    assert_eq!(CrashSummary::decode(&[0xFF; 128]), Ok(None));
    assert_eq!(CrashSummary::decode(&[0xFF; 12]), Ok(None));
}

#[test]
fn log_numbers_records_and_drops_the_oldest() {
    let mut log: DiagLog<3> = DiagLog::new();
    assert_eq!(log.oldest_sequence(), None);
    for i in 0..5 {
        assert_eq!(log.push(100 + i, event(0x0300, i as i32)), i);
    }
    assert_eq!(log.record_count(), 3);
    assert_eq!(log.dropped_records(), 2);
    assert_eq!(log.oldest_sequence(), Some(2));
    assert_eq!(log.newest_sequence(), Some(4));
    assert_eq!(log.next_sequence(), 5);

    let mut out = [DiagLogRecord::default(); 8];
    let result = log.read_from_sequence(0, &mut out);
    assert_eq!(result.record_count, 3);
    assert_eq!(result.next_cursor, 5);
    assert_eq!(result.dropped_log_count, 2);
    assert_eq!(out[0].sequence, 2);
    assert_eq!(out[0].tick_ms, 102);
    assert_eq!(out[2].sequence, 4);
    assert_eq!(out[3], DiagLogRecord::default());

    let mut small = [DiagLogRecord::default(); 1];
    let result = log.read_from_sequence(3, &mut small);
    assert_eq!(result.record_count, 1);
    assert_eq!(result.next_cursor, 4);
    assert_eq!(small[0].arg0, 3);

    let result = log.read_from_sequence(7, &mut small);
    assert_eq!(result.record_count, 0);
    assert_eq!(result.next_cursor, 5);

    let mut slots = [CrashLogSlot::default(); 2];
    assert_eq!(log.copy_recent_crash_slots(&mut slots), 2);
    assert_eq!(slots[0].sequence, 3);
    assert_eq!(slots[1].sequence, 4);

    log.clear();
    assert_eq!(log.record_count(), 0);
    assert_eq!(log.dropped_records(), 0);
    assert_eq!(log.next_sequence(), 5);
    assert_eq!(log.push(0, event(1, 0)), 5);
}

#[test]
fn deduper_summarises_idle_ticks() {
    let mut log: DiagLog<16> = DiagLog::new();
    let mut dedup = DiagDeduper::new();
    dedup.push_enter_idle(&mut log, 1000);
    dedup.push_idle_tick(&mut log, 2000);
    dedup.push_idle_tick(&mut log, 3000);
    assert_eq!(log.record_count(), 1);
    dedup.push_idle_tick(&mut log, 6000);
    dedup.push_leave_idle(&mut log, 6500);
    let mut out = [DiagLogRecord::default(); 4];
    let result = log.read_from_sequence(0, &mut out);
    assert_eq!(result.record_count, 3);
    assert_eq!(out[0].event, EVT_IDLE_ENTERED);
    assert_eq!(out[1].event, EVT_IDLE_SUMMARY);
    assert_eq!(out[1].arg0, 2);
    assert_eq!(out[2].event, EVT_IDLE_LEFT);
    assert_eq!(out[2].arg0, 0);
}

#[test]
fn pending_queue_is_first_in_first_out() {
    let mut queue: DiagnosticPendingQueue<2> = DiagnosticPendingQueue::new();
    let a = PendingCommand { header: request(Opcode::CrashGet, 1, 0), action: PendingAction::CrashGet };
    let b = PendingCommand {
        header: request(Opcode::CrashClear, 2, 0),
        action: PendingAction::CrashClear,
    };
    assert_eq!(queue.try_push(a), Ok(()));
    assert_eq!(queue.try_push(b), Ok(()));
    assert_eq!(queue.try_push(a), Err(a));
    assert_eq!(queue.front(), Some(a));
    assert_eq!(queue.pop(), Some(a));
    assert_eq!(queue.try_push(a), Ok(()));
    assert_eq!(queue.pop(), Some(b));
    assert_eq!(queue.pop(), Some(a));
    assert_eq!(queue.pop(), None);
    assert_eq!(queue.len(), 0);
}

#[test]
fn loop_state_reports_a_full_queue() {
    let mut state: DiagnosticLoopState<1, 8> = DiagnosticLoopState::new(snapshot(), DiagLog::new());
    let a = PendingCommand { header: request(Opcode::CrashGet, 1, 0), action: PendingAction::CrashGet };
    assert_eq!(state.enqueue_pending_with_status(a), Status::Success);
    assert_eq!(state.enqueue_pending_with_status(a), Status::Error);
    assert_eq!(state.pending_len(), 1);
    assert_eq!(state.complete_pending(), Some(a));
    assert_eq!(state.status_payload().current_page, 1);
}

#[test]
fn serial_splits_frames_at_delimiters() {
    let mut serial = SerialState::new();
    let feed = serial.feed_rx(&[1, 2, 0, 3, 0, 4]);
    assert_eq!(feed.consumed, 6);
    assert!(feed.frame_ready);
    let mut out = [0u8; MAX_FRAME_BYTES];
    assert_eq!(serial.next_frame(&mut out), Some(3));
    assert_eq!(&out[..3], &[1, 2, 0]);
    assert_eq!(serial.next_frame(&mut out), Some(2));
    assert_eq!(&out[..2], &[3, 0]);
    assert_eq!(serial.next_frame(&mut out), None);
    assert!(!serial.feed_rx(&[5]).frame_ready);
}

#[test]
fn serial_drops_oversized_frames() {
    let mut serial = SerialState::new();
    let long = vec![7u8; MAX_FRAME_BYTES];
    serial.feed_rx(&long);
    serial.feed_rx(&[0, 9, 0]);
    let mut out = [0u8; MAX_FRAME_BYTES];
    assert_eq!(serial.next_frame(&mut out), Some(2));
    assert_eq!(&out[..2], &[9, 0]);
    assert_eq!(serial.protocol_error_count(), 1);
}

#[test]
fn serial_overflow_discards_until_the_next_delimiter() {
    let mut serial = SerialState::new();
    let fill = vec![1u8; 8252];
    serial.feed_rx(&fill);
    let feed = serial.feed_rx(&[2, 0, 3, 0]);
    assert!(feed.frame_ready);
    assert_eq!(serial.protocol_error_count(), 1);
    let mut out = [0u8; MAX_FRAME_BYTES];
    assert_eq!(serial.next_frame(&mut out), Some(2));
    assert_eq!(&out[..2], &[3, 0]);
}

#[test]
fn serial_transmit_buffer_queues_and_consumes() {
    let mut serial = SerialState::new();
    assert_eq!(serial.queue_tx(&[1, 2, 3]), Ok(()));
    assert_eq!(serial.queue_tx(&[4]), Ok(()));
    assert_eq!(serial.pending_tx(), &[1, 2, 3, 4]);
    serial.consume_tx(3);
    assert_eq!(serial.pending_tx(), &[4]);
    let big = vec![0u8; MAX_FRAME_BYTES];
    assert_eq!(serial.queue_tx(&big), Err(TransportError::BufferFull));
    serial.consume_tx(10);
    assert!(serial.pending_tx().is_empty());
}

fn context() -> CommandContext {
    CommandContext::new(1, 3, -2, 2)
}

#[test]
fn dispatch_answers_hello_and_status() {
    let mut ctx = context();
    assert_eq!(ctx.panel_mode, PanelModeCode::Bw);
    let mut resp = [0u8; 64];
    let r = dispatch_command(request(Opcode::Hello, 1, 0), &[], &mut ctx, &mut resp);
    assert_eq!(r, DispatchResult::Response { status: Status::Success, payload_len: 28 });
    assert_eq!(resp[0], 2);
    assert_eq!(&resp[8..18], b"binbook-fw");
    assert_eq!(&resp[19..28], b"xteink-x4");
    let r = dispatch_command(request(Opcode::Status, 2, 0), &[], &mut ctx, &mut resp);
    assert_eq!(r, DispatchResult::Response { status: Status::Success, payload_len: 21 });
    assert_eq!(&resp[0..8], &[1, 0, 0, 0, 3, 0, 0, 0]);
    let mut tiny = [0u8; 4];
    let r = dispatch_command(request(Opcode::Status, 3, 0), &[], &mut ctx, &mut tiny);
    assert_eq!(r, DispatchResult::Response { status: Status::InternalError, payload_len: 0 });
}

#[test]
fn dispatch_turns_keys_and_pages_into_renders() {
    let mut ctx = context();
    let mut resp = [0u8; 8];
    assert_eq!(
        dispatch_command(request(Opcode::Key, 1, 2), &[4, 1], &mut ctx, &mut resp),
        DispatchResult::RenderTurn { turn: PageTurn::Next }
    );
    assert_eq!(
        dispatch_command(request(Opcode::Key, 1, 2), &[4, 2], &mut ctx, &mut resp),
        DispatchResult::NoAction
    );
    assert_eq!(
        dispatch_command(request(Opcode::Key, 1, 2), &[5, 1], &mut ctx, &mut resp),
        DispatchResult::NoAction
    );
    assert_eq!(
        dispatch_command(request(Opcode::Key, 1, 2), &[9, 1], &mut ctx, &mut resp),
        DispatchResult::Response { status: Status::BadRequest, payload_len: 0 }
    );
    assert_eq!(
        dispatch_command(request(Opcode::Page, 2, 5), &[5, 2, 0, 0, 0], &mut ctx, &mut resp),
        DispatchResult::RenderPage { target_page: 2 }
    );
    assert_eq!(
        dispatch_command(request(Opcode::Page, 2, 5), &[5, 3, 0, 0, 0], &mut ctx, &mut resp),
        DispatchResult::Response { status: Status::BadRequest, payload_len: 0 }
    );
    assert_eq!(
        dispatch_command(request(Opcode::Page, 2, 1), &[6], &mut ctx, &mut resp),
        DispatchResult::NoAction
    );
    assert_eq!(
        dispatch_command(request(Opcode::Page, 2, 1), &[4], &mut ctx, &mut resp),
        DispatchResult::RenderPage { target_page: 2 }
    );
}

#[test]
fn dispatch_hands_on_log_crash_and_probe_requests() {
    let mut ctx = context();
    let mut resp = [0u8; 8];
    assert_eq!(
        dispatch_command(request(Opcode::LogGet, 1, 6), &[5, 0, 0, 0, 100, 0], &mut ctx, &mut resp),
        DispatchResult::LogGet { cursor: 5, max_bytes: 100 }
    );
    assert_eq!(
        dispatch_command(request(Opcode::DisplayProbe, 1, 1), &[3], &mut ctx, &mut resp),
        DispatchResult::DisplayProbe(DisplayProbeKind::WindowCorners)
    );
    assert_eq!(
        dispatch_command(request(Opcode::CrashGet, 1, 0), &[], &mut ctx, &mut resp),
        DispatchResult::CrashGet
    );
    assert_eq!(
        dispatch_command(request(Opcode::StoreList, 1, 0), &[], &mut ctx, &mut resp),
        DispatchResult::Response { status: Status::Unsupported, payload_len: 0 }
    );
    let mut response_header = request(Opcode::Hello, 1, 0);
    response_header.kind = FrameKind::Response;
    assert_eq!(
        dispatch_command(response_header, &[], &mut ctx, &mut resp),
        DispatchResult::Response { status: Status::BadRequest, payload_len: 0 }
    );
}

#[test]
fn log_get_returns_whole_records_within_the_budget() {
    let mut log: DiagLog<8> = DiagLog::new();
    for i in 0..3 {
        log.push(10 * i, event(0x0301, i as i32));
    }
    let mut resp = [0u8; 100];
    let n = resolve_log_get(&log, 0, 60, &mut resp);
    assert_eq!(n, 10 + 2 * 24);
    assert_eq!(&resp[0..4], &[2, 0, 0, 0]);
    assert_eq!(&resp[8..10], &[2, 0]);
    assert_eq!(&resp[10..14], &[0, 0, 0, 0]);
    assert_eq!(&resp[34..38], &[1, 0, 0, 0]);
    assert_eq!(resolve_log_get(&log, 0, 9, &mut resp), 0);
    let n = resolve_log_get(&log, 1, 20, &mut resp);
    assert_eq!(n, 10);
    assert_eq!(&resp[0..4], &[1, 0, 0, 0]);
    assert_eq!(&resp[8..10], &[0, 0]);
    let (next, dropped) = resolve_log_clear(&mut log);
    assert_eq!((next, dropped), (3, 0));
}

#[test]
fn pending_poll_answers_status_at_once_and_logs_the_receipt() {
    let mut serial = SerialState::new();
    let mut log: DiagLog<8> = DiagLog::new();
    serial.feed_rx(&wire_request(Opcode::Status, 7, &[]));
    let pending = poll_pending_command(&mut serial, 1, 3, 0, 2, &mut log, 50);
    assert_eq!(pending, None);
    let (header, payload) = decode_response(serial.pending_tx());
    assert_eq!(header.kind, FrameKind::Response);
    assert_eq!(header.sequence, 7);
    assert_eq!(header.status, Status::Success);
    assert_eq!(payload.len(), 21);
    assert_eq!(payload[8], 2);
    let mut out = [DiagLogRecord::default(); 4];
    let read = log.read_from_sequence(0, &mut out);
    assert_eq!(read.record_count, 1);
    assert_eq!(out[0].event, EVT_CMD_RECEIPT);
    assert_eq!(out[0].arg1, 7);
}

#[test]
fn pending_poll_hands_page_turns_to_the_hardware() {
    let mut serial = SerialState::new();
    let mut log: DiagLog<8> = DiagLog::new();
    serial.feed_rx(&wire_request(Opcode::Key, 3, &[2, 1]));
    let pending = poll_pending_command(&mut serial, 0, 3, 0, 2, &mut log, 5).unwrap();
    assert_eq!(pending.action, PendingAction::RenderTurn { turn: PageTurn::Next });
    assert!(serial.pending_tx().is_empty());
    let mut out = [DiagLogRecord::default(); 4];
    log.read_from_sequence(0, &mut out);
    assert_eq!(out[1].event, EVT_KEY_PRESS);
    assert_eq!(out[1].arg0, 2);

    assert_eq!(complete_pending_command(&mut serial, pending, Status::Success, 1, &[]), Ok(()));
    let (header, payload) = decode_response(serial.pending_tx());
    assert_eq!(header.opcode, Opcode::Key);
    assert!(payload.is_empty());
}

#[test]
fn pending_poll_logs_page_decisions_and_errors() {
    let mut serial = SerialState::new();
    let mut log: DiagLog<8> = DiagLog::new();
    serial.feed_rx(&wire_request(Opcode::Page, 4, &[5, 9, 0, 0, 0]));
    assert_eq!(poll_pending_command(&mut serial, 1, 3, 0, 2, &mut log, 5), None);
    let (header, _) = decode_response(serial.pending_tx());
    assert_eq!(header.status, Status::BadRequest);
    let mut out = [DiagLogRecord::default(); 4];
    let read = log.read_from_sequence(0, &mut out);
    assert_eq!(read.record_count, 3);
    assert_eq!(out[1].event, EVT_PAGE_DECISION);
    assert_eq!(out[1].arg1, 1);
    assert_eq!(out[2].event, EVT_CMD_ERROR);
    assert_eq!(out[2].arg1, 2);
}

#[test]
fn page_completion_reports_the_resulting_page() {
    let mut serial = SerialState::new();
    let pending = PendingCommand {
        header: request(Opcode::Page, 9, 1),
        action: PendingAction::RenderPage { target_page: 2 },
    };
    assert_eq!(complete_pending_command(&mut serial, pending, Status::Success, 2, &[]), Ok(()));
    let (header, payload) = decode_response(serial.pending_tx());
    assert_eq!(header.sequence, 9);
    assert_eq!(payload, vec![2, 0, 0, 0]);
    let big = vec![0u8; MAX_PAYLOAD_BYTES + 1];
    let crash = PendingCommand { header: request(Opcode::CrashGet, 1, 0), action: PendingAction::CrashGet };
    assert_eq!(
        complete_pending_command(&mut serial, crash, Status::Success, 0, &big),
        Err(TransportError::BufferFull)
    );
}

#[test]
fn unknown_opcodes_are_refused_and_counted() {
    let mut serial = SerialState::new();
    let mut log: DiagLog<8> = DiagLog::new();
    let header = binbook_x4::protocol::RawFrameHeader {
        kind: 1,
        opcode: 0x40,
        status: 0,
        sequence: 5,
        payload_len: 0,
    };
    let mut wire = vec![0u8; MAX_FRAME_BYTES];
    let n = binbook_x4::protocol::frame::encode_raw_frame(&header, &[], &mut wire).unwrap();
    serial.feed_rx(&wire[..n]);
    assert_eq!(poll_pending_command(&mut serial, 0, 1, 0, 0, &mut log, 0), None);
    assert_eq!(serial.protocol_error_count(), 1);
    assert_eq!(log.record_count(), 0);
    let mut payload = vec![0u8; 16];
    let (raw, _) = binbook_x4::protocol::frame::decode_raw_frame(serial.pending_tx(), &mut payload)
        .unwrap();
    assert_eq!(raw.kind, 2);
    assert_eq!(raw.opcode, 0x40);
    assert_eq!(raw.status, 2);
}

#[test]
fn runtime_poll_returns_commands_without_touching_state() {
    let mut serial = SerialState::new();
    serial.feed_rx(&wire_request(Opcode::Page, 1, &[6]));
    match poll_runtime_command(&mut serial, snapshot()) {
        Some(RuntimeCommand::Immediate { header, status, payload, payload_len }) => {
            assert_eq!(header.sequence, 1);
            assert_eq!(status, Status::Success);
            assert_eq!(payload_len, 4);
            assert_eq!(&payload[..4], &[1, 0, 0, 0]);
        }
        other => panic!("unexpected {:?}", other.map(|c| c.header())),
    }
    serial.feed_rx(&wire_request(Opcode::LogClear, 2, &[]));
    assert_eq!(
        poll_runtime_command(&mut serial, snapshot()),
        Some(RuntimeCommand::LogClear { header: request(Opcode::LogClear, 2, 0) })
    );
    assert!(serial.pending_tx().is_empty());
}

fn completion_event(sequence: u16, ok: bool) -> RuntimeEvent {
    RuntimeEvent {
        timestamp_ms: 77,
        kind: RuntimeEventKind::Completion(RuntimeCompletion {
            sequence: Some(sequence),
            status: if ok {
                RuntimeCompletionStatus::Success
            } else {
                RuntimeCompletionStatus::Error
            },
            page: 2,
            error: None,
        }),
    }
}

#[test]
fn aggregator_holds_commands_until_their_completion() {
    let mut agg: RuntimeAggregator<2, 16> = RuntimeAggregator::new(snapshot());
    let a = PendingCommand {
        header: request(Opcode::Page, 11, 1),
        action: PendingAction::RenderPage { target_page: 2 },
    };
    let b = PendingCommand { header: request(Opcode::CrashGet, 12, 0), action: PendingAction::CrashGet };
    assert_eq!(agg.reserve(a), Ok(()));
    assert_eq!(agg.reserve(a), Err(ReserveError::DuplicateSequence));
    assert_eq!(agg.reserve(b), Ok(()));
    let c = PendingCommand { header: request(Opcode::CrashClear, 13, 0), action: PendingAction::CrashClear };
    assert_eq!(agg.reserve(c), Err(ReserveError::Full));
    assert_eq!(agg.pending_len(), 2);
    assert_eq!(agg.reserve_and_enqueue(c, || true), Err(ReserveError::Full));
    assert_eq!(agg.cancel(12), Some(b));
    assert_eq!(agg.reserve_and_enqueue(c, || false), Err(ReserveError::EnqueueFailed));
    assert_eq!(agg.pending_len(), 1);

    let committed = agg.commit(completion_event(11, true)).unwrap();
    assert_eq!(committed.pending, a);
    assert_eq!(committed.snapshot.current_page, 2);
    assert_eq!(committed.log_sequence, Some(0));
    assert_eq!(agg.pending_len(), 0);
    assert_eq!(agg.commit(completion_event(11, true)), None);
    assert_eq!(agg.log().record_count(), 2);
}

#[test]
fn aggregator_records_failures_in_the_snapshot() {
    let mut agg: RuntimeAggregator<2, 16> = RuntimeAggregator::new(snapshot());
    agg.commit(RuntimeEvent {
        timestamp_ms: u64::MAX,
        kind: RuntimeEventKind::DisplayFailure {
            error: binbook_x4::fw::error::FirmwareError::Timeout,
            page: 1,
        },
    });
    assert_eq!(agg.snapshot().last_error, -4);
    let mut out = [DiagLogRecord::default(); 2];
    agg.log().read_from_sequence(0, &mut out);
    assert_eq!(out[0].tick_ms, u32::MAX);
    assert_eq!(out[0].level, 4);
    agg.commit(RuntimeEvent {
        timestamp_ms: 5,
        kind: RuntimeEventKind::PanelModeChanged(binbook_x4::display::events::PanelMode::Grayscale),
    });
    assert_eq!(agg.snapshot().panel_mode, PanelModeCode::Grayscale);
    assert_eq!(agg.clear_log(), 2);
    assert_eq!(agg.log().record_count(), 0);
}

#[test]
fn runtime_events_follow_display_events() {
    let mapped = map_display_event(DisplayEvent {
        timestamp_ms: 3,
        kind: DisplayEventKind::TurnBoundaryNoop { sequence: None, page: 0, turn: Turn::Previous },
    });
    assert_eq!(
        mapped.kind,
        RuntimeEventKind::TurnBoundaryNoop { sequence: None, page: 0, turn: PageTurn::Previous }
    );
    let mapped = map_display_event(DisplayEvent {
        timestamp_ms: 4,
        kind: DisplayEventKind::Completion(DisplayCompletion {
            sequence: Some(1),
            status: CompletionStatus::Error,
            page: 2,
            error: Some(binbook_x4::display::error::DisplayError::Controller),
        }),
    });
    assert_eq!(
        mapped.kind,
        RuntimeEventKind::Completion(RuntimeCompletion {
            sequence: Some(1),
            status: RuntimeCompletionStatus::Error,
            page: 2,
            error: Some(binbook_x4::fw::error::FirmwareError::Spi),
        })
    );
    let mapped = map_display_event(DisplayEvent {
        timestamp_ms: 5,
        kind: DisplayEventKind::ProbeStarted { sequence: 2, kind: ProbeKind::ClearWhite },
    });
    assert_eq!(
        mapped.kind,
        RuntimeEventKind::ProbeStarted { sequence: 2, kind: RuntimeProbeKind::ClearWhite }
    );
}

#[test]
fn queue_age_saturates() {
    assert_eq!(queue_age_ms(100, Some(40)), Some(60));
    assert_eq!(queue_age_ms(10, Some(40)), Some(0));
    assert_eq!(queue_age_ms(u64::MAX, Some(0)), Some(u32::MAX));
    assert_eq!(queue_age_ms(10, None), None);
    assert_eq!(
        request_sequence(&binbook_x4::fw::async_refresh::DisplayRequest::Goto {
            page: 1,
            completion_sequence: 4
        }),
        Some(4)
    );
}

#[test]
fn a_fed_frame_comes_out_whole_and_the_partial_one_waits() {
    let mut s = SerialState::new();
    let mut f: Vec<u8> = (1..=200u8).collect();
    f.push(0x00);
    let g: Vec<u8> = vec![7u8; 300];
    let r = s.feed_rx(&[f.clone(), g.clone()].concat());
    assert_eq!(r.consumed, f.len() + g.len());
    assert!(r.frame_ready);
    let mut out = [0u8; MAX_FRAME_BYTES];
    assert_eq!(s.next_frame(&mut out), Some(f.len()));
    assert_eq!(&out[..f.len()], &f[..]);
    assert_eq!(s.next_frame(&mut out), None);
    assert_eq!(s.protocol_error_count(), 0);
}

#[test]
fn loop_state_reads_its_own_log() {
    let mut log: DiagLog<8> = DiagLog::new();
    for i in 0..3 {
        log.push(10 * i, event(0x0301, i as i32));
    }
    let state: DiagnosticLoopState<2, 8> = DiagnosticLoopState::new(snapshot(), log);
    let mut resp = [0u8; 100];
    let n = state.resolve_log_get(1, 60, &mut resp);
    assert_eq!(n, 10 + 2 * 24);
    assert_eq!(&resp[0..4], &[3, 0, 0, 0]);
    assert_eq!(&resp[8..10], &[2, 0]);
    assert_eq!(&resp[10..14], &[1, 0, 0, 0]);
    assert_eq!(state.resolve_log_get(0, 9, &mut resp), 0);
}
