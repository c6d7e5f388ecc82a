use binbook_x4::display::engine::{apply_page_turn, ControllerRamState, DisplayEngine};
use binbook_x4::display::events::PageTurn;
use binbook_x4::display::framebuffer::{Gray2Color, Gray2Framebuffer, FRAMEBUFFER_BYTES};
use binbook_x4::display::probes::{
    build_corner_row, corner_windows, ProbeKind, DISPLAY_HEIGHT, DISPLAY_ROW_BYTES, DISPLAY_WIDTH,
};
use binbook_x4::display::profile::ROW_BYTES;
use binbook_x4::display::refresh::{
    RefreshDecision, RefreshPolicy, RefreshState, DEFAULT_FULL_REFRESH_CADENCE,
};
use binbook_x4::fw::display::{build_display_smoke_row, logical_to_physical, smoke_probe_windows};
use binbook_x4::display::ui_render::{fill_absolute_row_packed, logical_gray2_to_black_row};

#[test]
fn staged_overlay_cancellation_invalidates_controller_inputs() {
    let mut engine = DisplayEngine::new(2);
    engine.begin_overlay();
    engine.cancel_overlay();
    assert_eq!(
        engine.controller_state(),
        ControllerRamState::NeedsFullBwInputs
    );
}

#[test]
fn background_sync_cancellation_invalidates_controller_inputs() {
    let mut engine = DisplayEngine::new(2);
    engine.begin_base_sync();
    engine.cancel_base_sync();
    assert_eq!(
        engine.controller_state(),
        ControllerRamState::NeedsFullBwInputs
    );
}

#[test]
fn fifo_relative_turns_resolve_from_committed_page() {
    let mut engine = DisplayEngine::new(3);
    engine.commit_page(1).unwrap();
    assert_eq!(engine.target_for(PageTurn::Next), 2);
    engine.commit_page(2).unwrap();
    assert_eq!(engine.target_for(PageTurn::Next), 2);
    assert_eq!(apply_page_turn(0, 3, PageTurn::Previous), 0);
}

#[test]
fn failed_page_does_not_commit() {
    let mut engine = DisplayEngine::new(3);
    engine.commit_page(1).unwrap();
    engine.record_failure();
    assert_eq!(engine.current_page(), 1);
    assert!(engine.recovery_required());
    engine.record_failure();
    assert!(engine.faulted());
}

#[test]
fn corner_probe_covers_each_physical_corner() {
    let windows = corner_windows();
    assert_eq!(windows[0].0, 0);
    assert_eq!(windows[0].1, 0);
    assert_eq!(windows[3].0 + windows[3].2, DISPLAY_WIDTH);
    assert_eq!(windows[3].1 + windows[3].3, DISPLAY_HEIGHT);
    let mut row = [0_u8; DISPLAY_ROW_BYTES];
    build_corner_row(0, &mut row);
    assert_eq!(&row[..16], &[0; 16]);
    assert_eq!(&row[84..], &[0; 16]);
}

#[test]
fn probe_kinds_include_full_refresh_and_clear() {
    assert_ne!(ProbeKind::FullRefreshCurrent, ProbeKind::ClearWhite);
    assert_ne!(ProbeKind::ClearWhite, ProbeKind::WindowCorners);
}

#[test]
fn refresh_policy_covers_absolute_seed_full_screen_and_gated_dirty_chunks() {
    let mut state = RefreshState::new();
    assert_eq!(state.decide(0, None), RefreshDecision::FullGrayscale);
    state.record_success(0, RefreshDecision::FullGrayscale);
    assert_eq!(state.decide(1, None), RefreshDecision::FullBwSeed);
    state.record_success(1, RefreshDecision::FullBwSeed);
    assert_eq!(
        state.decide(2, Some(3)),
        RefreshDecision::FullScreenDifferential
    );
    assert_eq!(
        state.decide_with_policy(2, Some(3), RefreshPolicy::ChunkDirtyDifferential),
        RefreshDecision::AdjacentDirtyPartial {
            changed_chunk_mask: 3
        }
    );
}

#[test]
fn cadence_forces_periodic_absolute_cleanup() {
    let mut state = RefreshState::new();
    state.record_success(0, RefreshDecision::FullBwSeed);
    for page in 1..=DEFAULT_FULL_REFRESH_CADENCE {
        state.record_success(page, RefreshDecision::FullScreenDifferential);
    }
    assert_eq!(
        state.decide(DEFAULT_FULL_REFRESH_CADENCE + 1, None),
        RefreshDecision::FullGrayscale
    );
}

#[test]
fn new_framebuffer_is_white() {
    let fb = Gray2Framebuffer::new();
    assert_eq!(fb.get_pixel(0, 0), Gray2Color::White);
    assert_eq!(fb.get_pixel(479, 799), Gray2Color::White);
    assert_eq!(fb.as_bytes().len(), FRAMEBUFFER_BYTES);
    assert!(fb.as_bytes().iter().all(|&b| b == 0xff));
}

#[test]
fn set_and_get_pixel() {
    let mut fb = Gray2Framebuffer::new();
    fb.set_pixel(100, 200, Gray2Color::Black);
    assert_eq!(fb.get_pixel(100, 200), Gray2Color::Black);
    assert_eq!(fb.get_pixel(99, 200), Gray2Color::White);
    assert_eq!(fb.get_pixel(101, 200), Gray2Color::White);
}

#[test]
fn clear_to_dark_gray() {
    let mut fb = Gray2Framebuffer::new();
    fb.clear(Gray2Color::DarkGray);
    assert_eq!(fb.get_pixel(0, 0), Gray2Color::DarkGray);
    assert_eq!(fb.get_pixel(479, 799), Gray2Color::DarkGray);
    assert_eq!(fb.as_bytes()[0], 0x55);
    assert_eq!(fb.as_bytes()[FRAMEBUFFER_BYTES - 1], 0x55);
}

#[test]
fn pixel_offset_correctness() {
    let (index, shift) = Gray2Framebuffer::pixel_offset(0, 0);
    assert_eq!(index, 0);
    assert_eq!(shift, 6);

    let (index, shift) = Gray2Framebuffer::pixel_offset(3, 0);
    assert_eq!(index, 0);
    assert_eq!(shift, 0);

    let (index, shift) = Gray2Framebuffer::pixel_offset(4, 0);
    assert_eq!(index, 1);
    assert_eq!(shift, 6);
}

#[test]
fn all_gray_values_round_trip() {
    let mut fb = Gray2Framebuffer::new();
    let values = [
        Gray2Color::Black,
        Gray2Color::DarkGray,
        Gray2Color::LightGray,
        Gray2Color::White,
    ];
    for (i, &color) in values.iter().enumerate() {
        let x = i as u16;
        fb.set_pixel(x, 0, color);
        assert_eq!(fb.get_pixel(x, 0), color, "value {i} round-trip failed");
    }
}

#[test]
fn row_holds_the_packed_bytes_of_one_line() {
    let mut fb = Gray2Framebuffer::new();
    fb.set_pixel(4, 1, Gray2Color::Black);
    assert_eq!(fb.row(0).len(), 120);
    assert_eq!(fb.row(1).len(), 120);
    assert_eq!(fb.row(1)[1], 0x3f);
    assert!(fb.row(0).iter().all(|&b| b == 0xff));
}

#[test]
fn gray_values_map_to_numbers() {
    assert_eq!(Gray2Color::new(0), Gray2Color::Black);
    assert_eq!(Gray2Color::new(6), Gray2Color::LightGray);
    assert_eq!(Gray2Color::new(7).value(), 3);
    assert_eq!(Gray2Color::DarkGray.value(), 1);
}

#[test]
fn black_row_from_framebuffer() {
    let mut fb = Gray2Framebuffer::new();
    fb.clear(Gray2Color::White);
    fb.set_pixel(0, 0, Gray2Color::Black);
    let black_row = logical_gray2_to_black_row(fb.as_bytes(), 0);
    assert!(
        black_row.iter().any(|&b| b != 0),
        "black row should have bits set"
    );
}

#[test]
fn black_row_marks_the_last_ram_bit_for_column_zero() {
    let mut fb = Gray2Framebuffer::new();
    fb.set_pixel(0, 0, Gray2Color::DarkGray);
    let black_row = logical_gray2_to_black_row(fb.as_bytes(), 0);
    assert_eq!(black_row[99], 0x01);
    assert!(black_row[..99].iter().all(|&b| b == 0));
    let short = logical_gray2_to_black_row(&[0u8; 4], 0);
    assert_eq!(short[99], 0xff);
    assert_eq!(short[98], 0xff);
    assert_eq!(short[97], 0x00);
}

#[test]
fn white_framebuffer_produces_empty_ram() {
    let fb = Gray2Framebuffer::new();
    let mut red = [0u8; ROW_BYTES];
    let mut black = [0u8; ROW_BYTES];
    let result = fill_absolute_row_packed(&fb, 0, &mut red, &mut black);
    assert!(result.is_ok());
    assert_eq!(red, [0u8; ROW_BYTES]);
    assert_eq!(black, [0u8; ROW_BYTES]);
}

#[test]
fn each_gray_value_produces_correct_plane_bits() {
    let mut fb = Gray2Framebuffer::new();
    fb.set_pixel(0, 479, Gray2Color::Black);
    let mut red = [0u8; ROW_BYTES];
    let mut black = [0u8; ROW_BYTES];
    let _ = fill_absolute_row_packed(&fb, 0, &mut red, &mut black);
    let any_bit_set = |row: &[u8]| -> bool { row.iter().any(|&b| b != 0) };
    assert!(any_bit_set(&red), "black pixel should set red bits");
    assert!(any_bit_set(&black), "black pixel should set black bits");
}

#[test]
fn light_and_dark_gray_land_in_one_plane_each() {
    let mut fb = Gray2Framebuffer::new();
    fb.set_pixel(2, 8, Gray2Color::LightGray);
    fb.set_pixel(2, 9, Gray2Color::DarkGray);
    let mut red = [0u8; ROW_BYTES];
    let mut black = [0u8; ROW_BYTES];
    let _ = fill_absolute_row_packed(&fb, 2, &mut red, &mut black);
    assert_eq!(red[1], 0x80);
    assert_eq!(black[1], 0x40);
    assert_eq!(red.iter().filter(|&&b| b != 0).count(), 1);
    assert_eq!(black.iter().filter(|&&b| b != 0).count(), 1);
}

use binbook_x4::display::engine::EngineStep;
use binbook_x4::display::error::{DisplayError, DisplayResult};
use binbook_x4::display::events::{
    CompletionStatus, DisplayCompletion, DisplayEvent, DisplayEventKind, DisplayPhase,
    DisplayRequest, OperationOutcome,
};

/// Outcomes the fake panel gives, and the work it was asked to do.
struct FakePanel {
    render_bw: DisplayResult<()>,
    recovery: DisplayResult<()>,
    gray: DisplayResult<OperationOutcome>,
    sync: DisplayResult<OperationOutcome>,
    epoch_after_gray: Option<u32>,
    epoch: u32,
    operations: Vec<&'static str>,
}

impl FakePanel {
    fn new() -> Self {
        FakePanel {
            render_bw: Ok(()),
            recovery: Ok(()),
            gray: Ok(OperationOutcome::Completed),
            sync: Ok(OperationOutcome::Completed),
            epoch_after_gray: None,
            epoch: 0,
            operations: Vec::new(),
        }
    }
}

/// Runs steps until the flow ends, doing the panel work with `panel`.
fn run(
    engine: &mut DisplayEngine,
    mut step: EngineStep,
    panel: &mut FakePanel,
    events: &mut Vec<DisplayEvent>,
    now: u64,
) -> Option<DisplayCompletion> {
    loop {
        step = match step {
            EngineStep::Done(c) => return c,
            EngineStep::RenderBw { target, sequence, .. } => {
                panel.operations.push("render-bw");
                engine.navigate_end(target, sequence, panel.render_bw, now, events, now)
            }
            EngineStep::Recover { page, sequence } => {
                panel.operations.push("recover");
                return Some(engine.recover_end(page, sequence, panel.recovery, events, now));
            }
            EngineStep::Probe { kind, sequence, .. } => {
                panel.operations.push("probe");
                return Some(engine.probe_end(kind, sequence, Ok(()), events, now));
            }
            EngineStep::RenderGrayscale { page, epoch } => {
                panel.operations.push("gray");
                if let Some(e) = panel.epoch_after_gray {
                    panel.epoch = e;
                }
                engine.overlay_end(page, epoch, panel.gray, panel.epoch, events, now)
            }
            EngineStep::SyncBase { page, .. } => {
                panel.operations.push("sync-base");
                engine.base_sync_end(page, panel.sync, events, now)
            }
        };
    }
}

fn initialize(engine: &mut DisplayEngine, panel: &mut FakePanel, events: &mut Vec<DisplayEvent>) {
    engine.initialize_begin(events, 0);
    let result = panel.recovery;
    assert_eq!(engine.initialize_end(result, 0, events), None);
}

fn advance(engine: &mut DisplayEngine, panel: &mut FakePanel, events: &mut Vec<DisplayEvent>, now: u64) {
    if engine.advance_due(now) {
        let step = engine.overlay_begin(panel.epoch, events, now);
        run(engine, step, panel, events, now);
    }
}

#[test]
fn page_is_committed_only_after_bw_operation_succeeds() {
    let mut engine = DisplayEngine::new(3);
    engine.commit_page(0).unwrap();
    let mut panel = FakePanel::new();
    let mut events = Vec::new();
    let step = engine.request_begin(
        DisplayRequest::Turn { turn: PageTurn::Next, sequence: Some(7) },
        &mut events,
        10,
    );
    let completion = run(&mut engine, step, &mut panel, &mut events, 10).unwrap();
    assert_eq!(completion.status, CompletionStatus::Success);
    assert_eq!(completion.page, 1);
    assert_eq!(panel.operations, ["render-bw"]);
    assert!(matches!(events[0].kind, DisplayEventKind::TurnStarted { from: 0, target: 1, .. }));
    let displayed = events
        .iter()
        .position(|e| matches!(e.kind, DisplayEventKind::PageDisplayed { from: 0, page: 1 }))
        .unwrap();
    let delayed = events
        .iter()
        .position(|e| e.kind == DisplayEventKind::PhaseChanged(DisplayPhase::GrayDelay))
        .unwrap();
    assert!(displayed < delayed);
}

#[test]
fn initialization_reports_recovery_before_gray_delay() {
    let mut engine = DisplayEngine::new(3);
    let mut panel = FakePanel::new();
    let mut events = Vec::new();
    initialize(&mut engine, &mut panel, &mut events);
    let recovered = events
        .iter()
        .position(|e| e.kind == DisplayEventKind::RecoveryCompleted { page: 0 })
        .unwrap();
    let delayed = events
        .iter()
        .position(|e| e.kind == DisplayEventKind::PhaseChanged(DisplayPhase::GrayDelay))
        .unwrap();
    assert!(recovered < delayed);
    assert!(!engine.advance_due(349));
    assert!(engine.advance_due(350));
}

#[test]
fn boundary_turn_completes_without_panel_operation() {
    let mut engine = DisplayEngine::new(3);
    engine.commit_page(0).unwrap();
    let mut panel = FakePanel::new();
    let mut events = Vec::new();
    let step = engine.request_begin(
        DisplayRequest::Turn { turn: PageTurn::Previous, sequence: Some(8) },
        &mut events,
        10,
    );
    let completion = run(&mut engine, step, &mut panel, &mut events, 10).unwrap();
    assert_eq!(completion.page, 0);
    assert!(panel.operations.is_empty());
    assert!(events
        .iter()
        .any(|e| matches!(e.kind, DisplayEventKind::TurnBoundaryNoop { page: 0, .. })));
}

#[test]
fn rendering_failure_recovers_once_and_repeated_failure_faults() {
    let mut engine = DisplayEngine::new(3);
    engine.commit_page(0).unwrap();
    let mut panel = FakePanel::new();
    panel.render_bw = Err(DisplayError::Controller);
    let mut events = Vec::new();
    let step = engine.request_begin(DisplayRequest::Goto { page: 1, sequence: 1 }, &mut events, 0);
    let first = run(&mut engine, step, &mut panel, &mut events, 0).unwrap();
    assert_eq!(first.status, CompletionStatus::Success);
    assert_eq!(engine.current_page(), 1);
    panel.recovery = Err(DisplayError::Controller);
    let step = engine.request_begin(DisplayRequest::Goto { page: 2, sequence: 2 }, &mut events, 1);
    let second = run(&mut engine, step, &mut panel, &mut events, 1).unwrap();
    assert_eq!(second.status, CompletionStatus::Error);
    assert!(engine.faulted());
    let step = engine.request_begin(DisplayRequest::Goto { page: 0, sequence: 3 }, &mut events, 2);
    assert_eq!(
        step,
        EngineStep::Done(Some(DisplayCompletion {
            sequence: Some(3),
            status: CompletionStatus::Error,
            page: 1,
            error: Some(DisplayError::InvalidState),
        }))
    );
}

#[test]
fn overlay_checks_cancellation_at_the_backend_boundary() {
    let mut engine = DisplayEngine::new(2);
    let mut panel = FakePanel::new();
    panel.gray = Ok(OperationOutcome::Cancelled);
    let mut events = Vec::new();
    initialize(&mut engine, &mut panel, &mut events);
    advance(&mut engine, &mut panel, &mut events, 350);
    assert_eq!(engine.controller_state(), ControllerRamState::NeedsFullBwInputs);
    assert!(!panel.operations.contains(&"sync-base"));
    assert!(events.iter().any(|e| e.kind == DisplayEventKind::GrayCancelled { page: 0 }));
}

#[test]
fn cancelled_background_sync_never_activates_panel() {
    let mut engine = DisplayEngine::new(2);
    let mut panel = FakePanel::new();
    panel.sync = Ok(OperationOutcome::Cancelled);
    let mut events = Vec::new();
    initialize(&mut engine, &mut panel, &mut events);
    advance(&mut engine, &mut panel, &mut events, 350);
    assert_eq!(engine.controller_state(), ControllerRamState::NeedsFullBwInputs);
    assert!(events.iter().any(|e| e.kind == DisplayEventKind::BaseSyncCancelled { page: 0 }));
}

#[test]
fn request_epoch_change_after_overlay_skips_background_sync() {
    let mut engine = DisplayEngine::new(2);
    let mut panel = FakePanel::new();
    panel.epoch_after_gray = Some(1);
    let mut events = Vec::new();
    initialize(&mut engine, &mut panel, &mut events);
    advance(&mut engine, &mut panel, &mut events, 350);
    assert!(!panel.operations.contains(&"sync-base"));
    assert_eq!(engine.controller_state(), ControllerRamState::NeedsFullBwInputs);
    assert!(events.iter().any(|e| e.kind == DisplayEventKind::GrayCompleted { page: 0 }));
}

#[test]
fn completed_overlay_and_sync_leave_a_ready_base() {
    let mut engine = DisplayEngine::new(2);
    let mut panel = FakePanel::new();
    let mut events = Vec::new();
    initialize(&mut engine, &mut panel, &mut events);
    advance(&mut engine, &mut panel, &mut events, 400);
    assert_eq!(panel.operations, ["gray", "sync-base"]);
    assert_eq!(engine.controller_state(), ControllerRamState::BwBaseReady);
    assert_eq!(engine.phase(), DisplayPhase::BwReady);
    assert!(!engine.advance_due(10_000));
}

#[test]
fn smoke_pattern_marks_the_corners() {
    let windows = smoke_probe_windows();
    assert_eq!(windows[1], (672, 0, 128, 96));
    assert_eq!(windows[3], (672, 384, 128, 96));
    let mut row = [7u8; 100];
    build_display_smoke_row(0, &mut row);
    assert_eq!(&row[..16], &[0; 16]);
    assert_eq!(row[16], 0xFF);
    assert_eq!(&row[84..], &[0; 16]);
    build_display_smoke_row(200, &mut row);
    assert!(row.iter().all(|&b| b == 0xFF));
    assert_eq!(logical_to_physical(3, 0), (799, 3));
}

use binbook_x4::display::profile::{
    logical_gray2_to_physical_packed, LOGICAL_HEIGHT, LOGICAL_WIDTH, PHYSICAL_HEIGHT,
    PHYSICAL_WIDTH,
};

#[test]
fn logical_gray2_corners_pack_through_the_shared_x4_mapping() {
    let mut logical = vec![3_u8; usize::from(LOGICAL_WIDTH) * usize::from(LOGICAL_HEIGHT)];
    logical[0] = 0;
    logical[usize::from(LOGICAL_WIDTH) - 1] = 1;
    logical[(usize::from(LOGICAL_HEIGHT) - 1) * usize::from(LOGICAL_WIDTH)] = 2;
    let mut packed = vec![0_u8; usize::from(PHYSICAL_WIDTH) * usize::from(PHYSICAL_HEIGHT) / 4];
    logical_gray2_to_physical_packed(&logical, &mut packed).unwrap();
    for (logical_x, logical_y, expected) in [
        (0, 0, 0),
        (LOGICAL_WIDTH - 1, 0, 1),
        (0, LOGICAL_HEIGHT - 1, 2),
        (LOGICAL_WIDTH - 1, LOGICAL_HEIGHT - 1, 3),
    ] {
        let (x, y) = binbook_x4::display::profile::logical_to_physical(logical_x, logical_y);
        let index = usize::from(y) * usize::from(PHYSICAL_WIDTH) + usize::from(x);
        assert_eq!((packed[index / 4] >> (6 - (index % 4) * 2)) & 3, expected);
    }
}

#[test]
fn packed_conversion_rejects_bad_inputs_and_keeps_the_tail() {
    let logical = vec![0_u8; 10];
    let mut packed = vec![7_u8; 96_000];
    assert_eq!(
        logical_gray2_to_physical_packed(&logical, &mut packed),
        Err(DisplayError::InvalidPage)
    );
    let mut logical = vec![0_u8; 384_000];
    let mut short = vec![7_u8; 95_999];
    assert_eq!(
        logical_gray2_to_physical_packed(&logical, &mut short),
        Err(DisplayError::BufferTooSmall { required: 96_000, provided: 95_999 })
    );
    logical[5] = 4;
    assert_eq!(
        logical_gray2_to_physical_packed(&logical, &mut packed),
        Err(DisplayError::Render)
    );
    assert!(packed.iter().all(|&b| b == 7));
    logical[5] = 0;
    let mut longer = vec![7_u8; 96_002];
    logical_gray2_to_physical_packed(&logical, &mut longer).unwrap();
    assert!(longer[..96_000].iter().all(|&b| b == 0));
    assert_eq!(&longer[96_000..], &[7, 7]);
}

#[test]
fn row_returns_correct_slice() {
    let fb = Gray2Framebuffer::new();
    assert_eq!(fb.row(0).len(), usize::from(LOGICAL_WIDTH) / 4);
    assert_eq!(fb.row(1).len(), usize::from(LOGICAL_WIDTH) / 4);
    let row0_start = fb.row(0).as_ptr();
    let row1_start = fb.row(1).as_ptr();
    assert_eq!(
        row1_start as usize - row0_start as usize,
        usize::from(LOGICAL_WIDTH) / 4
    );
}

#[test]
fn fill_solid_rectangle() {
    let mut fb = Gray2Framebuffer::new();
    fb.fill_solid(10, 10, 20, 30, Gray2Color::Black);
    for y in 10..40 {
        for x in 10..30 {
            assert_eq!(fb.get_pixel(x, y), Gray2Color::Black);
        }
    }
    assert_eq!(fb.get_pixel(9, 10), Gray2Color::White);
    assert_eq!(fb.get_pixel(30, 10), Gray2Color::White);
    assert_eq!(fb.get_pixel(10, 9), Gray2Color::White);
    assert_eq!(fb.get_pixel(10, 40), Gray2Color::White);
}

#[test]
fn draw_target_writes_packed_gray2() {
    let mut fb = Gray2Framebuffer::new();
    fb.clear(Gray2Color::White);
    // The one-pixel stroke of a 4×1 rectangle at the origin.
    for x in 0..4 {
        fb.draw_point(x, 0, Gray2Color::Black);
    }
    assert_eq!(fb.row(0)[0], 0b00_00_00_00);
}

#[test]
fn fill_solid_clips_to_the_page() {
    let mut fb = Gray2Framebuffer::new();
    fb.fill_solid(-5, 795, 10, 20, Gray2Color::DarkGray);
    assert_eq!(fb.get_pixel(0, 795), Gray2Color::DarkGray);
    assert_eq!(fb.get_pixel(4, 799), Gray2Color::DarkGray);
    assert_eq!(fb.get_pixel(5, 799), Gray2Color::White);
    assert_eq!(fb.get_pixel(0, 794), Gray2Color::White);
    fb.fill_solid(470, 0, 0, 5, Gray2Color::Black);
    assert_eq!(fb.get_pixel(470, 0), Gray2Color::White);
}

#[test]
fn draw_point_ignores_positions_off_the_page() {
    let mut fb = Gray2Framebuffer::new();
    fb.draw_point(-1, 0, Gray2Color::Black);
    fb.draw_point(480, 0, Gray2Color::Black);
    fb.draw_point(0, 800, Gray2Color::Black);
    assert!(fb.as_bytes().iter().all(|&b| b == 0xff));
    fb.draw_point(479, 799, Gray2Color::LightGray);
    assert_eq!(fb.get_pixel(479, 799), Gray2Color::LightGray);
}

#[test]
fn fill_contiguous_takes_colors_row_by_row() {
    let mut fb = Gray2Framebuffer::new();
    let colors = [
        Gray2Color::Black,
        Gray2Color::DarkGray,
        Gray2Color::LightGray,
        Gray2Color::Black,
        Gray2Color::DarkGray,
    ];
    fb.fill_contiguous(478, 10, 4, 3, &colors);
    // The clipped area is two columns wide: 478 and 479.
    assert_eq!(fb.get_pixel(478, 10), Gray2Color::Black);
    assert_eq!(fb.get_pixel(479, 10), Gray2Color::DarkGray);
    assert_eq!(fb.get_pixel(478, 11), Gray2Color::LightGray);
    assert_eq!(fb.get_pixel(479, 11), Gray2Color::Black);
    assert_eq!(fb.get_pixel(478, 12), Gray2Color::DarkGray);
    // Past the end of the colors the pixel keeps its value.
    assert_eq!(fb.get_pixel(479, 12), Gray2Color::White);
    assert_eq!(fb.get_pixel(477, 10), Gray2Color::White);
}

#[test]
fn row_mut_writes_one_line_in_place() {
    let mut fb = Gray2Framebuffer::new();
    {
        let row = fb.row_mut(2);
        assert_eq!(row.len(), 120);
        row[0] = 0x00;
    }
    assert_eq!(fb.get_pixel(0, 2), Gray2Color::Black);
    assert_eq!(fb.get_pixel(3, 2), Gray2Color::Black);
    assert_eq!(fb.get_pixel(4, 2), Gray2Color::White);
    assert_eq!(fb.get_pixel(0, 1), Gray2Color::White);
    assert_eq!(fb.get_pixel(0, 3), Gray2Color::White);
}

use binbook_x4::display::render_timing::{
    plane_role_code, ram_target_code, stage_status_code, PlaneRole, RamTarget, RenderStageStatus,
};

#[test]
fn timing_codes_are_stable() {
    assert_eq!(plane_role_code(PlaneRole::PreviousFastBase), 0);
    assert_eq!(plane_role_code(PlaneRole::TargetFastBase), 1);
    assert_eq!(ram_target_code(RamTarget::Black), 0);
    assert_eq!(ram_target_code(RamTarget::Red), 1);
    assert_eq!(stage_status_code(RenderStageStatus::Success), 0);
    assert_eq!(stage_status_code(RenderStageStatus::Error), 1);
    assert_eq!(stage_status_code(RenderStageStatus::Cancelled), 2);
}

use binbook_x4::display::stream::CompressionMethod;
use binbook_x4::fw::display::{
    embedded_chunk_slice, embedded_page_slice, find_transition_mask, is_supported_embedded_gray2_page,
    PageLayout, PixelFormat, StoredSpan, Transition,
};

fn embedded_page() -> PageLayout {
    PageLayout {
        pixel_format: PixelFormat::Gray2Packed,
        compression_method: CompressionMethod::RlePackBits,
        stored_width: 800,
        stored_height: 480,
        plane_bitmap: 0x01,
        overlay_msb: Some(StoredSpan { offset: 2, length: 3 }),
    }
}

#[test]
fn embedded_pages_must_be_panel_sized_gray2_packbits() {
    assert!(is_supported_embedded_gray2_page(&embedded_page()));
    let mut page = embedded_page();
    page.plane_bitmap = 0x07;
    assert!(!is_supported_embedded_gray2_page(&page));
    page = embedded_page();
    page.stored_width = 480;
    assert!(!is_supported_embedded_gray2_page(&page));
    page = embedded_page();
    page.pixel_format = PixelFormat::Gray1Packed;
    assert!(!is_supported_embedded_gray2_page(&page));
    page = embedded_page();
    page.compression_method = CompressionMethod::Lz4;
    assert!(!is_supported_embedded_gray2_page(&page));
}

#[test]
fn page_and_chunk_slices_stay_inside_the_book() {
    let book: Vec<u8> = (0..10).collect();
    assert_eq!(embedded_page_slice(&book, 4, &embedded_page()), Some(&book[6..9]));
    assert_eq!(embedded_page_slice(&book, 6, &embedded_page()), None);
    let mut page = embedded_page();
    page.overlay_msb = None;
    assert_eq!(embedded_page_slice(&book, 0, &page), None);
    page = embedded_page();
    page.stored_height = 479;
    assert_eq!(embedded_page_slice(&book, 0, &page), None);
    let chunk = StoredSpan { offset: 1, length: 4 };
    assert_eq!(embedded_chunk_slice(&book, 5, &chunk), Some(&book[6..10]));
    assert_eq!(embedded_chunk_slice(&book, 6, &chunk), None);
    assert_eq!(embedded_chunk_slice(&book, u64::MAX, &chunk), None);
}

#[test]
fn transition_masks_come_from_the_first_matching_entry() {
    let t = |from, to, mask| Some(Transition { from, to, changed_chunk_mask: mask });
    let table = [t(0, 1, 0b1), None, t(1, 2, 0b10), t(1, 2, 0b100)];
    assert_eq!(find_transition_mask(Some(1), 2, &table), Some(0b10));
    assert_eq!(find_transition_mask(Some(0), 1, &table), Some(0b1));
    assert_eq!(find_transition_mask(Some(2), 1, &table), None);
    assert_eq!(find_transition_mask(None, 1, &table), None);
    assert_eq!(find_transition_mask(Some(1), 1, &table), None);
}

#[test]
fn canonical_rows_read_the_rotated_page() {
    let mut fb = Gray2Framebuffer::new();
    // Page pixel (5, 799) shows at panel (0, 5); page pixel (5, 0) at panel (799, 5).
    fb.set_pixel(5, 799, Gray2Color::Black);
    fb.set_pixel(5, 0, Gray2Color::DarkGray);
    fb.set_pixel(5, 798, Gray2Color::LightGray);
    let mut row = [0u8; 200];
    binbook_x4::display::ui_render::canonical_row_from_fb(&fb, 5, &mut row);
    assert_eq!(row[0], 0b00_10_11_11);
    assert_eq!(row[199], 0b11_11_11_01);
    assert!(row[1..199].iter().all(|&b| b == 0xff));
}
