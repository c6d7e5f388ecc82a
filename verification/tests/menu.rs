use binbook_x4::fw::menu::{MenuAction, MenuState};

#[test]
fn initial_state_is_first_entry() {
    let state = MenuState::new(7);
    assert_eq!(state.top(), 0);
    assert_eq!(state.selected(), 0);
    assert_eq!(state.count(), 7);
}

#[test]
fn single_entry_stays_at_zero() {
    let mut state = MenuState::new(1);
    let _ = state.transition(MenuAction::Next);
    assert_eq!(state.selected(), 0);
    assert_eq!(state.top(), 0);
}

#[test]
fn empty_list_always_noop() {
    let mut state = MenuState::new(0);
    assert_eq!(state.transition(MenuAction::Next), MenuAction::NoOp);
    assert_eq!(state.transition(MenuAction::Previous), MenuAction::NoOp);
    assert_eq!(state.transition(MenuAction::Open(0)), MenuAction::NoOp);
}

#[test]
fn from_top_five_downs_scrolls_viewport() {
    // 7-item list at top, 5×down: top scrolls to 1, selected=5
    let mut state = MenuState::new(7);
    for _ in 0..5 {
        let _ = state.transition(MenuAction::Next);
    }
    assert_eq!(state.top(), 1);
    assert_eq!(state.selected(), 5);
    assert_eq!(state.selected_row(), 4);
}

#[test]
fn down_at_last_item_wraps_to_top() {
    let mut state = MenuState::new(7);
    for _ in 0..7 {
        let _ = state.transition(MenuAction::Next);
    }
    // After 7×down from 0: 1→2→3→4→5→6→wrap to 0
    assert_eq!(state.selected(), 0);
    assert_eq!(state.top(), 0);
}

#[test]
fn up_at_top_wraps_to_last() {
    let mut state = MenuState::new(7);
    let _ = state.transition(MenuAction::Previous);
    assert_eq!(state.selected(), 6);
    assert_eq!(state.top(), 2); // 7 - 5 = 2
}

#[test]
fn select_returns_selected_index() {
    let mut state = MenuState::new(7);
    // Navigate to index 3
    for _ in 0..3 {
        let _ = state.transition(MenuAction::Next);
    }
    assert_eq!(state.transition(MenuAction::Open(0)), MenuAction::Open(3));
}

#[test]
fn back_is_noop() {
    let mut state = MenuState::new(7);
    assert_eq!(state.transition(MenuAction::NoOp), MenuAction::NoOp);
    // State unchanged
    assert_eq!(state.selected(), 0);
}

#[test]
fn reset_reinitializes_state() {
    let mut state = MenuState::new(7);
    let _ = state.transition(MenuAction::Next);
    let _ = state.transition(MenuAction::Next);
    assert_eq!(state.selected(), 2);
    state.reset(3);
    assert_eq!(state.selected(), 0);
    assert_eq!(state.top(), 0);
    assert_eq!(state.count(), 3);
}

#[test]
fn viewport_scrolls_up_after_wrapping() {
    let mut state = MenuState::new(10);
    // Go to last item
    let _ = state.transition(MenuAction::Previous);
    assert_eq!(state.selected(), 9);
    assert_eq!(state.top(), 5);

    // Go up once more (now at 8)
    let _ = state.transition(MenuAction::Previous);
    assert_eq!(state.selected(), 8);
    assert_eq!(state.top(), 5);

    // Go up enough to scroll viewport
    let _ = state.transition(MenuAction::Previous);
    let _ = state.transition(MenuAction::Previous);
    let _ = state.transition(MenuAction::Previous); // now at 5
    assert_eq!(state.selected(), 5);
    assert_eq!(state.top(), 5);

    // One more up scrolls viewport
    let _ = state.transition(MenuAction::Previous);
    assert_eq!(state.selected(), 4, "selected should be 4");
    assert_eq!(state.top(), 4, "top should scroll to 4");
}

#[test]
fn is_visible_correct() {
    let mut state = MenuState::new(10);
    assert!(state.is_visible(0));
    assert!(state.is_visible(4));
    assert!(!state.is_visible(5));

    let _ = state.transition(MenuAction::Next); // selected=1
    let _ = state.transition(MenuAction::Next); // selected=2
    let _ = state.transition(MenuAction::Next); // selected=3
    let _ = state.transition(MenuAction::Next); // selected=4, top still 0
    assert!(state.is_visible(4));
    assert!(!state.is_visible(5));
}

#[test]
fn visible_count_bounded() {
    let state = MenuState::new(3);
    assert_eq!(state.visible_count(), 3);
    let state = MenuState::new(10);
    assert_eq!(state.visible_count(), 5);
}
