use binbook_x4::fw::async_refresh::{
    button_to_request, DisplayRequest, MODE_MENU, MODE_READING, STARTUP_DISPLAY_MODE,
};
use binbook_x4::fw::input::{Button, PageTurn};

#[test]
fn async_refresh_menu_up_maps_to_prev() {
    assert_eq!(
        button_to_request(Button::Up, MODE_MENU),
        Some(DisplayRequest::MenuPrev)
    );
}

#[test]
fn async_refresh_menu_left_maps_to_prev() {
    assert_eq!(
        button_to_request(Button::Left, MODE_MENU),
        Some(DisplayRequest::MenuPrev)
    );
}

#[test]
fn async_refresh_menu_down_maps_to_next() {
    assert_eq!(
        button_to_request(Button::Down, MODE_MENU),
        Some(DisplayRequest::MenuNext)
    );
}

#[test]
fn async_refresh_menu_right_maps_to_next() {
    assert_eq!(
        button_to_request(Button::Right, MODE_MENU),
        Some(DisplayRequest::MenuNext)
    );
}

#[test]
fn async_refresh_menu_select_maps_to_select() {
    assert_eq!(
        button_to_request(Button::Select, MODE_MENU),
        Some(DisplayRequest::MenuSelect)
    );
}

#[test]
fn async_refresh_menu_back_and_power_are_noop() {
    assert_eq!(button_to_request(Button::Back, MODE_MENU), None);
    assert_eq!(button_to_request(Button::Power, MODE_MENU), None);
}

#[test]
fn async_refresh_reading_up_maps_to_previous_turn() {
    assert_eq!(
        button_to_request(Button::Up, MODE_READING),
        Some(DisplayRequest::Turn {
            turn: PageTurn::Previous,
            completion_sequence: None
        })
    );
}

#[test]
fn async_refresh_reading_down_maps_to_next_turn() {
    assert_eq!(
        button_to_request(Button::Down, MODE_READING),
        Some(DisplayRequest::Turn {
            turn: PageTurn::Next,
            completion_sequence: None
        })
    );
}

#[test]
fn async_refresh_reading_select_and_back_map_to_menuback() {
    assert_eq!(
        button_to_request(Button::Select, MODE_READING),
        Some(DisplayRequest::MenuBack)
    );
    assert_eq!(
        button_to_request(Button::Back, MODE_READING),
        Some(DisplayRequest::MenuBack)
    );
}

#[test]
fn async_refresh_reading_power_is_noop() {
    assert_eq!(button_to_request(Button::Power, MODE_READING), None);
}

#[test]
fn async_refresh_unknown_mode_returns_none() {
    assert_eq!(button_to_request(Button::Up, 99), None);
    assert_eq!(button_to_request(Button::Select, 99), None);
}

#[test]
fn async_refresh_tests_menu_up_maps_to_prev() {
    assert_eq!(
        button_to_request(Button::Up, MODE_MENU),
        Some(DisplayRequest::MenuPrev)
    );
}

#[test]
fn async_refresh_tests_menu_left_maps_to_prev() {
    assert_eq!(
        button_to_request(Button::Left, MODE_MENU),
        Some(DisplayRequest::MenuPrev)
    );
}

#[test]
fn async_refresh_tests_menu_down_maps_to_next() {
    assert_eq!(
        button_to_request(Button::Down, MODE_MENU),
        Some(DisplayRequest::MenuNext)
    );
}

#[test]
fn async_refresh_tests_menu_right_maps_to_next() {
    assert_eq!(
        button_to_request(Button::Right, MODE_MENU),
        Some(DisplayRequest::MenuNext)
    );
}

#[test]
fn async_refresh_tests_menu_select_maps_to_select() {
    assert_eq!(
        button_to_request(Button::Select, MODE_MENU),
        Some(DisplayRequest::MenuSelect)
    );
}

#[test]
fn async_refresh_tests_menu_back_and_power_are_noop() {
    assert_eq!(button_to_request(Button::Back, MODE_MENU), None);
    assert_eq!(button_to_request(Button::Power, MODE_MENU), None);
}

#[test]
fn async_refresh_tests_reading_up_maps_to_previous_turn() {
    assert_eq!(
        button_to_request(Button::Up, MODE_READING),
        Some(DisplayRequest::Turn {
            turn: PageTurn::Previous,
            completion_sequence: None,
        })
    );
}

#[test]
fn async_refresh_tests_reading_down_maps_to_next_turn() {
    assert_eq!(
        button_to_request(Button::Down, MODE_READING),
        Some(DisplayRequest::Turn {
            turn: PageTurn::Next,
            completion_sequence: None,
        })
    );
}

#[test]
fn startup_up_and_down_map_to_menu_navigation_with_library_menu() {
    assert_eq!(
        button_to_request(Button::Up, STARTUP_DISPLAY_MODE),
        Some(DisplayRequest::MenuPrev)
    );
    assert_eq!(
        button_to_request(Button::Down, STARTUP_DISPLAY_MODE),
        Some(DisplayRequest::MenuNext)
    );
}

#[test]
fn async_refresh_tests_reading_select_and_back_map_to_menuback() {
    assert_eq!(
        button_to_request(Button::Select, MODE_READING),
        Some(DisplayRequest::MenuBack)
    );
    assert_eq!(
        button_to_request(Button::Back, MODE_READING),
        Some(DisplayRequest::MenuBack)
    );
}

#[test]
fn async_refresh_tests_reading_power_is_noop() {
    assert_eq!(button_to_request(Button::Power, MODE_READING), None);
}

#[test]
fn async_refresh_tests_unknown_mode_returns_none() {
    assert_eq!(button_to_request(Button::Up, 99), None);
    assert_eq!(button_to_request(Button::Select, 99), None);
}
