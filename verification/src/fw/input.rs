//! Button decoding from the two resistor-ladder ADC channels, and page turns.

use vstd::prelude::*;

verus! {

#[derive(Debug, Clone, Copy, PartialEq, Eq, Structural)]
pub enum Button {
    Left,
    Right,
    Up,
    Down,
    Back,
    Select,
    Power,
}

#[derive(Debug, Clone, Copy, PartialEq, Eq, Structural)]
pub enum PageTurn {
    Previous,
    Next,
    First,
    Last,
}

#[derive(Debug, Clone, Copy, PartialEq, Eq, Structural)]
pub enum ButtonEvent {
    Press(Button),
    Release(Button),
}

/// The page turn a button asks for while reading.
pub open spec fn turn_of(button: Button) -> Option<PageTurn> {
    match button {
        Button::Right | Button::Down => Some(PageTurn::Next),
        Button::Left | Button::Up => Some(PageTurn::Previous),
        Button::Back | Button::Select | Button::Power => None,
    }
}

pub fn page_turn_for_button(button: Button) -> (r: Option<PageTurn>)
    ensures
        r == turn_of(button),
{
    match button {
        Button::Right | Button::Down => Some(PageTurn::Next),
        Button::Left | Button::Up => Some(PageTurn::Previous),
        Button::Back | Button::Select | Button::Power => None,
    }
}

/// The page a turn leads to from `current` in a book of `page_count` pages:
/// one further, clamped to the last page; one back, clamped to the first; or
/// the first or last page. An empty book stays at page 0.
pub open spec fn turned_page(current: u32, page_count: u32, turn: PageTurn) -> u32 {
    if page_count == 0 {
        0
    } else {
        match turn {
            PageTurn::Next => if current + 1 < page_count {
                (current + 1) as u32
            } else {
                (page_count - 1) as u32
            },
            PageTurn::Previous => if current == 0 {
                0
            } else {
                (current - 1) as u32
            },
            PageTurn::First => 0,
            PageTurn::Last => (page_count - 1) as u32,
        }
    }
}

pub fn apply_page_turn(current_page: u32, page_count: u32, turn: PageTurn) -> (r: u32)
    ensures
        r == turned_page(current_page, page_count, turn),
{
    if page_count == 0 {
        return 0;
    }
    match turn {
        PageTurn::Next => {
            let next = current_page.saturating_add(1);
            if next < page_count - 1 {
                next
            } else {
                page_count - 1
            }
        },
        PageTurn::Previous => current_page.saturating_sub(1),
        PageTurn::First => 0,
        PageTurn::Last => page_count - 1,
    }
}

/// The button the two ladder readings stand for. The first channel carries
/// Right, Left, Select and Back (in rising voltage bands up to 3800); the
/// second carries Down and Up (up to 2400). The first channel wins when both
/// show a press.
pub open spec fn button_of(ch1: u16, ch2: u16) -> Option<Button> {
    if ch1 <= 750 {
        Some(Button::Right)
    } else if ch1 <= 1750 {
        Some(Button::Left)
    } else if ch1 <= 3000 {
        Some(Button::Select)
    } else if ch1 <= 3800 {
        Some(Button::Back)
    } else if ch2 <= 750 {
        Some(Button::Down)
    } else if ch2 <= 2400 {
        Some(Button::Up)
    } else {
        None
    }
}

pub fn decode_buttons(ch1: u16, ch2: u16) -> (r: Option<Button>)
    ensures
        r == button_of(ch1, ch2),
{
    let ch1_button = if ch1 <= 750 {
        Some(Button::Right)
    } else if ch1 <= 1750 {
        Some(Button::Left)
    } else if ch1 <= 3000 {
        Some(Button::Select)
    } else if ch1 <= 3800 {
        Some(Button::Back)
    } else {
        None
    };
    let ch2_button = if ch2 <= 750 {
        Some(Button::Down)
    } else if ch2 <= 2400 {
        Some(Button::Up)
    } else {
        None
    };
    match ch1_button {
        Some(b) => Some(b),
        None => ch2_button,
    }
}

/// Buttons turn pages by direction: Left and Up ask for the previous page,
/// Right and Down for the next, and Back, Select and Power for no turn. Within
/// a book, the page a button leads to stays in the book, is one back (the
/// first page stays) for Left and Up, and one on (the last page stays) for
/// Right and Down.
pub proof fn lemma_button_turn_direction(button: Button, current: u32, page_count: u32)
    requires
        current < page_count,
    ensures
        turn_of(button) == Some(PageTurn::Previous) <==> (button == Button::Left || button
            == Button::Up),
        turn_of(button) == Some(PageTurn::Next) <==> (button == Button::Right || button
            == Button::Down),
        turn_of(button) is None <==> (button == Button::Back || button == Button::Select
            || button == Button::Power),
        turn_of(button) matches Some(t) ==> turned_page(current, page_count, t) < page_count,
        (button == Button::Left || button == Button::Up) ==> turned_page(
            current,
            page_count,
            turn_of(button)->Some_0,
        ) == if current == 0 {
            0
        } else {
            current - 1
        },
        (button == Button::Right || button == Button::Down) ==> turned_page(
            current,
            page_count,
            turn_of(button)->Some_0,
        ) == if current + 1 < page_count {
            current + 1
        } else {
            current as int
        },
{
}

/// The ladder bands: with no press on the first channel (a reading above
/// 3800) the second channel alone decides, Down up to 750, Up from 751 to
/// 2400 and nothing above; up to 3800 the first channel decides whatever the
/// second one reads, Right up to 750, Left to 1750, Select to 3000 and Back
/// to 3800. Power never comes from the ladder.
pub proof fn lemma_button_bands(ch1: u16, ch2: u16, other: u16)
    ensures
        ch1 > 3800 && ch2 <= 750 ==> button_of(ch1, ch2) == Some(Button::Down),
        ch1 > 3800 && 750 < ch2 <= 2400 ==> button_of(ch1, ch2) == Some(Button::Up),
        ch1 > 3800 && ch2 > 2400 ==> button_of(ch1, ch2) is None,
        ch1 > 3800 ==> button_of(ch1, ch2) == button_of(u16::MAX, ch2),
        ch1 <= 3800 ==> button_of(ch1, ch2) == button_of(ch1, other),
        ch1 <= 750 ==> button_of(ch1, ch2) == Some(Button::Right),
        750 < ch1 <= 1750 ==> button_of(ch1, ch2) == Some(Button::Left),
        1750 < ch1 <= 3000 ==> button_of(ch1, ch2) == Some(Button::Select),
        3000 < ch1 <= 3800 ==> button_of(ch1, ch2) == Some(Button::Back),
        button_of(ch1, ch2) != Some(Button::Power),
{
}

/// Model of the input debouncer.
pub struct InputModel {
    pub last_button: Option<Button>,
    pub last_press_time: u64,
    pub cooldown_ms: u32,
}

/// Debounces button readings: a press is reported when the decoded button
/// changes and the previous press is more than the cooldown ago.
#[derive(Debug, Clone, Copy)]
pub struct InputState {
    last_button: Option<Button>,
    last_press_time: u64,
    cooldown_ms: u32,
}

impl View for InputState {
    type V = InputModel;

    closed spec fn view(&self) -> InputModel {
        InputModel {
            last_button: self.last_button,
            last_press_time: self.last_press_time,
            cooldown_ms: self.cooldown_ms,
        }
    }
}

/// The debouncer after a reading of the two channels at `now_ms`, and the
/// press it reports: a press of the decoded button when it differs from the
/// last one and the last press is more than the cooldown ago (by a clock
/// that saturates at zero); the press time moves only then.
pub open spec fn polled(m: InputModel, ch1: u16, ch2: u16, now_ms: u64) -> (InputModel, Option<
    ButtonEvent,
>) {
    let button = button_of(ch1, ch2);
    let fires = button != m.last_button && (if now_ms >= m.last_press_time {
        now_ms - m.last_press_time
    } else {
        0
    }) > m.cooldown_ms;
    (
        InputModel {
            last_button: button,
            last_press_time: if fires {
                now_ms
            } else {
                m.last_press_time
            },
            cooldown_ms: m.cooldown_ms,
        },
        if fires {
            match button {
                Some(b) => Some(ButtonEvent::Press(b)),
                None => None,
            }
        } else {
            None
        },
    )
}

/// A reading that decodes to the button already seen changes nothing and
/// reports no press: a held button presses once.
pub proof fn lemma_held_button_is_quiet(m: InputModel, ch1: u16, ch2: u16, now_ms: u64)
    requires
        m.last_button == button_of(ch1, ch2),
    ensures
        polled(m, ch1, ch2, now_ms) == (m, None::<ButtonEvent>),
{
}

pub const DEFAULT_COOLDOWN_MS: u32 = 100;

impl InputState {
    pub fn new() -> (r: Self)
        ensures
            r@ == (InputModel {
                last_button: None,
                last_press_time: 0,
                cooldown_ms: DEFAULT_COOLDOWN_MS,
            }),
    {
        InputState { last_button: None, last_press_time: 0, cooldown_ms: DEFAULT_COOLDOWN_MS }
    }

    pub fn last_button(&self) -> (r: Option<Button>)
        ensures
            r == self@.last_button,
    {
        self.last_button
    }

    /// Reads the two channels at `now_ms`; see `polled`.
    pub fn poll_raw(&mut self, ch1: u16, ch2: u16, now_ms: u64) -> (r: Option<ButtonEvent>)
        ensures
            (final(self)@, r) == polled(old(self)@, ch1, ch2, now_ms),
    {
        let button = decode_buttons(ch1, ch2);
        let changed = match (button, self.last_button) {
            (Some(a), Some(b)) => a != b,
            (None, None) => false,
            _ => true,
        };
        let event = if changed {
            if now_ms.saturating_sub(self.last_press_time) > self.cooldown_ms as u64 {
                self.last_press_time = now_ms;
                match button {
                    Some(b) => Some(ButtonEvent::Press(b)),
                    None => None,
                }
            } else {
                None
            }
        } else {
            None
        };
        self.last_button = button;
        event
    }
}

impl Default for InputState {
    fn default() -> (r: Self)
        ensures
            r@ == (InputModel {
                last_button: None,
                last_press_time: 0,
                cooldown_ms: DEFAULT_COOLDOWN_MS,
            }),
    {
        Self::new()
    }
}

/// A turn never leaves the book: in a book with pages, every turn lands on a page of it.
pub proof fn lemma_turn_stays_in_book(current: u32, page_count: u32, turn: PageTurn)
    requires
        page_count > 0,
        current < page_count,
    ensures
        turned_page(current, page_count, turn) < page_count,
{
}

/// Next and previous undo each other away from the book's ends.
pub proof fn lemma_next_then_previous(current: u32, page_count: u32)
    requires
        current + 1 < page_count,
    ensures
        turned_page(turned_page(current, page_count, PageTurn::Next), page_count, PageTurn::Previous)
            == current,
{
}

} // verus!
