//! Library menu state: a selection over a list with a five-row viewport that
//! scrolls to keep the selection visible and wraps around at both ends.

use vstd::prelude::*;

verus! {

/// Whether the device shows the library menu or reads a book.
#[derive(Debug, Clone, Copy, PartialEq, Eq, Structural)]
pub enum Mode {
    Menu,
    Reading,
}

/// Actions the menu state machine takes from a button press.
#[derive(Debug, Clone, Copy, PartialEq, Eq, Structural)]
pub enum MenuAction {
    /// Move the selection down, wrapping to the top after the last entry.
    Next,
    /// Move the selection up, wrapping to the last entry from the top.
    Previous,
    /// Open the selected entry.
    Open(usize),
    /// Nothing to do.
    NoOp,
}

/// Maximum number of visible rows in the menu viewport.
pub const VIEWPORT_ROWS: usize = 5;
pub const MAX_MENU_ENTRIES: usize = 200;
pub const MAX_NAME_LEN: usize = 48;
pub const MENU_ROW_START_Y: i32 = 76;
pub const MENU_ROW_STRIDE: i32 = 52;
pub const MENU_TEXT_LEFT: i32 = 16;
pub const MENU_TEXT_RIGHT: i32 = 16;
pub const HIGHLIGHT_STROKE: u32 = 1;

/// Model of the menu: first visible entry, selected entry, number of entries.
pub struct MenuModel {
    pub top: nat,
    pub selected: nat,
    pub count: nat,
}

/// An empty menu sits at 0; otherwise the selection is an entry of the list
/// and lies in the viewport.
pub open spec fn menu_wf(m: MenuModel) -> bool {
    if m.count == 0 {
        m.top == 0 && m.selected == 0
    } else {
        m.selected < m.count && m.top <= m.selected < m.top + VIEWPORT_ROWS
    }
}

/// The state after moving down: the next entry, or the first after the last;
/// the viewport then scrolls just enough to show it.
pub open spec fn after_next(m: MenuModel) -> MenuModel {
    let (sel, top) = if m.selected + 1 < m.count {
        (m.selected + 1, m.top)
    } else {
        (0nat, 0nat)
    };
    let top2 = if sel >= top + VIEWPORT_ROWS {
        (sel + 1 - VIEWPORT_ROWS) as nat
    } else {
        top
    };
    MenuModel { top: top2, selected: sel, count: m.count }
}

/// The state after moving up: the previous entry, or the last from the first
/// with the viewport at the end of the list; the viewport then scrolls just
/// enough to show it.
pub open spec fn after_previous(m: MenuModel) -> MenuModel {
    let (sel, top) = if m.selected > 0 {
        ((m.selected - 1) as nat, m.top)
    } else {
        (
            (m.count - 1) as nat,
            if m.count >= VIEWPORT_ROWS {
                (m.count - VIEWPORT_ROWS) as nat
            } else {
                0nat
            },
        )
    };
    let top2 = if sel < top {
        sel
    } else {
        top
    };
    MenuModel { top: top2, selected: sel, count: m.count }
}

#[derive(Debug, Clone, Copy, PartialEq, Eq)]
pub struct MenuState {
    top: usize,
    selected: usize,
    count: usize,
}

impl View for MenuState {
    type V = MenuModel;

    closed spec fn view(&self) -> MenuModel {
        MenuModel { top: self.top as nat, selected: self.selected as nat, count: self.count as nat }
    }
}

impl MenuState {
    #[verifier::type_invariant]
    closed spec fn inv(&self) -> bool {
        menu_wf(self@)
    }

    /// A menu over `count` entries with the first one selected.
    pub fn new(count: usize) -> (r: Self)
        ensures
            r@ == (MenuModel { top: 0, selected: 0, count: count as nat }),
            menu_wf(r@),
    {
        MenuState { top: 0, selected: 0, count }
    }

    pub fn top(&self) -> (r: usize)
        ensures
            r == self@.top,
            menu_wf(self@),
    {
        proof {
            use_type_invariant(self);
        }
        self.top
    }

    pub fn selected(&self) -> (r: usize)
        ensures
            r == self@.selected,
    {
        self.selected
    }

    pub fn count(&self) -> (r: usize)
        ensures
            r == self@.count,
    {
        self.count
    }

    /// The row of the viewport that holds the selection.
    pub fn selected_row(&self) -> (r: usize)
        ensures
            r == self@.selected - self@.top,
            r < VIEWPORT_ROWS,
    {
        proof {
            use_type_invariant(self);
        }
        self.selected - self.top
    }

    /// Whether entry `index` exists and shows in the viewport.
    pub fn is_visible(&self, index: usize) -> (r: bool)
        ensures
            r == (self@.top <= index < self@.top + VIEWPORT_ROWS && index < self@.count),
    {
        index >= self.top && index - self.top < VIEWPORT_ROWS && index < self.count
    }

    /// How many entries the viewport shows.
    pub fn visible_count(&self) -> (r: usize)
        ensures
            r == if self@.count >= self@.top + VIEWPORT_ROWS {
                VIEWPORT_ROWS as int
            } else if self@.count >= self@.top {
                self@.count - self@.top
            } else {
                0
            },
    {
        let remaining = self.count.saturating_sub(self.top);
        if VIEWPORT_ROWS < remaining {
            VIEWPORT_ROWS
        } else {
            remaining
        }
    }

    /// A menu over `count` entries, back at the first one.
    pub fn reset(&mut self, count: usize)
        ensures
            final(self)@ == (MenuModel { top: 0, selected: 0, count: count as nat }),
    {
        *self = MenuState { top: 0, selected: 0, count };
    }

    /// Applies a navigation action. An empty menu ignores every action; `Open`
    /// opens the selected entry whatever index it carries.
    pub fn transition(&mut self, action: MenuAction) -> (r: MenuAction)
        ensures
            menu_wf(final(self)@),
            old(self)@.count == 0 ==> r == MenuAction::NoOp && final(self)@ == old(self)@,
            old(self)@.count > 0 ==> match action {
                MenuAction::Next => r == MenuAction::Next && final(self)@ == after_next(old(self)@),
                MenuAction::Previous => r == MenuAction::Previous && final(self)@ == after_previous(
                    old(self)@,
                ),
                MenuAction::Open(_) => r == MenuAction::Open(old(self)@.selected as usize)
                    && final(self)@ == old(self)@,
                MenuAction::NoOp => r == MenuAction::NoOp && final(self)@ == old(self)@,
            },
    {
        proof {
            use_type_invariant(&*self);
        }
        if self.count == 0 {
            return MenuAction::NoOp;
        }
        match action {
            MenuAction::Next => {
                let (sel, top) = if self.selected + 1 < self.count {
                    (self.selected + 1, self.top)
                } else {
                    (0, 0)
                };
                let top2 = if sel - top >= VIEWPORT_ROWS {
                    sel + 1 - VIEWPORT_ROWS
                } else {
                    top
                };
                *self = MenuState { top: top2, selected: sel, count: self.count };
                MenuAction::Next
            },
            MenuAction::Previous => {
                let (sel, top) = if self.selected > 0 {
                    (self.selected - 1, self.top)
                } else {
                    (self.count - 1, self.count.saturating_sub(VIEWPORT_ROWS))
                };
                let top2 = if sel < top {
                    sel
                } else {
                    top
                };
                *self = MenuState { top: top2, selected: sel, count: self.count };
                MenuAction::Previous
            },
            MenuAction::Open(_) => MenuAction::Open(self.selected),
            MenuAction::NoOp => MenuAction::NoOp,
        }
    }
}

/// The selection is always visible.
pub proof fn lemma_selection_visible(m: MenuModel)
    requires
        menu_wf(m),
        m.count > 0,
    ensures
        m.top <= m.selected < m.top + VIEWPORT_ROWS && m.selected < m.count,
{
}

/// Moving down then up returns to the same entry when no wrap happens.
pub proof fn lemma_next_then_previous(m: MenuModel)
    requires
        menu_wf(m),
        m.selected + 1 < m.count,
    ensures
        after_previous(after_next(m)).selected == m.selected,
        menu_wf(after_next(m)),
        menu_wf(after_previous(after_next(m))),
{
}

/// Moving up then down returns to the same entry when no wrap happens.
pub proof fn lemma_previous_then_next(m: MenuModel)
    requires
        menu_wf(m),
        m.selected > 0,
    ensures
        after_next(after_previous(m)).selected == m.selected,
{
}

// ---------------------------------------------------------------------------
// Layout
// ---------------------------------------------------------------------------

/// One row of the drawn menu: the entry it shows, the top of its band, and
/// whether it carries the selection frame.
#[derive(Debug, Clone, Copy, PartialEq, Eq, Structural)]
pub struct MenuRow {
    pub index: usize,
    pub y: i32,
    pub selected: bool,
}

/// The rows the menu draws: one per visible entry, from the top of the
/// viewport down, each band `MENU_ROW_STRIDE` pixels below the last, the
/// first at `MENU_ROW_START_Y`.
pub open spec fn menu_rows_of(m: MenuModel) -> Seq<MenuRow> {
    let visible = if m.count >= m.top + VIEWPORT_ROWS {
        VIEWPORT_ROWS as int
    } else if m.count >= m.top {
        m.count - m.top
    } else {
        0
    };
    Seq::new(
        visible as nat,
        |row: int|
            MenuRow {
                index: (m.top + row) as usize,
                y: (MENU_ROW_START_Y + row * MENU_ROW_STRIDE) as i32,
                selected: m.top + row == m.selected,
            },
    )
}

/// The rows to draw for the menu's viewport.
pub fn menu_rows(state: &MenuState) -> (r: Vec<MenuRow>)
    ensures
        r@ == menu_rows_of(state@),
{
    let visible = state.visible_count();
    let top = state.top();
    let selected = state.selected();
    let mut rows: Vec<MenuRow> = Vec::new();
    let mut row: usize = 0;
    while row < visible
        invariant
            visible <= VIEWPORT_ROWS,
            visible == menu_rows_of(state@).len(),
            top == state@.top,
            selected == state@.selected,
            menu_wf(state@),
            row <= visible,
            rows@ == menu_rows_of(state@).take(row as int),
        decreases visible - row,
    {
        let index = top + row;
        let y = MENU_ROW_START_Y + (row as i32) * MENU_ROW_STRIDE;
        rows.push(MenuRow { index, y, selected: index == selected });
        assert(rows@ =~= menu_rows_of(state@).take(row + 1));
        row = row + 1;
    }
    assert(rows@ =~= menu_rows_of(state@));
    rows
}

/// The frame drawn round the selected row whose band starts at `y`: inset by
/// the stroke on the left and right, as wide as the page less two strokes,
/// and the band's height less two strokes.
pub fn highlight_frame(y: i32) -> (r: (i32, i32, u32, u32))
    ensures
        r == (HIGHLIGHT_STROKE as i32, y, (480 - 2 * HIGHLIGHT_STROKE) as u32, (
        MENU_ROW_STRIDE - 2 * HIGHLIGHT_STROKE) as u32),
{
    (
        HIGHLIGHT_STROKE as i32,
        y,
        (480 - 2 * (HIGHLIGHT_STROKE as i32)) as u32,
        (MENU_ROW_STRIDE as u32) - 2 * HIGHLIGHT_STROKE,
    )
}

/// Where a row's text starts: at the left margin, its baseline 16 pixels
/// below the top of the band.
pub fn menu_text_origin(y: i32) -> (r: (i32, i32))
    requires
        y <= i32::MAX - 16,
    ensures
        r.0 == MENU_TEXT_LEFT && r.1 == y + 16,
{
    (MENU_TEXT_LEFT, y + 16)
}

} // verus!
