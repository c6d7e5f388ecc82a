//! Deferred grayscale refresh: after a fast black-and-white page turn the
//! panel waits a settle delay, refreshes in grayscale, then re-synchronises the
//! black-and-white base. A new request cancels the wait.

use vstd::prelude::*;
use crate::fw::input::{turn_of, Button, PageTurn};

verus! {

pub const MODE_MENU: u8 = 0;
pub const MODE_READING: u8 = 1;

/// The display mode the firmware starts in: the library menu.
pub const STARTUP_DISPLAY_MODE: u8 = MODE_MENU;

pub const PAGE_TURN_QUEUE_CAPACITY: usize = 16;
pub const DISPLAY_COMPLETION_CAPACITY: usize = 16;
pub const INPUT_POLL_INTERVAL_MS: u64 = 50;
pub const GRAY_SETTLE_DELAY_MS: u64 = 350;
pub const DISPLAY_BUSY_TIMEOUT_MS: u64 = 60_000;
pub const DISPLAY_STREAM_STRIP_ROWS: u16 = 16;

#[derive(Debug, Clone, Copy, PartialEq, Eq, Structural)]
pub enum DisplayProbeKind {
    FullRefreshCurrent,
    ClearWhite,
    WindowCorners,
}

#[derive(Debug, Clone, Copy, PartialEq, Eq, Structural)]
pub enum DisplayCompletionStatus {
    Success,
    Error,
}

#[derive(Debug, Clone, Copy, PartialEq, Eq, Structural)]
pub enum DisplayRequest {
    Turn { turn: PageTurn, completion_sequence: Option<u16> },
    Goto { page: u32, completion_sequence: u16 },
    Probe { kind: DisplayProbeKind, completion_sequence: u16 },
    MenuNext,
    MenuPrev,
    MenuSelect,
    MenuBack,
}

#[derive(Debug, Clone, Copy, PartialEq, Eq, Structural)]
pub struct DisplayCompletion {
    pub sequence: u16,
    pub status: DisplayCompletionStatus,
    pub page: u32,
}

/// The request a button press makes in a display mode: in the menu the
/// arrows move the selection and Select opens it; while reading the arrows
/// turn pages and Select or Back return to the menu. Other presses, and
/// unknown modes, make none.
pub open spec fn request_for(button: Button, mode: u8) -> Option<DisplayRequest> {
    if mode == MODE_MENU {
        match button {
            Button::Up | Button::Left => Some(DisplayRequest::MenuPrev),
            Button::Down | Button::Right => Some(DisplayRequest::MenuNext),
            Button::Select => Some(DisplayRequest::MenuSelect),
            Button::Back | Button::Power => None,
        }
    } else if mode == MODE_READING {
        match button {
            Button::Up | Button::Left => Some(
                DisplayRequest::Turn { turn: PageTurn::Previous, completion_sequence: None },
            ),
            Button::Down | Button::Right => Some(
                DisplayRequest::Turn { turn: PageTurn::Next, completion_sequence: None },
            ),
            Button::Select | Button::Back => Some(DisplayRequest::MenuBack),
            Button::Power => None,
        }
    } else {
        None
    }
}

/// While reading, a button's request is the page turn that
/// `page_turn_for_button` gives for it, and only Select and Back, which turn
/// no page, ask for something else (the menu). In the menu the buttons that
/// turn back while reading move the selection up, and those that turn on
/// move it down.
pub proof fn lemma_reading_request_is_the_button_turn(button: Button)
    ensures
        turn_of(button) matches Some(t) ==> request_for(button, MODE_READING) == Some(
            DisplayRequest::Turn { turn: t, completion_sequence: None },
        ),
        request_for(button, MODE_READING) matches Some(DisplayRequest::Turn { turn, .. })
            ==> turn_of(button) == Some(turn),
        turn_of(button) is None && button != Button::Power ==> request_for(button, MODE_READING)
            == Some(DisplayRequest::MenuBack),
        turn_of(button) == Some(PageTurn::Previous) ==> request_for(button, MODE_MENU) == Some(
            DisplayRequest::MenuPrev,
        ),
        turn_of(button) == Some(PageTurn::Next) ==> request_for(button, MODE_MENU) == Some(
            DisplayRequest::MenuNext,
        ),
{
}

pub fn button_to_request(button: Button, mode: u8) -> (r: Option<DisplayRequest>)
    ensures
        r == request_for(button, mode),
{
    if mode == MODE_MENU {
        match button {
            Button::Up | Button::Left => Some(DisplayRequest::MenuPrev),
            Button::Down | Button::Right => Some(DisplayRequest::MenuNext),
            Button::Select => Some(DisplayRequest::MenuSelect),
            Button::Back | Button::Power => None,
        }
    } else if mode == MODE_READING {
        match button {
            Button::Up | Button::Left => Some(
                DisplayRequest::Turn { turn: PageTurn::Previous, completion_sequence: None },
            ),
            Button::Down | Button::Right => Some(
                DisplayRequest::Turn { turn: PageTurn::Next, completion_sequence: None },
            ),
            Button::Select | Button::Back => Some(DisplayRequest::MenuBack),
            Button::Power => None,
        }
    } else {
        None
    }
}

#[derive(Debug, Clone, Copy, PartialEq, Eq, Structural)]
pub enum RefreshPhase {
    BwReady,
    BwRefreshing,
    GrayDelay,
    GrayRefreshing,
    BaseSync,
    Recovering,
    Fault,
}

#[derive(Debug, Clone, Copy, PartialEq, Eq, Structural)]
pub enum RefreshAction {
    RenderBw { from: u32, target: u32 },
    RenderGray { page: u32 },
    SyncBwBase { page: u32 },
    RecoverBw { page: u32 },
    WaitForRequest,
    WaitUntil { deadline_ms: u64 },
    NoAction,
}

/// Model of the refresh coordinator.
pub struct CoordinatorModel {
    pub page_count: u32,
    pub displayed_page: u32,
    pub active_target: Option<u32>,
    pub gray_deadline_ms: Option<u64>,
    pub phase: RefreshPhase,
    pub next_action: RefreshAction,
}

impl CoordinatorModel {
    /// The same state with only the pending action replaced: how every refused event leaves it.
    pub open spec fn refuse(self) -> CoordinatorModel {
        CoordinatorModel { next_action: RefreshAction::NoAction, ..self }
    }
}

#[derive(Debug, Clone, Copy, PartialEq, Eq)]
pub struct RefreshCoordinator {
    page_count: u32,
    displayed_page: u32,
    active_target: Option<u32>,
    gray_deadline_ms: Option<u64>,
    phase: RefreshPhase,
    next_action: RefreshAction,
}

impl View for RefreshCoordinator {
    type V = CoordinatorModel;

    closed spec fn view(&self) -> CoordinatorModel {
        CoordinatorModel {
            page_count: self.page_count,
            displayed_page: self.displayed_page,
            active_target: self.active_target,
            gray_deadline_ms: self.gray_deadline_ms,
            phase: self.phase,
            next_action: self.next_action,
        }
    }
}

impl RefreshCoordinator {
    /// A coordinator that starts by recovering page 0 in black and white.
    pub fn new(page_count: u32) -> (r: Self)
        ensures
            r@ == (CoordinatorModel {
                page_count,
                displayed_page: 0,
                active_target: None,
                gray_deadline_ms: None,
                phase: RefreshPhase::Recovering,
                next_action: RefreshAction::RecoverBw { page: 0 },
            }),
    {
        Self {
            page_count,
            displayed_page: 0,
            active_target: None,
            gray_deadline_ms: None,
            phase: RefreshPhase::Recovering,
            next_action: RefreshAction::RecoverBw { page: 0 },
        }
    }

    pub fn phase(&self) -> (r: RefreshPhase)
        ensures
            r == self@.phase,
    {
        self.phase
    }

    pub fn next_action(&self) -> (r: RefreshAction)
        ensures
            r == self@.next_action,
    {
        self.next_action
    }

    pub fn displayed_page(&self) -> (r: u32)
        ensures
            r == self@.displayed_page,
    {
        self.displayed_page
    }

    /// Starts a black-and-white render of `target` from the displayed page; a
    /// target outside the book is refused.
    pub fn start_bw(&mut self, target: u32) -> (r: RefreshAction)
        ensures
            r == final(self)@.next_action,
            target >= old(self)@.page_count ==> final(self)@ == old(self)@.refuse(),
            target < old(self)@.page_count ==> final(self)@ == (CoordinatorModel {
                active_target: Some(target),
                phase: RefreshPhase::BwRefreshing,
                next_action: RefreshAction::RenderBw { from: old(self)@.displayed_page, target },
                ..old(self)@
            }),
    {
        if target >= self.page_count {
            self.next_action = RefreshAction::NoAction;
            return self.next_action;
        }
        self.active_target = Some(target);
        self.phase = RefreshPhase::BwRefreshing;
        self.next_action = RefreshAction::RenderBw { from: self.displayed_page, target };
        self.next_action
    }

    /// Commits `target` after its black-and-white render and schedules the
    /// grayscale refresh after the settle delay; refused unless that render
    /// was the one in progress.
    pub fn record_bw_complete(&mut self, target: u32, now_ms: u64) -> (r: RefreshAction)
        requires
            now_ms + GRAY_SETTLE_DELAY_MS <= u64::MAX,
        ensures
            r == final(self)@.next_action,
            !(old(self)@.phase == RefreshPhase::BwRefreshing && old(self)@.active_target == Some(
                target,
            )) ==> final(self)@ == old(self)@.refuse(),
            old(self)@.phase == RefreshPhase::BwRefreshing && old(self)@.active_target == Some(
                target,
            ) ==> final(self)@ == (CoordinatorModel {
                displayed_page: target,
                active_target: None,
                gray_deadline_ms: Some((now_ms + GRAY_SETTLE_DELAY_MS) as u64),
                phase: RefreshPhase::GrayDelay,
                next_action: RefreshAction::WaitUntil {
                    deadline_ms: (now_ms + GRAY_SETTLE_DELAY_MS) as u64,
                },
                ..old(self)@
            }),
    {
        if self.phase != RefreshPhase::BwRefreshing || self.active_target != Some(target) {
            self.next_action = RefreshAction::NoAction;
            return self.next_action;
        }
        self.displayed_page = target;
        self.active_target = None;
        self.gray_deadline_ms = Some(now_ms + GRAY_SETTLE_DELAY_MS);
        self.phase = RefreshPhase::GrayDelay;
        self.next_action = RefreshAction::WaitUntil { deadline_ms: now_ms + GRAY_SETTLE_DELAY_MS };
        self.next_action
    }

    /// Starts the grayscale refresh once the settle deadline has passed; keeps
    /// waiting before it; refused outside the settle delay.
    pub fn gray_deadline_elapsed(&mut self, now_ms: u64) -> (r: RefreshAction)
        ensures
            r == final(self)@.next_action,
            old(self)@.phase != RefreshPhase::GrayDelay || old(self)@.gray_deadline_ms is None
                ==> final(self)@ == old(self)@.refuse(),
            old(self)@.phase == RefreshPhase::GrayDelay && old(self)@.gray_deadline_ms is Some ==> {
                let d = old(self)@.gray_deadline_ms->0;
                &&& now_ms < d ==> final(self)@ == (CoordinatorModel {
                    next_action: RefreshAction::WaitUntil { deadline_ms: d },
                    ..old(self)@
                })
                &&& now_ms >= d ==> final(self)@ == (CoordinatorModel {
                    phase: RefreshPhase::GrayRefreshing,
                    next_action: RefreshAction::RenderGray { page: old(self)@.displayed_page },
                    ..old(self)@
                })
            },
    {
        if self.phase != RefreshPhase::GrayDelay {
            self.next_action = RefreshAction::NoAction;
            return self.next_action;
        }
        let deadline_ms = match self.gray_deadline_ms {
            Some(d) => d,
            None => {
                self.next_action = RefreshAction::NoAction;
                return self.next_action;
            },
        };
        if now_ms < deadline_ms {
            self.next_action = RefreshAction::WaitUntil { deadline_ms };
            return self.next_action;
        }
        self.phase = RefreshPhase::GrayRefreshing;
        self.next_action = RefreshAction::RenderGray { page: self.displayed_page };
        self.next_action
    }

    /// After the grayscale refresh, re-synchronise the black-and-white base.
    pub fn record_gray_complete(&mut self) -> (r: RefreshAction)
        ensures
            r == final(self)@.next_action,
            old(self)@.phase != RefreshPhase::GrayRefreshing ==> final(self)@ == old(self)@.refuse(),
            old(self)@.phase == RefreshPhase::GrayRefreshing ==> final(self)@ == (CoordinatorModel {
                phase: RefreshPhase::BaseSync,
                next_action: RefreshAction::SyncBwBase { page: old(self)@.displayed_page },
                ..old(self)@
            }),
    {
        if self.phase != RefreshPhase::GrayRefreshing {
            self.next_action = RefreshAction::NoAction;
            return self.next_action;
        }
        self.phase = RefreshPhase::BaseSync;
        self.next_action = RefreshAction::SyncBwBase { page: self.displayed_page };
        self.next_action
    }

    /// A cancelled grayscale refresh returns to waiting for requests.
    pub fn record_gray_cancelled(&mut self) -> (r: RefreshAction)
        ensures
            r == final(self)@.next_action,
            old(self)@.phase != RefreshPhase::GrayRefreshing ==> final(self)@ == old(self)@.refuse(),
            old(self)@.phase == RefreshPhase::GrayRefreshing ==> final(self)@ == (CoordinatorModel {
                phase: RefreshPhase::BwReady,
                next_action: RefreshAction::WaitForRequest,
                ..old(self)@
            }),
    {
        if self.phase != RefreshPhase::GrayRefreshing {
            self.next_action = RefreshAction::NoAction;
            return self.next_action;
        }
        self.phase = RefreshPhase::BwReady;
        self.next_action = RefreshAction::WaitForRequest;
        self.next_action
    }

    /// A finished base sync returns to waiting for requests.
    pub fn record_base_sync_complete(&mut self) -> (r: RefreshAction)
        ensures
            r == final(self)@.next_action,
            old(self)@.phase != RefreshPhase::BaseSync ==> final(self)@ == old(self)@.refuse(),
            old(self)@.phase == RefreshPhase::BaseSync ==> final(self)@ == (CoordinatorModel {
                phase: RefreshPhase::BwReady,
                next_action: RefreshAction::WaitForRequest,
                ..old(self)@
            }),
    {
        if self.phase != RefreshPhase::BaseSync {
            self.next_action = RefreshAction::NoAction;
            return self.next_action;
        }
        self.phase = RefreshPhase::BwReady;
        self.next_action = RefreshAction::WaitForRequest;
        self.next_action
    }

    /// Skipping the base sync is the same as finishing it.
    pub fn skip_base_sync(&mut self) -> (r: RefreshAction)
        ensures
            r == final(self)@.next_action,
            old(self)@.phase != RefreshPhase::BaseSync ==> final(self)@ == old(self)@.refuse(),
            old(self)@.phase == RefreshPhase::BaseSync ==> final(self)@ == (CoordinatorModel {
                phase: RefreshPhase::BwReady,
                next_action: RefreshAction::WaitForRequest,
                ..old(self)@
            }),
    {
        self.record_base_sync_complete()
    }

    /// A new request cancels a pending grayscale refresh.
    pub fn request_arrived(&mut self) -> (r: RefreshAction)
        ensures
            r == RefreshAction::NoAction,
            old(self)@.phase == RefreshPhase::GrayDelay ==> final(self)@ == (CoordinatorModel {
                gray_deadline_ms: None,
                phase: RefreshPhase::BwReady,
                next_action: RefreshAction::NoAction,
                ..old(self)@
            }),
            old(self)@.phase != RefreshPhase::GrayDelay ==> final(self)@ == old(self)@.refuse(),
    {
        if self.phase == RefreshPhase::GrayDelay {
            self.gray_deadline_ms = None;
            self.phase = RefreshPhase::BwReady;
        }
        self.next_action = RefreshAction::NoAction;
        self.next_action
    }

    /// A completed full seed of `page` commits it and schedules the grayscale refresh.
    pub fn record_seed_complete(&mut self, page: u32, now_ms: u64) -> (r: RefreshAction)
        requires
            now_ms + GRAY_SETTLE_DELAY_MS <= u64::MAX,
        ensures
            r == final(self)@.next_action,
            final(self)@ == (CoordinatorModel {
                displayed_page: page,
                active_target: None,
                gray_deadline_ms: Some((now_ms + GRAY_SETTLE_DELAY_MS) as u64),
                phase: RefreshPhase::GrayDelay,
                next_action: RefreshAction::WaitUntil {
                    deadline_ms: (now_ms + GRAY_SETTLE_DELAY_MS) as u64,
                },
                ..old(self)@
            }),
    {
        self.displayed_page = page;
        self.active_target = None;
        self.gray_deadline_ms = Some(now_ms + GRAY_SETTLE_DELAY_MS);
        self.phase = RefreshPhase::GrayDelay;
        self.next_action = RefreshAction::WaitUntil { deadline_ms: now_ms + GRAY_SETTLE_DELAY_MS };
        self.next_action
    }

    /// A failure starts one recovery of the page in flight (or the displayed
    /// one); a failure during recovery is a fault, and a fault stays.
    pub fn record_failure(&mut self) -> (r: RefreshAction)
        ensures
            r == final(self)@.next_action,
            old(self)@.phase == RefreshPhase::Recovering ==> final(self)@ == (CoordinatorModel {
                phase: RefreshPhase::Fault,
                next_action: RefreshAction::NoAction,
                ..old(self)@
            }),
            old(self)@.phase == RefreshPhase::Fault ==> final(self)@ == old(self)@.refuse(),
            old(self)@.phase != RefreshPhase::Recovering && old(self)@.phase != RefreshPhase::Fault
                ==> {
                let page = match old(self)@.active_target {
                    Some(t) => t,
                    None => old(self)@.displayed_page,
                };
                final(self)@ == (CoordinatorModel {
                    active_target: Some(page),
                    phase: RefreshPhase::Recovering,
                    next_action: RefreshAction::RecoverBw { page },
                    ..old(self)@
                })
            },
    {
        match self.phase {
            RefreshPhase::Recovering => {
                self.phase = RefreshPhase::Fault;
                self.next_action = RefreshAction::NoAction;
                self.next_action
            },
            RefreshPhase::Fault => {
                self.next_action = RefreshAction::NoAction;
                self.next_action
            },
            _ => {
                let page = match self.active_target {
                    Some(t) => t,
                    None => self.displayed_page,
                };
                self.active_target = Some(page);
                self.phase = RefreshPhase::Recovering;
                self.next_action = RefreshAction::RecoverBw { page };
                self.next_action
            },
        }
    }

    /// Starts recovering `page`; refused for a page outside the book or after a fault.
    pub fn begin_recovery(&mut self, page: u32) -> (r: RefreshAction)
        ensures
            r == final(self)@.next_action,
            page >= old(self)@.page_count || old(self)@.phase == RefreshPhase::Fault ==> final(self)@ == old(self)@.refuse(),
            page < old(self)@.page_count && old(self)@.phase != RefreshPhase::Fault ==> final(self)@
                == (CoordinatorModel {
                active_target: Some(page),
                phase: RefreshPhase::Recovering,
                next_action: RefreshAction::RecoverBw { page },
                ..old(self)@
            }),
    {
        if page >= self.page_count || self.phase == RefreshPhase::Fault {
            self.next_action = RefreshAction::NoAction;
            return self.next_action;
        }
        self.active_target = Some(page);
        self.phase = RefreshPhase::Recovering;
        self.next_action = RefreshAction::RecoverBw { page };
        self.next_action
    }

    /// Commits the recovered page; refused unless it is the recovery in progress.
    pub fn record_recovery_complete(&mut self, page: u32, _now_ms: u64) -> (r: RefreshAction)
        ensures
            r == final(self)@.next_action,
            !(old(self)@.phase == RefreshPhase::Recovering && old(self)@.active_target == Some(
                page,
            )) ==> final(self)@ == old(self)@.refuse(),
            old(self)@.phase == RefreshPhase::Recovering && old(self)@.active_target == Some(page)
                ==> final(self)@ == (CoordinatorModel {
                displayed_page: page,
                active_target: None,
                phase: RefreshPhase::BwReady,
                next_action: RefreshAction::WaitForRequest,
                ..old(self)@
            }),
    {
        if self.phase != RefreshPhase::Recovering || self.active_target != Some(page) {
            self.next_action = RefreshAction::NoAction;
            return self.next_action;
        }
        self.displayed_page = page;
        self.active_target = None;
        self.phase = RefreshPhase::BwReady;
        self.next_action = RefreshAction::WaitForRequest;
        self.next_action
    }
}

/// From a fault every event is refused: the coordinator stays faulted.
pub proof fn lemma_fault_is_final(m: CoordinatorModel)
    requires
        m.phase == RefreshPhase::Fault,
    ensures
        m.refuse().phase == RefreshPhase::Fault,
{
}

} // verus!
