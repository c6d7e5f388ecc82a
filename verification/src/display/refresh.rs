//! Choice of refresh waveform for each page turn: a full grayscale refresh to
//! start and periodically, a black-and-white seed before differential updates,
//! then differential updates of the whole screen or of the changed chunks.

use vstd::prelude::*;

verus! {

pub const X4_CHUNK_COUNT: u8 = 30;
pub const DEFAULT_FULL_REFRESH_CADENCE: u32 = 5;

#[derive(Debug, Clone, Copy, PartialEq, Eq, Structural)]
pub enum RefreshDecision {
    FullGrayscale,
    FullBwSeed,
    AdjacentDirtyPartial { changed_chunk_mask: u32 },
    FullScreenDifferential,
    Noop,
}

#[derive(Debug, Clone, Copy, PartialEq, Eq, Structural)]
pub enum RefreshPolicy {
    FullScreenDifferential,
    ChunkDirtyDifferential,
}

/// Model of the refresh state.
pub struct RefreshModel {
    pub previous_page: Option<u32>,
    pub fast_refresh_count: u32,
    pub full_refresh_cadence: u32,
    pub differential_ready: bool,
}

/// The decision for a turn to `target`: nothing for the page already shown;
/// full grayscale for the first page and once `cadence` fast refreshes have
/// run; a black-and-white seed until differential updates are possible; then
/// a chunk update when the policy allows it and a chunk mask is known, else a
/// full-screen differential update.
pub open spec fn decision_for(
    m: RefreshModel,
    target: u32,
    mask: Option<u32>,
    policy: RefreshPolicy,
) -> RefreshDecision {
    match m.previous_page {
        None => RefreshDecision::FullGrayscale,
        Some(prev) => if prev == target {
            RefreshDecision::Noop
        } else if m.fast_refresh_count >= m.full_refresh_cadence {
            RefreshDecision::FullGrayscale
        } else if !m.differential_ready {
            RefreshDecision::FullBwSeed
        } else {
            match (policy, mask) {
                (RefreshPolicy::ChunkDirtyDifferential, Some(changed_chunk_mask)) => {
                    RefreshDecision::AdjacentDirtyPartial { changed_chunk_mask }
                },
                _ => RefreshDecision::FullScreenDifferential,
            }
        },
    }
}

/// The state after `decision` showed `target`: a full grayscale refresh resets
/// the fast-refresh count and needs a new seed; any fast refresh counts one
/// more and leaves the panel ready for differential updates.
pub open spec fn after_success(m: RefreshModel, target: u32, decision: RefreshDecision) -> RefreshModel {
    match decision {
        RefreshDecision::FullGrayscale => RefreshModel {
            previous_page: Some(target),
            fast_refresh_count: 0,
            differential_ready: false,
            ..m
        },
        RefreshDecision::Noop => RefreshModel { previous_page: Some(target), ..m },
        _ => RefreshModel {
            previous_page: Some(target),
            fast_refresh_count: if m.fast_refresh_count == u32::MAX {
                u32::MAX
            } else {
                (m.fast_refresh_count + 1) as u32
            },
            differential_ready: true,
            ..m
        },
    }
}

#[derive(Debug, Clone, Copy, PartialEq, Eq)]
pub struct RefreshState {
    previous_page: Option<u32>,
    fast_refresh_count: u32,
    full_refresh_cadence: u32,
    differential_ready: bool,
}

impl View for RefreshState {
    type V = RefreshModel;

    closed spec fn view(&self) -> RefreshModel {
        RefreshModel {
            previous_page: self.previous_page,
            fast_refresh_count: self.fast_refresh_count,
            full_refresh_cadence: self.full_refresh_cadence,
            differential_ready: self.differential_ready,
        }
    }
}

impl RefreshState {
    pub fn new() -> (r: Self)
        ensures
            r@ == (RefreshModel {
                previous_page: None,
                fast_refresh_count: 0,
                full_refresh_cadence: DEFAULT_FULL_REFRESH_CADENCE,
                differential_ready: false,
            }),
    {
        Self {
            previous_page: None,
            fast_refresh_count: 0,
            full_refresh_cadence: DEFAULT_FULL_REFRESH_CADENCE,
            differential_ready: false,
        }
    }

    pub fn decide(&self, target_page: u32, transition_mask: Option<u32>) -> (r: RefreshDecision)
        ensures
            r == decision_for(
                self@,
                target_page,
                transition_mask,
                RefreshPolicy::FullScreenDifferential,
            ),
    {
        self.decide_with_policy(
            target_page,
            transition_mask,
            RefreshPolicy::FullScreenDifferential,
        )
    }

    pub fn decide_with_policy(
        &self,
        target_page: u32,
        transition_mask: Option<u32>,
        policy: RefreshPolicy,
    ) -> (r: RefreshDecision)
        ensures
            r == decision_for(self@, target_page, transition_mask, policy),
    {
        let previous_page = match self.previous_page {
            Some(p) => p,
            None => return RefreshDecision::FullGrayscale,
        };
        if previous_page == target_page {
            return RefreshDecision::Noop;
        }
        if self.fast_refresh_count >= self.full_refresh_cadence {
            return RefreshDecision::FullGrayscale;
        }
        if !self.differential_ready {
            return RefreshDecision::FullBwSeed;
        }
        match (policy, transition_mask) {
            (RefreshPolicy::ChunkDirtyDifferential, Some(changed_chunk_mask)) => {
                RefreshDecision::AdjacentDirtyPartial { changed_chunk_mask }
            },
            _ => RefreshDecision::FullScreenDifferential,
        }
    }

    pub fn record_success(&mut self, target_page: u32, decision: RefreshDecision)
        ensures
            final(self)@ == after_success(old(self)@, target_page, decision),
    {
        self.previous_page = Some(target_page);
        match decision {
            RefreshDecision::FullGrayscale => {
                self.fast_refresh_count = 0;
                self.differential_ready = false;
            },
            RefreshDecision::FullBwSeed
            | RefreshDecision::AdjacentDirtyPartial { .. }
            | RefreshDecision::FullScreenDifferential => {
                self.fast_refresh_count = self.fast_refresh_count.saturating_add(1);
                self.differential_ready = true;
            },
            RefreshDecision::Noop => {},
        }
    }

    /// Forgets what is on the panel: the next turn is a full grayscale refresh.
    pub fn invalidate(&mut self)
        ensures
            final(self)@ == (RefreshModel {
                previous_page: None,
                fast_refresh_count: 0,
                full_refresh_cadence: DEFAULT_FULL_REFRESH_CADENCE,
                differential_ready: false,
            }),
    {
        *self = Self::new();
    }
}

/// After a full grayscale refresh the next different page is seeded in black
/// and white before any differential update.
pub proof fn lemma_grayscale_then_seed(m: RefreshModel, shown: u32, next: u32, mask: Option<u32>, policy: RefreshPolicy)
    requires
        shown != next,
        m.full_refresh_cadence > 0,
    ensures
        decision_for(after_success(m, shown, RefreshDecision::FullGrayscale), next, mask, policy)
            == RefreshDecision::FullBwSeed,
{
}

/// Showing the same page again is never a refresh.
pub proof fn lemma_same_page_is_noop(m: RefreshModel, shown: u32, d: RefreshDecision, mask: Option<u32>, policy: RefreshPolicy)
    ensures
        decision_for(after_success(m, shown, d), shown, mask, policy) == RefreshDecision::Noop,
{
}

/// Once `cadence` fast refreshes have run, the next turn is a full grayscale refresh.
pub proof fn lemma_cadence_forces_grayscale(m: RefreshModel, target: u32, mask: Option<u32>, policy: RefreshPolicy)
    requires
        m.previous_page is Some,
        m.previous_page != Some(target),
        m.fast_refresh_count >= m.full_refresh_cadence,
    ensures
        decision_for(m, target, mask, policy) == RefreshDecision::FullGrayscale,
{
}

} // verus!

verus! {

impl Default for RefreshState {
    fn default() -> (r: Self)
        ensures
            r@ == (RefreshModel {
                previous_page: None,
                fast_refresh_count: 0,
                full_refresh_cadence: DEFAULT_FULL_REFRESH_CADENCE,
                differential_ready: false,
            }),
    {
        Self::new()
    }
}

} // verus!
