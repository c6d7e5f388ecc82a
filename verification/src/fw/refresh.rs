//! Choice of refresh waveform for each page turn: a full grayscale refresh to
//! start and periodically, a black-and-white seed before differential updates,
//! then differential updates of the whole screen or of the changed chunks.

use vstd::prelude::*;

verus! {

pub const X4_CHUNK_COUNT: u8 = 30;
pub const DEFAULT_FULL_REFRESH_CADENCE: u32 = 5;

#[derive(Debug, Clone, Copy, PartialEq, Eq, Structural)]
pub enum RefreshDecision {
    FullGrayscale,
    FullBwSeed,
    AdjacentDirtyPartial { changed_chunk_mask: u32 },
    FullScreenDifferential,
    Noop,
}

/// The name under which a decision is logged.
pub open spec fn decision_name(d: RefreshDecision) -> Seq<char> {
    match d {
        RefreshDecision::FullGrayscale => "FullGrayscale"@,
        RefreshDecision::FullBwSeed => "FullBwSeed"@,
        RefreshDecision::AdjacentDirtyPartial { .. } => "AdjacentDirtyPartial"@,
        RefreshDecision::FullScreenDifferential => "FullScreenDifferential"@,
        RefreshDecision::Noop => "Noop"@,
    }
}

impl RefreshDecision {
    pub fn name(self) -> (r: &'static str)
        ensures
            r@ == decision_name(self),
    {
        match self {
            RefreshDecision::FullGrayscale => "FullGrayscale",
            RefreshDecision::FullBwSeed => "FullBwSeed",
            RefreshDecision::AdjacentDirtyPartial { .. } => "AdjacentDirtyPartial",
            RefreshDecision::FullScreenDifferential => "FullScreenDifferential",
            RefreshDecision::Noop => "Noop",
        }
    }
}

#[derive(Debug, Clone, Copy, PartialEq, Eq, Structural)]
pub enum RefreshPolicy {
    FullScreenDifferentialDefault,
    ChunkDirtyDifferentialDefault,
}

/// Model of the refresh state.
pub struct RefreshModel {
    pub previous_page: Option<u32>,
    pub fast_refresh_count: u32,
    pub full_refresh_cadence: u32,
    pub bw_differential_ready: bool,
}

/// The decision for a turn to `target`: nothing for the page already shown;
/// full grayscale for the first page and once `cadence` fast refreshes have
/// run; a black-and-white seed until differential updates are possible; then
/// a chunk update when the policy allows it and a chunk mask is known, else a
/// full-screen differential update.
pub open spec fn decision_for(
    m: RefreshModel,
    target: u32,
    mask: Option<u32>,
    policy: RefreshPolicy,
) -> RefreshDecision {
    match m.previous_page {
        None => RefreshDecision::FullGrayscale,
        Some(prev) => if prev == target {
            RefreshDecision::Noop
        } else if m.fast_refresh_count >= m.full_refresh_cadence {
            RefreshDecision::FullGrayscale
        } else if !m.bw_differential_ready {
            RefreshDecision::FullBwSeed
        } else {
            match (policy, mask) {
                (RefreshPolicy::ChunkDirtyDifferentialDefault, Some(changed_chunk_mask)) => {
                    RefreshDecision::AdjacentDirtyPartial { changed_chunk_mask }
                },
                _ => RefreshDecision::FullScreenDifferential,
            }
        },
    }
}

/// The state after `decision` showed `target`: a full grayscale refresh resets
/// the fast-refresh count and needs a new seed; any fast refresh counts one
/// more and leaves the panel ready for differential updates.
pub open spec fn after_success(m: RefreshModel, target: u32, decision: RefreshDecision) -> RefreshModel {
    match decision {
        RefreshDecision::FullGrayscale => RefreshModel {
            previous_page: Some(target),
            fast_refresh_count: 0,
            bw_differential_ready: false,
            ..m
        },
        RefreshDecision::Noop => RefreshModel { previous_page: Some(target), ..m },
        _ => RefreshModel {
            previous_page: Some(target),
            fast_refresh_count: if m.fast_refresh_count == u32::MAX {
                u32::MAX
            } else {
                (m.fast_refresh_count + 1) as u32
            },
            bw_differential_ready: true,
            ..m
        },
    }
}

#[derive(Debug, Clone, Copy, PartialEq, Eq)]
pub struct RefreshState {
    previous_page: Option<u32>,
    fast_refresh_count: u32,
    full_refresh_cadence: u32,
    bw_differential_ready: bool,
}

impl View for RefreshState {
    type V = RefreshModel;

    closed spec fn view(&self) -> RefreshModel {
        RefreshModel {
            previous_page: self.previous_page,
            fast_refresh_count: self.fast_refresh_count,
            full_refresh_cadence: self.full_refresh_cadence,
            bw_differential_ready: self.bw_differential_ready,
        }
    }
}

impl RefreshState {
    pub fn new() -> (r: Self)
        ensures
            r@ == (RefreshModel {
                previous_page: None,
                fast_refresh_count: 0,
                full_refresh_cadence: DEFAULT_FULL_REFRESH_CADENCE,
                bw_differential_ready: false,
            }),
    {
        Self {
            previous_page: None,
            fast_refresh_count: 0,
            full_refresh_cadence: DEFAULT_FULL_REFRESH_CADENCE,
            bw_differential_ready: false,
        }
    }

    pub fn decide(&self, target_page: u32, transition_mask: Option<u32>) -> (r: RefreshDecision)
        ensures
            r == decision_for(
                self@,
                target_page,
                transition_mask,
                RefreshPolicy::FullScreenDifferentialDefault,
            ),
    {
        self.decide_with_policy(
            target_page,
            transition_mask,
            RefreshPolicy::FullScreenDifferentialDefault,
        )
    }

    pub fn decide_with_policy(
        &self,
        target_page: u32,
        transition_mask: Option<u32>,
        policy: RefreshPolicy,
    ) -> (r: RefreshDecision)
        ensures
            r == decision_for(self@, target_page, transition_mask, policy),
    {
        let previous_page = match self.previous_page {
            Some(p) => p,
            None => return RefreshDecision::FullGrayscale,
        };
        if previous_page == target_page {
            return RefreshDecision::Noop;
        }
        if self.fast_refresh_count >= self.full_refresh_cadence {
            return RefreshDecision::FullGrayscale;
        }
        if !self.bw_differential_ready {
            return RefreshDecision::FullBwSeed;
        }
        match policy {
            RefreshPolicy::FullScreenDifferentialDefault => RefreshDecision::FullScreenDifferential,
            RefreshPolicy::ChunkDirtyDifferentialDefault => {
                match transition_mask {
                    Some(mask) => RefreshDecision::AdjacentDirtyPartial { changed_chunk_mask: mask },
                    None => RefreshDecision::FullScreenDifferential,
                }
            },
        }
    }

    pub fn record_success(&mut self, target_page: u32, decision: RefreshDecision)
        ensures
            final(self)@ == after_success(old(self)@, target_page, decision),
    {
        self.previous_page = Some(target_page);
        match decision {
            RefreshDecision::FullGrayscale => {
                self.fast_refresh_count = 0;
                self.bw_differential_ready = false;
            },
            RefreshDecision::FullBwSeed
            | RefreshDecision::AdjacentDirtyPartial { .. }
            | RefreshDecision::FullScreenDifferential => {
                self.fast_refresh_count = self.fast_refresh_count.saturating_add(1);
                self.bw_differential_ready = true;
            },
            RefreshDecision::Noop => {},
        }
    }

    pub fn previous_page(&self) -> (r: Option<u32>)
        ensures
            r == self@.previous_page,
    {
        self.previous_page
    }
}

/// After a full grayscale refresh the next different page is seeded in black
/// and white before any differential update.
pub proof fn lemma_grayscale_then_seed(m: RefreshModel, shown: u32, next: u32, mask: Option<u32>, policy: RefreshPolicy)
    requires
        shown != next,
        m.full_refresh_cadence > 0,
    ensures
        decision_for(after_success(m, shown, RefreshDecision::FullGrayscale), next, mask, policy)
            == RefreshDecision::FullBwSeed,
{
}

/// Showing the same page again is never a refresh.
pub proof fn lemma_same_page_is_noop(m: RefreshModel, shown: u32, d: RefreshDecision, mask: Option<u32>, policy: RefreshPolicy)
    ensures
        decision_for(after_success(m, shown, d), shown, mask, policy) == RefreshDecision::Noop,
{
}

/// Once `cadence` fast refreshes have run, the next turn is a full grayscale refresh.
pub proof fn lemma_cadence_forces_grayscale(m: RefreshModel, target: u32, mask: Option<u32>, policy: RefreshPolicy)
    requires
        m.previous_page is Some,
        m.previous_page != Some(target),
        m.fast_refresh_count >= m.full_refresh_cadence,
    ensures
        decision_for(m, target, mask, policy) == RefreshDecision::FullGrayscale,
{
}

/// Every fast refresh that succeeds (a black-and-white seed, a chunk update
/// or a full-screen differential update) counts one more fast refresh,
/// saturating at `u32::MAX`, and leaves the panel ready for differential
/// updates; a full grayscale refresh starts the count again, and showing the
/// same page again changes neither. The page shown is the target in every
/// case, and the cadence never changes.
pub proof fn lemma_success_counts_fast_refreshes(m: RefreshModel, target: u32, d: RefreshDecision)
    ensures
        after_success(m, target, d).previous_page == Some(target),
        after_success(m, target, d).full_refresh_cadence == m.full_refresh_cadence,
        (d is FullBwSeed || d is AdjacentDirtyPartial || d is FullScreenDifferential)
            ==> after_success(m, target, d).fast_refresh_count == if m.fast_refresh_count
            < u32::MAX {
            m.fast_refresh_count + 1
        } else {
            u32::MAX as int
        } && after_success(m, target, d).bw_differential_ready,
        d is FullGrayscale ==> after_success(m, target, d).fast_refresh_count == 0
            && !after_success(m, target, d).bw_differential_ready,
        d is Noop ==> after_success(m, target, d).fast_refresh_count == m.fast_refresh_count
            && after_success(m, target, d).bw_differential_ready == m.bw_differential_ready,
{
}

/// The state after turning to each of `pages` in order, each turn refreshed
/// as `decision_for` chooses and recorded as a success.
pub open spec fn after_turns(
    m: RefreshModel,
    pages: Seq<u32>,
    mask: Option<u32>,
    policy: RefreshPolicy,
) -> RefreshModel
    decreases pages.len(),
{
    if pages.len() == 0 {
        m
    } else {
        let before = after_turns(m, pages.drop_last(), mask, policy);
        after_success(before, pages.last(), decision_for(before, pages.last(), mask, policy))
    }
}

/// Whether each page of `pages` differs from the one before it, the first
/// from `shown`.
pub open spec fn each_turn_moves(shown: u32, pages: Seq<u32>) -> bool {
    &&& pages.len() > 0 ==> pages[0] != shown
    &&& forall|i: int| 0 < i < pages.len() ==> #[trigger] pages[i] != pages[i - 1]
}

/// Turns to other pages, from a page shown with fewer fast refreshes than
/// the cadence, are fast refreshes as long as the cadence is not reached:
/// none is a full grayscale refresh, and each counts one.
pub proof fn lemma_turns_count_up(
    m: RefreshModel,
    shown: u32,
    pages: Seq<u32>,
    mask: Option<u32>,
    policy: RefreshPolicy,
)
    requires
        m.previous_page == Some(shown),
        m.fast_refresh_count + pages.len() <= m.full_refresh_cadence,
        each_turn_moves(shown, pages),
    ensures
        after_turns(m, pages, mask, policy).fast_refresh_count == m.fast_refresh_count + pages.len(),
        after_turns(m, pages, mask, policy).full_refresh_cadence == m.full_refresh_cadence,
        after_turns(m, pages, mask, policy).previous_page == Some(
            if pages.len() == 0 {
                shown
            } else {
                pages.last()
            },
        ),
        forall|i: int|
            0 <= i < pages.len() ==> decision_for(
                after_turns(m, pages.take(i), mask, policy),
                pages[i],
                mask,
                policy,
            ) != RefreshDecision::FullGrayscale,
    decreases pages.len(),
{
    if pages.len() > 0 {
        let init = pages.drop_last();
        assert(each_turn_moves(shown, init)) by {
            assert forall|i: int| 0 < i < init.len() implies #[trigger] init[i] != init[i - 1] by {
                assert(pages[i] != pages[i - 1]);
            }
        }
        lemma_turns_count_up(m, shown, init, mask, policy);
        if pages.len() > 1 {
            assert(pages[pages.len() - 1] != pages[pages.len() - 2]);
        }
        assert forall|i: int|
            0 <= i < pages.len() implies decision_for(
                after_turns(m, pages.take(i), mask, policy),
                pages[i],
                mask,
                policy,
            ) != RefreshDecision::FullGrayscale by {
            if i < init.len() {
                assert(pages.take(i) =~= init.take(i));
                assert(pages[i] == init[i]);
            } else {
                assert(pages.take(i) =~= init);
            }
        }
    }
}

/// The periodic cleanup: after a full grayscale refresh, `cadence` turns to
/// other pages are fast refreshes, and the next turn to another page is a
/// full grayscale refresh again.
pub proof fn lemma_cadence_cleanup(
    m: RefreshModel,
    shown: u32,
    pages: Seq<u32>,
    next: u32,
    mask: Option<u32>,
    policy: RefreshPolicy,
)
    requires
        pages.len() == m.full_refresh_cadence,
        each_turn_moves(shown, pages),
        next != (if pages.len() == 0 {
            shown
        } else {
            pages.last()
        }),
    ensures
        forall|i: int|
            0 <= i < pages.len() ==> decision_for(
                after_turns(after_success(m, shown, RefreshDecision::FullGrayscale), pages.take(i), mask, policy),
                pages[i],
                mask,
                policy,
            ) != RefreshDecision::FullGrayscale,
        decision_for(
            after_turns(after_success(m, shown, RefreshDecision::FullGrayscale), pages, mask, policy),
            next,
            mask,
            policy,
        ) == RefreshDecision::FullGrayscale,
{
    let g = after_success(m, shown, RefreshDecision::FullGrayscale);
    lemma_turns_count_up(g, shown, pages, mask, policy);
}

/// From a fresh refresh state (`RefreshState::new`), the first page is shown
/// in full grayscale, the next `cadence` turns to other pages are fast, and
/// the turn after them is a full grayscale cleanup.
pub proof fn lemma_fresh_cadence(
    first: u32,
    pages: Seq<u32>,
    next: u32,
    mask: Option<u32>,
    policy: RefreshPolicy,
)
    requires
        pages.len() == DEFAULT_FULL_REFRESH_CADENCE,
        each_turn_moves(first, pages),
        next != pages.last(),
    ensures
        ({
            let m0 = RefreshModel {
                previous_page: None,
                fast_refresh_count: 0,
                full_refresh_cadence: DEFAULT_FULL_REFRESH_CADENCE,
                bw_differential_ready: false,
            };
            let all = seq![first] + pages;
            &&& decision_for(m0, first, mask, policy) == RefreshDecision::FullGrayscale
            &&& forall|i: int|
                1 <= i < all.len() ==> decision_for(after_turns(m0, all.take(i), mask, policy), all[i], mask, policy)
                    != RefreshDecision::FullGrayscale
            &&& decision_for(after_turns(m0, all, mask, policy), next, mask, policy)
                == RefreshDecision::FullGrayscale
        }),
{
    let m0 = RefreshModel {
        previous_page: None,
        fast_refresh_count: 0,
        full_refresh_cadence: DEFAULT_FULL_REFRESH_CADENCE,
        bw_differential_ready: false,
    };
    let all = seq![first] + pages;
    let g = after_success(m0, first, RefreshDecision::FullGrayscale);
    lemma_after_turns_prefix(m0, first, pages, mask, policy);
    lemma_cadence_cleanup(m0, first, pages, next, mask, policy);
    assert forall|i: int|
        1 <= i < all.len() implies decision_for(after_turns(m0, all.take(i), mask, policy), all[i], mask, policy)
            != RefreshDecision::FullGrayscale by {
        lemma_after_turns_prefix(m0, first, pages.take(i - 1), mask, policy);
        assert(all.take(i) =~= seq![first] + pages.take(i - 1));
        assert(all[i] == pages[i - 1]);
    }
    assert(all.last() == pages.last());
}

/// Turning first to `first` from a fresh state and then to `pages` is the
/// same as a grayscale refresh of `first` followed by those turns.
proof fn lemma_after_turns_prefix(
    m0: RefreshModel,
    first: u32,
    pages: Seq<u32>,
    mask: Option<u32>,
    policy: RefreshPolicy,
)
    requires
        m0.previous_page is None,
    ensures
        after_turns(m0, seq![first] + pages, mask, policy) == after_turns(
            after_success(m0, first, RefreshDecision::FullGrayscale),
            pages,
            mask,
            policy,
        ),
    decreases pages.len(),
{
    let all = seq![first] + pages;
    if pages.len() == 0 {
        assert(all.drop_last() =~= Seq::<u32>::empty());
        assert(after_turns(m0, Seq::<u32>::empty(), mask, policy) == m0);
    } else {
        assert(all.drop_last() =~= seq![first] + pages.drop_last());
        lemma_after_turns_prefix(m0, first, pages.drop_last(), mask, policy);
    }
}

} // verus!
