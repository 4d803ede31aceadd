//! The scheduler: at most one search waits for its timer.
//!
//! The scheduler runs no timer itself. It names the timer it wants, the host
//! arms it and reports back when it fires. A new search always replaces the
//! one that waits, so there is never more than one live timer.

use crate::text::{lowercase, lowered};
use vstd::prelude::*;

verus! {

/// How long a search waits before it runs, in milliseconds.
pub const DEBOUNCE_MS: u32 = 100;

/// A timer that the host is asked to arm, once.
#[derive(Clone, Copy, Debug, PartialEq, Eq, Structural)]
pub struct TimerRequest {
    /// The name under which the host reports the timer back.
    pub timer: u64,
    pub delay_ms: u32,
}

/// What scheduling a search asks of the host.
#[derive(Clone, Copy, Debug, PartialEq, Eq, Structural)]
pub struct Armed {
    /// The timer of the search that was replaced, to be cancelled first.
    pub cancelled: Option<u64>,
    /// The timer to arm.
    pub request: TimerRequest,
}

/// A search that waits for its timer.
#[derive(Clone, Debug, PartialEq, Eq)]
pub struct PendingSearch {
    /// The query, in lower case.
    pub query: String,
    pub search_id: String,
    pub timer: u64,
}

/// What a [`PendingSearch`] holds.
pub struct PendingView {
    pub query: Seq<char>,
    pub search_id: Seq<char>,
    pub timer: u64,
}

impl View for PendingSearch {
    type V = PendingView;

    open spec fn view(&self) -> PendingView {
        PendingView { query: self.query@, search_id: self.search_id@, timer: self.timer }
    }
}

/// The name of the timer after `timer`.
pub open spec fn following(timer: u64) -> u64 {
    if timer == u64::MAX {
        0
    } else {
        (timer + 1) as u64
    }
}

/// The token a search is answered with: the one it came with, or the
/// lower-case query where it came with none.
pub open spec fn search_id_for(lowered_query: Seq<char>, search_id: Seq<char>) -> Seq<char> {
    if search_id.len() == 0 {
        lowered_query
    } else {
        search_id
    }
}

/// The state of a [`SearchScheduler`].
pub struct SchedulerView {
    pub pending: Option<PendingView>,
    pub next_timer: u64,
}

impl SchedulerView {
    /// The state at the start: nothing waits.
    pub open spec fn initial() -> SchedulerView {
        SchedulerView { pending: None, next_timer: 0 }
    }

    /// The timer of the search that waits, if one does.
    pub open spec fn pending_timer(self) -> Option<u64> {
        match self.pending {
            Some(pending) => Some(pending.timer),
            None => None,
        }
    }

    /// Whether `timer` is the timer of the search that waits.
    pub open spec fn is_due(self, timer: u64) -> bool {
        self.pending_timer() == Some(timer)
    }

    /// The state once a search for a query that is already in lower case
    /// has taken the slot.
    pub open spec fn armed(self, lowered_query: Seq<char>, search_id: Seq<char>) -> SchedulerView {
        SchedulerView {
            pending: Some(
                PendingView {
                    query: lowered_query,
                    search_id: search_id_for(lowered_query, search_id),
                    timer: self.next_timer,
                },
            ),
            next_timer: following(self.next_timer),
        }
    }

    /// The state once a search for `query` has taken the slot.
    pub open spec fn scheduled(self, query: Seq<char>, search_id: Seq<char>) -> SchedulerView {
        self.armed(lowered(query), search_id)
    }

    /// The state with the slot empty.
    pub open spec fn cleared(self) -> SchedulerView {
        SchedulerView { pending: None, ..self }
    }
}

/// Holds the search that waits, and names the timers.
#[derive(Debug)]
pub struct SearchScheduler {
    pending: Option<PendingSearch>,
    next_timer: u64,
}

impl View for SearchScheduler {
    type V = SchedulerView;

    closed spec fn view(&self) -> SchedulerView {
        SchedulerView {
            pending: match self.pending {
                Some(pending) => Some(pending@),
                None => None,
            },
            next_timer: self.next_timer,
        }
    }
}

impl SearchScheduler {
    /// A scheduler with nothing waiting.
    pub fn new() -> (scheduler: SearchScheduler)
        ensures
            scheduler@ == SchedulerView::initial(),
    {
        SearchScheduler { pending: None, next_timer: 0 }
    }

    /// A scheduler that goes on naming timers where this one is, with
    /// nothing waiting.
    pub fn idle_copy(&self) -> (copy: SearchScheduler)
        ensures
            copy@ == self@.cleared(),
    {
        SearchScheduler { pending: None, next_timer: self.next_timer }
    }

    /// Whether a search waits for its timer.
    pub fn is_pending(&self) -> (r: bool)
        ensures
            r == (self@.pending is Some),
    {
        self.pending.is_some()
    }

    /// Puts a search for a query that is already in lower case in the slot.
    ///
    /// The search that waited, if any, is dropped without an answer: its
    /// timer is handed back to be cancelled. An empty search id is replaced
    /// by the query.
    pub fn arm(&mut self, lowered_query: String, search_id: String) -> (armed: Armed)
        ensures
            final(self)@ == old(self)@.armed(lowered_query@, search_id@),
            armed.cancelled == old(self)@.pending_timer(),
            armed.request == (TimerRequest {
                timer: old(self)@.next_timer,
                delay_ms: DEBOUNCE_MS,
            }),
    {
        let cancelled = match &self.pending {
            Some(pending) => Some(pending.timer),
            None => None,
        };
        let timer = self.next_timer;
        let search_id = if search_id.as_str().is_empty() {
            lowered_query.clone()
        } else {
            search_id
        };
        self.pending = Some(PendingSearch { query: lowered_query, search_id, timer });
        self.next_timer = if timer == u64::MAX {
            0
        } else {
            timer + 1
        };
        Armed { cancelled, request: TimerRequest { timer, delay_ms: DEBOUNCE_MS } }
    }

    /// Schedules a search: the query is put in lower case now, not when the
    /// timer fires, and takes the slot as [`SearchScheduler::arm`] says.
    pub fn schedule_search(&mut self, query: &str, search_id: String) -> (armed: Armed)
        ensures
            final(self)@ == old(self)@.scheduled(query@, search_id@),
            armed.cancelled == old(self)@.pending_timer(),
            armed.request == (TimerRequest {
                timer: old(self)@.next_timer,
                delay_ms: DEBOUNCE_MS,
            }),
    {
        let lowered_query = lowercase(query);
        self.arm(lowered_query, search_id)
    }

    /// Drops the search that waits and gives its timer, to be cancelled;
    /// `None`, and nothing changes, where none waits.
    pub fn cancel_search(&mut self) -> (was_pending: Option<u64>)
        ensures
            was_pending == old(self)@.pending_timer(),
            final(self)@ == old(self)@.cleared(),
    {
        match self.pending.take() {
            Some(pending) => Some(pending.timer),
            None => None,
        }
    }

    /// Takes the search out of the slot if `timer` is its timer; otherwise
    /// nothing changes.
    pub fn take_due(&mut self, timer: u64) -> (due: Option<PendingSearch>)
        ensures
            match due {
                Some(pending) => old(self)@.is_due(timer) && old(self)@.pending == Some(pending@)
                    && final(self)@ == old(self)@.cleared(),
                None => !old(self)@.is_due(timer) && final(self)@ == old(self)@,
            },
    {
        let due = match &self.pending {
            Some(pending) => pending.timer == timer,
            None => false,
        };
        if due {
            self.pending.take()
        } else {
            None
        }
    }
}

} // verus!
