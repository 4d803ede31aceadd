//! The worker: one owner of the store and the scheduler, driven by events.
//!
//! The host hands the worker each event in the order it happened: a message
//! that came in, a timer that fired, a timer that could not be armed. The
//! worker answers with what the host is to do: timers to cancel and to arm,
//! and bytes to send back. It finishes one event before it takes the next.

use crate::messages::{decode, encode, envelope_bytes, Envelope, EnvelopeView, MessageKind};
use crate::payloads::{
    CountResponse, ErrorMessage, ErrorMessageView, SearchRequest, SearchRequestView,
    SearchResults, SearchResultsView, StringList, StringListView,
};
use crate::scheduler::{PendingView, SchedulerView, SearchScheduler, TimerRequest, DEBOUNCE_MS};
use crate::text::texts;
use crate::search::{matching, search};
use crate::store::{without, StringStore};
use vstd::prelude::*;
use vstd::string::StringExecFns;

verus! {

/// What the host is to do after an event, in this order: cancel a timer, arm
/// a timer, send a reply.
#[derive(Clone, Debug, PartialEq, Eq)]
pub struct Actions {
    /// A timer that must not fire any more.
    pub cancel_timer: Option<u64>,
    /// A timer to arm. When it fires the host calls
    /// [`SearchWorker::timer_fired`]; where it cannot be armed,
    /// [`SearchWorker::arm_failed`].
    pub arm_timer: Option<TimerRequest>,
    /// A serialized envelope to send.
    pub reply: Option<Vec<u8>>,
}

/// What an [`Actions`] holds.
pub struct ActionsView {
    pub cancel_timer: Option<u64>,
    pub arm_timer: Option<TimerRequest>,
    pub reply: Option<Seq<u8>>,
}

impl View for Actions {
    type V = ActionsView;

    open spec fn view(&self) -> ActionsView {
        ActionsView {
            cancel_timer: self.cancel_timer,
            arm_timer: self.arm_timer,
            reply: match self.reply {
                Some(bytes) => Some(bytes@),
                None => None,
            },
        }
    }
}

impl ActionsView {
    /// Nothing to do.
    pub open spec fn none() -> ActionsView {
        ActionsView { cancel_timer: None, arm_timer: None, reply: None }
    }

    /// One reply and nothing else.
    pub open spec fn reply(bytes: Seq<u8>) -> ActionsView {
        ActionsView { cancel_timer: None, arm_timer: None, reply: Some(bytes) }
    }
}

/// A count as a reply carries it: the low 32 bits of the length.
pub open spec fn count_of(len: nat) -> u32 {
    (len % 0x1_0000_0000) as u32
}

/// The reply that reports a count.
pub open spec fn count_reply(kind: MessageKind, len: nat) -> Seq<u8> {
    envelope_bytes(kind, CountResponse { count: count_of(len) }.encoding())
}

/// The reply of a search that ran on `strings`.
pub open spec fn results_reply(strings: Seq<Seq<char>>, pending: PendingView) -> Seq<u8> {
    envelope_bytes(
        MessageKind::SearchResults,
        SearchResultsView {
            results: matching(strings, pending.query),
            search_id: pending.search_id,
        }.encoding(),
    )
}

/// The reply to an explicit cancel: an envelope without a payload.
pub open spec fn cancelled_reply() -> Seq<u8> {
    envelope_bytes(MessageKind::SearchCancelled, Seq::empty())
}

/// The text that tells the host of a timer that could not be armed.
pub open spec fn failure_text(reason: Seq<char>) -> Seq<char> {
    "Failed to set timeout: "@ + reason
}

/// The reply that tells the host of a timer that could not be armed.
pub open spec fn failure_reply(reason: Seq<char>) -> Seq<u8> {
    envelope_bytes(
        MessageKind::Error,
        ErrorMessageView { message: failure_text(reason) }.encoding(),
    )
}

/// The state of a [`SearchWorker`]: the strings and the scheduler.
pub struct WorkerView {
    pub strings: Seq<Seq<char>>,
    pub scheduler: SchedulerView,
}

impl WorkerView {
    /// The state at the start: no strings, nothing waiting.
    pub open spec fn initial() -> WorkerView {
        WorkerView { strings: Seq::empty(), scheduler: SchedulerView::initial() }
    }

    /// Whether a search waits for its timer.
    pub open spec fn search_pending(self) -> bool {
        self.scheduler.pending is Some
    }

    /// Strings are added: all of them go to the end, and the count is
    /// reported.
    pub open spec fn added(self, strings: Seq<Seq<char>>) -> (WorkerView, ActionsView) {
        let next = WorkerView { strings: self.strings + strings, ..self };
        (next, ActionsView::reply(count_reply(MessageKind::StringsAdded, next.strings.len())))
    }

    /// Strings are removed: every string equal to one of `unwanted` goes,
    /// and the count is reported.
    pub open spec fn removed(self, unwanted: Seq<Seq<char>>) -> (WorkerView, ActionsView) {
        let next = WorkerView { strings: without(self.strings, unwanted), ..self };
        (next, ActionsView::reply(count_reply(MessageKind::StringsRemoved, next.strings.len())))
    }

    /// The store is emptied, and a count of zero is reported.
    pub open spec fn emptied(self) -> (WorkerView, ActionsView) {
        let next = WorkerView { strings: Seq::empty(), ..self };
        (next, ActionsView::reply(count_reply(MessageKind::StringsRemoved, 0)))
    }

    /// A search is asked for: it takes the slot, the timer of the search
    /// that waited is cancelled without a reply, and a new timer is armed.
    pub open spec fn searching(self, query: Seq<char>, search_id: Seq<char>) -> (
        WorkerView,
        ActionsView,
    ) {
        (
            WorkerView { scheduler: self.scheduler.scheduled(query, search_id), ..self },
            ActionsView {
                cancel_timer: self.scheduler.pending_timer(),
                arm_timer: Some(
                    TimerRequest { timer: self.scheduler.next_timer, delay_ms: DEBOUNCE_MS },
                ),
                reply: None,
            },
        )
    }

    /// A cancel is asked for: where a search waits, it is dropped, its timer
    /// is cancelled and the cancel is confirmed; where none waits, nothing
    /// happens.
    pub open spec fn cancelling(self) -> (WorkerView, ActionsView) {
        match self.scheduler.pending {
            Some(pending) => (
                WorkerView { scheduler: self.scheduler.cleared(), ..self },
                ActionsView {
                    cancel_timer: Some(pending.timer),
                    arm_timer: None,
                    reply: Some(cancelled_reply()),
                },
            ),
            None => (self, ActionsView::none()),
        }
    }

    /// An envelope is routed by its kind. A payload that does not decode
    /// drops the message: nothing changes and nothing is sent. So does a
    /// kind that is no command.
    pub open spec fn dispatched(self, envelope: EnvelopeView) -> (WorkerView, ActionsView) {
        match envelope.kind {
            MessageKind::AddStrings => match StringListView::decoding(envelope.payload) {
                Ok(list) => self.added(list.strings),
                Err(_) => (self, ActionsView::none()),
            },
            MessageKind::RemoveStrings => match StringListView::decoding(envelope.payload) {
                Ok(list) => self.removed(list.strings),
                Err(_) => (self, ActionsView::none()),
            },
            MessageKind::Search => match SearchRequestView::decoding(envelope.payload) {
                Ok(request) => self.searching(request.query, request.search_id),
                Err(_) => (self, ActionsView::none()),
            },
            MessageKind::CancelSearch => self.cancelling(),
            MessageKind::Clear => self.emptied(),
            _ => (self, ActionsView::none()),
        }
    }

    /// A buffer comes in: it is decoded as an envelope and routed. A buffer
    /// that does not decode is dropped.
    pub open spec fn received(self, data: Seq<u8>) -> (WorkerView, ActionsView) {
        match EnvelopeView::decoding(data) {
            Ok(envelope) => self.dispatched(envelope),
            Err(_) => (self, ActionsView::none()),
        }
    }

    /// A timer fires: where it is the timer of the search that waits, the
    /// slot is emptied and the search runs on the strings as they are now;
    /// any other timer is ignored.
    pub open spec fn fired(self, timer: u64) -> (WorkerView, Option<Seq<u8>>) {
        if self.scheduler.is_due(timer) {
            (
                WorkerView { scheduler: self.scheduler.cleared(), ..self },
                Some(results_reply(self.strings, self.scheduler.pending->Some_0)),
            )
        } else {
            (self, None)
        }
    }

    /// A timer could not be armed: the search that was to wait for it is
    /// dropped, and the host is told.
    pub open spec fn refused(self, timer: u64, reason: Seq<char>) -> (WorkerView, Seq<u8>) {
        (
            if self.scheduler.is_due(timer) {
                WorkerView { scheduler: self.scheduler.cleared(), ..self }
            } else {
                self
            },
            failure_reply(reason),
        )
    }
}

/// The reply that reports how many strings the store holds.
pub fn encode_count(kind: MessageKind, len: usize) -> (bytes: Vec<u8>)
    ensures
        bytes@ == count_reply(kind, len as nat),
{
    let wide: u64 = len as u64;
    let count: u32 = (wide % 0x1_0000_0000) as u32;
    let response = CountResponse { count };
    encode(kind, response.encode())
}

/// The search service.
#[derive(Debug)]
pub struct SearchWorker {
    store: StringStore,
    scheduler: SearchScheduler,
}

impl View for SearchWorker {
    type V = WorkerView;

    closed spec fn view(&self) -> WorkerView {
        WorkerView { strings: self.store@, scheduler: self.scheduler@ }
    }
}

impl Clone for SearchWorker {
    /// A worker of its own with a copy of the strings and no search waiting.
    fn clone(&self) -> (copy: SearchWorker)
        ensures
            copy@ == (WorkerView {
                strings: self@.strings,
                scheduler: self@.scheduler.cleared(),
            }),
    {
        SearchWorker {
            store: StringStore::holding(self.store.snapshot()),
            scheduler: self.scheduler.idle_copy(),
        }
    }
}

impl SearchWorker {
    /// A worker with no strings and no search waiting.
    pub fn new() -> (worker: SearchWorker)
        ensures
            worker@ == WorkerView::initial(),
    {
        SearchWorker { store: StringStore::new(), scheduler: SearchScheduler::new() }
    }

    /// How many strings the worker holds.
    pub fn len(&self) -> (n: usize)
        ensures
            n == self@.strings.len(),
    {
        self.store.len()
    }

    /// Whether a search waits for its timer.
    pub fn is_search_pending(&self) -> (r: bool)
        ensures
            r == self@.search_pending(),
    {
        self.scheduler.is_pending()
    }

    /// A copy of the strings as they are now.
    pub fn snapshot(&self) -> (copy: Vec<String>)
        ensures
            texts(copy@) == self@.strings,
    {
        self.store.snapshot()
    }

    /// Takes one serialized envelope from the host.
    ///
    /// Never fails: a buffer that does not decode, a payload that does not
    /// decode and a kind that is no command leave the worker as it was and
    /// ask nothing of the host.
    pub fn handle_message(&mut self, message_data: &[u8]) -> (actions: Actions)
        ensures
            final(self)@ == old(self)@.received(message_data@).0,
            actions@ == old(self)@.received(message_data@).1,
    {
        match decode(message_data) {
            Ok(envelope) => self.dispatch(&envelope),
            Err(_) => Actions { cancel_timer: None, arm_timer: None, reply: None },
        }
    }

    /// Routes an envelope by its kind.
    pub fn dispatch(&mut self, envelope: &Envelope) -> (actions: Actions)
        ensures
            final(self)@ == old(self)@.dispatched(envelope@).0,
            actions@ == old(self)@.dispatched(envelope@).1,
    {
        let nothing = Actions { cancel_timer: None, arm_timer: None, reply: None };
        let payload = envelope.payload.as_slice();
        match envelope.kind {
            MessageKind::AddStrings => match StringList::decode(payload) {
                Ok(list) => {
                    let count = self.store.add(list.strings);
                    let reply = encode_count(MessageKind::StringsAdded, count);
                    Actions { cancel_timer: None, arm_timer: None, reply: Some(reply) }
                },
                Err(_) => nothing,
            },
            MessageKind::RemoveStrings => match StringList::decode(payload) {
                Ok(list) => {
                    let count = self.store.remove(&list.strings);
                    let reply = encode_count(MessageKind::StringsRemoved, count);
                    Actions { cancel_timer: None, arm_timer: None, reply: Some(reply) }
                },
                Err(_) => nothing,
            },
            MessageKind::Search => match SearchRequest::decode(payload) {
                Ok(request) => {
                    let armed = self.scheduler.schedule_search(
                        request.query.as_str(),
                        request.search_id,
                    );
                    Actions {
                        cancel_timer: armed.cancelled,
                        arm_timer: Some(armed.request),
                        reply: None,
                    }
                },
                Err(_) => nothing,
            },
            MessageKind::CancelSearch => match self.scheduler.cancel_search() {
                Some(timer) => {
                    let reply = encode(MessageKind::SearchCancelled, Vec::new());
                    Actions { cancel_timer: Some(timer), arm_timer: None, reply: Some(reply) }
                },
                None => nothing,
            },
            MessageKind::Clear => {
                let count = self.store.clear();
                let reply = encode_count(MessageKind::StringsRemoved, count);
                Actions { cancel_timer: None, arm_timer: None, reply: Some(reply) }
            },
            _ => nothing,
        }
    }

    /// Takes the news that a timer has fired.
    ///
    /// Where `timer` is the timer of the search that waits, the search runs
    /// on a fresh snapshot of the store and its results come back as a
    /// serialized envelope. A timer that was replaced or cancelled gives
    /// nothing.
    pub fn timer_fired(&mut self, timer: u64) -> (reply: Option<Vec<u8>>)
        ensures
            final(self)@ == old(self)@.fired(timer).0,
            match reply {
                Some(bytes) => old(self)@.fired(timer).1 == Some(bytes@),
                None => old(self)@.fired(timer).1 is None,
            },
    {
        match self.scheduler.take_due(timer) {
            Some(pending) => {
                let snapshot = self.store.snapshot();
                let results = search(&snapshot, pending.query.as_str());
                let found = SearchResults { results, search_id: pending.search_id };
                Some(encode(MessageKind::SearchResults, found.encode()))
            },
            None => None,
        }
    }

    /// Takes the news that a timer could not be armed.
    ///
    /// The search that was to wait for `timer` is dropped, and the reply, an
    /// error envelope that carries `reason`, is to be sent to the host.
    pub fn arm_failed(&mut self, timer: u64, reason: &str) -> (reply: Vec<u8>)
        ensures
            final(self)@ == old(self)@.refused(timer, reason@).0,
            reply@ == old(self)@.refused(timer, reason@).1,
    {
        let _ = self.scheduler.take_due(timer);
        let mut text = String::from_str("Failed to set timeout: ");
        text.append(reason);
        let error = ErrorMessage { message: text };
        encode(MessageKind::Error, error.encode())
    }
}

} // verus!
