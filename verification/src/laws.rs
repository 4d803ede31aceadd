//! What holds of the worker over whole runs of events.
//!
//! Each law is stated over the state of the worker ([`WorkerView`]) and the
//! transitions that the worker's functions are proved to follow.

use crate::messages::{envelope_bytes, sizes_fit, EnvelopeView, MessageKind};
use crate::payloads::{CountResponse, SearchRequestView, SearchResultsView, StringListView};
use crate::search::search_results;
use crate::scheduler::{following, search_id_for, PendingView, TimerRequest, DEBOUNCE_MS};
use crate::store::without;
use crate::text::lowered;
use crate::wire::DecodeError;
use crate::worker::{
    cancelled_reply, count_of, count_reply, failure_reply, results_reply, ActionsView,
    WorkerView,
};
use vstd::prelude::*;

verus! {

/// A change of the store, as the host asks for it.
pub enum StoreOp {
    Add(Seq<Seq<char>>),
    Remove(Seq<Seq<char>>),
    Clear,
}

impl StoreOp {
    /// The change on a plain ordered list: an add appends all, a remove
    /// takes out every equal text, a clear leaves nothing.
    pub open spec fn apply(self, store: Seq<Seq<char>>) -> Seq<Seq<char>> {
        match self {
            StoreOp::Add(strings) => store + strings,
            StoreOp::Remove(unwanted) => without(store, unwanted),
            StoreOp::Clear => Seq::empty(),
        }
    }

    /// The message that asks for the change.
    pub open spec fn message(self) -> Seq<u8> {
        match self {
            StoreOp::Add(strings) => envelope_bytes(
                MessageKind::AddStrings,
                StringListView { strings }.encoding(),
            ),
            StoreOp::Remove(strings) => envelope_bytes(
                MessageKind::RemoveStrings,
                StringListView { strings }.encoding(),
            ),
            StoreOp::Clear => envelope_bytes(MessageKind::Clear, Seq::empty()),
        }
    }

    /// The kind of the reply to the change.
    pub open spec fn reply_kind(self) -> MessageKind {
        match self {
            StoreOp::Add(_) => MessageKind::StringsAdded,
            _ => MessageKind::StringsRemoved,
        }
    }

    /// The message can be written: every length in it fits in 64 bits.
    pub open spec fn fits(self) -> bool {
        match self {
            StoreOp::Add(strings) | StoreOp::Remove(strings) => sizes_fit(strings)
                && (StringListView { strings }).encoding().len() <= u64::MAX,
            StoreOp::Clear => true,
        }
    }
}

/// The list after all of `ops`, in order.
pub open spec fn replay(store: Seq<Seq<char>>, ops: Seq<StoreOp>) -> Seq<Seq<char>>
    decreases ops.len(),
{
    if ops.len() == 0 {
        store
    } else {
        ops.last().apply(replay(store, ops.drop_last()))
    }
}

/// The worker after all of `messages`, in order.
pub open spec fn run(state: WorkerView, messages: Seq<Seq<u8>>) -> WorkerView
    decreases messages.len(),
{
    if messages.len() == 0 {
        state
    } else {
        run(state, messages.drop_last()).received(messages.last()).0
    }
}

/// The message of each change.
pub open spec fn messages_of(ops: Seq<StoreOp>) -> Seq<Seq<u8>> {
    ops.map_values(|op: StoreOp| op.message())
}

/// The message that asks for a search.
pub open spec fn search_message(query: Seq<char>, search_id: Seq<char>) -> Seq<u8> {
    envelope_bytes(MessageKind::Search, SearchRequestView { query, search_id }.encoding())
}

/// The search message can be written: every length in it fits in 64 bits.
pub open spec fn search_fits(query: Seq<char>, search_id: Seq<char>) -> bool {
    (SearchRequestView { query, search_id }).fits() && (SearchRequestView {
        query,
        search_id,
    }).encoding().len() <= u64::MAX
}

/// The message that cancels the search that waits.
pub open spec fn cancel_message() -> Seq<u8> {
    envelope_bytes(MessageKind::CancelSearch, Seq::empty())
}

/// The search that waits after a search message in a state whose next
/// timer is `timer`.
pub open spec fn waiting(query: Seq<char>, search_id: Seq<char>, timer: u64) -> PendingView {
    PendingView {
        query: lowered(query),
        search_id: search_id_for(lowered(query), search_id),
        timer,
    }
}

/// One change of the store does to the worker's strings what it does to a
/// plain list, leaves the scheduler alone, touches no timer, and is answered
/// with the count of the new list.
pub proof fn law_store_op(state: WorkerView, op: StoreOp)
    requires
        op.fits(),
    ensures
        state.received(op.message()) == (
            WorkerView { strings: op.apply(state.strings), ..state },
            ActionsView::reply(count_reply(op.reply_kind(), op.apply(state.strings).len())),
        ),
{
    match op {
        StoreOp::Add(strings) => {
            let list = StringListView { strings };
            (EnvelopeView { kind: MessageKind::AddStrings, payload: list.encoding() })
                .lemma_round_trip();
            list.lemma_round_trip();
        },
        StoreOp::Remove(strings) => {
            let list = StringListView { strings };
            (EnvelopeView { kind: MessageKind::RemoveStrings, payload: list.encoding() })
                .lemma_round_trip();
            list.lemma_round_trip();
        },
        StoreOp::Clear => {
            (EnvelopeView { kind: MessageKind::Clear, payload: Seq::empty() }).lemma_round_trip();
        },
    }
}

/// After any run of adds, removes and clears the worker holds exactly what
/// a plain ordered list holds after the same run, and its scheduler is as it
/// was.
pub proof fn law_replay(state: WorkerView, ops: Seq<StoreOp>)
    requires
        forall|i: int| 0 <= i < ops.len() ==> (#[trigger] ops[i]).fits(),
    ensures
        run(state, messages_of(ops)) == (WorkerView {
            strings: replay(state.strings, ops),
            ..state
        }),
    decreases ops.len(),
{
    if ops.len() > 0 {
        let front = ops.drop_last();
        law_replay(state, front);
        assert(messages_of(ops).drop_last() =~= messages_of(front));
        assert(messages_of(ops).last() == ops.last().message());
        law_store_op(run(state, messages_of(front)), ops.last());
    }
}

/// The reply to the last change of a run reports the length of the plain
/// list after the run.
pub proof fn law_replay_count(state: WorkerView, ops: Seq<StoreOp>)
    requires
        ops.len() > 0,
        forall|i: int| 0 <= i < ops.len() ==> (#[trigger] ops[i]).fits(),
    ensures
        run(state, messages_of(ops.drop_last())).received(ops.last().message()).1
            == ActionsView::reply(
            count_reply(ops.last().reply_kind(), replay(state.strings, ops).len()),
        ),
{
    let front = ops.drop_last();
    law_replay(state, front);
    law_store_op(run(state, messages_of(front)), ops.last());
}

/// A count reply reads back as its kind and, for a list of fewer than two
/// to the power of 32 strings, as the length of the list.
pub proof fn law_count_reads_back(kind: MessageKind, len: nat)
    requires
        kind.wf(),
        len <= u32::MAX,
    ensures
        count_of(len) == len,
        EnvelopeView::decoding(count_reply(kind, len)) == Ok::<EnvelopeView, DecodeError>(
            EnvelopeView { kind, payload: (CountResponse { count: len as u32 }).encoding() },
        ),
        CountResponse::decoding((CountResponse { count: len as u32 }).encoding()) == Ok::<
            CountResponse,
            DecodeError,
        >(CountResponse { count: len as u32 }),
{
    let response = CountResponse { count: len as u32 };
    response.lemma_round_trip();
    crate::varint::lemma_varint_len_u64(len as u64);
    crate::varint::lemma_varint_len_u64(8);
    (EnvelopeView { kind, payload: response.encoding() }).lemma_round_trip();
}

/// A search message is answered with nothing at once: the search takes the
/// slot and a timer of the fixed delay is asked for.
pub proof fn law_search_waits(state: WorkerView, query: Seq<char>, search_id: Seq<char>)
    requires
        search_fits(query, search_id),
    ensures
        state.received(search_message(query, search_id)) == state.searching(query, search_id),
        state.searching(query, search_id).1.reply is None,
        state.searching(query, search_id).0.strings == state.strings,
        state.searching(query, search_id).0.scheduler.pending == Some(
            waiting(query, search_id, state.scheduler.next_timer),
        ),
{
    let request = SearchRequestView { query, search_id };
    (EnvelopeView { kind: MessageKind::Search, payload: request.encoding() }).lemma_round_trip();
    request.lemma_round_trip();
}

/// One search whose timer fires: it is answered once, with the strings of
/// the store whose lower-case form holds the lower-case query, in the order
/// of the store, under the token it came with; then nothing waits.
pub proof fn law_search_answers_once(state: WorkerView, query: Seq<char>, search_id: Seq<char>)
    requires
        search_fits(query, search_id),
    ensures
        ({
            let timer = state.scheduler.next_timer;
            let searching = state.received(search_message(query, search_id)).0;
            let (after, reply) = searching.fired(timer);
            &&& reply == Some(
                envelope_bytes(
                    MessageKind::SearchResults,
                    (SearchResultsView {
                        results: search_results(state.strings, query),
                        search_id: search_id_for(lowered(query), search_id),
                    }).encoding(),
                ),
            )
            &&& after.strings == state.strings
            &&& !after.search_pending()
            &&& forall|later: u64| (#[trigger] after.fired(later)).1 is None
        }),
{
    law_search_waits(state, query, search_id);
}

/// A search whose timer could not be armed: the host is told once, with an
/// error envelope that carries the reason, and the worker waits for nothing,
/// so that no timer gives results and a cancel gives no reply.
pub proof fn law_arm_failure_frees_the_slot(
    state: WorkerView,
    query: Seq<char>,
    search_id: Seq<char>,
    reason: Seq<char>,
)
    requires
        search_fits(query, search_id),
    ensures
        ({
            let timer = state.scheduler.next_timer;
            let searching = state.received(search_message(query, search_id)).0;
            let (after, reply) = searching.refused(timer, reason);
            &&& reply == failure_reply(reason)
            &&& after.strings == state.strings
            &&& !after.search_pending()
            &&& forall|later: u64| (#[trigger] after.fired(later)).1 is None
            &&& after.received(cancel_message()) == (after, ActionsView::none())
        }),
{
    law_search_waits(state, query, search_id);
    law_cancel_when_idle(
        state.searching(query, search_id).0.refused(state.scheduler.next_timer, reason).0,
    );
}

/// Two searches before any timer fires: neither is answered at once, the
/// second cancels the timer of the first, the first never runs, and the
/// second runs once, on the strings as they are when its timer fires.
pub proof fn law_later_search_wins(
    state: WorkerView,
    first_query: Seq<char>,
    first_id: Seq<char>,
    second_query: Seq<char>,
    second_id: Seq<char>,
)
    requires
        search_fits(first_query, first_id),
        search_fits(second_query, second_id),
    ensures
        ({
            let (after_first, first) = state.received(search_message(first_query, first_id));
            let (after_second, second) = after_first.received(
                search_message(second_query, second_id),
            );
            let first_timer = state.scheduler.next_timer;
            let second_timer = following(first_timer);
            &&& first.reply is None
            &&& second.reply is None
            &&& first.arm_timer == Some(
                TimerRequest { timer: first_timer, delay_ms: DEBOUNCE_MS },
            )
            &&& second.arm_timer == Some(
                TimerRequest { timer: second_timer, delay_ms: DEBOUNCE_MS },
            )
            &&& second.cancel_timer == Some(first_timer)
            &&& first_timer != second_timer
            &&& after_second.fired(first_timer) == (after_second, None::<Seq<u8>>)
            &&& after_second.fired(second_timer).1 == Some(
                results_reply(state.strings, waiting(second_query, second_id, second_timer)),
            )
            &&& forall|timer: u64| (#[trigger] after_second.fired(second_timer).0.fired(timer)).1 is None
        }),
{
    law_search_waits(state, first_query, first_id);
    let after_first = state.searching(first_query, first_id).0;
    law_search_waits(after_first, second_query, second_id);
}

/// A search and then a cancel before the timer fires: the cancel is
/// confirmed once, the timer is cancelled, and no timer that fires
/// afterwards gives results.
pub proof fn law_cancel_answers_once(state: WorkerView, query: Seq<char>, search_id: Seq<char>)
    requires
        search_fits(query, search_id),
    ensures
        ({
            let (searching, first) = state.received(search_message(query, search_id));
            let (after, second) = searching.received(cancel_message());
            &&& first.reply is None
            &&& second.reply == Some(cancelled_reply())
            &&& second.cancel_timer == Some(state.scheduler.next_timer)
            &&& second.arm_timer is None
            &&& !after.search_pending()
            &&& after.strings == state.strings
            &&& forall|timer: u64| #[trigger] after.fired(timer) == (after, None::<Seq<u8>>)
        }),
{
    law_search_waits(state, query, search_id);
    (EnvelopeView { kind: MessageKind::CancelSearch, payload: Seq::empty() }).lemma_round_trip();
}

/// A cancel while no search waits changes nothing and asks nothing of the
/// host: no reply, no timer.
pub proof fn law_cancel_when_idle(state: WorkerView)
    requires
        !state.search_pending(),
    ensures
        state.received(cancel_message()) == (state, ActionsView::none()),
{
    (EnvelopeView { kind: MessageKind::CancelSearch, payload: Seq::empty() }).lemma_round_trip();
}

/// A message of a kind that is no command, known or not, changes nothing
/// and asks nothing of the host.
pub proof fn law_other_kinds_ignored(state: WorkerView, kind: MessageKind, payload: Seq<u8>)
    requires
        kind.wf(),
        payload.len() <= u64::MAX,
        kind != MessageKind::AddStrings,
        kind != MessageKind::RemoveStrings,
        kind != MessageKind::Search,
        kind != MessageKind::CancelSearch,
        kind != MessageKind::Clear,
    ensures
        state.received(envelope_bytes(kind, payload)) == (state, ActionsView::none()),
{
    (EnvelopeView { kind, payload }).lemma_round_trip();
}

/// A change of the store between a search and its timer is seen by the
/// search: it runs on the strings as they are when the timer fires.
pub proof fn law_search_sees_later_changes(
    state: WorkerView,
    query: Seq<char>,
    search_id: Seq<char>,
    op: StoreOp,
)
    requires
        search_fits(query, search_id),
        op.fits(),
    ensures
        ({
            let timer = state.scheduler.next_timer;
            let searching = state.received(search_message(query, search_id)).0;
            let changed = searching.received(op.message()).0;
            changed.fired(timer).1 == Some(
                results_reply(op.apply(state.strings), waiting(query, search_id, timer)),
            )
        }),
{
    law_search_waits(state, query, search_id);
    law_store_op(state.searching(query, search_id).0, op);
}

} // verus!
