//! Request bookkeeping of the TAS-input bridge's I/O loop.
//!
//! The host queues requests, each with a waiter that is to receive the UI
//! process's reply. The loop numbers each request with a counter that
//! starts at 0 and wraps around like an atomic `fetch_add`, remembers its
//! waiter under that number, and sends the request on; a reply carries the
//! number back and goes to the waiter remembered under it. The loop stops
//! when the endpoint is cancelled. `RequestTracker::on_event` is the
//! decision of one turn of that loop; performing the action is left to the
//! caller.

use std::collections::HashMap;
use vstd::prelude::*;

verus! {

broadcast use vstd::std_specs::hash::group_hash_axioms;

/// The number that follows `id` on the wrapping 64-bit request counter.
pub open spec fn next_request_id(id: u64) -> u64 {
    if id == u64::MAX {
        0
    } else {
        (id + 1) as u64
    }
}

/// The abstract state of a tracker: the number the next request gets, and
/// the waiters of the requests not yet answered, by request number.
pub struct TrackerView<W> {
    pub next_id: u64,
    pub pending: Map<u64, W>,
}

impl<W> TrackerView<W> {
    /// Every pending request was numbered before the counter's current value:
    /// true from the start and kept until the counter wraps around.
    pub open spec fn ids_below_counter(self) -> bool {
        forall|id: u64| #[trigger] self.pending.contains_key(id) ==> id < self.next_id
    }

    /// The state after a request with waiter `w` is registered.
    pub open spec fn registered(self, w: W) -> TrackerView<W> {
        TrackerView {
            next_id: next_request_id(self.next_id),
            pending: self.pending.insert(self.next_id, w),
        }
    }

    /// The state after the waiter of request `id` is taken out.
    pub open spec fn taken(self, id: u64) -> TrackerView<W> {
        TrackerView { next_id: self.next_id, pending: self.pending.remove(id) }
    }

    /// The waiter of request `id`, if that request is pending.
    pub open spec fn waiter_of(self, id: u64) -> Option<W> {
        if self.pending.contains_key(id) {
            Some(self.pending[id])
        } else {
            None
        }
    }
}

/// The request counter and the waiters of unanswered requests.
pub struct RequestTracker<W> {
    next_id: u64,
    waiters: HashMap<u64, W>,
}

impl<W> View for RequestTracker<W> {
    type V = TrackerView<W>;

    closed spec fn view(&self) -> TrackerView<W> {
        TrackerView { next_id: self.next_id, pending: self.waiters@ }
    }
}

/// What one turn of the I/O loop observed.
pub enum LoopEvent<Q, P, W> {
    /// The endpoint's cancellation token fired.
    Cancelled,
    /// The UI process answered request `request_id` with `reply`.
    Reply { request_id: u64, reply: P },
    /// The host queued `request`, whose reply goes to `waiter`.
    Queued { request: Q, waiter: W },
    /// The host's request queue is closed and empty.
    QueueClosed,
}

/// What the I/O loop does next.
pub enum LoopAction<Q, P, W> {
    /// Leave the loop.
    Stop,
    /// Hand `reply` to `waiter`.
    Deliver { waiter: W, reply: P },
    /// Send `request` to the UI process under number `request_id`.
    Send { request_id: u64, request: Q },
    /// Nothing to do; wait for the next event.
    Continue,
}

impl<W> RequestTracker<W> {
    /// A tracker whose counter is at 0, with no pending request.
    pub fn new() -> (t: Self)
        ensures
            t@.next_id == 0,
            t@.pending == Map::<u64, W>::empty(),
            t@.ids_below_counter(),
    {
        RequestTracker { next_id: 0, waiters: HashMap::new() }
    }

    /// The number the next request will get.
    pub fn next_id(&self) -> (id: u64)
        ensures
            id == self@.next_id,
    {
        self.next_id
    }

    /// Whether request `request_id` waits for its reply.
    pub fn is_pending(&self, request_id: u64) -> (b: bool)
        ensures
            b == self@.pending.contains_key(request_id),
    {
        self.waiters.contains_key(&request_id)
    }

    /// Numbers a new request and remembers its waiter under that number;
    /// returns the number. A waiter already remembered under the same number
    /// (possible only after the counter wrapped around) is dropped.
    pub fn register(&mut self, waiter: W) -> (id: u64)
        ensures
            id == old(self)@.next_id,
            final(self)@ == old(self)@.registered(waiter),
            old(self)@.ids_below_counter() && old(self)@.next_id < u64::MAX ==> {
                &&& !old(self)@.pending.contains_key(id)
                &&& final(self)@.ids_below_counter()
            },
    {
        let id: u64 = self.next_id;
        self.next_id = if id == u64::MAX { 0 } else { id + 1 };
        let _ = self.waiters.insert(id, waiter);
        id
    }

    /// Takes out the waiter of request `request_id`, if there is one.
    pub fn take_waiter(&mut self, request_id: u64) -> (w: Option<W>)
        ensures
            w == old(self)@.waiter_of(request_id),
            final(self)@ == old(self)@.taken(request_id),
            old(self)@.ids_below_counter() ==> final(self)@.ids_below_counter(),
    {
        self.waiters.remove(&request_id)
    }

    /// The decision of one turn of the I/O loop: cancellation stops it; a
    /// reply, which must be to a pending request, goes to the waiter of that
    /// request, which is then forgotten; a
    /// queued request is numbered, its waiter remembered, and it is sent; a
    /// closed queue changes nothing.
    pub fn on_event<Q, P>(&mut self, event: LoopEvent<Q, P, W>) -> (action: LoopAction<Q, P, W>)
        requires
            event matches LoopEvent::Reply { request_id, .. } ==> old(self)@.pending.contains_key(
                request_id,
            ),
        ensures
            final(self)@ == old(self)@.after_event(event),
            match event {
                LoopEvent::Cancelled => {
                    &&& action == LoopAction::<Q, P, W>::Stop
                    &&& final(self)@ == old(self)@
                },
                LoopEvent::Reply { request_id, reply } => {
                    &&& final(self)@ == old(self)@.taken(request_id)
                    &&& action == LoopAction::<Q, P, W>::Deliver {
                        waiter: old(self)@.pending[request_id],
                        reply,
                    }
                },
                LoopEvent::Queued { request, waiter } => {
                    &&& final(self)@ == old(self)@.registered(waiter)
                    &&& action == LoopAction::<Q, P, W>::Send {
                        request_id: old(self)@.next_id,
                        request,
                    }
                },
                LoopEvent::QueueClosed => {
                    &&& action == LoopAction::<Q, P, W>::Continue
                    &&& final(self)@ == old(self)@
                },
            },
    {
        match event {
            LoopEvent::Cancelled => LoopAction::Stop,
            LoopEvent::Reply { request_id, reply } => {
                let waiter = self.take_waiter(request_id).unwrap();
                LoopAction::Deliver { waiter, reply }
            },
            LoopEvent::Queued { request, waiter } => {
                let request_id: u64 = self.register(waiter);
                LoopAction::Send { request_id, request }
            },
            LoopEvent::QueueClosed => LoopAction::Continue,
        }
    }
}

/// A new request never takes the number of a request still waiting for its
/// reply, and the numbering stays below the counter, as long as the counter
/// has not reached its last value (where it wraps around to 0).
pub proof fn register_keeps_ids_fresh<W>(s: TrackerView<W>, w: W)
    requires
        s.ids_below_counter(),
        s.next_id < u64::MAX,
    ensures
        !s.pending.contains_key(s.next_id),
        s.registered(w).ids_below_counter(),
{
}

/// Taking a waiter out keeps every pending number below the counter.
pub proof fn take_keeps_ids_below_counter<W>(s: TrackerView<W>, id: u64)
    requires
        s.ids_below_counter(),
    ensures
        s.taken(id).ids_below_counter(),
{
}

/// The reply to a request reaches the waiter registered with it, and taking
/// that waiter out leaves the pending requests as they were before the
/// request was registered (when its number was fresh).
pub proof fn reply_reaches_its_waiter<W>(s: TrackerView<W>, w: W)
    ensures
        s.registered(w).waiter_of(s.next_id) == Some(w),
        !s.pending.contains_key(s.next_id) ==> s.registered(w).taken(s.next_id).pending
            == s.pending,
{
    if !s.pending.contains_key(s.next_id) {
        assert(s.pending.insert(s.next_id, w).remove(s.next_id) =~= s.pending);
    }
}

/// Requests registered one after the other get consecutive numbers on the
/// wrapping counter.
pub proof fn consecutive_requests_get_consecutive_ids<W>(s: TrackerView<W>, w1: W, w2: W)
    ensures
        s.registered(w1).next_id == next_request_id(s.next_id),
        s.registered(w1).registered(w2).next_id == next_request_id(next_request_id(s.next_id)),
        s.next_id < u64::MAX ==> s.registered(w1).next_id == s.next_id + 1,
{
}

/// A reply whose number has no waiter changes nothing.
pub proof fn unknown_reply_changes_nothing<W>(s: TrackerView<W>, id: u64)
    requires
        !s.pending.contains_key(id),
    ensures
        s.taken(id) == s,
        s.waiter_of(id) == None::<W>,
{
    assert(s.pending.remove(id) =~= s.pending);
}

impl<W> TrackerView<W> {
    /// The state after one turn of the loop with `event`.
    pub open spec fn after_event<Q, P>(self, event: LoopEvent<Q, P, W>) -> TrackerView<W> {
        match event {
            LoopEvent::Reply { request_id, .. } => self.taken(request_id),
            LoopEvent::Queued { waiter, .. } => self.registered(waiter),
            _ => self,
        }
    }
}

/// The state of a tracker made by `new` after the loop saw `events`, in order.
pub open spec fn run_from_start<Q, P, W>(events: Seq<LoopEvent<Q, P, W>>) -> TrackerView<W>
    decreases events.len(),
{
    if events.len() == 0 {
        TrackerView { next_id: 0, pending: Map::empty() }
    } else {
        run_from_start(events.drop_last()).after_event(events.last())
    }
}

/// How many requests `events` queue.
pub open spec fn queued_count<Q, P, W>(events: Seq<LoopEvent<Q, P, W>>) -> nat
    decreases events.len(),
{
    if events.len() == 0 {
        0
    } else {
        queued_count(events.drop_last()) + if events.last() is Queued {
            1nat
        } else {
            0nat
        }
    }
}

/// The waiter of the `k`-th request (counting from 0) that `events` queue.
pub open spec fn queued_waiter<Q, P, W>(events: Seq<LoopEvent<Q, P, W>>, k: nat) -> W
    decreases events.len(),
{
    if events.len() == 0 {
        arbitrary()
    } else if events.last() is Queued && queued_count(events.drop_last()) == k {
        events.last()->waiter
    } else {
        queued_waiter(events.drop_last(), k)
    }
}

/// Whether `event` is a reply to request `id`.
pub open spec fn is_reply_to<Q, P, W>(event: LoopEvent<Q, P, W>, id: u64) -> bool {
    event is Reply && event->request_id == id
}

/// Whether `events` hold a reply to request `id`.
pub open spec fn answered<Q, P, W>(events: Seq<LoopEvent<Q, P, W>>, id: u64) -> bool {
    exists|j: int| 0 <= j < events.len() && #[trigger] is_reply_to(events[j], id)
}

/// Every reply in `events` answers a request that is pending at that point,
/// as `on_event` requires.
pub open spec fn replies_pending<Q, P, W>(events: Seq<LoopEvent<Q, P, W>>) -> bool {
    forall|j: int|
        0 <= j < events.len() && #[trigger] events[j] is Reply ==> run_from_start(
            events.take(j),
        ).pending.contains_key(events[j]->request_id)
}

proof fn lemma_answered_step<Q, P, W>(events: Seq<LoopEvent<Q, P, W>>, id: u64)
    requires
        events.len() > 0,
    ensures
        answered(events, id) <==> (answered(events.drop_last(), id) || is_reply_to(
            events.last(),
            id,
        )),
{
    let pre = events.drop_last();
    if answered(events, id) {
        let j = choose|j: int| 0 <= j < events.len() && #[trigger] is_reply_to(events[j], id);
        if j < pre.len() {
            assert(pre[j] == events[j]);
        }
    }
    if answered(pre, id) {
        let j = choose|j: int| 0 <= j < pre.len() && #[trigger] is_reply_to(pre[j], id);
        assert(events[j] == pre[j]);
    }
    if is_reply_to(events.last(), id) {
        assert(events[events.len() - 1] == events.last());
    }
}

proof fn lemma_prefix_replies_pending<Q, P, W>(events: Seq<LoopEvent<Q, P, W>>, k: int)
    requires
        replies_pending(events),
        0 <= k <= events.len(),
    ensures
        replies_pending(events.take(k)),
{
    let pre = events.take(k);
    assert forall|j: int| 0 <= j < pre.len() && #[trigger] pre[j] is Reply implies run_from_start(
        pre.take(j),
    ).pending.contains_key(pre[j]->request_id) by {
        assert(pre[j] == events[j]);
        assert(pre.take(j) =~= events.take(j));
    }
}

proof fn lemma_queued_count_prefix<Q, P, W>(events: Seq<LoopEvent<Q, P, W>>, k: int)
    requires
        0 <= k <= events.len(),
    ensures
        queued_count(events.take(k)) <= queued_count(events),
    decreases events.len(),
{
    if k < events.len() {
        lemma_queued_count_prefix(events.drop_last(), k);
        assert(events.drop_last().take(k) =~= events.take(k));
    } else {
        assert(events.take(k) =~= events);
    }
}

/// Over a whole run of the loop from a new tracker, as long as at most
/// `u64::MAX` requests were queued: the counter equals the number of queued
/// requests; the `k`-th queued request got number `k` (the counter at its
/// turn, see `on_event`), so each number is used once and in queue order; and
/// the pending requests are exactly the queued ones not yet answered, each
/// with its own waiter.
pub proof fn request_numbering_over_a_run<Q, P, W>(events: Seq<LoopEvent<Q, P, W>>)
    requires
        replies_pending(events),
        queued_count(events) <= u64::MAX,
    ensures
        run_from_start(events).next_id == queued_count(events),
        forall|id: u64|
            #[trigger] run_from_start(events).pending.contains_key(id) <==> (id < queued_count(
                events,
            ) && !answered(events, id)),
        forall|id: u64|
            #[trigger] run_from_start(events).pending.contains_key(id) ==> run_from_start(
                events,
            ).pending[id] == queued_waiter(events, id as nat),
    decreases events.len(),
{
    if events.len() > 0 {
        let pre = events.drop_last();
        let e = events.last();
        lemma_prefix_replies_pending(events, events.len() - 1);
        assert(events.take(events.len() - 1) =~= pre);
        lemma_queued_count_prefix(events, events.len() - 1);
        request_numbering_over_a_run(pre);
        let s = run_from_start(pre);
        let t = run_from_start(events);
        assert(t == s.after_event(e));
        if e is Reply {
            assert(events[events.len() - 1] == e);
            assert(s.pending.contains_key(e->request_id));
            assert forall|id: u64| #[trigger] t.pending.contains_key(id) <==> (id < queued_count(
                events,
            ) && !answered(events, id)) by {
                lemma_answered_step(events, id);
            }
            assert forall|id: u64| #[trigger] t.pending.contains_key(id) implies t.pending[id]
                == queued_waiter(events, id as nat) by {
                assert(s.pending.contains_key(id));
            }
        } else if e is Queued {
            assert forall|id: u64| #[trigger] t.pending.contains_key(id) <==> (id < queued_count(
                events,
            ) && !answered(events, id)) by {
                lemma_answered_step(events, id);
                if id == s.next_id && answered(pre, id) {
                    let j = choose|j: int| 0 <= j < pre.len() && #[trigger] is_reply_to(pre[j], id);
                    lemma_reply_below_count(pre, j);
                }
            }
            assert forall|id: u64| #[trigger] t.pending.contains_key(id) implies t.pending[id]
                == queued_waiter(events, id as nat) by {
                if id != s.next_id {
                    assert(s.pending.contains_key(id));
                }
            }
        } else {
            assert forall|id: u64| #[trigger] t.pending.contains_key(id) <==> (id < queued_count(
                events,
            ) && !answered(events, id)) by {
                lemma_answered_step(events, id);
            }
            assert forall|id: u64| #[trigger] t.pending.contains_key(id) implies t.pending[id]
                == queued_waiter(events, id as nat) by {
                assert(s.pending.contains_key(id));
            }
        }
    }
}

/// In a run whose replies answer pending requests, each reply's number is
/// below the number of requests queued before it.
proof fn lemma_reply_below_count<Q, P, W>(events: Seq<LoopEvent<Q, P, W>>, j: int)
    requires
        replies_pending(events),
        queued_count(events) <= u64::MAX,
        0 <= j < events.len(),
        events[j] is Reply,
    ensures
        events[j]->request_id < queued_count(events),
    decreases events.len(), 0int,
{
    lemma_prefix_replies_pending(events, j);
    lemma_queued_count_prefix(events, j);
    request_numbering_over_a_run(events.take(j));
}

/// In such a run, the request queued at turn `j` is sent under the number
/// of requests queued before it, and requests queued at different turns get
/// different numbers, later ones greater.
pub proof fn queued_requests_get_distinct_numbers<Q, P, W>(
    events: Seq<LoopEvent<Q, P, W>>,
    j1: int,
    j2: int,
)
    requires
        replies_pending(events),
        queued_count(events) <= u64::MAX,
        0 <= j1 < j2 < events.len(),
        events[j1] is Queued,
        events[j2] is Queued,
    ensures
        run_from_start(events.take(j1)).next_id == queued_count(events.take(j1)),
        run_from_start(events.take(j2)).next_id == queued_count(events.take(j2)),
        run_from_start(events.take(j1)).next_id < run_from_start(events.take(j2)).next_id,
{
    lemma_prefix_replies_pending(events, j1);
    lemma_prefix_replies_pending(events, j2);
    lemma_queued_count_prefix(events, j1);
    lemma_queued_count_prefix(events, j2);
    request_numbering_over_a_run(events.take(j1));
    request_numbering_over_a_run(events.take(j2));
    let upto = events.take(j2);
    lemma_queued_count_prefix(upto, j1 + 1);
    assert(upto.take(j1 + 1) =~= events.take(j1 + 1));
    assert(events.take(j1 + 1).drop_last() =~= events.take(j1));
    assert(events.take(j1 + 1).last() == events[j1]);
}

} // verus!
