//! What holds of a queue whatever happens to it, in whatever order: a request
//! is called back at most once, and never after it has been cancelled.

use crate::cell_map::{lemma_insert_is_fresh, lemma_removal_keeps_order, Cell};
use crate::queue::{
    delivery_of, lemma_drain_is_bounded, lemma_settle_is_bounded, CompletionRecord, Delivery,
    QueueModel, Stage,
};
use crate::request::Request;
use vstd::prelude::*;

verus! {

/// Something that happens to a queue.
pub enum Event<C> {
    /// The host submits a request.
    Submit(Request, C),
    /// The host cancels one request.
    Cancel(Cell),
    /// The host cancels everything outstanding.
    CancelAll,
    /// A worker asks for work.
    Dispatch,
    /// A worker hands back a finished request.
    Complete(CompletionRecord<C>),
    /// The host drains, with a limit and a retry spacing.
    Drain(nat, u64),
}

/// The number of submissions among `events`.
pub open spec fn submissions<C>(events: Seq<Event<C>>) -> nat
    decreases events.len(),
{
    if events.len() == 0 {
        0
    } else {
        submissions(events.subrange(1, events.len() as int)) + (if events[0] is Submit {
            1nat
        } else {
            0nat
        })
    }
}

/// Whether no delivery in `deliveries` is for `handle`.
pub open spec fn silent_on<C>(deliveries: Seq<Delivery<C>>, handle: Cell) -> bool {
    forall|i: int| 0 <= i < deliveries.len() ==> (#[trigger] deliveries[i]).handle != handle
}

impl<C> QueueModel<C> {
    /// The queue after `event`, and the deliveries that the event gave.
    pub open spec fn step(self, event: Event<C>) -> (Self, Seq<Delivery<C>>) {
        match event {
            Event::Submit(request, on_complete) => (
                self.submit(request, on_complete).0,
                Seq::empty(),
            ),
            Event::Cancel(handle) => (self.cancel(handle).0, Seq::empty()),
            Event::CancelAll => (self.cancel_all(), Seq::empty()),
            Event::Dispatch => (self.dispatch().0, Seq::empty()),
            Event::Complete(record) => (self.complete(record), Seq::empty()),
            Event::Drain(limit, delay) => self.drain(limit, delay),
        }
    }

    /// The queue after `events` in turn, and every delivery they gave, in
    /// order.
    pub open spec fn run(self, events: Seq<Event<C>>) -> (Self, Seq<Delivery<C>>)
        decreases events.len(),
    {
        if events.len() == 0 {
            (self, Seq::empty())
        } else {
            let (next, first) = self.step(events[0]);
            let (last, rest) = next.run(events.subrange(1, events.len() as int));
            (last, first + rest)
        }
    }

    /// The handle lies below the counter and has no token: if it was ever
    /// given out, the request behind it has been delivered or cancelled.
    pub open spec fn retired(self, handle: Cell) -> bool {
        !self.is_pending(handle) && handle < self.tokens.next
    }

    /// The handle counter can take `submissions` more requests before it
    /// wraps round.
    pub open spec fn has_room(self, submissions: nat) -> bool {
        self.tokens.next + submissions <= isize::MAX
    }
}

/// One event keeps the tokens in counting order, as long as the handle
/// counter does not wrap round, and only a submission moves the counter.
pub proof fn lemma_step_keeps_order<C>(queue: QueueModel<C>, event: Event<C>)
    requires
        queue.tokens.ascending(),
        event is Submit ==> queue.has_room(1),
    ensures
        queue.step(event).0.tokens.ascending(),
        queue.step(event).0.tokens.next == (if event is Submit {
            queue.tokens.next + 1
        } else {
            queue.tokens.next as int
        }),
{
    let after = queue.step(event).0;
    match event {
        Event::Submit(request, on_complete) => {
            lemma_insert_is_fresh(queue.tokens, Stage::Queued);
            assert(after.tokens == queue.tokens.insert(Stage::Queued).0);
        },
        Event::Cancel(other) => {
            lemma_removal_keeps_order(queue.tokens, other);
        },
        Event::CancelAll => {
            lemma_removal_keeps_order(queue.tokens, 0);
        },
        Event::Dispatch => {
            if queue.waiting.len() > 0 && queue.tokens.is_live(queue.waiting[0].handle) {
                assert forall|id: Cell| #[trigger]
                    after.tokens.entries.contains_key(id) implies id < after.tokens.next by {
                    assert(queue.tokens.entries.contains_key(id));
                }
            }
        },
        Event::Complete(record) => {},
        Event::Drain(limit, delay) => {
            lemma_drain_is_bounded(queue, limit, delay);
            assert forall|id: Cell| #[trigger]
                after.tokens.entries.contains_key(id) implies id < after.tokens.next by {
                assert(after.is_pending(id));
                assert(queue.tokens.entries.contains_key(id));
            }
        },
    }
}

/// Any run of events keeps the tokens in counting order, as long as the
/// handle counter does not wrap round.
pub proof fn lemma_run_keeps_order<C>(queue: QueueModel<C>, events: Seq<Event<C>>)
    requires
        queue.tokens.ascending(),
        queue.has_room(submissions(events)),
    ensures
        queue.run(events).0.tokens.ascending(),
        queue.run(events).0.tokens.next == queue.tokens.next + submissions(events),
    decreases events.len(),
{
    if events.len() > 0 {
        lemma_step_keeps_order(queue, events[0]);
        lemma_run_keeps_order(queue.step(events[0]).0, events.subrange(1, events.len() as int));
    }
}

/// A queue that started empty has its tokens in counting order after any
/// run of events that the handle counter has room for.
pub proof fn lemma_new_queue_stays_ordered<C>(events: Seq<Event<C>>)
    requires
        QueueModel::<C>::empty().has_room(submissions(events)),
    ensures
        QueueModel::<C>::empty().run(events).0.tokens.ascending(),
{
    lemma_run_keeps_order(QueueModel::<C>::empty(), events);
}

/// One event leaves a retired handle retired and gives no delivery for it,
/// as long as the handle counter does not wrap round.
pub proof fn lemma_retired_stays_retired<C>(queue: QueueModel<C>, handle: Cell, event: Event<C>)
    requires
        queue.tokens.ascending(),
        queue.retired(handle),
        event is Submit ==> queue.has_room(1),
    ensures
        queue.step(event).0.retired(handle),
        silent_on(queue.step(event).1, handle),
{
    lemma_step_keeps_order(queue, event);
    let after = queue.step(event).0;
    match event {
        Event::Submit(request, on_complete) => {
            assert(after.tokens == queue.tokens.insert(Stage::Queued).0);
        },
        Event::Drain(limit, delay) => {
            lemma_drain_is_bounded(queue, limit, delay);
            if after.is_pending(handle) {
                assert(queue.is_pending(handle));
            }
        },
        _ => {},
    }
}

/// A retired handle is never delivered again, whatever happens next and in
/// whatever order, as long as the handle counter does not wrap round.
pub proof fn lemma_retired_is_never_delivered<C>(
    queue: QueueModel<C>,
    handle: Cell,
    events: Seq<Event<C>>,
)
    requires
        queue.tokens.ascending(),
        queue.retired(handle),
        queue.has_room(submissions(events)),
    ensures
        silent_on(queue.run(events).1, handle),
        queue.run(events).0.retired(handle),
        queue.run(events).0.tokens.ascending(),
    decreases events.len(),
{
    if events.len() > 0 {
        let (next, first) = queue.step(events[0]);
        let later = events.subrange(1, events.len() as int);
        lemma_step_keeps_order(queue, events[0]);
        lemma_retired_stays_retired(queue, handle, events[0]);
        lemma_retired_is_never_delivered(next, handle, later);
        let rest = next.run(later).1;
        assert forall|i: int| 0 <= i < (first + rest).len() implies (#[trigger] (first
            + rest)[i]).handle != handle by {
            if i < first.len() {
                assert((first + rest)[i] == first[i]);
            } else {
                assert((first + rest)[i] == rest[i - first.len()]);
            }
        }
    }
}

/// Whether no two deliveries in `deliveries` are for the same handle.
pub open spec fn each_once<C>(deliveries: Seq<Delivery<C>>) -> bool {
    forall|i: int, j: int|
        0 <= i < j < deliveries.len() ==> (#[trigger] deliveries[i]).handle != (
        #[trigger] deliveries[j]).handle
}

/// One drain asks for no callback twice.
pub proof fn lemma_settle_delivers_once<C>(queue: QueueModel<C>, limit: nat)
    ensures
        each_once(queue.settle(limit).1),
    decreases limit,
{
    if limit > 0 && queue.completed.len() > 0 {
        let (next, first) = queue.settle_one();
        let rest = next.settle((limit - 1) as nat).1;
        lemma_settle_delivers_once(next, (limit - 1) as nat);
        lemma_settle_is_bounded(next, (limit - 1) as nat);
        let all = first + rest;
        assert forall|i: int, j: int| 0 <= i < j < all.len() implies (#[trigger] all[i]).handle != (
        #[trigger] all[j]).handle by {
            if i < first.len() {
                assert(all[i] == delivery_of(queue.completed[0]));
                assert(all[j] == rest[j - first.len()]);
                assert(next.is_pending(rest[j - first.len()].handle));
            } else {
                assert(all[i] == rest[i - first.len()]);
                assert(all[j] == rest[j - first.len()]);
            }
        }
    }
}

/// For each submitted request the callback is asked for at most once:
/// whatever happens and in whatever order, no two deliveries carry the same
/// handle, as long as the handle counter does not wrap round.
pub proof fn lemma_delivered_at_most_once<C>(queue: QueueModel<C>, events: Seq<Event<C>>)
    requires
        queue.tokens.ascending(),
        queue.has_room(submissions(events)),
    ensures
        each_once(queue.run(events).1),
    decreases events.len(),
{
    if events.len() > 0 {
        let (next, first) = queue.step(events[0]);
        let later = events.subrange(1, events.len() as int);
        let rest = next.run(later).1;
        lemma_step_keeps_order(queue, events[0]);
        lemma_delivered_at_most_once(next, later);
        if let Event::Drain(limit, delay) = events[0] {
            lemma_settle_delivers_once(queue, limit);
            lemma_drain_is_bounded(queue, limit, delay);
        }
        let all = first + rest;
        assert forall|i: int, j: int| 0 <= i < j < all.len() implies (#[trigger] all[i]).handle != (
        #[trigger] all[j]).handle by {
            if j < first.len() {
                assert(all[i] == first[i]);
                assert(all[j] == first[j]);
            } else if i < first.len() {
                let handle = first[i].handle;
                assert(all[i] == first[i]);
                assert(all[j] == rest[j - first.len()]);
                assert(queue.is_pending(handle));
                assert(queue.tokens.entries.contains_key(handle));
                assert(next.retired(handle));
                lemma_retired_is_never_delivered(next, handle, later);
            } else {
                assert(all[i] == rest[i - first.len()]);
                assert(all[j] == rest[j - first.len()]);
            }
        }
    }
}

/// Cancelling a submitted request before it is delivered means that its
/// callback is never asked for: whatever workers and host do afterwards, in
/// whatever order, no delivery carries its handle.
pub proof fn lemma_cancelled_is_never_delivered<C>(
    queue: QueueModel<C>,
    handle: Cell,
    events: Seq<Event<C>>,
)
    requires
        queue.tokens.ascending(),
        handle < queue.tokens.next,
        queue.has_room(submissions(events)),
    ensures
        silent_on(queue.cancel(handle).0.run(events).1, handle),
{
    lemma_removal_keeps_order(queue.tokens, handle);
    lemma_retired_is_never_delivered(queue.cancel(handle).0, handle, events);
}

/// After everything outstanding has been cancelled at once, no request
/// submitted before that moment is ever delivered, whatever its worker does
/// later: every later delivery is for a request submitted afterwards.
pub proof fn lemma_cancel_all_silences<C>(queue: QueueModel<C>, events: Seq<Event<C>>)
    requires
        queue.tokens.ascending(),
        queue.has_room(submissions(events)),
    ensures
        forall|i: int|
            0 <= i < queue.cancel_all().run(events).1.len() ==> (
            #[trigger] queue.cancel_all().run(events).1[i]).handle >= queue.tokens.next,
{
    let cleared = queue.cancel_all();
    let given = cleared.run(events).1;
    lemma_removal_keeps_order(queue.tokens, 0);
    assert forall|i: int| 0 <= i < given.len() implies (#[trigger] given[i]).handle
        >= queue.tokens.next by {
        let handle = given[i].handle;
        if handle < queue.tokens.next {
            lemma_retired_is_never_delivered(cleared, handle, events);
        }
    }
}

/// A queue without tokens asks for no callback until something is
/// submitted, whatever workers hand back to it and however often it is
/// drained.
pub proof fn lemma_no_tokens_no_deliveries<C>(queue: QueueModel<C>, events: Seq<Event<C>>)
    requires
        forall|handle: Cell| !queue.is_pending(handle),
        submissions(events) == 0,
    ensures
        queue.run(events).1.len() == 0,
        forall|handle: Cell| !queue.run(events).0.is_pending(handle),
    decreases events.len(),
{
    if events.len() > 0 {
        let (next, first) = queue.step(events[0]);
        let later = events.subrange(1, events.len() as int);
        match events[0] {
            Event::Drain(limit, delay) => {
                lemma_drain_is_bounded(queue, limit, delay);
                if first.len() > 0 {
                    assert(queue.is_pending(first[0].handle));
                }
            },
            _ => {},
        }
        assert forall|handle: Cell| !next.is_pending(handle) by {
            if next.is_pending(handle) {
                assert(queue.is_pending(handle));
            }
        }
        lemma_no_tokens_no_deliveries(next, later);
    }
}

/// Shutting down is final: once everything outstanding has been cancelled at
/// once, and nothing new is submitted, no callback is asked for any more,
/// whatever the workers still hand back.
pub proof fn lemma_cancel_all_is_final<C>(queue: QueueModel<C>, events: Seq<Event<C>>)
    requires
        submissions(events) == 0,
    ensures
        queue.cancel_all().run(events).1.len() == 0,
{
    lemma_no_tokens_no_deliveries(queue.cancel_all(), events);
}

} // verus!
