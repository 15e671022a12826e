//! The request queue: submission, hand-over to workers, buffering of what
//! they finish, and bounded delivery on the host's own thread.
//!
//! The queue itself performs no network work and invokes no callback. It
//! decides: which job a worker takes next, and which finished requests the
//! host must call back now. Whoever drives it performs those actions.

use crate::cell_map::{Cell, CellMap, TableModel};
use crate::request::{Outcome, Request};
use std::collections::VecDeque;
use vstd::prelude::*;

verus! {

/// How far a request with a live token has come.
#[derive(Clone, Copy, Debug, PartialEq, Eq, Structural)]
pub enum Stage {
    /// Submitted, waiting for a worker.
    Queued,
    /// Taken by a worker.
    Dispatched,
}

/// Work for one worker: the request to perform, and what to call back with
/// once it has ended.
#[derive(Debug)]
pub struct Job<C> {
    pub handle: Cell,
    pub request: Request,
    pub on_complete: C,
}

/// What a worker hands back: the callback it was given, and how the request
/// ended.
#[derive(Debug)]
pub struct CompletionRecord<C> {
    pub handle: Cell,
    pub on_complete: C,
    pub outcome: Outcome,
}

/// An instruction to the host: invoke this callback once, with this outcome.
#[derive(Debug)]
pub struct Delivery<C> {
    pub handle: Cell,
    pub on_complete: C,
    pub outcome: Outcome,
}

/// The delivery that a record turns into when its token is still there.
pub open spec fn delivery_of<C>(record: CompletionRecord<C>) -> Delivery<C> {
    Delivery { handle: record.handle, on_complete: record.on_complete, outcome: record.outcome }
}

/// What a queue is, mathematically.
pub struct QueueModel<C> {
    /// One token for each request that can still be called back.
    pub tokens: TableModel<Stage>,
    /// Jobs that no worker has taken yet, oldest first.
    pub waiting: Seq<Job<C>>,
    /// Finished requests that have not been looked at yet, in order of arrival.
    pub completed: Seq<CompletionRecord<C>>,
    /// The spacing, in microseconds, that workers keep between two attempts
    /// at the same request.
    pub retry_delay: u64,
}

impl<C> QueueModel<C> {
    /// The queue as created.
    pub open spec fn empty() -> Self {
        QueueModel {
            tokens: TableModel::empty(),
            waiting: Seq::empty(),
            completed: Seq::empty(),
            retry_delay: 0,
        }
    }

    /// Whether the request behind `handle` can still be called back.
    pub open spec fn is_pending(self, handle: Cell) -> bool {
        self.tokens.is_live(handle)
    }

    /// The number of requests that can still be called back.
    pub open spec fn pending_count(self) -> nat {
        self.tokens.entries.len()
    }

    /// The queue after a submission, and the handle of the new request.
    pub open spec fn submit(self, request: Request, on_complete: C) -> (Self, Cell) {
        let (tokens, handle) = self.tokens.insert(Stage::Queued);
        (
            QueueModel {
                tokens,
                waiting: self.waiting.push(Job { handle, request, on_complete }),
                ..self
            },
            handle,
        )
    }

    /// The queue after cancelling `handle`, and whether a token was there.
    pub open spec fn cancel(self, handle: Cell) -> (Self, bool) {
        (QueueModel { tokens: self.tokens.remove(handle).0, ..self }, self.is_pending(handle))
    }

    /// The queue after every token has been dropped.
    pub open spec fn cancel_all(self) -> Self {
        QueueModel { tokens: self.tokens.clear(), ..self }
    }

    /// The queue after a worker has asked for work, and the job it got.
    pub open spec fn dispatch(self) -> (Self, Option<Job<C>>) {
        if self.waiting.len() == 0 {
            (self, None)
        } else {
            let job = self.waiting[0];
            let tokens = if self.tokens.is_live(job.handle) {
                self.tokens.replace(job.handle, Stage::Dispatched)
            } else {
                self.tokens
            };
            (
                QueueModel { tokens, waiting: self.waiting.subrange(1, self.waiting.len() as int), ..self },
                Some(job),
            )
        }
    }

    /// The queue after a worker has handed back a finished request.
    pub open spec fn complete(self, record: CompletionRecord<C>) -> Self {
        QueueModel { completed: self.completed.push(record), ..self }
    }

    /// The queue after looking at its oldest finished request, and the
    /// delivery that this gave: one if the token was still there, none if
    /// the request had been cancelled.
    pub open spec fn settle_one(self) -> (Self, Seq<Delivery<C>>)
        recommends
            self.completed.len() > 0,
    {
        let record = self.completed[0];
        let after = QueueModel {
            tokens: self.tokens.remove(record.handle).0,
            completed: self.completed.subrange(1, self.completed.len() as int),
            ..self
        };
        if self.tokens.is_live(record.handle) {
            (after, seq![delivery_of(record)])
        } else {
            (after, Seq::empty())
        }
    }

    /// The queue after looking at up to `limit` finished requests, oldest
    /// first, and the deliveries that this gave, in that order.
    pub open spec fn settle(self, limit: nat) -> (Self, Seq<Delivery<C>>)
        decreases limit,
    {
        if limit == 0 || self.completed.len() == 0 {
            (self, Seq::empty())
        } else {
            let (next, first) = self.settle_one();
            let (last, rest) = next.settle((limit - 1) as nat);
            (last, first + rest)
        }
    }

    /// The queue after a drain, and the deliveries the host must make.
    pub open spec fn drain(self, limit: nat, delay: u64) -> (Self, Seq<Delivery<C>>) {
        let (after, deliveries) = self.settle(limit);
        (QueueModel { retry_delay: delay, ..after }, deliveries)
    }
}

/// A queue of requests. See the module text for how it is driven.
pub struct Queue<C> {
    tokens: CellMap<Stage>,
    waiting: VecDeque<Job<C>>,
    completed: VecDeque<CompletionRecord<C>>,
    retry_delay: u64,
}

impl<C> View for Queue<C> {
    type V = QueueModel<C>;

    closed spec fn view(&self) -> QueueModel<C> {
        QueueModel {
            tokens: self.tokens@,
            waiting: self.waiting@,
            completed: self.completed@,
            retry_delay: self.retry_delay,
        }
    }
}

impl<C> Queue<C> {
    /// Creates a queue with nothing in it.
    pub fn new() -> (queue: Self)
        ensures
            queue@ == QueueModel::<C>::empty(),
    {
        Queue {
            tokens: CellMap::new(),
            waiting: VecDeque::new(),
            completed: VecDeque::new(),
            retry_delay: 0,
        }
    }

    /// Submits a request. The handle it returns is the one that the token
    /// table announced beforehand; the job waits for a worker.
    pub fn send_request(&mut self, request: Request, on_complete: C) -> (handle: Cell)
        ensures
            (final(self)@, handle) == old(self)@.submit(request, on_complete),
            handle == old(self)@.tokens.peek(),
    {
        let handle = self.tokens.peek_id();
        let registered = self.tokens.insert_with_unique_id(Stage::Queued);
        assert(registered == handle);
        self.waiting.push_back(Job { handle, request, on_complete });
        handle
    }

    /// Cancels the request behind `handle`: from now on nothing is delivered
    /// for it. Returns whether there was such a request.
    pub fn cancel(&mut self, handle: Cell) -> (found: bool)
        ensures
            (final(self)@, found) == old(self)@.cancel(handle),
    {
        self.tokens.remove_with_id(handle).is_some()
    }

    /// Cancels every request that is still outstanding.
    pub fn cancel_all(&mut self)
        ensures
            final(self)@ == old(self)@.cancel_all(),
    {
        self.tokens.clear();
    }

    /// Whether the request behind `handle` can still be called back.
    pub fn is_pending(&self, handle: Cell) -> (pending: bool)
        ensures
            pending == self@.is_pending(handle),
    {
        self.tokens.contains_id(handle)
    }

    /// The stage of the request behind `handle`, while its token is there.
    pub fn stage(&self, handle: Cell) -> (stage: Option<Stage>)
        ensures
            stage == self@.tokens.get(handle),
    {
        match self.tokens.get_with_id(handle) {
            Some(stage) => Some(*stage),
            None => None,
        }
    }

    /// The number of requests that can still be called back.
    pub fn number_of_pending_requests(&self) -> (count: usize)
        ensures
            count == self@.pending_count(),
    {
        self.tokens.len()
    }

    /// The spacing, in microseconds, that the last drain asked workers to
    /// keep between two attempts at the same request.
    pub fn retry_delay(&self) -> (delay: u64)
        ensures
            delay == self@.retry_delay,
    {
        self.retry_delay
    }

    /// Hands the oldest waiting job to a worker, if there is one.
    pub fn next_job(&mut self) -> (job: Option<Job<C>>)
        ensures
            (final(self)@, job) == old(self)@.dispatch(),
    {
        match self.waiting.pop_front() {
            Some(job) => {
                match self.tokens.get_mut_with_id(job.handle) {
                    Some(stage) => {
                        *stage = Stage::Dispatched;
                    },
                    None => {},
                }
                Some(job)
            },
            None => None,
        }
    }

    /// Takes a finished request from a worker. Nothing is delivered yet.
    pub fn complete(&mut self, record: CompletionRecord<C>)
        ensures
            final(self)@ == old(self)@.complete(record),
    {
        self.completed.push_back(record);
    }

    /// Looks at up to `limit` finished requests, oldest first, and returns
    /// the callbacks that the host must now invoke, in order. A request whose
    /// token is gone gives none. Never waits: an empty buffer ends the call.
    pub fn execute_queue_with_limit(&mut self, limit: usize, delay_micros: u64) -> (deliveries: Vec<
        Delivery<C>,
    >)
        ensures
            (final(self)@, deliveries@) == old(self)@.drain(limit as nat, delay_micros),
            deliveries@.len() <= limit,
    {
        let mut deliveries: Vec<Delivery<C>> = Vec::new();
        let mut looked: usize = 0;
        while looked < limit
            invariant
                looked <= limit,
                self.retry_delay == old(self).retry_delay,
                old(self)@.settle(limit as nat).0 == self@.settle((limit - looked) as nat).0,
                old(self)@.settle(limit as nat).1 == deliveries@ + self@.settle(
                    (limit - looked) as nat,
                ).1,
            decreases limit - looked,
        {
            let ghost before = self@;
            match self.completed.pop_front() {
                Some(record) => {
                    let token = self.tokens.remove_with_id(record.handle);
                    proof {
                        assert(self@ == before.settle_one().0);
                    }
                    if token.is_some() {
                        let ghost made = delivery_of(record);
                        let ghost earlier = deliveries@;
                        deliveries.push(
                            Delivery {
                                handle: record.handle,
                                on_complete: record.on_complete,
                                outcome: record.outcome,
                            },
                        );
                        proof {
                            assert(before.settle_one().1 == seq![made]);
                            assert(deliveries@ + self@.settle((limit - looked - 1) as nat).1
                                =~= earlier + (seq![made] + self@.settle(
                                (limit - looked - 1) as nat,
                            ).1));
                        }
                    }
                    looked = looked + 1;
                },
                None => {
                    proof {
                        lemma_settle_nothing(self@, (limit - looked) as nat);
                        lemma_settle_nothing(self@, 0);
                    }
                    looked = limit;
                },
            }
        }
        self.retry_delay = delay_micros;
        proof {
            assert(deliveries@ + Seq::<Delivery<C>>::empty() =~= deliveries@);
            lemma_drain_is_bounded(old(self)@, limit as nat, delay_micros);
        }
        deliveries
    }
}

/// A drain with limit `limit` looks at no more than `limit` finished
/// requests and so asks for no more than `limit` callbacks, however many are
/// ready. What it does not look at stays buffered, in order. Every delivery
/// is for a request that was pending before the drain and is not pending
/// after it, and a drain issues no handle and revives no token.
pub proof fn lemma_drain_is_bounded<C>(queue: QueueModel<C>, limit: nat, delay: u64)
    ensures
        queue.drain(limit, delay).1.len() <= limit,
        queue.drain(limit, delay).1.len() <= queue.completed.len(),
        queue.drain(limit, delay).0.completed == queue.completed.subrange(
            if limit <= queue.completed.len() {
                limit as int
            } else {
                queue.completed.len() as int
            },
            queue.completed.len() as int,
        ),
        queue.drain(limit, delay).0.waiting == queue.waiting,
        queue.drain(limit, delay).0.tokens.next == queue.tokens.next,
        forall|i: int|
            0 <= i < queue.drain(limit, delay).1.len() ==> {
                &&& queue.is_pending((#[trigger] queue.drain(limit, delay).1[i]).handle)
                &&& !queue.drain(limit, delay).0.is_pending(queue.drain(limit, delay).1[i].handle)
            },
        forall|handle: Cell| #[trigger]
            queue.drain(limit, delay).0.is_pending(handle) ==> queue.is_pending(handle),
{
    lemma_settle_is_bounded(queue, limit);
    let settled = queue.settle(limit).0;
    let drained = queue.drain(limit, delay).0;
    assert(drained.tokens == settled.tokens);
    assert forall|handle: Cell| #[trigger] drained.is_pending(handle) implies queue.is_pending(
        handle,
    ) by {
        assert(settled.is_pending(handle));
    }
    assert forall|i: int| 0 <= i < queue.drain(limit, delay).1.len() implies {
        &&& queue.is_pending((#[trigger] queue.drain(limit, delay).1[i]).handle)
        &&& !drained.is_pending(queue.drain(limit, delay).1[i].handle)
    } by {
        assert(!settled.is_pending(queue.settle(limit).1[i].handle));
    }
}

/// The same, of the part of a drain that looks at the buffer.
pub proof fn lemma_settle_is_bounded<C>(queue: QueueModel<C>, limit: nat)
    ensures
        queue.settle(limit).1.len() <= limit,
        queue.settle(limit).1.len() <= queue.completed.len(),
        queue.settle(limit).0.completed == queue.completed.subrange(
            if limit <= queue.completed.len() {
                limit as int
            } else {
                queue.completed.len() as int
            },
            queue.completed.len() as int,
        ),
        queue.settle(limit).0.waiting == queue.waiting,
        queue.settle(limit).0.retry_delay == queue.retry_delay,
        queue.settle(limit).0.tokens.next == queue.tokens.next,
        forall|i: int|
            0 <= i < queue.settle(limit).1.len() ==> {
                &&& queue.is_pending((#[trigger] queue.settle(limit).1[i]).handle)
                &&& !queue.settle(limit).0.is_pending(queue.settle(limit).1[i].handle)
            },
        forall|handle: Cell| #[trigger]
            queue.settle(limit).0.is_pending(handle) ==> queue.is_pending(handle),
    decreases limit,
{
    if limit == 0 || queue.completed.len() == 0 {
        assert(queue.completed.subrange(
            if limit <= queue.completed.len() {
                limit as int
            } else {
                queue.completed.len() as int
            },
            queue.completed.len() as int,
        ) =~= queue.completed);
    } else {
        let (next, first) = queue.settle_one();
        let (last, rest) = next.settle((limit - 1) as nat);
        lemma_settle_is_bounded(next, (limit - 1) as nat);
        assert(last.completed =~= queue.completed.subrange(
            if limit <= queue.completed.len() {
                limit as int
            } else {
                queue.completed.len() as int
            },
            queue.completed.len() as int,
        ));
        let all = first + rest;
        assert forall|i: int| 0 <= i < all.len() implies {
            &&& queue.is_pending((#[trigger] all[i]).handle)
            &&& !last.is_pending(all[i].handle)
        } by {
            if i < first.len() {
                assert(all[i] == delivery_of(queue.completed[0]));
                assert(!next.is_pending(all[i].handle));
            } else {
                assert(all[i] == rest[i - first.len()]);
                assert(next.is_pending(all[i].handle));
            }
        }
    }
}

/// With nothing buffered, any limit gives the same: no change, no delivery.
pub proof fn lemma_settle_nothing<C>(queue: QueueModel<C>, limit: nat)
    requires
        queue.completed.len() == 0,
    ensures
        queue.settle(limit) == (queue, Seq::<Delivery<C>>::empty()),
{
}

} // verus!
