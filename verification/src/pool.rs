//! The worker pool and its dispatch discipline.
//!
//! The pool owns one bounded inbound queue per worker. A submission picks
//! a worker round-robin — an incrementing counter modulo the worker count
//! — and enqueues; a full queue is backpressure, so the submission is
//! handed back for the caller to retry once space frees (the shell
//! suspends on it rather than rejecting). Each worker drains its own queue
//! strictly first-in-first-out, one request at a time, so two requests
//! sent to the same worker run in arrival order. There is no ordering
//! across workers.

use vstd::prelude::*;

use crate::routes::RouteRequest;

verus! {

/// One worker's bounded inbound queue, first in, first out.
#[derive(Debug)]
pub struct RequestQueue {
    items: Vec<RouteRequest>,
    capacity: usize,
}

impl View for RequestQueue {
    type V = Seq<RouteRequest>;

    closed spec fn view(&self) -> Seq<RouteRequest> {
        self.items@
    }
}

impl RequestQueue {
    /// How many requests the queue accepts before backpressure.
    pub closed spec fn spec_capacity(&self) -> nat {
        self.capacity as nat
    }

    /// An empty queue accepting `capacity` requests.
    pub fn new(capacity: usize) -> (q: RequestQueue)
        requires
            capacity >= 1,
        ensures
            q@ == Seq::<RouteRequest>::empty(),
            q.spec_capacity() == capacity,
    {
        RequestQueue { items: Vec::new(), capacity }
    }

    /// The queue's capacity.
    pub fn capacity(&self) -> (c: usize)
        ensures
            c == self.spec_capacity(),
    {
        self.capacity
    }

    /// How many requests are waiting.
    pub fn len(&self) -> (n: usize)
        ensures
            n == self@.len(),
    {
        self.items.len()
    }

    /// Enqueue a request at the back. A full queue hands the request back:
    /// that is backpressure, and the caller suspends until space frees.
    pub fn send(&mut self, req: RouteRequest) -> (r: Result<(), RouteRequest>)
        ensures
            final(self).spec_capacity() == old(self).spec_capacity(),
            old(self)@.len() < old(self).spec_capacity() ==> r is Ok && final(self)@ == old(
                self,
            )@.push(req),
            old(self)@.len() >= old(self).spec_capacity() ==> r == Err::<(), RouteRequest>(req)
                && final(self)@ == old(self)@,
    {
        if self.items.len() < self.capacity {
            self.items.push(req);
            Ok(())
        } else {
            Err(req)
        }
    }

    /// Dequeue the request that arrived first, if any.
    pub fn take_next(&mut self) -> (r: Option<RouteRequest>)
        ensures
            final(self).spec_capacity() == old(self).spec_capacity(),
            old(self)@.len() == 0 ==> r is None && final(self)@ == old(self)@,
            old(self)@.len() > 0 ==> r == Some(old(self)@[0]) && final(self)@ == old(
                self,
            )@.drop_first(),
    {
        if self.items.len() == 0 {
            None
        } else {
            let first = self.items.remove(0);
            proof {
                assert(self.items@ =~= old(self).items@.drop_first());
            }
            Some(first)
        }
    }
}

/// Requests leave a worker's queue in arrival order: after everything
/// already waiting has left, a request sent before another leaves first.
pub proof fn lemma_queue_fifo(q: Seq<RouteRequest>, first: RouteRequest, second: RouteRequest)
    ensures
        ({
            let q2 = q.push(first).push(second);
            &&& q2.len() == q.len() + 2
            &&& q2[q.len() as int] == first
            &&& q2[q.len() as int + 1] == second
            &&& forall|i: int| 0 <= i < q.len() ==> q2[i] == q[i]
        }),
{
}

/// Where a submission went: enqueued with a worker, or held back because
/// that worker's queue is full — the caller keeps the request and retries
/// once the worker frees space.
#[derive(Debug)]
pub enum SubmitOutcome {
    Enqueued { worker: usize },
    MustWait { worker: usize, request: RouteRequest },
}

/// A fixed set of workers, each with its own bounded inbound queue, fed
/// round-robin.
#[derive(Debug)]
pub struct WorkerPool {
    workers: Vec<RequestQueue>,
    next_worker: usize,
}

impl WorkerPool {
    /// The queues' contents, worker by worker.
    pub closed spec fn queues(&self) -> Seq<Seq<RouteRequest>> {
        Seq::new(self.workers@.len(), |i: int| self.workers@[i]@)
    }

    /// How many workers the pool holds.
    pub closed spec fn spec_worker_count(&self) -> nat {
        self.workers@.len()
    }

    /// The worker the next submission is assigned to.
    pub closed spec fn spec_next_worker(&self) -> nat {
        self.next_worker as nat
    }

    /// Every queue's capacity.
    pub closed spec fn spec_queue_capacity(&self) -> nat {
        if self.workers@.len() > 0 {
            self.workers@[0].spec_capacity()
        } else {
            0
        }
    }

    /// A well-formed pool: at least one worker, the round-robin counter in
    /// range, every queue bounded by one capacity.
    pub open spec fn wf(&self) -> bool {
        &&& self.spec_worker_count() >= 1
        &&& self.spec_next_worker() < self.spec_worker_count()
        &&& self.spec_queue_capacity() >= 1
    }

    /// Each queue has the common capacity.
    pub closed spec fn caps_uniform(&self) -> bool {
        forall|i: int|
            0 <= i < self.workers@.len() ==> (#[trigger] self.workers@[i]).spec_capacity()
                == self.spec_queue_capacity()
    }

    /// A pool of `n_workers` empty queues, each accepting `capacity`
    /// requests, assigning the first submission to worker 0.
    pub fn new(n_workers: usize, capacity: usize) -> (p: WorkerPool)
        requires
            n_workers >= 1,
            capacity >= 1,
        ensures
            p.wf(),
            p.caps_uniform(),
            p.spec_worker_count() == n_workers,
            p.spec_queue_capacity() == capacity,
            p.spec_next_worker() == 0,
            forall|i: int| 0 <= i < n_workers ==> #[trigger] p.queues()[i] == Seq::<
                RouteRequest,
            >::empty(),
    {
        let mut workers: Vec<RequestQueue> = Vec::new();
        let mut k: usize = 0;
        while k < n_workers
            invariant
                0 <= k <= n_workers,
                workers@.len() == k as int,
                capacity >= 1,
                forall|i: int|
                    0 <= i < k ==> (#[trigger] workers@[i])@ == Seq::<RouteRequest>::empty()
                        && workers@[i].spec_capacity() == capacity,
            decreases n_workers - k,
        {
            workers.push(RequestQueue::new(capacity));
            k += 1;
        }
        WorkerPool { workers, next_worker: 0 }
    }

    /// The worker the next submission goes to; the counter advances by one
    /// modulo the worker count.
    pub fn next_worker(&mut self) -> (i: usize)
        requires
            old(self).wf(),
        ensures
            final(self).wf(),
            i == old(self).spec_next_worker(),
            i < old(self).spec_worker_count(),
            final(self).spec_next_worker() == (old(self).spec_next_worker() + 1) % old(
                self,
            ).spec_worker_count(),
            final(self).queues() == old(self).queues(),
            final(self).spec_worker_count() == old(self).spec_worker_count(),
            final(self).spec_queue_capacity() == old(self).spec_queue_capacity(),
            final(self).caps_uniform() == old(self).caps_uniform(),
    {
        let i = self.next_worker;
        let n = self.workers.len();
        self.next_worker = (i + 1) % n;
        i
    }

    /// How many workers the pool holds.
    pub fn worker_count(&self) -> (n: usize)
        ensures
            n == self.spec_worker_count(),
    {
        self.workers.len()
    }

    /// Submit one request: pick the next worker round-robin and try to
    /// enqueue it there. A full queue hands the request back with the
    /// picked worker, and the caller retries with `send_to` once the
    /// worker frees space.
    pub fn submit(&mut self, req: RouteRequest) -> (r: SubmitOutcome)
        requires
            old(self).wf(),
            old(self).caps_uniform(),
        ensures
            final(self).wf(),
            final(self).caps_uniform(),
            final(self).spec_worker_count() == old(self).spec_worker_count(),
            final(self).spec_queue_capacity() == old(self).spec_queue_capacity(),
            final(self).spec_next_worker() == (old(self).spec_next_worker() + 1) % old(
                self,
            ).spec_worker_count(),
            ({
                let w = old(self).spec_next_worker() as int;
                if old(self).queues()[w].len() < old(self).spec_queue_capacity() {
                    &&& r matches SubmitOutcome::Enqueued { worker } && worker == w
                    &&& final(self).queues() == old(self).queues().update(
                        w,
                        old(self).queues()[w].push(req),
                    )
                } else {
                    &&& r matches SubmitOutcome::MustWait { worker, request } && worker == w
                        && request == req
                    &&& final(self).queues() == old(self).queues()
                }
            }),
    {
        let w = self.next_worker();
        match self.send_to(w, req) {
            Ok(()) => SubmitOutcome::Enqueued { worker: w },
            Err(back) => SubmitOutcome::MustWait { worker: w, request: back },
        }
    }

    /// Enqueue a request with a given worker; a full queue hands it back.
    pub fn send_to(&mut self, worker: usize, req: RouteRequest) -> (r: Result<(), RouteRequest>)
        requires
            old(self).wf(),
            old(self).caps_uniform(),
            worker < old(self).spec_worker_count(),
        ensures
            final(self).wf(),
            final(self).caps_uniform(),
            final(self).spec_worker_count() == old(self).spec_worker_count(),
            final(self).spec_queue_capacity() == old(self).spec_queue_capacity(),
            final(self).spec_next_worker() == old(self).spec_next_worker(),
            old(self).queues()[worker as int].len() < old(self).spec_queue_capacity() ==> r is Ok
                && final(self).queues() == old(self).queues().update(
                worker as int,
                old(self).queues()[worker as int].push(req),
            ),
            old(self).queues()[worker as int].len() >= old(self).spec_queue_capacity() ==> r
                == Err::<(), RouteRequest>(req) && final(self).queues() == old(self).queues(),
    {
        let ghost before = self.queues();
        let queue = &mut self.workers[worker];
        let r = queue.send(req);
        proof {
            if before[worker as int].len() < old(self).spec_queue_capacity() {
                assert(self.queues() =~= before.update(
                    worker as int,
                    before[worker as int].push(req),
                ));
            } else {
                assert(self.queues() =~= before);
            }
        }
        r
    }

    /// Take the request that arrived first at a given worker, if any: the
    /// worker's serving loop calls this between requests.
    pub fn take_next(&mut self, worker: usize) -> (r: Option<RouteRequest>)
        requires
            old(self).wf(),
            old(self).caps_uniform(),
            worker < old(self).spec_worker_count(),
        ensures
            final(self).wf(),
            final(self).caps_uniform(),
            final(self).spec_worker_count() == old(self).spec_worker_count(),
            final(self).spec_queue_capacity() == old(self).spec_queue_capacity(),
            final(self).spec_next_worker() == old(self).spec_next_worker(),
            old(self).queues()[worker as int].len() == 0 ==> r is None && final(self).queues()
                == old(self).queues(),
            old(self).queues()[worker as int].len() > 0 ==> r == Some(
                old(self).queues()[worker as int][0],
            ) && final(self).queues() == old(self).queues().update(
                worker as int,
                old(self).queues()[worker as int].drop_first(),
            ),
    {
        let ghost before = self.queues();
        let queue = &mut self.workers[worker];
        let r = queue.take_next();
        proof {
            if before[worker as int].len() == 0 {
                assert(self.queues() =~= before);
            } else {
                assert(self.queues() =~= before.update(
                    worker as int,
                    before[worker as int].drop_first(),
                ));
            }
        }
        r
    }
}

} // verus!
