//! The dispatcher routes each batch to the worker owning its partition,
//! creating workers on demand, and winds every worker down on stop.
//!
//! One worker exists per partition of the current stream; each worker
//! owns one handler and sees its partition's batches in arrival order.
//! The ghost `delivered` history of a worker is the exact sequence of
//! batches its handler was invoked on.

use vstd::prelude::*;

use crate::committer::Committer;
use crate::committer::bufs_view;
use crate::committer::spec_flush_all;
use crate::committer::spec_flush_matured;
use crate::committer::spec_matured;
use crate::committer::spec_reset;
use crate::connector::CommitRequest;
use crate::connector::cursors_view;
use crate::handler::Handler;
use crate::handler::HandlerFactory;
use crate::model::AfterBatchAction;
use crate::model::Batch;
use crate::model::BatchInfo;
use crate::model::BatchView;
use crate::model::ClientError;
use crate::model::Lifecycle;
use crate::model::PartitionId;
use crate::model::bytes_copy;

verus! {

/// One partition's consumer: a handler invoked serially, in arrival
/// order, and the cursors it acknowledges forwarded to the committer.
pub struct Worker<H> {
    pub partition: PartitionId,
    pub handler: H,
    pub running: bool,
    pub delivered: Ghost<Seq<BatchView>>,
}

impl<H: Handler> Worker<H> {
    /// A fresh worker for one partition, with its own handler and an
    /// empty delivery history.
    pub fn start(handler: H, partition: PartitionId) -> (r: Worker<H>)
        ensures
            r.partition@ == partition@,
            r.running,
            r.delivered@ == Seq::<BatchView>::empty(),
    {
        Worker { partition, handler, running: true, delivered: Ghost(Seq::empty()) }
    }

    /// Handles one batch: the handler is invoked on the events, and the
    /// verdict decides commit and survival.  The batch joins the delivery
    /// history unconditionally: the handler saw it.  `Continue` and
    /// `Stop` forward the cursor to the committer; `Stop` and `Abort` end
    /// the worker.  A committer refusal ends the worker too and passes
    /// the error up.
    pub fn process(&mut self, batch: Batch, committer: &mut Committer) -> (r: Result<
        AfterBatchAction,
        ClientError,
    >)
        requires
            old(self).running,
            !batch@.line.is_keep_alive(),
            batch@.line.cursor.partition == old(self).partition@,
            old(committer).wf(),
        ensures
            final(self).partition@ == old(self).partition@,
            final(self).delivered@ == old(self).delivered@.push(batch@),
            final(committer).wf(),
            final(committer).same_identity(old(committer)),
            final(committer).stopped == old(committer).stopped,
            match r {
                Result::Ok(a) => {
                    &&& final(self).running == (a is Continue || a is ContinueNoCheckpoint)
                    &&& (a is ContinueNoCheckpoint || a is Abort) ==> *final(committer) == *old(
                        committer,
                    )
                    &&& (a is Continue || a is Stop) ==> final(committer).received@ == old(
                        committer,
                    ).received@.push(batch@.line.cursor)
                },
                Result::Err(_) => {
                    &&& !final(self).running
                    &&& *final(committer) == *old(committer)
                    &&& (old(committer).stopped || batch@.stream_id != old(committer).stream_id@)
                },
            },
    {
        proof {
            self.delivered@ = self.delivered@.push(batch@);
        }
        let info = BatchInfo {
            stream_id: batch.stream_id.duplicate(),
            cursor: batch.line.cursor.duplicate(),
        };
        let action: AfterBatchAction = match &batch.line.events {
            Option::Some(ev) => self.handler.handle(ev.as_slice(), info),
            Option::None => vstd::pervasive::unreached(),
        };
        match action {
            AfterBatchAction::Continue => {
                let num: u64 = batch.line.num_events as u64;
                match committer.receive(batch.line.cursor, &batch.stream_id, num, batch.received_at)
                {
                    Result::Ok(_) => Result::Ok(AfterBatchAction::Continue),
                    Result::Err(e) => {
                        self.running = false;
                        Result::Err(e)
                    },
                }
            },
            AfterBatchAction::ContinueNoCheckpoint => Result::Ok(
                AfterBatchAction::ContinueNoCheckpoint,
            ),
            AfterBatchAction::Stop => {
                self.running = false;
                let num: u64 = batch.line.num_events as u64;
                match committer.receive(batch.line.cursor, &batch.stream_id, num, batch.received_at)
                {
                    Result::Ok(_) => Result::Ok(AfterBatchAction::Stop),
                    Result::Err(e) => Result::Err(e),
                }
            },
            AfterBatchAction::Abort => {
                self.running = false;
                Result::Ok(AfterBatchAction::Abort)
            },
        }
    }
}

/// Index of the worker owning partition `p`.
pub open spec fn spec_find_worker<H>(s: Seq<Worker<H>>, p: Seq<u8>, i: int) -> Option<int>
    decreases s.len() - i
    when 0 <= i <= s.len()
{
    if i >= s.len() {
        Option::None
    } else if s[i].partition@ == p {
        Option::Some(i)
    } else {
        spec_find_worker(s, p, i + 1)
    }
}

proof fn lemma_find_worker_none<H>(s: Seq<Worker<H>>, p: Seq<u8>, i: int)
    requires
        0 <= i <= s.len(),
        spec_find_worker(s, p, i) is None,
    ensures
        forall|j: int| i <= j < s.len() ==> (#[trigger] s[j]).partition@ != p,
    decreases s.len() - i,
{
    if i < s.len() {
        lemma_find_worker_none(s, p, i + 1)
    }
}

proof fn lemma_find_worker_some<H>(s: Seq<Worker<H>>, p: Seq<u8>, i: int, k: int)
    requires
        0 <= i <= s.len(),
        spec_find_worker(s, p, i) == Option::Some(k),
    ensures
        i <= k < s.len(),
        s[k].partition@ == p,
    decreases s.len() - i,
{
    if i < s.len() && s[i].partition@ != p {
        lemma_find_worker_some(s, p, i + 1, k)
    }
}

/// Within a partition, the handler sees batches in arrival order.
/// Handling one more batch appends it to the owning worker's delivery
/// history — the history `Worker::process` and `Dispatcher::process`
/// promise to extend — and leaves every earlier entry at its place, so
/// for places a < b the batch at a was handled before the batch at b,
/// and a routing step touches no other worker's history.
pub proof fn lemma_delivery_is_in_arrival_order(
    pre: Seq<BatchView>,
    post: Seq<BatchView>,
    batch: BatchView,
)
    requires
        post == pre.push(batch),
    ensures
        post.len() == pre.len() + 1,
        forall|a: int| 0 <= a < pre.len() ==> post[a] == pre[a],
        post.last() == batch,
{
}

/// Exactly one worker exists per partition of the current stream: the
/// dispatcher's workers carry pairwise distinct partitions, so a batch
/// is never split between two workers of its partition.
pub proof fn lemma_one_worker_per_partition<F: HandlerFactory>(d: &Dispatcher<F>)
    requires
        d.wf(),
    ensures
        forall|i: int, j: int|
            0 <= i < j < d.workers@.len() ==> (#[trigger] d.workers@[i]).partition@ != (
            #[trigger] d.workers@[j]).partition@,
{
}

/// Takes batch lines and routes them to the workers of one stream.
pub struct Dispatcher<F: HandlerFactory> {
    pub factory: F,
    pub committer: Committer,
    pub workers: Vec<Worker<F::Handler>>,
    pub lifecycle: Lifecycle,
}

impl<F: HandlerFactory> Dispatcher<F> {
    /// The dispatcher's invariant: a well-formed committer, one worker
    /// per partition, and a committer that still accepts cursors while
    /// the dispatcher runs.
    pub open spec fn wf(&self) -> bool {
        &&& self.committer.wf()
        &&& forall|i: int, j: int|
            0 <= i < j < self.workers@.len() ==> (#[trigger] self.workers@[i]).partition@ != (
            #[trigger] self.workers@[j]).partition@
        &&& (self.lifecycle.phase is Running) ==> !self.committer.stopped
    }

    /// A dispatcher for one stream, bound to that stream's committer,
    /// with no workers yet.
    pub fn start(handler_factory: F, committer: Committer) -> (r: Dispatcher<F>)
        requires
            committer.wf(),
            !committer.stopped,
        ensures
            r.wf(),
            r.committer == committer,
            r.workers@.len() == 0,
            r.lifecycle.phase is Running,
    {
        Dispatcher {
            factory: handler_factory,
            committer,
            workers: Vec::new(),
            lifecycle: Lifecycle::new(),
        }
    }

    /// True until `stop` has wound the dispatcher down.
    pub fn is_running(&self) -> (r: bool)
        ensures
            r == !(self.lifecycle.phase is Stopped),
    {
        self.lifecycle.running()
    }

    /// Routes one batch to the worker owning its partition, creating
    /// that worker first if the partition is new.  Refused, with nothing
    /// changed: after stop; a keep-alive, which must never get this far;
    /// a batch of another stream; a partition id that is not valid
    /// UTF-8, which is fatal for the stream; and a batch for a worker
    /// that has already ended.
    pub fn process(&mut self, batch: Batch) -> (r: Result<(), ClientError>)
        requires
            old(self).wf(),
        ensures
            final(self).wf(),
            final(self).lifecycle == old(self).lifecycle,
            final(self).committer.same_identity(&old(self).committer),
            final(self).committer.received@ == old(self).committer.received@
                || final(self).committer.received@ == old(self).committer.received@.push(
                batch@.line.cursor,
            ),
            !(old(self).lifecycle.phase is Running) ==> (r is Err && final(self).workers@ == old(
                self,
            ).workers@ && final(self).committer == old(self).committer),
            (old(self).lifecycle.phase is Running && batch@.line.is_keep_alive()) ==> (r is Err
                && final(self).workers@ == old(self).workers@ && final(self).committer == old(
                self,
            ).committer),
            (old(self).lifecycle.phase is Running && !batch@.line.is_keep_alive()
                && batch@.stream_id != old(self).committer.stream_id@) ==> (r is Err
                && final(self).workers@ == old(self).workers@ && final(self).committer == old(
                self,
            ).committer),
            (old(self).lifecycle.phase is Running && !batch@.line.is_keep_alive()
                && batch@.stream_id == old(self).committer.stream_id@ && !crate::wire::spec_utf8(
                batch@.line.cursor.partition,
            )) ==> (r is Err && final(self).workers@ == old(self).workers@ && final(self).committer
                == old(self).committer),
            (old(self).lifecycle.phase is Running && !batch@.line.is_keep_alive()
                && batch@.stream_id == old(self).committer.stream_id@ && crate::wire::spec_utf8(
                batch@.line.cursor.partition,
            )) ==> (match spec_find_worker(
                old(self).workers@,
                batch@.line.cursor.partition,
                0,
            ) {
                Option::Some(k) => {
                    if old(self).workers@[k].running {
                        &&& r is Ok
                        &&& final(self).workers@.len() == old(self).workers@.len()
                        &&& final(self).workers@[k].partition@ == old(self).workers@[k].partition@
                        &&& final(self).workers@[k].delivered@ == old(
                            self,
                        ).workers@[k].delivered@.push(batch@)
                        &&& forall|j: int|
                            0 <= j < old(self).workers@.len() && j != k
                                ==> final(self).workers@[j] == old(self).workers@[j]
                    } else {
                        &&& r is Err
                        &&& final(self).workers@ == old(self).workers@
                        &&& final(self).committer == old(self).committer
                    }
                },
                Option::None => {
                    &&& r is Ok
                    &&& final(self).workers@.len() == old(self).workers@.len() + 1
                    &&& final(self).workers@.subrange(0, old(self).workers@.len() as int) == old(
                        self,
                    ).workers@
                    &&& final(self).workers@.last().partition@ == batch@.line.cursor.partition
                    &&& final(self).workers@.last().delivered@ == Seq::<BatchView>::empty().push(
                        batch@,
                    )
                },
            }),
    {
        if !matches!(self.lifecycle.phase, crate::model::LifecyclePhase::Running) {
            return Result::Err(ClientError::InvalidResponse(Vec::new()));
        }
        if batch.line.is_keep_alive() {
            return Result::Err(ClientError::InvalidResponse(Vec::new()));
        }
        if !crate::model::bytes_eq(batch.stream_id.as_bytes(), self.committer.stream_id.as_bytes())
        {
            return Result::Err(ClientError::InvalidResponse(Vec::new()));
        }
        if !crate::wire::is_utf8(batch.line.cursor.partition.as_slice()) {
            return Result::Err(ClientError::InvalidResponse(Vec::new()));
        }
        let partition = PartitionId::from_bytes(bytes_copy(&batch.line.cursor.partition));
        let found: Option<usize> = self.find_worker(&partition);
        match found {
            Option::Some(k) => {
                proof {
                    lemma_find_worker_some(
                        old(self).workers@,
                        batch@.line.cursor.partition,
                        0,
                        k as int,
                    );
                }
                if !self.workers[k].running {
                    return Result::Err(ClientError::InvalidResponse(Vec::new()));
                }
                let w = vstd::std_specs::vec::vec_index_mut(&mut self.workers, k);
                match w.process(batch, &mut self.committer) {
                    Result::Ok(_) => {
                        proof {
                            assert(self.wf());
                        }
                        Result::Ok(())
                    },
                    Result::Err(e) => {
                        proof {
                            assert(self.wf());
                        }
                        Result::Err(e)
                    },
                }
            },
            Option::None => {
                proof {
                    lemma_find_worker_none(old(self).workers@, batch@.line.cursor.partition, 0);
                }
                let handler = self.factory.create_handler(&partition);
                let mut w: Worker<F::Handler> = Worker::start(handler, partition);
                let rr = w.process(batch, &mut self.committer);
                self.workers.push(w);
                proof {
                    assert(self.workers@.subrange(0, old(self).workers@.len() as int) =~= old(
                        self,
                    ).workers@);
                }
                match rr {
                    Result::Ok(_) => {
                        proof {
                            assert(self.wf());
                        }
                        Result::Ok(())
                    },
                    Result::Err(e) => Result::Err(e),
                }
            },
        }
    }

    fn find_worker(&self, p: &PartitionId) -> (r: Option<usize>)
        ensures
            match r {
                Option::Some(k) => spec_find_worker(self.workers@, p@, 0) == Option::Some(k as int)
                    && k < self.workers@.len(),
                Option::None => spec_find_worker(self.workers@, p@, 0) is None,
            },
    {
        let mut i: usize = 0;
        while i < self.workers.len()
            invariant
                i <= self.workers.len(),
                spec_find_worker(self.workers@, p@, 0) == spec_find_worker(
                    self.workers@,
                    p@,
                    i as int,
                ),
            decreases self.workers@.len() - i,
        {
            if self.workers[i].partition.matches(p) {
                return Option::Some(i);
            }
            i = i + 1;
        }
        Option::None
    }

    /// Hands the built commit requests to the transport.
    pub fn take_commit_requests(&mut self) -> (r: Vec<CommitRequest>)
        requires
            old(self).wf(),
        ensures
            final(self).wf(),
            r@ == old(self).committer.outbox@,
            final(self).committer.outbox@.len() == 0,
            final(self).committer.same_identity(&old(self).committer),
            final(self).committer.stopped == old(self).committer.stopped,
            final(self).committer.buffers@ == old(self).committer.buffers@,
            final(self).committer.received@ == old(self).committer.received@,
            final(self).workers@ == old(self).workers@,
            final(self).lifecycle == old(self).lifecycle,
    {
        self.committer.take_requests()
    }

    /// Flushes the partitions that have matured by age, exactly as the
    /// committer's periodic flush does: their latest cursors go into one
    /// queued request, in buffer order, and those partitions are left
    /// with nothing pending.
    pub fn tick(&mut self, now: u64)
        requires
            old(self).wf(),
        ensures
            final(self).wf(),
            final(self).workers@ == old(self).workers@,
            final(self).lifecycle == old(self).lifecycle,
            final(self).committer.same_identity(&old(self).committer),
            final(self).committer.stopped == old(self).committer.stopped,
            final(self).committer.received@ == old(self).committer.received@,
            final(self).committer.buffers@.len() == old(self).committer.buffers@.len(),
            forall|i: int|
                0 <= i < old(self).committer.buffers@.len()
                    ==> (#[trigger] final(self).committer.buffers@[i])@ == (if spec_matured(
                    old(self).committer.buffers@[i]@,
                    old(self).committer.strategy,
                    now,
                ) {
                    spec_reset(old(self).committer.buffers@[i]@)
                } else {
                    old(self).committer.buffers@[i]@
                }),
            ({
                let fl = spec_flush_matured(
                    bufs_view(old(self).committer.buffers@),
                    old(self).committer.strategy,
                    now,
                );
                if fl.len() == 0 {
                    final(self).committer.outbox@ == old(self).committer.outbox@
                } else {
                    &&& final(self).committer.outbox@.len() == old(self).committer.outbox@.len()
                        + 1
                    &&& final(self).committer.outbox@.subrange(
                        0,
                        old(self).committer.outbox@.len() as int,
                    ) == old(self).committer.outbox@
                    &&& cursors_view(final(self).committer.outbox@.last().cursors@) == fl
                    &&& final(self).committer.outbox@.last().stream_id@ == old(
                        self,
                    ).committer.stream_id@
                }
            }),
    {
        self.committer.tick(now);
    }

    /// Winds the stream down in order: every worker is stopped, then the
    /// committer takes its final flush — the latest cursor of every
    /// pending partition, matured or not, into one last queued request —
    /// then the lifecycle confirms the stop.  After it returns, no
    /// worker spawned by this dispatcher is running.
    pub fn stop(&mut self)
        requires
            old(self).wf(),
        ensures
            final(self).wf(),
            final(self).lifecycle.phase is Stopped,
            final(self).committer.stopped,
            final(self).committer.same_identity(&old(self).committer),
            final(self).workers@.len() == old(self).workers@.len(),
            forall|i: int|
                0 <= i < old(self).workers@.len() ==> {
                    &&& !(#[trigger] final(self).workers@[i]).running
                    &&& final(self).workers@[i].partition@ == old(self).workers@[i].partition@
                    &&& final(self).workers@[i].delivered@ == old(self).workers@[i].delivered@
                },
            final(self).committer.buffers@.len() == old(self).committer.buffers@.len(),
            forall|i: int|
                0 <= i < old(self).committer.buffers@.len()
                    ==> (#[trigger] final(self).committer.buffers@[i])@ == spec_reset(
                    old(self).committer.buffers@[i]@,
                ),
            ({
                let fl = spec_flush_all(bufs_view(old(self).committer.buffers@));
                if fl.len() == 0 {
                    final(self).committer.outbox@ == old(self).committer.outbox@
                } else {
                    &&& final(self).committer.outbox@.len() == old(self).committer.outbox@.len()
                        + 1
                    &&& final(self).committer.outbox@.subrange(
                        0,
                        old(self).committer.outbox@.len() as int,
                    ) == old(self).committer.outbox@
                    &&& cursors_view(final(self).committer.outbox@.last().cursors@) == fl
                    &&& final(self).committer.outbox@.last().stream_id@ == old(
                        self,
                    ).committer.stream_id@
                }
            }),
    {
        let mut i: usize = 0;
        while i < self.workers.len()
            invariant
                i <= self.workers.len(),
                self.committer == old(self).committer,
                self.lifecycle == old(self).lifecycle,
                old(self).wf(),
                self.workers@.len() == old(self).workers@.len(),
                forall|j: int|
                    i <= j < old(self).workers@.len() ==> #[trigger] self.workers@[j] == old(
                        self,
                    ).workers@[j],
                forall|j: int|
                    0 <= j < i ==> {
                        &&& !(#[trigger] self.workers@[j]).running
                        &&& self.workers@[j].partition@ == old(self).workers@[j].partition@
                        &&& self.workers@[j].delivered@ == old(self).workers@[j].delivered@
                    },
            decreases self.workers@.len() - i,
        {
            let w = vstd::std_specs::vec::vec_index_mut(&mut self.workers, i);
            w.running = false;
            i = i + 1;
        }
        self.committer.stop();
        self.lifecycle.stopped();
        proof {
            assert forall|i: int, j: int|
                0 <= i < j < self.workers@.len() implies (#[trigger] self.workers@[i]).partition@
                != (#[trigger] self.workers@[j]).partition@ by {
                assert(self.workers@[i].partition@ == old(self).workers@[i].partition@);
                assert(self.workers@[j].partition@ == old(self).workers@[j].partition@);
            }
        }
    }
}

} // verus!
