//! The committer: buffers cursors per partition for one stream, flushes
//! them by strategy, and builds the commit requests that the transport
//! sends.  Every request it produces carries the stream id the committer
//! was created with: the broker's stream-affinity rule, made structural.

use vstd::prelude::*;

use crate::connector::CommitRequest;
use crate::connector::build_commit_request;
use crate::model::ClientError;
use crate::model::Cursor;
use crate::model::CursorView;
use crate::model::StreamId;
use crate::model::SubscriptionId;
use crate::model::bytes_copy;

verus! {

/// When cursors are committed.
#[derive(Clone, Copy, Debug, PartialEq, Eq, Structural)]
pub enum CommitStrategy {
    /// Commit every cursor on arrival.
    Immediate,
    /// Commit a partition once this many batches accumulated for it.
    AfterBatches(u32),
    /// Commit a partition once its oldest pending cursor is this many
    /// seconds old.
    AfterSeconds(u32),
    /// Whichever fires first: this many uncommitted events, or the
    /// oldest pending cursor this many seconds old.
    AfterEventsOrSeconds(u32, u32),
}

/// Mathematical image of a partition's commit state.
pub struct PartitionBufferView {
    pub partition: Seq<u8>,
    pub latest: CursorView,
    pub batches: u64,
    pub events: u64,
    pub first_at: u64,
}

/// Commit state of one partition: the latest cursor seen, how many
/// batches and events are pending behind it, and when the oldest of them
/// arrived.  `batches == 0` means nothing is pending; `latest` then
/// remembers the last committed cursor.
pub struct PartitionBuffer {
    pub partition: Vec<u8>,
    pub latest: Cursor,
    pub batches: u64,
    pub events: u64,
    pub first_at: u64,
}

impl View for PartitionBuffer {
    type V = PartitionBufferView;

    open spec fn view(&self) -> PartitionBufferView {
        PartitionBufferView {
            partition: self.partition@,
            latest: self.latest@,
            batches: self.batches,
            events: self.events,
            first_at: self.first_at,
        }
    }
}

/// Saturating addition.
pub open spec fn spec_sat_add(a: u64, b: u64) -> u64 {
    if a + b > u64::MAX {
        u64::MAX
    } else {
        (a + b) as u64
    }
}

fn sat_add64(a: u64, b: u64) -> (r: u64)
    ensures
        r == spec_sat_add(a, b),
{
    if a > u64::MAX - b {
        u64::MAX
    } else {
        a + b
    }
}

/// Whether a partition fires on arrival of a cursor, from its pending
/// counts after that arrival.  Time-based maturity is the periodic
/// flush's business, not arrival's.
pub open spec fn fire_on_receive(strategy: CommitStrategy, batches: u64, events: u64) -> bool {
    match strategy {
        CommitStrategy::Immediate => true,
        CommitStrategy::AfterBatches(n) => batches >= n,
        CommitStrategy::AfterSeconds(_) => false,
        CommitStrategy::AfterEventsOrSeconds(e, _) => events >= e,
    }
}

/// Whether a pending partition has matured by age.
pub open spec fn spec_time_matured(strategy: CommitStrategy, first_at: u64, now: u64) -> bool {
    match strategy {
        CommitStrategy::AfterSeconds(s) => now >= first_at + s * 1000,
        CommitStrategy::AfterEventsOrSeconds(_, s) => now >= first_at + s * 1000,
        CommitStrategy::Immediate => false,
        CommitStrategy::AfterBatches(_) => false,
    }
}

fn time_matured(strategy: &CommitStrategy, first_at: u64, now: u64) -> (r: bool)
    ensures
        r == spec_time_matured(*strategy, first_at, now),
{
    match strategy {
        CommitStrategy::AfterSeconds(s) => {
            now >= first_at && now - first_at >= (*s as u64) * 1000
        },
        CommitStrategy::AfterEventsOrSeconds(_, s) => {
            now >= first_at && now - first_at >= (*s as u64) * 1000
        },
        CommitStrategy::Immediate => false,
        CommitStrategy::AfterBatches(_) => false,
    }
}

/// A pending partition that the periodic flush takes.
pub open spec fn spec_matured(b: PartitionBufferView, strategy: CommitStrategy, now: u64) -> bool {
    b.batches >= 1 && spec_time_matured(strategy, b.first_at, now)
}

/// A pending partition after its cursors were flushed.
pub open spec fn spec_reset(b: PartitionBufferView) -> PartitionBufferView {
    PartitionBufferView {
        partition: b.partition,
        latest: b.latest,
        batches: 0,
        events: 0,
        first_at: b.first_at,
    }
}

/// The views of a sequence of buffers.
pub open spec fn bufs_view(s: Seq<PartitionBuffer>) -> Seq<PartitionBufferView> {
    s.map_values(|b: PartitionBuffer| b@)
}

/// Index of the buffer of partition `p`.
pub open spec fn spec_find_buf(s: Seq<PartitionBufferView>, p: Seq<u8>, i: int) -> Option<int>
    decreases s.len() - i
    when 0 <= i <= s.len()
{
    if i >= s.len() {
        Option::None
    } else if s[i].partition == p {
        Option::Some(i)
    } else {
        spec_find_buf(s, p, i + 1)
    }
}

proof fn lemma_find_buf_none(s: Seq<PartitionBufferView>, p: Seq<u8>, i: int)
    requires
        0 <= i <= s.len(),
        spec_find_buf(s, p, i) is None,
    ensures
        forall|j: int| i <= j < s.len() ==> (#[trigger] s[j]).partition != p,
    decreases s.len() - i,
{
    if i < s.len() {
        lemma_find_buf_none(s, p, i + 1)
    }
}

proof fn lemma_find_buf_some(s: Seq<PartitionBufferView>, p: Seq<u8>, i: int, k: int)
    requires
        0 <= i <= s.len(),
        spec_find_buf(s, p, i) == Option::Some(k),
    ensures
        i <= k < s.len(),
        s[k].partition == p,
    decreases s.len() - i,
{
    if i < s.len() && s[i].partition != p {
        lemma_find_buf_some(s, p, i + 1, k)
    }
}

proof fn lemma_contains_after_push<T>(s: Seq<T>, x: T, y: T)
    requires
        s.contains(y),
    ensures
        s.push(x).contains(y),
{
    let i = choose|i: int| 0 <= i < s.len() && s[i] == y;
    assert(s.push(x)[i] == y);
}

fn find_buffer(bufs: &Vec<PartitionBuffer>, p: &Vec<u8>) -> (r: Option<usize>)
    ensures
        match r {
            Option::Some(k) => spec_find_buf(bufs_view(bufs@), p@, 0) == Option::Some(k as int) && k
                < bufs@.len() && bufs@[k as int]@.partition == p@,
            Option::None => spec_find_buf(bufs_view(bufs@), p@, 0) is None,
        },
{
    let mut i: usize = 0;
    while i < bufs.len()
        invariant
            i <= bufs.len(),
            spec_find_buf(bufs_view(bufs@), p@, 0) == spec_find_buf(bufs_view(bufs@), p@, i as int),
        decreases bufs@.len() - i,
    {
        if crate::model::bytes_eq(&bufs[i].partition, p) {
            return Option::Some(i);
        }
        i = i + 1;
    }
    Option::None
}

/// The latest cursors of the pending partitions that have matured, in
/// buffer order.
pub open spec fn spec_flush_matured(
    s: Seq<PartitionBufferView>,
    strategy: CommitStrategy,
    now: u64,
) -> Seq<CursorView>
    decreases s.len(),
{
    if s.len() == 0 {
        Seq::empty()
    } else {
        spec_flush_matured(s.drop_last(), strategy, now) + (if spec_matured(
            s.last(),
            strategy,
            now,
        ) {
            seq![s.last().latest]
        } else {
            Seq::empty()
        })
    }
}

/// The latest cursors of every pending partition, in buffer order.
pub open spec fn spec_flush_all(s: Seq<PartitionBufferView>) -> Seq<CursorView>
    decreases s.len(),
{
    if s.len() == 0 {
        Seq::empty()
    } else {
        spec_flush_all(s.drop_last()) + (if s.last().batches >= 1 {
            seq![s.last().latest]
        } else {
            Seq::empty()
        })
    }
}

/// Buffers cursors for one stream and turns them into commit requests.
/// Stream-scoped: it is created on connect, only accepts cursors
/// delivered under its own stream id, and is stopped before the next
/// stream opens.
pub struct Committer {
    pub stream_id: StreamId,
    pub subscription: SubscriptionId,
    pub host: Vec<u8>,
    pub strategy: CommitStrategy,
    pub buffers: Vec<PartitionBuffer>,
    pub outbox: Vec<CommitRequest>,
    pub stopped: bool,
    pub received: Ghost<Seq<CursorView>>,
}

impl Committer {
    /// The committer's invariant: one buffer per partition, each buffer's
    /// cursor on that buffer's partition, and every outbound request
    /// carrying this committer's stream id with cursors it received.
    pub open spec fn wf(&self) -> bool {
        &&& forall|i: int|
            0 <= i < self.buffers@.len() ==> (#[trigger] self.buffers@[i])@.latest.partition
                == self.buffers@[i]@.partition
        &&& forall|i: int, j: int|
            0 <= i < j < self.buffers@.len() ==> self.buffers@[i]@.partition
                != self.buffers@[j]@.partition
        &&& forall|i: int|
            0 <= i < self.outbox@.len() ==> (#[trigger] self.outbox@[i]).stream_id@
                == self.stream_id@ && self.outbox@[i].wf(self.host@, self.subscription@)
        &&& forall|i: int, k: int|
            0 <= i < self.outbox@.len() && 0 <= k < self.outbox@[i].cursors@.len()
                ==> self.received@.contains(#[trigger] self.outbox@[i].cursors@[k]@)
        &&& forall|i: int|
            0 <= i < self.buffers@.len() ==> self.received@.contains(
                (#[trigger] self.buffers@[i])@.latest,
            )
    }

    /// The fields that never change over the committer's life.
    pub open spec fn same_identity(&self, other: &Committer) -> bool {
        &&& self.stream_id@ == other.stream_id@
        &&& self.subscription@ == other.subscription@
        &&& self.host@ == other.host@
        &&& self.strategy == other.strategy
    }

    /// A fresh committer for one stream.
    pub fn new(
        stream_id: StreamId,
        subscription: SubscriptionId,
        host: Vec<u8>,
        strategy: CommitStrategy,
    ) -> (r: Committer)
        ensures
            r.wf(),
            r.stream_id@ == stream_id@,
            r.subscription@ == subscription@,
            r.host@ == host@,
            r.strategy == strategy,
            r.buffers@.len() == 0,
            r.outbox@.len() == 0,
            !r.stopped,
            r.received@ == Seq::<CursorView>::empty(),
    {
        Committer {
            stream_id,
            subscription,
            host,
            strategy,
            buffers: Vec::new(),
            outbox: Vec::new(),
            stopped: false,
            received: Ghost(Seq::empty()),
        }
    }

    /// Takes the built requests out for the transport to send.
    pub fn take_requests(&mut self) -> (r: Vec<CommitRequest>)
        requires
            old(self).wf(),
        ensures
            final(self).wf(),
            final(self).same_identity(old(self)),
            r@ == old(self).outbox@,
            final(self).outbox@.len() == 0,
            final(self).buffers@ == old(self).buffers@,
            final(self).stopped == old(self).stopped,
            final(self).received@ == old(self).received@,
    {
        let mut out: Vec<CommitRequest> = Vec::new();
        core::mem::swap(&mut out, &mut self.outbox);
        out
    }

    /// Accepts one cursor delivered under `stream_id` with `num_events`
    /// events, received at `now` milliseconds.  A cursor from another
    /// stream, or any cursor after `stop`, is refused and changes
    /// nothing: committing it here would break the broker's
    /// stream-affinity rule.  Otherwise the partition's pending state is
    /// advanced, and when the strategy fires on arrival the partition is
    /// flushed into one request holding exactly this cursor.
    pub fn receive(&mut self, cursor: Cursor, stream_id: &StreamId, num_events: u64, now: u64)
        -> (r: Result<(), ClientError>)
        requires
            old(self).wf(),
        ensures
            final(self).wf(),
            final(self).same_identity(old(self)),
            final(self).stopped == old(self).stopped,
            (old(self).stopped || stream_id@ != old(self).stream_id@) ==> (r is Err && *final(self)
                == *old(self)),
            !(old(self).stopped || stream_id@ != old(self).stream_id@) ==> {
                &&& r is Ok
                &&& final(self).received@ == old(self).received@.push(cursor@)
                &&& match spec_find_buf(bufs_view(old(self).buffers@), cursor@.partition, 0) {
                    Option::Some(k) => {
                        let nb = if old(self).buffers@[k]@.batches == 0 {
                            1u64
                        } else {
                            spec_sat_add(old(self).buffers@[k]@.batches, 1)
                        };
                        let ne = if old(self).buffers@[k]@.batches == 0 {
                            num_events
                        } else {
                            spec_sat_add(old(self).buffers@[k]@.events, num_events)
                        };
                        let nf = if old(self).buffers@[k]@.batches == 0 {
                            now
                        } else {
                            old(self).buffers@[k]@.first_at
                        };
                        &&& final(self).buffers@.len() == old(self).buffers@.len()
                        &&& forall|j: int|
                            0 <= j < old(self).buffers@.len() && j != k ==> final(self).buffers@[j]
                                == old(self).buffers@[j]
                        &&& final(self).buffers@[k]@.partition == cursor@.partition
                        &&& final(self).buffers@[k]@.latest == cursor@
                        &&& if fire_on_receive(old(self).strategy, nb, ne) {
                            &&& final(self).buffers@[k]@.batches == 0
                            &&& final(self).buffers@[k]@.events == 0
                            &&& final(self).buffers@[k]@.first_at == nf
                            &&& final(self).outbox@.len() == old(self).outbox@.len() + 1
                            &&& final(self).outbox@.subrange(0, old(self).outbox@.len() as int)
                                == old(self).outbox@
                            &&& final(self).outbox@.last().cursors@.len() == 1
                            &&& final(self).outbox@.last().cursors@[0]@ == cursor@
                        } else {
                            &&& final(self).buffers@[k]@.batches == nb
                            &&& final(self).buffers@[k]@.events == ne
                            &&& final(self).buffers@[k]@.first_at == nf
                            &&& final(self).outbox@ == old(self).outbox@
                        }
                    },
                    Option::None => {
                        &&& final(self).buffers@.len() == old(self).buffers@.len() + 1
                        &&& final(self).buffers@.subrange(0, old(self).buffers@.len() as int)
                            == old(self).buffers@
                        &&& final(self).buffers@.last()@.partition == cursor@.partition
                        &&& final(self).buffers@.last()@.latest == cursor@
                        &&& if fire_on_receive(old(self).strategy, 1, num_events) {
                            &&& final(self).buffers@.last()@.batches == 0
                            &&& final(self).buffers@.last()@.events == 0
                            &&& final(self).buffers@.last()@.first_at == now
                            &&& final(self).outbox@.len() == old(self).outbox@.len() + 1
                            &&& final(self).outbox@.subrange(0, old(self).outbox@.len() as int)
                                == old(self).outbox@
                            &&& final(self).outbox@.last().cursors@.len() == 1
                            &&& final(self).outbox@.last().cursors@[0]@ == cursor@
                        } else {
                            &&& final(self).buffers@.last()@.batches == 1
                            &&& final(self).buffers@.last()@.events == num_events
                            &&& final(self).buffers@.last()@.first_at == now
                            &&& final(self).outbox@ == old(self).outbox@
                        }
                    },
                }
            },
    {
        if self.stopped {
            return Result::Err(ClientError::InvalidResponse(bytes_copy(&cursor.partition)));
        }
        if !stream_id.matches(&self.stream_id) {
            return Result::Err(ClientError::InvalidResponse(bytes_copy(&cursor.partition)));
        }
        proof {
            self.received@ = self.received@.push(cursor@);
            assert forall|x: CursorView| old(self).received@.contains(x) implies self
                .received@.contains(x) by {
                lemma_contains_after_push(old(self).received@, cursor@, x);
            }
            assert(self.received@[self.received@.len() - 1] == cursor@);
            assert(self.received@.contains(cursor@));
        }
        let found: Option<usize> = find_buffer(&self.buffers, &cursor.partition);
        match found {
            Option::Some(k) => {
                proof {
                    lemma_find_buf_some(bufs_view(self.buffers@), cursor@.partition, 0, k as int);
                }
                let idle: bool = self.buffers[k].batches == 0;
                let nb: u64 = if idle {
                    1
                } else {
                    sat_add64(self.buffers[k].batches, 1)
                };
                let ne: u64 = if idle {
                    num_events
                } else {
                    sat_add64(self.buffers[k].events, num_events)
                };
                let nf: u64 = if idle {
                    now
                } else {
                    self.buffers[k].first_at
                };
                let fire: bool = self.fires(nb, ne);
                if fire {
                    let latest: Cursor = cursor.duplicate();
                    let nbuf = PartitionBuffer {
                        partition: bytes_copy(&cursor.partition),
                        latest,
                        batches: 0,
                        events: 0,
                        first_at: nf,
                    };
                    self.buffers[k] = nbuf;
                    proof {
                        assert(self.wf());
                    }
                    self.push_single(cursor);
                } else {
                    let nbuf = PartitionBuffer {
                        partition: bytes_copy(&cursor.partition),
                        latest: cursor,
                        batches: nb,
                        events: ne,
                        first_at: nf,
                    };
                    self.buffers[k] = nbuf;
                    proof {
                        assert(self.wf());
                    }
                }
            },
            Option::None => {
                proof {
                    lemma_find_buf_none(bufs_view(self.buffers@), cursor@.partition, 0);
                    assert forall|j: int| 0 <= j < self.buffers@.len() implies (#[trigger] self
                        .buffers@[j])@.partition != cursor@.partition by {
                        assert(bufs_view(self.buffers@)[j] == self.buffers@[j]@);
                    }
                }
                let fire: bool = self.fires(1, num_events);
                if fire {
                    let nbuf = PartitionBuffer {
                        partition: bytes_copy(&cursor.partition),
                        latest: cursor.duplicate(),
                        batches: 0,
                        events: 0,
                        first_at: now,
                    };
                    self.buffers.push(nbuf);
                    proof {
                        assert(self.wf());
                    }
                    self.push_single(cursor);
                } else {
                    let nbuf = PartitionBuffer {
                        partition: bytes_copy(&cursor.partition),
                        latest: cursor,
                        batches: 1,
                        events: num_events,
                        first_at: now,
                    };
                    self.buffers.push(nbuf);
                    proof {
                        assert(self.wf());
                    }
                }
            },
        }
        Result::Ok(())
    }

    /// Whether the strategy fires on arrival with these pending counts.
    fn fires(&self, batches: u64, events: u64) -> (r: bool)
        ensures
            r == fire_on_receive(self.strategy, batches, events),
    {
        match &self.strategy {
            CommitStrategy::Immediate => true,
            CommitStrategy::AfterBatches(n) => batches >= *n as u64,
            CommitStrategy::AfterSeconds(_) => false,
            CommitStrategy::AfterEventsOrSeconds(e, _) => events >= *e as u64,
        }
    }

    /// Builds the request for one just-arrived cursor and queues it.
    fn push_single(&mut self, cursor: Cursor)
        requires
            old(self).wf(),
            old(self).received@.contains(cursor@),
        ensures
            final(self).wf(),
            final(self).same_identity(old(self)),
            final(self).stopped == old(self).stopped,
            final(self).buffers@ == old(self).buffers@,
            final(self).received@ == old(self).received@,
            final(self).outbox@.len() == old(self).outbox@.len() + 1,
            final(self).outbox@.subrange(0, old(self).outbox@.len() as int) == old(self).outbox@,
            final(self).outbox@.last().cursors@.len() == 1,
            final(self).outbox@.last().cursors@[0]@ == cursor@,
            final(self).outbox@.last().stream_id@ == old(self).stream_id@,
    {
        let mut cursors: Vec<Cursor> = Vec::new();
        cursors.push(cursor);
        let req = build_commit_request(&self.host, &self.stream_id, &self.subscription, cursors);
        self.outbox.push(req);
        proof {
            assert(self.outbox@.subrange(0, old(self).outbox@.len() as int) =~= old(self).outbox@);
        }
    }

    /// The periodic flush: takes the latest cursor of every pending
    /// partition that has matured by age, in buffer order, into one
    /// request, and leaves those partitions with nothing pending.  Runs
    /// on a stopped committer too, where it finds nothing to do.
    pub fn tick(&mut self, now: u64)
        requires
            old(self).wf(),
        ensures
            final(self).wf(),
            final(self).same_identity(old(self)),
            final(self).stopped == old(self).stopped,
            final(self).received@ == old(self).received@,
            final(self).buffers@.len() == old(self).buffers@.len(),
            forall|i: int|
                0 <= i < old(self).buffers@.len() ==> (#[trigger] final(self).buffers@[i])@ == (
                if spec_matured(old(self).buffers@[i]@, old(self).strategy, now) {
                    spec_reset(old(self).buffers@[i]@)
                } else {
                    old(self).buffers@[i]@
                }),
            ({
                let fl = spec_flush_matured(bufs_view(old(self).buffers@), old(self).strategy, now);
                if fl.len() == 0 {
                    final(self).outbox@ == old(self).outbox@
                } else {
                    &&& final(self).outbox@.len() == old(self).outbox@.len() + 1
                    &&& final(self).outbox@.subrange(0, old(self).outbox@.len() as int) == old(
                        self,
                    ).outbox@
                    &&& crate::connector::cursors_view(final(self).outbox@.last().cursors@) == fl
                    &&& final(self).outbox@.last().stream_id@ == old(self).stream_id@
                }
            }),
    {
        let strategy: CommitStrategy = self.strategy;
        let mut flushed: Vec<Cursor> = Vec::new();
        let mut i: usize = 0;
        while i < self.buffers.len()
            invariant
                old(self).wf(),
                i <= self.buffers.len(),
                self.stream_id@ == old(self).stream_id@,
                self.subscription@ == old(self).subscription@,
                self.host@ == old(self).host@,
                self.strategy == old(self).strategy,
                strategy == old(self).strategy,
                self.stopped == old(self).stopped,
                self.received@ == old(self).received@,
                self.outbox@ == old(self).outbox@,
                self.buffers@.len() == old(self).buffers@.len(),
                forall|j: int|
                    i <= j < old(self).buffers@.len() ==> #[trigger] self.buffers@[j] == old(
                        self,
                    ).buffers@[j],
                forall|j: int|
                    0 <= j < i ==> (#[trigger] self.buffers@[j])@ == (if spec_matured(
                        old(self).buffers@[j]@,
                        old(self).strategy,
                        now,
                    ) {
                        spec_reset(old(self).buffers@[j]@)
                    } else {
                        old(self).buffers@[j]@
                    }),
                crate::connector::cursors_view(flushed@) == spec_flush_matured(
                    bufs_view(old(self).buffers@.subrange(0, i as int)),
                    old(self).strategy,
                    now,
                ),
                forall|j: int|
                    0 <= j < flushed@.len() ==> old(self).received@.contains(
                        (#[trigger] flushed@[j])@,
                    ),
            decreases self.buffers@.len() - i,
        {
            let ghost pre = bufs_view(old(self).buffers@.subrange(0, i as int));
            let ghost post = bufs_view(old(self).buffers@.subrange(0, i + 1 as int));
            proof {
                assert(post.drop_last() =~= pre);
                assert(post.last() == old(self).buffers@[i as int]@);
            }
            let pending: bool = self.buffers[i].batches >= 1;
            let mat: bool = time_matured(&strategy, self.buffers[i].first_at, now);
            if pending && mat {
                flushed.push(self.buffers[i].latest.duplicate());
                let nbuf = PartitionBuffer {
                    partition: bytes_copy(&self.buffers[i].partition),
                    latest: self.buffers[i].latest.duplicate(),
                    batches: 0,
                    events: 0,
                    first_at: self.buffers[i].first_at,
                };
                self.buffers[i] = nbuf;
                proof {
                    assert(crate::connector::cursors_view(flushed@) =~= spec_flush_matured(
                        post,
                        old(self).strategy,
                        now,
                    ));
                }
            } else {
                proof {
                    assert(crate::connector::cursors_view(flushed@) =~= spec_flush_matured(
                        post,
                        old(self).strategy,
                        now,
                    ));
                }
            }
            i = i + 1;
        }
        proof {
            assert(old(self).buffers@.subrange(0, old(self).buffers@.len() as int) =~= old(
                self,
            ).buffers@);
        }
        if flushed.len() > 0 {
            let req = build_commit_request(
                &self.host,
                &self.stream_id,
                &self.subscription,
                flushed,
            );
            self.outbox.push(req);
            proof {
                assert(self.outbox@.subrange(0, old(self).outbox@.len() as int) =~= old(
                    self,
                ).outbox@);
            }
        }
    }

    /// The final synchronous flush: takes the latest cursor of every
    /// pending partition, matured or not, into one request, and refuses
    /// cursors from then on.
    pub fn stop(&mut self)
        requires
            old(self).wf(),
        ensures
            final(self).wf(),
            final(self).same_identity(old(self)),
            final(self).stopped,
            final(self).received@ == old(self).received@,
            final(self).buffers@.len() == old(self).buffers@.len(),
            forall|i: int|
                0 <= i < old(self).buffers@.len() ==> (#[trigger] final(self).buffers@[i])@
                    == spec_reset(old(self).buffers@[i]@),
            ({
                let fl = spec_flush_all(bufs_view(old(self).buffers@));
                if fl.len() == 0 {
                    final(self).outbox@ == old(self).outbox@
                } else {
                    &&& final(self).outbox@.len() == old(self).outbox@.len() + 1
                    &&& final(self).outbox@.subrange(0, old(self).outbox@.len() as int) == old(
                        self,
                    ).outbox@
                    &&& crate::connector::cursors_view(final(self).outbox@.last().cursors@) == fl
                    &&& final(self).outbox@.last().stream_id@ == old(self).stream_id@
                }
            }),
    {
        let mut flushed: Vec<Cursor> = Vec::new();
        let mut i: usize = 0;
        while i < self.buffers.len()
            invariant
                old(self).wf(),
                i <= self.buffers.len(),
                self.stream_id@ == old(self).stream_id@,
                self.subscription@ == old(self).subscription@,
                self.host@ == old(self).host@,
                self.strategy == old(self).strategy,
                self.stopped == old(self).stopped,
                self.received@ == old(self).received@,
                self.outbox@ == old(self).outbox@,
                self.buffers@.len() == old(self).buffers@.len(),
                forall|j: int|
                    i <= j < old(self).buffers@.len() ==> #[trigger] self.buffers@[j] == old(
                        self,
                    ).buffers@[j],
                forall|j: int|
                    0 <= j < i ==> (#[trigger] self.buffers@[j])@ == spec_reset(
                        old(self).buffers@[j]@,
                    ),
                crate::connector::cursors_view(flushed@) == spec_flush_all(
                    bufs_view(old(self).buffers@.subrange(0, i as int)),
                ),
                forall|j: int|
                    0 <= j < flushed@.len() ==> old(self).received@.contains(
                        (#[trigger] flushed@[j])@,
                    ),
            decreases self.buffers@.len() - i,
        {
            let ghost pre = bufs_view(old(self).buffers@.subrange(0, i as int));
            let ghost post = bufs_view(old(self).buffers@.subrange(0, i + 1 as int));
            proof {
                assert(post.drop_last() =~= pre);
                assert(post.last() == old(self).buffers@[i as int]@);
            }
            if self.buffers[i].batches >= 1 {
                flushed.push(self.buffers[i].latest.duplicate());
            }
            let nbuf = PartitionBuffer {
                partition: bytes_copy(&self.buffers[i].partition),
                latest: self.buffers[i].latest.duplicate(),
                batches: 0,
                events: 0,
                first_at: self.buffers[i].first_at,
            };
            self.buffers[i] = nbuf;
            proof {
                assert(crate::connector::cursors_view(flushed@) =~= spec_flush_all(post));
            }
            i = i + 1;
        }
        proof {
            assert(old(self).buffers@.subrange(0, old(self).buffers@.len() as int) =~= old(
                self,
            ).buffers@);
        }
        if flushed.len() > 0 {
            let req = build_commit_request(
                &self.host,
                &self.stream_id,
                &self.subscription,
                flushed,
            );
            self.outbox.push(req);
            proof {
                assert(self.outbox@.subrange(0, old(self).outbox@.len() as int) =~= old(
                    self,
                ).outbox@);
            }
        }
        self.stopped = true;
    }
}

/// Within one stream, committing a cursor for a partition acknowledges
/// everything before it on that partition, so the broker's acknowledged
/// state is the last committed cursor per partition.  This is that
/// effect, as a function on the acknowledged state.
pub open spec fn apply_commit(acked: Map<Seq<u8>, CursorView>, c: CursorView) -> Map<
    Seq<u8>,
    CursorView,
> {
    acked.insert(c.partition, c)
}

/// Re-committing the same cursor under the same stream id is
/// observationally equivalent to committing it once: the acknowledged
/// state after the second commit is the state after the first.
pub proof fn lemma_commit_idempotent(acked: Map<Seq<u8>, CursorView>, c: CursorView)
    ensures
        apply_commit(apply_commit(acked, c), c) == apply_commit(acked, c),
{
    assert(apply_commit(apply_commit(acked, c), c) =~= apply_commit(acked, c));
}

/// Every commit request a committer has produced carries the stream id
/// the committer was created with — the one under which each of its
/// cursors was received, since the committer refuses cursors delivered
/// under any other stream.
pub proof fn lemma_commit_stream_affinity(c: &Committer)
    requires
        c.wf(),
    ensures
        forall|i: int|
            0 <= i < c.outbox@.len() ==> (#[trigger] c.outbox@[i]).stream_id@ == c.stream_id@,
        forall|i: int, k: int|
            0 <= i < c.outbox@.len() && 0 <= k < c.outbox@[i].cursors@.len()
                ==> c.received@.contains(#[trigger] c.outbox@[i].cursors@[k]@),
{
}

} // verus!
