//! The data model: identifiers, cursors, batches, handler actions,
//! error kinds and the lifecycle token.
//!
//! Identifiers and cursor fields are opaque byte strings: they are taken
//! from the wire and round-tripped verbatim, so the library never needs to
//! interpret them.

use vstd::prelude::*;

verus! {

/// Copies a byte vector element by element.
pub fn bytes_copy(v: &Vec<u8>) -> (r: Vec<u8>)
    ensures
        r@ == v@,
{
    let mut out: Vec<u8> = Vec::new();
    let mut i: usize = 0;
    while i < v.len()
        invariant
            i <= v.len(),
            out@ == v@.subrange(0, i as int),
        decreases v.len() - i,
    {
        out.push(v[i]);
        assert(v@.subrange(0, i + 1 as int) =~= v@.subrange(0, i as int).push(v@[i as int]));
        i += 1;
    }
    assert(v@.subrange(0, v@.len() as int) =~= v@);
    out
}

/// Compares two byte vectors for equality of their contents.
pub fn bytes_eq(a: &Vec<u8>, b: &Vec<u8>) -> (r: bool)
    ensures
        r == (a@ == b@),
{
    let r = a == b;
    proof {
        if r {
            assert(a@ =~= b@);
        } else {
            if a@ == b@ {
                assert(forall|i: int| 0 <= i < a@.len() ==> a@[i] == b@[i]);
                assert(false);
            }
        }
    }
    r
}

/// Compares two byte slices for equality of their contents.
pub fn slices_eq(a: &[u8], b: &[u8]) -> (r: bool)
    ensures
        r == (a@ == b@),
{
    if a.len() != b.len() {
        proof {
            if a@ == b@ {
                assert(a@.len() == b@.len());
                assert(false);
            }
        }
        return false;
    }
    let mut i: usize = 0;
    while i < a.len()
        invariant
            i <= a.len(),
            a@.len() == b@.len(),
            forall|m: int| 0 <= m < i ==> a@[m] == b@[m],
        decreases a@.len() - i,
    {
        if a[i] != b[i] {
            proof {
                if a@ == b@ {
                    assert(a@[i as int] == b@[i as int]);
                    assert(false);
                }
            }
            return false;
        }
        i = i + 1;
    }
    proof {
        assert(a@ =~= b@);
    }
    true
}

/// Identifies one open read session; issued by the broker in a response
/// header.  Commit authority is bound to it.
pub struct StreamId(pub Vec<u8>);

impl View for StreamId {
    type V = Seq<u8>;

    open spec fn view(&self) -> Seq<u8> {
        self.0@
    }
}

impl StreamId {
    pub fn from_bytes(b: Vec<u8>) -> (r: StreamId)
        ensures
            r@ == b@,
    {
        StreamId(b)
    }

    pub fn duplicate(&self) -> (r: StreamId)
        ensures
            r@ == self@,
    {
        StreamId(bytes_copy(&self.0))
    }

    pub fn matches(&self, other: &StreamId) -> (r: bool)
        ensures
            r == (self@ == other@),
    {
        bytes_eq(&self.0, &other.0)
    }

    pub fn as_bytes(&self) -> (r: &Vec<u8>)
        ensures
            r@ == self@,
    {
        &self.0
    }
}

/// Identifies a broker-side subscription.
pub struct SubscriptionId(pub Vec<u8>);

impl View for SubscriptionId {
    type V = Seq<u8>;

    open spec fn view(&self) -> Seq<u8> {
        self.0@
    }
}

impl SubscriptionId {
    pub fn from_bytes(b: Vec<u8>) -> (r: SubscriptionId)
        ensures
            r@ == b@,
    {
        SubscriptionId(b)
    }

    pub fn duplicate(&self) -> (r: SubscriptionId)
        ensures
            r@ == self@,
    {
        SubscriptionId(bytes_copy(&self.0))
    }

    pub fn matches(&self, other: &SubscriptionId) -> (r: bool)
        ensures
            r == (self@ == other@),
    {
        bytes_eq(&self.0, &other.0)
    }

    pub fn as_bytes(&self) -> (r: &Vec<u8>)
        ensures
            r@ == self@,
    {
        &self.0
    }
}

/// Names a partition within an event type.
pub struct PartitionId(pub Vec<u8>);

impl View for PartitionId {
    type V = Seq<u8>;

    open spec fn view(&self) -> Seq<u8> {
        self.0@
    }
}

impl PartitionId {
    pub fn from_bytes(b: Vec<u8>) -> (r: PartitionId)
        ensures
            r@ == b@,
    {
        PartitionId(b)
    }

    pub fn duplicate(&self) -> (r: PartitionId)
        ensures
            r@ == self@,
    {
        PartitionId(bytes_copy(&self.0))
    }

    pub fn matches(&self, other: &PartitionId) -> (r: bool)
        ensures
            r == (self@ == other@),
    {
        bytes_eq(&self.0, &other.0)
    }

    pub fn as_bytes(&self) -> (r: &Vec<u8>)
        ensures
            r@ == self@,
    {
        &self.0
    }
}

/// Mathematical image of a `Cursor`: four opaque byte strings.
pub struct CursorView {
    pub event_type: Seq<u8>,
    pub partition: Seq<u8>,
    pub offset: Seq<u8>,
    pub cursor_token: Seq<u8>,
}

/// A position marker for one partition.  Opaque to the library; the fields
/// hold the raw bytes of the JSON string values exactly as they stood on
/// the wire, and are committed back verbatim.
pub struct Cursor {
    pub event_type: Vec<u8>,
    pub partition: Vec<u8>,
    pub offset: Vec<u8>,
    pub cursor_token: Vec<u8>,
}

impl View for Cursor {
    type V = CursorView;

    open spec fn view(&self) -> CursorView {
        CursorView {
            event_type: self.event_type@,
            partition: self.partition@,
            offset: self.offset@,
            cursor_token: self.cursor_token@,
        }
    }
}

impl Cursor {
    pub fn new(event_type: Vec<u8>, partition: Vec<u8>, offset: Vec<u8>, cursor_token: Vec<u8>)
        -> (r: Cursor)
        ensures
            r@ == (CursorView {
                event_type: event_type@,
                partition: partition@,
                offset: offset@,
                cursor_token: cursor_token@,
            }),
    {
        Cursor { event_type, partition, offset, cursor_token }
    }

    pub fn duplicate(&self) -> (r: Cursor)
        ensures
            r@ == self@,
    {
        Cursor {
            event_type: bytes_copy(&self.event_type),
            partition: bytes_copy(&self.partition),
            offset: bytes_copy(&self.offset),
            cursor_token: bytes_copy(&self.cursor_token),
        }
    }
}

/// The handler's verdict on one batch; steers the worker.
#[derive(Clone, Copy, Debug, PartialEq, Eq, Structural)]
pub enum AfterBatchAction {
    /// Commit the cursor and keep going.
    Continue,
    /// Keep going without committing; the handler checkpoints itself.
    ContinueNoCheckpoint,
    /// Commit the cursor, then shut the consumer down in an orderly way.
    Stop,
    /// Do not commit; the worker exits at once.
    Abort,
}

/// Error kinds surfaced at the library boundary.
#[derive(Debug)]
pub enum ClientError {
    /// Transport failure before a status line was read.
    Connection(Vec<u8>),
    /// HTTP 400.
    Request(Vec<u8>),
    /// HTTP 403.
    Forbidden(Vec<u8>),
    /// HTTP 404.
    NoSubscription(Vec<u8>),
    /// HTTP 409: no free shard to read from right now.
    Conflict(Vec<u8>),
    /// HTTP 422 on a commit: the broker refused the cursor.
    CursorUnprocessable(Vec<u8>),
    /// The broker broke its contract, e.g. the stream-id header is missing.
    InvalidResponse(Vec<u8>),
    /// A line of the stream is not a well-formed batch.
    UnparsableBatch(Vec<u8>),
    /// Any other HTTP status, carried along.
    Internal(u16),
}

/// The kind of a `ClientError`, without its payload.
#[derive(Clone, Copy, Debug, PartialEq, Eq, Structural)]
pub enum ClientErrorKind {
    Connection,
    Request,
    Forbidden,
    NoSubscription,
    Conflict,
    CursorUnprocessable,
    InvalidResponse,
    UnparsableBatch,
    Internal,
}

impl ClientError {
    pub open spec fn spec_kind(&self) -> ClientErrorKind {
        match self {
            ClientError::Connection(_) => ClientErrorKind::Connection,
            ClientError::Request(_) => ClientErrorKind::Request,
            ClientError::Forbidden(_) => ClientErrorKind::Forbidden,
            ClientError::NoSubscription(_) => ClientErrorKind::NoSubscription,
            ClientError::Conflict(_) => ClientErrorKind::Conflict,
            ClientError::CursorUnprocessable(_) => ClientErrorKind::CursorUnprocessable,
            ClientError::InvalidResponse(_) => ClientErrorKind::InvalidResponse,
            ClientError::UnparsableBatch(_) => ClientErrorKind::UnparsableBatch,
            ClientError::Internal(_) => ClientErrorKind::Internal,
        }
    }

    pub fn kind(&self) -> (r: ClientErrorKind)
        ensures
            r == self.spec_kind(),
    {
        match self {
            ClientError::Connection(_) => ClientErrorKind::Connection,
            ClientError::Request(_) => ClientErrorKind::Request,
            ClientError::Forbidden(_) => ClientErrorKind::Forbidden,
            ClientError::NoSubscription(_) => ClientErrorKind::NoSubscription,
            ClientError::Conflict(_) => ClientErrorKind::Conflict,
            ClientError::CursorUnprocessable(_) => ClientErrorKind::CursorUnprocessable,
            ClientError::InvalidResponse(_) => ClientErrorKind::InvalidResponse,
            ClientError::UnparsableBatch(_) => ClientErrorKind::UnparsableBatch,
            ClientError::Internal(_) => ClientErrorKind::Internal,
        }
    }
}

/// Phases of the lifecycle token: monotonic, no revival.
#[derive(Clone, Copy, Debug, PartialEq, Eq, Structural)]
pub enum LifecyclePhase {
    Running,
    AbortRequested,
    Stopped,
}

/// The shared token by which abort is requested and confirmed.
/// Transitions go one way: running, then abort requested, then stopped.
pub struct Lifecycle {
    pub phase: LifecyclePhase,
}

impl Lifecycle {
    pub fn new() -> (r: Lifecycle)
        ensures
            r.phase is Running,
    {
        Lifecycle { phase: LifecyclePhase::Running }
    }

    /// True until the token reaches `Stopped`.
    pub fn running(&self) -> (r: bool)
        ensures
            r == !(self.phase is Stopped),
    {
        !matches!(self.phase, LifecyclePhase::Stopped)
    }

    pub fn abort_requested(&self) -> (r: bool)
        ensures
            r == (self.phase is AbortRequested),
    {
        matches!(self.phase, LifecyclePhase::AbortRequested)
    }

    /// Asks every component to wind down.  Once stopped, the token does not
    /// come back to life.
    pub fn request_abort(&mut self)
        ensures
            final(self).phase == (if old(self).phase is Running {
                LifecyclePhase::AbortRequested
            } else {
                old(self).phase
            }),
    {
        if matches!(self.phase, LifecyclePhase::Running) {
            self.phase = LifecyclePhase::AbortRequested;
        }
    }

    /// Confirms that the owner has wound down; final in every run.
    pub fn stopped(&mut self)
        ensures
            final(self).phase is Stopped,
    {
        self.phase = LifecyclePhase::Stopped;
    }
}

/// Mathematical image of a `BatchLine`.
pub struct BatchLineView {
    pub cursor: CursorView,
    pub events: Option<Seq<u8>>,
    pub num_events: int,
}

/// One line of the stream: a cursor and, when events were delivered, the
/// raw bytes of the `events` array together with the number of its
/// top-level elements.
pub struct BatchLine {
    pub cursor: Cursor,
    pub events: Option<Vec<u8>>,
    pub num_events: usize,
}

impl View for BatchLine {
    type V = BatchLineView;

    open spec fn view(&self) -> BatchLineView {
        BatchLineView {
            cursor: self.cursor@,
            events: match self.events {
                Option::Some(e) => Option::Some(e@),
                Option::None => Option::None,
            },
            num_events: self.num_events as int,
        }
    }
}

impl BatchLineView {
    /// A keep-alive proves the stream is live and carries nothing to handle.
    pub open spec fn is_keep_alive(&self) -> bool {
        self.events is None || self.num_events == 0
    }
}

impl BatchLine {
    pub fn is_keep_alive(&self) -> (r: bool)
        ensures
            r == self@.is_keep_alive(),
    {
        match &self.events {
            Option::None => true,
            Option::Some(_) => self.num_events == 0,
        }
    }
}

/// Mathematical image of a `Batch`.
pub struct BatchView {
    pub line: BatchLineView,
    pub stream_id: Seq<u8>,
    pub received_at: u64,
}

/// A batch line together with its provenance: the stream that delivered it
/// and the reception timestamp in milliseconds.
pub struct Batch {
    pub line: BatchLine,
    pub stream_id: StreamId,
    pub received_at: u64,
}

impl View for Batch {
    type V = BatchView;

    open spec fn view(&self) -> BatchView {
        BatchView { line: self.line@, stream_id: self.stream_id@, received_at: self.received_at }
    }
}

/// Mathematical image of a `BatchInfo`.
pub struct BatchInfoView {
    pub stream_id: Seq<u8>,
    pub cursor: CursorView,
}

/// What the handler learns about a batch besides the raw events bytes.
pub struct BatchInfo {
    pub stream_id: StreamId,
    pub cursor: Cursor,
}

impl View for BatchInfo {
    type V = BatchInfoView;

    open spec fn view(&self) -> BatchInfoView {
        BatchInfoView { stream_id: self.stream_id@, cursor: self.cursor@ }
    }
}

/// Diagnostics about a subscription, as the broker reported them.
/// The payload is kept verbatim; interpreting it is not the library's
/// business.
pub struct StreamInfo {
    pub raw: Vec<u8>,
}

impl View for StreamInfo {
    type V = Seq<u8>;

    open spec fn view(&self) -> Seq<u8> {
        self.raw@
    }
}

} // verus!
