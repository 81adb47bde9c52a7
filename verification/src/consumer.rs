//! The consumption driver: per-line processing, the retry table, and the
//! decisions of the reconnect and commit-retry loops.
//!
//! The loops themselves suspend (HTTP reads, sleeps), so the embedding
//! application runs them; every decision they take comes from here, with
//! its contract.

use vstd::prelude::*;

use crate::connector::Checkpoints;
use crate::handler::Handler;
use crate::model::AfterBatchAction;
use crate::model::BatchInfo;
use crate::model::ClientError;
use crate::model::Cursor;
use crate::model::StreamId;
use crate::model::SubscriptionId;
use crate::model::bytes_copy;
use crate::wire::parse_batch_line;
use crate::wire::spec_parse_batch_line;

verus! {

/// The reconnect backoff table in milliseconds, indexed by the number of
/// failed attempts so far; it saturates at its last entry.
pub open spec fn spec_retry_millis(i: int) -> u64 {
    if i <= 0 {
        10
    } else if i == 1 {
        20
    } else if i == 2 {
        50
    } else if i == 3 {
        100
    } else if i == 4 {
        200
    } else if i == 5 {
        300
    } else if i == 6 {
        400
    } else if i == 7 {
        500
    } else if i == 8 {
        1000
    } else if i == 9 {
        2000
    } else if i == 10 {
        5000
    } else if i == 11 {
        10000
    } else if i == 12 {
        30000
    } else if i == 13 {
        60000
    } else if i == 14 {
        300000
    } else {
        600000
    }
}

/// Pause in milliseconds before the retry after `retry` failures,
/// saturating at the last table entry.
pub fn retry_pause(retry: usize) -> (r: u64)
    ensures
        r == spec_retry_millis(retry as int),
{
    if retry == 0 {
        10
    } else if retry == 1 {
        20
    } else if retry == 2 {
        50
    } else if retry == 3 {
        100
    } else if retry == 4 {
        200
    } else if retry == 5 {
        300
    } else if retry == 6 {
        400
    } else if retry == 7 {
        500
    } else if retry == 8 {
        1000
    } else if retry == 9 {
        2000
    } else if retry == 10 {
        5000
    } else if retry == 11 {
        10000
    } else if retry == 12 {
        30000
    } else if retry == 13 {
        60000
    } else if retry == 14 {
        300000
    } else {
        600000
    }
}

/// Pause in milliseconds after the `attempt`-th failed connect.  A
/// conflict means no shard is free right now: such states persist, so
/// the pause is raised to at least thirty seconds.
pub fn connect_retry_pause(attempt: usize, error: &ClientError) -> (r: u64)
    requires
        attempt >= 1,
    ensures
        error is Conflict ==> r == (if spec_retry_millis(attempt - 1) >= 30000 {
            spec_retry_millis(attempt - 1)
        } else {
            30000u64
        }),
        !(error is Conflict) ==> r == spec_retry_millis(attempt - 1),
{
    let p: u64 = retry_pause(attempt - 1);
    let conflict: bool = matches!(error, ClientError::Conflict(_));
    if conflict && p < 30000 {
        30000
    } else {
        p
    }
}

/// What the commit loop does after one commit attempt.
#[derive(Clone, Copy, Debug, PartialEq, Eq, Structural)]
pub enum CommitRetryDecision {
    /// The commit went through.
    Done,
    /// A transient failure: try again after this many milliseconds.
    RetryAfter(u64),
    /// The broker refused the cursor; it is dropped and will be
    /// redelivered, not retried.
    DropCursor,
    /// Retries are exhausted: the stream is torn down so the consumer
    /// reconnects under a fresh stream id.
    FailStream,
}

/// Decides the commit loop's next step after the `attempt`-th attempt
/// came back with `outcome`: success ends it, an unprocessable cursor is
/// dropped, a transient failure is retried with table backoff at most
/// five times, and exhaustion fails the stream.
pub fn commit_retry_step(attempt: usize, outcome: &Result<(), ClientError>) -> (r:
    CommitRetryDecision)
    requires
        attempt >= 1,
    ensures
        outcome is Ok ==> r is Done,
        (outcome matches Result::Err(e) && e is CursorUnprocessable) ==> r is DropCursor,
        (outcome matches Result::Err(e) && !(e is CursorUnprocessable) && attempt <= 5) ==> (
        r matches CommitRetryDecision::RetryAfter(p) && p == spec_retry_millis(attempt - 1)),
        (outcome matches Result::Err(e) && !(e is CursorUnprocessable) && attempt > 5)
            ==> r is FailStream,
{
    match outcome {
        Result::Ok(_) => CommitRetryDecision::Done,
        Result::Err(e) => {
            if matches!(e, ClientError::CursorUnprocessable(_)) {
                CommitRetryDecision::DropCursor
            } else if attempt <= 5 {
                CommitRetryDecision::RetryAfter(retry_pause(attempt - 1))
            } else {
                CommitRetryDecision::FailStream
            }
        },
    }
}

/// What one line of the stream asks of the worker: the handler's verdict
/// when the handler was invoked, and the cursor to commit when the
/// verdict asks for one.  A keep-alive line carries neither.
pub struct LineDecision {
    pub action: Option<AfterBatchAction>,
    pub commit: Option<Cursor>,
}

/// Parses one line, invokes the handler on its events unless the line is
/// a keep-alive, and decides whether its cursor is to be committed:
/// exactly on `Continue` and `Stop`, never on `ContinueNoCheckpoint` or
/// `Abort`, never for a keep-alive.
pub fn line_decision<H: Handler>(handler: &mut H, line: &Vec<u8>, stream_id: &StreamId) -> (r:
    Result<LineDecision, ClientError>)
    ensures
        match r {
            Result::Ok(d) => spec_parse_batch_line(line@) matches Option::Some(blv) && {
                &&& blv.is_keep_alive() ==> (d.action is None && d.commit is None)
                &&& !blv.is_keep_alive() ==> d.action is Some
                &&& (d.commit matches Option::Some(c) ==> c@ == blv.cursor)
                &&& (d.action matches Option::Some(a) ==> (d.commit is Some <==> (a is Continue
                    || a is Stop)))
            },
            Result::Err(e) => spec_parse_batch_line(line@) is None && (e matches
                ClientError::UnparsableBatch(m) && m@ == line@),
        },
{
    let bl = match parse_batch_line(line.as_slice()) {
        Option::Some(bl) => bl,
        Option::None => {
            return Result::Err(ClientError::UnparsableBatch(bytes_copy(line)));
        },
    };
    if bl.is_keep_alive() {
        return Result::Ok(LineDecision { action: Option::None, commit: Option::None });
    }
    let info = BatchInfo { stream_id: stream_id.duplicate(), cursor: bl.cursor.duplicate() };
    let action: AfterBatchAction = match &bl.events {
        Option::Some(ev) => handler.handle(ev.as_slice(), info),
        Option::None => handler.handle(&[], info),
    };
    let commit: Option<Cursor> = match action {
        AfterBatchAction::Continue => Option::Some(bl.cursor),
        AfterBatchAction::Stop => Option::Some(bl.cursor),
        AfterBatchAction::ContinueNoCheckpoint => Option::None,
        AfterBatchAction::Abort => Option::None,
    };
    Result::Ok(LineDecision { action: Option::Some(action), commit })
}

/// Processes one line end to end: parse, handle, and commit the cursor
/// through the connector when the verdict asks for it.  A line that does
/// not parse is the stream's parse error, and a parse error arises from
/// nothing else; a keep-alive is consumed silently.  What the commit
/// attempt came back with is passed on, except that a connector
/// answering a commit with a batch-parse error has broken the boundary's
/// contract, and that answer is reported as such.
pub fn process_line<C: Checkpoints, H: Handler>(
    connector: &C,
    handler: &mut H,
    line: &Vec<u8>,
    stream_id: &StreamId,
    subscription_id: &SubscriptionId,
) -> (r: Result<AfterBatchAction, ClientError>)
    ensures
        spec_parse_batch_line(line@) is None ==> (r matches Result::Err(e) && e matches
            ClientError::UnparsableBatch(m) && m@ == line@),
        (r matches Result::Err(e) && e is UnparsableBatch) ==> spec_parse_batch_line(line@)
            is None,
        (spec_parse_batch_line(line@) matches Option::Some(blv) && blv.is_keep_alive()) ==> (
        r matches Result::Ok(a) && a is Continue),
        r is Ok ==> spec_parse_batch_line(line@) is Some,
{
    let d = match line_decision(handler, line, stream_id) {
        Result::Ok(d) => d,
        Result::Err(e) => {
            return Result::Err(e);
        },
    };
    match d.commit {
        Option::Some(cursor) => {
            let mut cursors: Vec<Cursor> = Vec::new();
            cursors.push(cursor);
            match connector.checkpoint(stream_id, subscription_id, cursors.as_slice()) {
                Result::Ok(_) => {},
                Result::Err(ClientError::UnparsableBatch(m)) => {
                    return Result::Err(ClientError::InvalidResponse(m));
                },
                Result::Err(e) => {
                    return Result::Err(e);
                },
            }
        },
        Option::None => {},
    }
    match d.action {
        Option::Some(a) => Result::Ok(a),
        Option::None => Result::Ok(AfterBatchAction::Continue),
    }
}

/// What the worker loop does after one line.
#[derive(Clone, Copy, Debug, PartialEq, Eq, Structural)]
pub enum WorkerLoopAction {
    /// Read the next line of the stream.
    NextLine,
    /// Leave the loop for good: the handler asked to stop or abort.
    StopWorker,
    /// Tear the stream down and connect again.
    Reconnect,
}

/// Decides the worker loop's next step from one line's result: both
/// continue verdicts keep reading, both leaving verdicts end the worker,
/// and every error reconnects.
pub fn after_line_step(r: &Result<AfterBatchAction, ClientError>) -> (d: WorkerLoopAction)
    ensures
        (r matches Result::Ok(a) && (a is Continue || a is ContinueNoCheckpoint))
            ==> d is NextLine,
        (r matches Result::Ok(a) && (a is Stop || a is Abort)) ==> d is StopWorker,
        r is Err ==> d is Reconnect,
{
    match r {
        Result::Ok(AfterBatchAction::Continue) => WorkerLoopAction::NextLine,
        Result::Ok(AfterBatchAction::ContinueNoCheckpoint) => WorkerLoopAction::NextLine,
        Result::Ok(AfterBatchAction::Stop) => WorkerLoopAction::StopWorker,
        Result::Ok(AfterBatchAction::Abort) => WorkerLoopAction::StopWorker,
        Result::Err(_) => WorkerLoopAction::Reconnect,
    }
}

/// The top-level consumer handle for one subscription.  The embedding
/// application runs the reconnect loop; this handle carries the running
/// flag it polls and the subscription it serves.
pub struct NakadiWorker {
    pub running: bool,
    pub subscription_id: SubscriptionId,
}

impl NakadiWorker {
    /// A fresh worker is running.
    pub fn new(subscription_id: SubscriptionId) -> (r: NakadiWorker)
        ensures
            r.running,
            r.subscription_id@ == subscription_id@,
    {
        NakadiWorker { running: true, subscription_id }
    }

    /// True while the worker has not been stopped.
    pub fn is_running(&self) -> (r: bool)
        ensures
            r == self.running,
    {
        self.running
    }

    /// Stops the worker; the consumption loop observes the flag between
    /// lines and between connect attempts.
    pub fn stop(&mut self)
        ensures
            !final(self).running,
            final(self).subscription_id@ == old(self).subscription_id@,
    {
        self.running = false;
    }

    /// The subscription this worker consumes.
    pub fn subscription_id(&self) -> (r: &SubscriptionId)
        ensures
            r@ == self.subscription_id@,
    {
        &self.subscription_id
    }
}

} // verus!
