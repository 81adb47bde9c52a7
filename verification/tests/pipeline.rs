use std::cell::RefCell;

use nakadion::committer::CommitStrategy;
use nakadion::committer::Committer;
use nakadion::connector::Checkpoints;
use nakadion::consumer::CommitRetryDecision;
use nakadion::consumer::NakadiWorker;
use nakadion::consumer::WorkerLoopAction;
use nakadion::consumer::after_line_step;
use nakadion::consumer::commit_retry_step;
use nakadion::consumer::connect_retry_pause;
use nakadion::consumer::process_line;
use nakadion::consumer::retry_pause;
use nakadion::dispatcher::Dispatcher;
use nakadion::handler::Handler;
use nakadion::handler::HandlerFactory;
use nakadion::model::AfterBatchAction;
use nakadion::model::Batch;
use nakadion::model::BatchInfo;
use nakadion::model::BatchLine;
use nakadion::model::ClientError;
use nakadion::model::Cursor;
use nakadion::model::Lifecycle;
use nakadion::model::PartitionId;
use nakadion::model::StreamId;
use nakadion::model::SubscriptionId;

struct ScriptHandler {
    partition: Vec<u8>,
    actions: Vec<AfterBatchAction>,
    next: usize,
    abort_if_events: Option<Vec<u8>>,
    seen_offsets: Vec<Vec<u8>>,
    seen_events: Vec<Vec<u8>>,
}

impl Handler for ScriptHandler {
    fn handle(&mut self, events: &[u8], info: BatchInfo) -> AfterBatchAction {
        self.seen_offsets.push(info.cursor.offset.clone());
        self.seen_events.push(events.to_vec());
        if let Some(trigger) = &self.abort_if_events {
            if trigger.as_slice() == events {
                return AfterBatchAction::Abort;
            }
        }
        let a = if self.next < self.actions.len() {
            self.actions[self.next]
        } else {
            AfterBatchAction::Continue
        };
        self.next += 1;
        a
    }
}

struct ScriptFactory {
    actions: Vec<AfterBatchAction>,
    abort_if_events: Option<Vec<u8>>,
}

impl HandlerFactory for ScriptFactory {
    type Handler = ScriptHandler;

    fn create_handler(&self, partition: &PartitionId) -> ScriptHandler {
        ScriptHandler {
            partition: partition.0.clone(),
            actions: self.actions.clone(),
            next: 0,
            abort_if_events: self.abort_if_events.clone(),
            seen_offsets: Vec::new(),
            seen_events: Vec::new(),
        }
    }
}

fn batch(partition: &str, offset: &str, events: &str, n: usize, sid: &str, at: u64) -> Batch {
    Batch {
        line: BatchLine {
            cursor: Cursor::new(
                b"et".to_vec(),
                partition.as_bytes().to_vec(),
                offset.as_bytes().to_vec(),
                b"tok".to_vec(),
            ),
            events: Some(events.as_bytes().to_vec()),
            num_events: n,
        },
        stream_id: StreamId::from_bytes(sid.as_bytes().to_vec()),
        received_at: at,
    }
}

fn keep_alive(partition: &str, sid: &str) -> Batch {
    Batch {
        line: BatchLine {
            cursor: Cursor::new(
                b"et".to_vec(),
                partition.as_bytes().to_vec(),
                b"0".to_vec(),
                b"tok".to_vec(),
            ),
            events: None,
            num_events: 0,
        },
        stream_id: StreamId::from_bytes(sid.as_bytes().to_vec()),
        received_at: 0,
    }
}

fn dispatcher(
    strategy: CommitStrategy,
    actions: Vec<AfterBatchAction>,
    abort_if_events: Option<Vec<u8>>,
) -> Dispatcher<ScriptFactory> {
    let committer = Committer::new(
        StreamId::from_bytes(b"sid-1".to_vec()),
        SubscriptionId::from_bytes(b"sub-1".to_vec()),
        b"https://broker.example".to_vec(),
        strategy,
    );
    Dispatcher::start(ScriptFactory { actions, abort_if_events }, committer)
}

fn body_with_offset(offset: &str) -> Vec<u8> {
    let mut b = b"{\"items\":[{\"event_type\":\"et\",\"partition\":\"".to_vec();
    b.extend_from_slice(b"0\",\"offset\":\"");
    b.extend_from_slice(offset.as_bytes());
    b.extend_from_slice(b"\",\"cursor_token\":\"tok\"}]}");
    b
}

#[test]
fn happy_path_commits_each_batch_under_its_stream() {
    let mut d = dispatcher(CommitStrategy::Immediate, Vec::new(), None);
    for (i, offset) in ["001", "002", "003"].iter().enumerate() {
        d.process(batch("0", offset, "[{}]", 1, "sid-1", i as u64)).expect("batch is routed");
        let reqs = d.take_commit_requests();
        assert_eq!(reqs.len(), 1);
        assert_eq!(reqs[0].stream_id.as_bytes(), &b"sid-1".to_vec());
        assert_eq!(
            reqs[0].url,
            b"https://broker.example/subscriptions/sub-1/cursors".to_vec()
        );
        assert_eq!(reqs[0].body, body_with_offset(offset));
    }
}

#[test]
fn after_batches_commits_the_latest_then_flushes_on_stop() {
    let mut d = dispatcher(CommitStrategy::AfterBatches(3), Vec::new(), None);
    for (i, offset) in ["1", "2", "3", "4", "5"].iter().enumerate() {
        d.process(batch("0", offset, "[{}]", 1, "sid-1", i as u64)).expect("batch is routed");
    }
    let reqs = d.take_commit_requests();
    assert_eq!(reqs.len(), 1);
    assert_eq!(reqs[0].body, body_with_offset("3"));
    d.stop();
    let reqs = d.take_commit_requests();
    assert_eq!(reqs.len(), 1);
    assert_eq!(reqs[0].body, body_with_offset("5"));
}

#[test]
fn partitions_fan_out_to_their_own_workers_in_order() {
    let mut d = dispatcher(CommitStrategy::Immediate, Vec::new(), None);
    d.process(batch("0", "a1", "[{}]", 1, "sid-1", 0)).expect("batch is routed");
    d.process(batch("1", "b1", "[{}]", 1, "sid-1", 1)).expect("batch is routed");
    d.process(batch("0", "a2", "[{}]", 1, "sid-1", 2)).expect("batch is routed");
    d.process(batch("1", "b2", "[{}]", 1, "sid-1", 3)).expect("batch is routed");
    assert_eq!(d.workers.len(), 2);
    assert_eq!(d.workers[0].handler.partition, b"0".to_vec());
    assert_eq!(d.workers[1].handler.partition, b"1".to_vec());
    assert_eq!(
        d.workers[0].handler.seen_offsets,
        vec![b"a1".to_vec(), b"a2".to_vec()]
    );
    assert_eq!(
        d.workers[1].handler.seen_offsets,
        vec![b"b1".to_vec(), b"b2".to_vec()]
    );
}

#[test]
fn stop_leaves_no_worker_running() {
    let mut d = dispatcher(CommitStrategy::Immediate, Vec::new(), None);
    d.process(batch("0", "1", "[{}]", 1, "sid-1", 0)).expect("batch is routed");
    d.process(batch("1", "1", "[{}]", 1, "sid-1", 1)).expect("batch is routed");
    assert!(d.is_running());
    d.stop();
    assert!(!d.is_running());
    for w in &d.workers {
        assert!(!w.running);
    }
}

#[test]
fn keep_alive_reaching_the_dispatcher_is_fatal() {
    let mut d = dispatcher(CommitStrategy::Immediate, Vec::new(), None);
    assert!(d.process(keep_alive("0", "sid-1")).is_err());
}

#[test]
fn a_non_utf8_partition_is_fatal() {
    let mut d = dispatcher(CommitStrategy::Immediate, Vec::new(), None);
    let mut b = batch("0", "1", "[{}]", 1, "sid-1", 0);
    b.line.cursor.partition = vec![0xFF, 0xFE];
    assert!(d.process(b).is_err());
    assert_eq!(d.workers.len(), 0);
    assert!(d.take_commit_requests().is_empty());
}

#[test]
fn a_batch_of_another_stream_is_refused() {
    let mut d = dispatcher(CommitStrategy::Immediate, Vec::new(), None);
    assert!(d.process(batch("0", "1", "[{}]", 1, "sid-2", 0)).is_err());
    assert!(d.take_commit_requests().is_empty());
}

#[test]
fn abort_commits_nothing_and_spares_the_stream() {
    let four = b"[{},{},{},{}]".to_vec();
    let mut d = dispatcher(CommitStrategy::Immediate, Vec::new(), Some(four));
    d.process(batch("0", "1", "[{},{},{},{}]", 4, "sid-1", 0)).expect("batch is routed");
    assert!(d.take_commit_requests().is_empty());
    assert!(!d.workers[0].running);
    assert!(d.is_running());
    d.process(batch("1", "1", "[{}]", 1, "sid-1", 1)).expect("other partitions continue");
    let reqs = d.take_commit_requests();
    assert_eq!(reqs.len(), 1);
    assert!(d.workers[1].running);
}

#[test]
fn a_batch_for_an_ended_worker_is_refused() {
    let mut d = dispatcher(
        CommitStrategy::Immediate,
        vec![AfterBatchAction::Abort],
        None,
    );
    d.process(batch("0", "1", "[{}]", 1, "sid-1", 0)).expect("batch is routed");
    assert!(d.process(batch("0", "2", "[{}]", 1, "sid-1", 1)).is_err());
}

#[test]
fn stop_verdict_commits_then_ends_the_worker() {
    let mut d = dispatcher(CommitStrategy::Immediate, vec![AfterBatchAction::Stop], None);
    d.process(batch("0", "9", "[{}]", 1, "sid-1", 0)).expect("batch is routed");
    let reqs = d.take_commit_requests();
    assert_eq!(reqs.len(), 1);
    assert_eq!(reqs[0].body, body_with_offset("9"));
    assert!(!d.workers[0].running);
}

#[test]
fn no_checkpoint_verdict_commits_nothing() {
    let mut d = dispatcher(
        CommitStrategy::Immediate,
        vec![AfterBatchAction::ContinueNoCheckpoint],
        None,
    );
    d.process(batch("0", "1", "[{}]", 1, "sid-1", 0)).expect("batch is routed");
    assert!(d.take_commit_requests().is_empty());
    assert!(d.workers[0].running);
}

#[test]
fn age_matures_a_partition_on_the_periodic_flush() {
    let committer = Committer::new(
        StreamId::from_bytes(b"sid-1".to_vec()),
        SubscriptionId::from_bytes(b"sub-1".to_vec()),
        b"https://broker.example".to_vec(),
        CommitStrategy::AfterSeconds(1),
    );
    let mut d = Dispatcher::start(
        ScriptFactory { actions: Vec::new(), abort_if_events: None },
        committer,
    );
    d.process(batch("0", "7", "[{}]", 1, "sid-1", 0)).expect("batch is routed");
    d.tick(500);
    assert!(d.take_commit_requests().is_empty());
    d.tick(1000);
    let reqs = d.take_commit_requests();
    assert_eq!(reqs.len(), 1);
    assert_eq!(reqs[0].body, body_with_offset("7"));
    d.stop();
    assert!(d.take_commit_requests().is_empty());
}

#[test]
fn one_flush_batches_cursors_across_partitions() {
    let committer = Committer::new(
        StreamId::from_bytes(b"sid-1".to_vec()),
        SubscriptionId::from_bytes(b"sub-1".to_vec()),
        b"https://broker.example".to_vec(),
        CommitStrategy::AfterSeconds(1),
    );
    let mut d = Dispatcher::start(
        ScriptFactory { actions: Vec::new(), abort_if_events: None },
        committer,
    );
    d.process(batch("0", "3", "[{}]", 1, "sid-1", 0)).expect("batch is routed");
    d.process(batch("1", "8", "[{}]", 1, "sid-1", 0)).expect("batch is routed");
    d.tick(2000);
    let reqs = d.take_commit_requests();
    assert_eq!(reqs.len(), 1);
    assert_eq!(reqs[0].cursors.len(), 2);
    assert_eq!(reqs[0].cursors[0].partition, b"0".to_vec());
    assert_eq!(reqs[0].cursors[0].offset, b"3".to_vec());
    assert_eq!(reqs[0].cursors[1].partition, b"1".to_vec());
    assert_eq!(reqs[0].cursors[1].offset, b"8".to_vec());
}

#[test]
fn events_or_seconds_fires_on_the_event_count() {
    let committer = Committer::new(
        StreamId::from_bytes(b"sid-1".to_vec()),
        SubscriptionId::from_bytes(b"sub-1".to_vec()),
        b"https://broker.example".to_vec(),
        CommitStrategy::AfterEventsOrSeconds(3, 3600),
    );
    let mut d = Dispatcher::start(
        ScriptFactory { actions: Vec::new(), abort_if_events: None },
        committer,
    );
    d.process(batch("0", "1", "[{},{}]", 2, "sid-1", 0)).expect("batch is routed");
    assert!(d.take_commit_requests().is_empty());
    d.process(batch("0", "2", "[{}]", 1, "sid-1", 1)).expect("batch is routed");
    let reqs = d.take_commit_requests();
    assert_eq!(reqs.len(), 1);
    assert_eq!(reqs[0].body, body_with_offset("2"));
}

#[test]
fn recommitting_the_same_cursor_builds_the_same_request() {
    let mut c = Committer::new(
        StreamId::from_bytes(b"sid-1".to_vec()),
        SubscriptionId::from_bytes(b"sub-1".to_vec()),
        b"https://broker.example".to_vec(),
        CommitStrategy::Immediate,
    );
    let sid = StreamId::from_bytes(b"sid-1".to_vec());
    let cursor = || Cursor::new(b"et".to_vec(), b"0".to_vec(), b"5".to_vec(), b"tok".to_vec());
    c.receive(cursor(), &sid, 1, 0).expect("own stream");
    c.receive(cursor(), &sid, 1, 0).expect("own stream");
    let reqs = c.take_requests();
    assert_eq!(reqs.len(), 2);
    assert_eq!(reqs[0].url, reqs[1].url);
    assert_eq!(reqs[0].body, reqs[1].body);
    assert_eq!(reqs[0].stream_id.as_bytes(), reqs[1].stream_id.as_bytes());
}

#[test]
fn a_stopped_committer_refuses_cursors() {
    let mut c = Committer::new(
        StreamId::from_bytes(b"sid-1".to_vec()),
        SubscriptionId::from_bytes(b"sub-1".to_vec()),
        b"https://broker.example".to_vec(),
        CommitStrategy::Immediate,
    );
    c.stop();
    let sid = StreamId::from_bytes(b"sid-1".to_vec());
    let cursor = Cursor::new(b"et".to_vec(), b"0".to_vec(), b"5".to_vec(), b"tok".to_vec());
    assert!(c.receive(cursor, &sid, 1, 0).is_err());
}

struct RecordingConnector {
    commits: RefCell<Vec<(Vec<u8>, Vec<Vec<u8>>)>>,
    answer_kind: Option<fn() -> ClientError>,
}

impl Checkpoints for RecordingConnector {
    fn checkpoint(
        &self,
        stream_id: &StreamId,
        _subscription: &SubscriptionId,
        cursors: &[Cursor],
    ) -> Result<(), ClientError> {
        let offsets: Vec<Vec<u8>> = cursors.iter().map(|c| c.offset.clone()).collect();
        self.commits.borrow_mut().push((stream_id.as_bytes().clone(), offsets));
        match &self.answer_kind {
            Some(make) => Err(make()),
            None => Ok(()),
        }
    }
}

fn line(offset: &str, events: &str) -> Vec<u8> {
    let mut l = b"{\"cursor\":{\"partition\":\"0\",\"offset\":\"".to_vec();
    l.extend_from_slice(offset.as_bytes());
    l.extend_from_slice(b"\",\"event_type\":\"et\",\"cursor_token\":\"tok\"},\"events\":");
    l.extend_from_slice(events.as_bytes());
    l.extend_from_slice(b"}");
    l
}

#[test]
fn a_parse_error_reconnects_after_the_first_table_entry() {
    let conn = RecordingConnector { commits: RefCell::new(Vec::new()), answer_kind: None };
    let sid = StreamId::from_bytes(b"sid-1".to_vec());
    let sub = SubscriptionId::from_bytes(b"sub-1".to_vec());
    let mut h = ScriptHandler {
        partition: b"0".to_vec(),
        actions: Vec::new(),
        next: 0,
        abort_if_events: None,
        seen_offsets: Vec::new(),
        seen_events: Vec::new(),
    };
    let r1 = process_line(&conn, &mut h, &line("1", "[{}]"), &sid, &sub);
    assert!(matches!(r1, Ok(AfterBatchAction::Continue)));
    assert_eq!(h.seen_offsets.len(), 1);
    assert_eq!(conn.commits.borrow().len(), 1);
    assert_eq!(after_line_step(&r1), WorkerLoopAction::NextLine);

    let r2 = process_line(&conn, &mut h, &b"<garbage>".to_vec(), &sid, &sub);
    match &r2 {
        Err(ClientError::UnparsableBatch(m)) => assert_eq!(m, &b"<garbage>".to_vec()),
        _ => panic!("the bad line must be reported"),
    }
    assert_eq!(h.seen_offsets.len(), 1);
    assert_eq!(conn.commits.borrow().len(), 1);
    assert_eq!(after_line_step(&r2), WorkerLoopAction::Reconnect);
    assert_eq!(retry_pause(0), 10);
}

#[test]
fn a_keep_alive_line_is_consumed_silently() {
    let conn = RecordingConnector { commits: RefCell::new(Vec::new()), answer_kind: None };
    let sid = StreamId::from_bytes(b"sid-1".to_vec());
    let sub = SubscriptionId::from_bytes(b"sub-1".to_vec());
    let mut h = ScriptHandler {
        partition: b"0".to_vec(),
        actions: Vec::new(),
        next: 0,
        abort_if_events: None,
        seen_offsets: Vec::new(),
        seen_events: Vec::new(),
    };
    let r = process_line(&conn, &mut h, &line("1", "[]"), &sid, &sub);
    assert!(matches!(r, Ok(AfterBatchAction::Continue)));
    assert_eq!(h.seen_offsets.len(), 0);
    assert!(conn.commits.borrow().is_empty());
}

#[test]
fn commits_carry_the_stream_that_delivered_the_cursor() {
    let conn = RecordingConnector { commits: RefCell::new(Vec::new()), answer_kind: None };
    let sid = StreamId::from_bytes(b"sid-42".to_vec());
    let sub = SubscriptionId::from_bytes(b"sub-1".to_vec());
    let mut h = ScriptHandler {
        partition: b"0".to_vec(),
        actions: Vec::new(),
        next: 0,
        abort_if_events: None,
        seen_offsets: Vec::new(),
        seen_events: Vec::new(),
    };
    process_line(&conn, &mut h, &line("7", "[{}]"), &sid, &sub).expect("line parses");
    let commits = conn.commits.borrow();
    assert_eq!(commits.len(), 1);
    assert_eq!(commits[0].0, b"sid-42".to_vec());
    assert_eq!(commits[0].1, vec![b"7".to_vec()]);
}

#[test]
fn a_parse_error_answer_to_a_commit_is_a_contract_violation() {
    let conn = RecordingConnector {
        commits: RefCell::new(Vec::new()),
        answer_kind: Some(|| ClientError::UnparsableBatch(b"nonsense".to_vec())),
    };
    let sid = StreamId::from_bytes(b"sid-1".to_vec());
    let sub = SubscriptionId::from_bytes(b"sub-1".to_vec());
    let mut h = ScriptHandler {
        partition: b"0".to_vec(),
        actions: Vec::new(),
        next: 0,
        abort_if_events: None,
        seen_offsets: Vec::new(),
        seen_events: Vec::new(),
    };
    let r = process_line(&conn, &mut h, &line("1", "[{}]"), &sid, &sub);
    match r {
        Err(ClientError::InvalidResponse(m)) => assert_eq!(m, b"nonsense".to_vec()),
        _ => panic!("a batch-parse answer to a commit must be reported as a contract violation"),
    }
}

#[test]
fn a_transient_commit_failure_is_passed_on() {
    let conn = RecordingConnector {
        commits: RefCell::new(Vec::new()),
        answer_kind: Some(|| ClientError::Connection(b"broken pipe".to_vec())),
    };
    let sid = StreamId::from_bytes(b"sid-1".to_vec());
    let sub = SubscriptionId::from_bytes(b"sub-1".to_vec());
    let mut h = ScriptHandler {
        partition: b"0".to_vec(),
        actions: Vec::new(),
        next: 0,
        abort_if_events: None,
        seen_offsets: Vec::new(),
        seen_events: Vec::new(),
    };
    let r = process_line(&conn, &mut h, &line("1", "[{}]"), &sid, &sub);
    match &r {
        Err(ClientError::Connection(m)) => assert_eq!(m, &b"broken pipe".to_vec()),
        _ => panic!("the transport's own answer must be passed on"),
    }
    assert_eq!(after_line_step(&r), WorkerLoopAction::Reconnect);
}

#[test]
fn retry_table_saturates_at_the_last_entry() {
    assert_eq!(retry_pause(0), 10);
    assert_eq!(retry_pause(1), 20);
    assert_eq!(retry_pause(7), 500);
    assert_eq!(retry_pause(15), 600000);
    assert_eq!(retry_pause(16), 600000);
    assert_eq!(retry_pause(1000), 600000);
}

#[test]
fn conflict_raises_the_pause_to_thirty_seconds() {
    let conflict = ClientError::Conflict(b"no free shard".to_vec());
    let other = ClientError::Connection(b"broken".to_vec());
    assert_eq!(connect_retry_pause(1, &conflict), 30000);
    assert_eq!(connect_retry_pause(12, &conflict), 30000);
    assert_eq!(connect_retry_pause(16, &conflict), 600000);
    assert_eq!(connect_retry_pause(1, &other), 10);
    assert_eq!(connect_retry_pause(2, &other), 20);
}

#[test]
fn commit_retries_five_times_then_fails_the_stream() {
    let transient: Result<(), ClientError> = Err(ClientError::Connection(b"x".to_vec()));
    assert_eq!(
        commit_retry_step(1, &transient),
        CommitRetryDecision::RetryAfter(10)
    );
    assert_eq!(
        commit_retry_step(5, &transient),
        CommitRetryDecision::RetryAfter(200)
    );
    assert_eq!(commit_retry_step(6, &transient), CommitRetryDecision::FailStream);
    let unprocessable: Result<(), ClientError> =
        Err(ClientError::CursorUnprocessable(b"x".to_vec()));
    assert_eq!(commit_retry_step(1, &unprocessable), CommitRetryDecision::DropCursor);
    let ok: Result<(), ClientError> = Ok(());
    assert_eq!(commit_retry_step(3, &ok), CommitRetryDecision::Done);
}

#[test]
fn the_lifecycle_never_comes_back_to_life() {
    let mut l = Lifecycle::new();
    assert!(l.running());
    assert!(!l.abort_requested());
    l.request_abort();
    assert!(l.running());
    assert!(l.abort_requested());
    l.stopped();
    assert!(!l.running());
    l.request_abort();
    assert!(!l.running());
}

#[test]
fn the_worker_handle_reports_its_subscription() {
    let mut w = NakadiWorker::new(SubscriptionId::from_bytes(b"sub-9".to_vec()));
    assert!(w.is_running());
    assert_eq!(w.subscription_id().as_bytes(), &b"sub-9".to_vec());
    w.stop();
    assert!(!w.is_running());
    assert_eq!(w.subscription_id().as_bytes(), &b"sub-9".to_vec());
}
