use std::sync::Arc;
use std::time::Duration;

use liblog::batch::{Admission, BatchLogConfig, BatchLogError, BatchLogWriter, Completion};
use liblog::file::{MemFile, MemFileError};
use liblog::index::{encode, replay};
use liblog::storage::{
    AsyncWriteWrapper, NoopFileSyncer, SimpleFileWAL, SimpleFileWALError, SyncDataFileSyncer,
    TrackingBufFile,
};

type Handle = AsyncWriteWrapper<TrackingBufFile<MemFile>>;
type Writer<S> = BatchLogWriter<MemFile, S, u32>;

fn payload(bytes: &'static [u8], value: u32) -> impl FnOnce(Handle) -> (Result<u32, MemFileError>, Handle) {
    move |mut w: Handle| {
        let r = w.write_all(bytes);
        (r.map(|_| value), w)
    }
}

fn config(record_count: usize) -> BatchLogConfig {
    BatchLogConfig { record_count, flush_timeout: Duration::from_millis(20) }
}

fn noop_writer(record_count: usize) -> Writer<NoopFileSyncer> {
    let wal = SimpleFileWAL::new(MemFile::new(), MemFile::new(), NoopFileSyncer::default()).unwrap();
    BatchLogWriter::new(wal, config(record_count))
}

fn ok(ticket: u64, value: u32) -> Completion<u32, MemFileError> {
    Completion { ticket, outcome: Ok(value) }
}

fn accepted(a: &Admission<u32, MemFileError>) -> u64 {
    *a.outcome.as_ref().expect("the command is in the queue")
}

#[test]
fn queue_never_holds_more_than_its_capacity() {
    let mut writer = noop_writer(2);
    let first = writer.command(payload(b"abc", 10));
    assert_eq!(accepted(&first), 0);
    assert_eq!(first.armed, Some(0));
    assert_eq!(first.cancelled, None);
    assert!(first.resolved.is_empty());
    assert_eq!(writer.queued(), 1);

    let second = writer.command(payload(b"defgh", 20));
    assert_eq!(accepted(&second), 1);
    assert_eq!(second.armed, None);
    assert_eq!(writer.queued(), 2);

    // The third command finds the queue full: the batch is committed before it is let in.
    let third = writer.command(payload(b"ij", 30));
    assert_eq!(accepted(&third), 2);
    assert_eq!(third.cancelled, Some(0));
    assert_eq!(third.resolved, vec![ok(0, 10), ok(1, 20)]);
    assert_eq!(third.armed, Some(2));
    assert_eq!(writer.queued(), 1);

    let (data, index) = writer.into_inner().into_files();
    assert_eq!(data.to_vec(), b"abcdefghij".to_vec());
    assert_eq!(index.to_vec(), encode(&[3, 5]));
}

#[test]
fn timer_commits_a_single_command() {
    let mut writer = noop_writer(8);
    let only = writer.command(payload(b"Hello!", 7));
    let timer = only.armed.expect("the first command of a batch arms the timer");
    assert_eq!(writer.queued(), 1);
    let (resolved, result) = writer.timer_fired(timer);
    assert_eq!(result, Ok(()));
    assert_eq!(resolved, vec![ok(accepted(&only), 7)]);
    assert_eq!(writer.queued(), 0);
    let (data, index) = writer.into_inner().into_files();
    assert_eq!(replay(&data.to_vec(), &index.to_vec()), vec![b"Hello!".to_vec()]);
}

#[test]
fn stale_timer_does_nothing() {
    let mut writer = noop_writer(1);
    let first = writer.command(payload(b"a", 1));
    let second = writer.command(payload(b"b", 2));
    assert_eq!(second.cancelled, first.armed);
    assert_eq!(second.resolved, vec![ok(0, 1)]);
    // The timer of the first batch runs out although it was cancelled.
    let (resolved, result) = writer.timer_fired(first.armed.unwrap());
    assert!(resolved.is_empty());
    assert_eq!(result, Ok(()));
    assert_eq!(writer.queued(), 1);
    // The timer of the second batch commits it; once it has, it does nothing more.
    let (resolved, _) = writer.timer_fired(second.armed.unwrap());
    assert_eq!(resolved, vec![ok(1, 2)]);
    let (resolved, _) = writer.timer_fired(second.armed.unwrap());
    assert!(resolved.is_empty());
}

#[test]
fn failed_commit_fails_the_whole_batch_with_one_error() {
    // The data stream carries out the five operations of recovery and three writes; the
    // sync of the commit is the ninth.
    let wal = SimpleFileWAL::new(
        MemFile::failing_after(Vec::new(), 8),
        MemFile::new(),
        SyncDataFileSyncer::default(),
    )
    .unwrap();
    let mut writer: Writer<SyncDataFileSyncer> = BatchLogWriter::new(wal, config(3));
    let a = writer.command(payload(b"abc", 1));
    let b = writer.command(payload(b"defgh", 2));
    let c = writer.command(payload(b"ij", 3));
    assert_eq!((accepted(&a), accepted(&b), accepted(&c)), (0, 1, 2));
    assert_eq!(writer.queued(), 3);

    let (resolved, result) = writer.timer_fired(a.armed.unwrap());
    let shared = match result {
        Err(BatchLogError::Nested(e)) => e,
        other => panic!("the commit should have failed: {:?}", other),
    };
    assert_eq!(*shared, SimpleFileWALError::DataFailure(MemFileError::Injected));
    assert_eq!(resolved.len(), 3);
    for (i, done) in resolved.iter().enumerate() {
        assert_eq!(done.ticket, i as u64);
        match &done.outcome {
            Err(BatchLogError::Nested(e)) => assert!(Arc::ptr_eq(e, &shared)),
            other => panic!("no command of the batch may succeed: {:?}", other),
        }
    }
    assert_eq!(writer.queued(), 0);
    let (_, index) = writer.into_inner().into_files();
    assert!(index.to_vec().is_empty());
}

#[test]
fn failed_commit_at_capacity_is_the_outcome_of_the_command_that_met_it() {
    // The index stream carries out the five operations of recovery; the write of the commit
    // is the sixth.
    let wal = SimpleFileWAL::new(
        MemFile::new(),
        MemFile::failing_after(Vec::new(), 5),
        SyncDataFileSyncer::default(),
    )
    .unwrap();
    let mut writer: Writer<SyncDataFileSyncer> = BatchLogWriter::new(wal, config(1));
    let first = writer.command(payload(b"abc", 1));
    assert_eq!(accepted(&first), 0);
    let second = writer.command(payload(b"never written", 2));
    assert_eq!(second.cancelled, Some(0));
    assert_eq!(second.armed, None);
    let failure = Arc::new(SimpleFileWALError::IndexFailure(MemFileError::Injected));
    assert_eq!(second.outcome, Err(BatchLogError::Nested(failure.clone())));
    assert_eq!(
        second.resolved,
        vec![Completion { ticket: 0, outcome: Err(BatchLogError::Nested(failure)) }]
    );
    let (data, _) = writer.into_inner().into_files();
    assert_eq!(data.to_vec(), b"abc".to_vec());
}

#[test]
fn failed_write_function_leaves_the_queue_as_it_was() {
    let mut writer = noop_writer(4);
    let first = writer.command(payload(b"abc", 1));
    let failing = |mut w: Handle| {
        let _ = w.write_all(b"half");
        (Err::<u32, MemFileError>(MemFileError::OutOfRange), w)
    };
    let second = writer.command(failing);
    assert_eq!(
        second.outcome,
        Err(BatchLogError::Nested(Arc::new(SimpleFileWALError::DataFailure(
            MemFileError::OutOfRange
        ))))
    );
    assert_eq!(second.armed, None);
    assert_eq!(second.cancelled, None);
    assert_eq!(writer.queued(), 1);
    let third = writer.command(payload(b"de", 3));
    assert_eq!(accepted(&third), 1);
    let (resolved, result) = writer.timer_fired(first.armed.unwrap());
    assert_eq!(result, Ok(()));
    assert_eq!(resolved, vec![ok(0, 1), ok(1, 3)]);
    let (data, index) = writer.into_inner().into_files();
    assert_eq!(replay(&data.to_vec(), &index.to_vec()), vec![b"abc".to_vec(), b"de".to_vec()]);
}

#[test]
fn rollback_that_fails_is_fatal() {
    // Four operations of recovery, then the write succeeds and the cut that takes it back
    // does not.
    let wal = SimpleFileWAL::new(
        MemFile::failing_after(Vec::new(), 5),
        MemFile::new(),
        NoopFileSyncer::default(),
    )
    .unwrap();
    let mut writer: Writer<NoopFileSyncer> = BatchLogWriter::new(wal, config(4));
    let failing = |mut w: Handle| {
        let _ = w.write_all(b"half");
        (Err::<u32, MemFileError>(MemFileError::WriteZero), w)
    };
    let r = writer.command(failing);
    assert_eq!(
        r.outcome,
        Err(BatchLogError::Nested(Arc::new(SimpleFileWALError::DataFatalFailure(
            MemFileError::WriteZero,
            MemFileError::Injected
        ))))
    );
}

#[test]
fn zero_record_count_takes_one_command() {
    let mut writer = noop_writer(0);
    let first = writer.command(payload(b"a", 1));
    assert_eq!(writer.queued(), 1);
    let second = writer.command(payload(b"b", 2));
    assert_eq!(second.resolved, vec![ok(accepted(&first), 1)]);
    assert_eq!(writer.queued(), 1);
}

#[test]
fn batched_payloads_replay_in_order() {
    let mut writer = noop_writer(2);
    let payloads: [&'static [u8]; 5] = [b"one", b"", b"three", b"4", b"fivefive"];
    let mut last_timer = None;
    for (i, p) in payloads.iter().enumerate() {
        let a = writer.command(payload(p, i as u32));
        assert_eq!(accepted(&a), i as u64);
        if a.armed.is_some() {
            last_timer = a.armed;
        }
    }
    let (resolved, _) = writer.timer_fired(last_timer.unwrap());
    assert_eq!(resolved, vec![ok(4, 4)]);
    let (data, index) = writer.into_inner().into_files();
    let expected: Vec<Vec<u8>> = payloads.iter().map(|p| p.to_vec()).collect();
    assert_eq!(replay(&data.to_vec(), &index.to_vec()), expected);
    assert_eq!(index.to_vec(), encode(&[3, 0, 5, 1, 8]));
}

#[test]
fn writer_without_tickets_takes_no_command() {
    let wal = SimpleFileWAL::new(MemFile::new(), MemFile::new(), NoopFileSyncer::default()).unwrap();
    let mut writer: Writer<NoopFileSyncer> = BatchLogWriter::resume(wal, config(2), u64::MAX - 1);
    let last = writer.command(payload(b"abc", 1));
    assert_eq!(accepted(&last), u64::MAX - 1);
    let none = writer.command(payload(b"never written", 2));
    assert_eq!(none.outcome, Err(BatchLogError::CantHappen { ticket: u64::MAX }));
    assert_eq!(none.armed, None);
    assert_eq!(none.cancelled, None);
    assert!(none.resolved.is_empty());
    assert_eq!(writer.queued(), 1);
    let (resolved, _) = writer.timer_fired(last.armed.unwrap());
    assert_eq!(resolved, vec![ok(u64::MAX - 1, 1)]);
    let (data, _) = writer.into_inner().into_files();
    assert_eq!(data.to_vec(), b"abc".to_vec());
}
