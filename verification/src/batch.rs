//! The writer that commits in batches. Commands append their payloads to the
//! data at once, but wait in a queue for the commit that makes them durable:
//! one sync and one append to the index for the whole batch, when the queue
//! is full or when its timer runs out.
//!
//! Waiting and timers are the caller's part. The writer says what is to be
//! done, a timer to arm or to cancel and signals to resolve, and is told when
//! a timer has run out.

use vstd::prelude::*;
use std::sync::Arc;
use std::time::Duration;
use crate::file::AsyncBufFile;
use crate::index::{records, total};
use crate::storage::{AsyncWriteWrapper, FileSyncer, SimpleFileWAL, SimpleFileWALError};
use crate::storage::TrackingBufFile;

verus! {

/// How a batched command failed.
#[derive(Debug, PartialEq, Eq)]
pub enum BatchLogError<E> {
    /// The log failed. Every command of a batch whose commit failed holds
    /// the same error.
    Nested(Arc<SimpleFileWALError<E>>),
    /// What cannot happen under correct use: the writer has run out of
    /// tickets, or the signal of this ticket was lost before it was
    /// resolved.
    CantHappen { ticket: u64 },
}

/// When the queue is flushed.
pub struct BatchLogConfig {
    /// The number of commands that the queue takes.
    pub record_count: usize,
    /// The longest that a command waits in a queue that does not fill up.
    pub flush_timeout: Duration,
}

/// A signal that has been resolved, and with what.
#[derive(Debug, PartialEq, Eq)]
pub struct Completion<T, E> {
    pub ticket: u64,
    pub outcome: Result<T, BatchLogError<E>>,
}

/// The commands that wait for their commit, oldest first.
struct Queue<F: AsyncBufFile, S: FileSyncer, T> {
    wal: SimpleFileWAL<F, S>,
    index_buf: Vec<u64>,
    data_buf: Vec<(T, u64)>,
    flusher: Option<u64>,
}

/// What a commit that succeeded resolves the signals of `pending` with: each
/// with the value of its own command.
pub open spec fn resolved_ok<T, E>(pending: Seq<(T, u64)>) -> Seq<Completion<T, E>> {
    Seq::new(pending.len(), |i: int| Completion { ticket: pending[i].1, outcome: Ok(pending[i].0) })
}

/// What a commit that failed resolves the signals of `pending` with: all of
/// them with the one error `e`.
pub open spec fn resolved_err<T, E>(
    pending: Seq<(T, u64)>,
    e: Arc<SimpleFileWALError<E>>,
) -> Seq<Completion<T, E>> {
    Seq::new(
        pending.len(),
        |i: int| Completion { ticket: pending[i].1, outcome: Err(BatchLogError::Nested(e)) },
    )
}

/// Empties `waiting` and gives out what it held, in reverse.
fn take_reversed<T>(waiting: &mut Vec<T>) -> (out: Vec<T>)
    ensures
        final(waiting)@.len() == 0,
        out@ == old(waiting)@.reverse(),
{
    let mut out: Vec<T> = Vec::new();
    loop
        invariant
            waiting@.len() + out@.len() == old(waiting)@.len(),
            waiting@ == old(waiting)@.take(waiting@.len() as int),
            forall|i: int|
                0 <= i < out@.len() ==> out@[i] == old(waiting)@[old(waiting)@.len() - 1 - i],
        ensures
            waiting@.len() == 0,
            out@.len() == old(waiting)@.len(),
            forall|i: int|
                0 <= i < out@.len() ==> out@[i] == old(waiting)@[old(waiting)@.len() - 1 - i],
        decreases waiting@.len(),
    {
        match waiting.pop() {
            Some(x) => {
                out.push(x);
            },
            None => {
                break ;
            },
        }
    }
    assert(out@ =~= old(waiting)@.reverse());
    out
}

impl<F: AsyncBufFile, S: FileSyncer, T> Queue<F, S, T> {
    fn new(wal: SimpleFileWAL<F, S>, capacity: usize) -> (queue: Self)
        ensures
            queue.wal == wal,
            queue.index_buf@.len() == 0,
            queue.data_buf@.len() == 0,
            queue.flusher is None,
    {
        Self {
            wal,
            index_buf: Vec::with_capacity(capacity),
            data_buf: Vec::with_capacity(capacity),
            flusher: None,
        }
    }

    /// Commits the whole queue in one pass and resolves every signal in it:
    /// with the value of its command where the commit succeeded, with the
    /// one error of the commit where it failed. The queue is empty
    /// afterwards either way.
    fn flush(&mut self) -> (r: (Vec<Completion<T, F::Error>>, Result<(), BatchLogError<F::Error>>))
        requires
            old(self).wal.wf(),
        ensures
            final(self).wal.streams_wf(),
            final(self).wal.reliable() == old(self).wal.reliable(),
            old(self).wal.reliable() && old(self).wal.index_bytes().len()
                + 8 * old(self).index_buf@.len() <= u64::MAX ==> r.1 is Ok,
            final(self).wal.syncer() == old(self).wal.syncer(),
            final(self).wal.data() == old(self).wal.data(),
            final(self).index_buf@.len() == 0,
            final(self).data_buf@.len() == 0,
            final(self).flusher == old(self).flusher,
            old(self).wal.index_bytes().is_prefix_of(final(self).wal.index_bytes()),
            match r.1 {
                Ok(_) => {
                    &&& final(self).wal.wf()
                    &&& final(self).wal.index() == old(self).wal.index() + old(self).index_buf@
                    &&& r.0@ == resolved_ok::<T, F::Error>(old(self).data_buf@)
                    &&& final(self).wal.syncer().syncs() ==> final(self).wal.data_synced()
                        == final(self).wal.data()
                            && final(self).wal.index_synced() == final(self).wal.index_bytes()
                },
                Err(BatchLogError::Nested(e)) => {
                    &&& r.0@ == resolved_err::<T, F::Error>(old(self).data_buf@, e)
                    &&& !(*e is DataFatalFailure)
                    &&& *e is DataFailure ==> final(self).wal.wf() && final(self).wal.index_bytes()
                        == old(self).wal.index_bytes()
                },
                Err(BatchLogError::CantHappen { .. }) => false,
            },
    {
        let indices_res = self.wal.indices(self.index_buf.as_slice());
        self.index_buf.clear();
        let mut rest = take_reversed(&mut self.data_buf);
        let ghost pending = old(self).data_buf@;
        let mut resolved: Vec<Completion<T, F::Error>> = Vec::new();
        match indices_res {
            Ok(_) => {
                loop
                    invariant
                        rest@.len() + resolved@.len() == pending.len(),
                        rest@ == pending.reverse().take(rest@.len() as int),
                        resolved@ == resolved_ok::<T, F::Error>(pending).take(
                            resolved@.len() as int,
                        ),
                    ensures
                        resolved@ == resolved_ok::<T, F::Error>(pending),
                    decreases rest@.len(),
                {
                    match rest.pop() {
                        Some((val, ticket)) => {
                            resolved.push(Completion { ticket, outcome: Ok(val) });
                            assert(resolved@ =~= resolved_ok::<T, F::Error>(pending).take(
                                resolved@.len() as int,
                            ));
                        },
                        None => {
                            assert(resolved@ =~= resolved_ok::<T, F::Error>(pending));
                            break ;
                        },
                    }
                }
                (resolved, Ok(()))
            },
            Err(e) => {
                let e = Arc::new(e);
                loop
                    invariant
                        rest@.len() + resolved@.len() == pending.len(),
                        rest@ == pending.reverse().take(rest@.len() as int),
                        resolved@ == resolved_err::<T, F::Error>(pending, e).take(
                            resolved@.len() as int,
                        ),
                    ensures
                        resolved@ == resolved_err::<T, F::Error>(pending, e),
                    decreases rest@.len(),
                {
                    match rest.pop() {
                        Some((_, ticket)) => {
                            resolved.push(
                                Completion {
                                    ticket,
                                    outcome: Err(BatchLogError::Nested(e.clone())),
                                },
                            );
                            assert(resolved@ =~= resolved_err::<T, F::Error>(pending, e).take(
                                resolved@.len() as int,
                            ));
                        },
                        None => {
                            assert(resolved@ =~= resolved_err::<T, F::Error>(pending, e));
                            break ;
                        },
                    }
                }
                (resolved, Err(BatchLogError::Nested(e)))
            },
        }
    }
}

/// What a command leaves for its caller to do, and how it went.
pub struct Admission<T, E> {
    /// The signals that were resolved to make room for the command, oldest
    /// first: the batch that was in the queue, where the queue was full.
    pub resolved: Vec<Completion<T, E>>,
    /// The timer to cancel: the one that was armed for that batch.
    pub cancelled: Option<u64>,
    /// The timer to arm, for the configured timeout. When it runs out,
    /// `timer_fired` is to be called with it.
    pub armed: Option<u64>,
    /// The ticket of the signal to wait for, where the command was taken
    /// into the queue; else why it was not.
    pub outcome: Result<u64, BatchLogError<E>>,
}

/// The writer that commits in batches.
pub struct BatchLogWriter<F: AsyncBufFile, S: FileSyncer, T> {
    queue: Queue<F, S, T>,
    config: BatchLogConfig,
    next_ticket: u64,
}

impl<F: AsyncBufFile, S: FileSyncer, T> BatchLogWriter<F, S, T> {
    /// The log under the writer.
    pub closed spec fn wal(&self) -> SimpleFileWAL<F, S> {
        self.queue.wal
    }

    /// The commands that wait for their commit, oldest first: the value of
    /// each and the ticket of its signal.
    pub closed spec fn pending(&self) -> Seq<(T, u64)> {
        self.queue.data_buf@
    }

    /// The lengths of the payloads of the commands that wait, oldest first.
    pub closed spec fn pending_sizes(&self) -> Seq<u64> {
        self.queue.index_buf@
    }

    /// The timer that is armed, if one is.
    pub closed spec fn armed(&self) -> Option<u64> {
        self.queue.flusher
    }

    /// The ticket that the next command gets.
    pub closed spec fn next_ticket(&self) -> u64 {
        self.next_ticket
    }

    /// The configuration.
    pub closed spec fn config(&self) -> BatchLogConfig {
        self.config
    }

    /// The number of commands that the queue takes: the configured count,
    /// and one where that is zero.
    pub open spec fn capacity(&self) -> int {
        if self.config().record_count == 0 {
            1
        } else {
            self.config().record_count as int
        }
    }

    /// The payloads in the data, committed or waiting, in the order of
    /// their commands.
    pub open spec fn records(&self) -> Seq<Seq<u8>> {
        records(self.wal().data(), self.wal().index() + self.pending_sizes())
    }

    /// The writer can take commands. The queue is within its capacity; a
    /// timer is armed exactly while a command waits; the tickets in the
    /// queue rise and are all spent; and the data holds the committed
    /// records and then the payloads that wait, and nothing else.
    pub open spec fn wf(&self) -> bool {
        &&& self.wal().wf()
        &&& self.pending().len() == self.pending_sizes().len()
        &&& self.pending().len() <= self.capacity()
        &&& self.armed() is Some <==> self.pending().len() > 0
        &&& self.armed() is Some ==> self.armed()->0 < self.next_ticket()
        &&& forall|i: int|
            0 <= i < self.pending().len() ==> (#[trigger] self.pending()[i]).1 < self.next_ticket()
        &&& forall|i: int, j: int|
            0 <= i < j < self.pending().len() ==> (#[trigger] self.pending()[i]).1 < (
            #[trigger] self.pending()[j]).1
        &&& total(self.wal().index() + self.pending_sizes()) == self.wal().data().len()
    }

    /// A writer with an empty queue over a log as opening it leaves it.
    pub fn new(wal: SimpleFileWAL<F, S>, config: BatchLogConfig) -> (writer: Self)
        ensures
            writer.wal() == wal,
            writer.config() == config,
            writer.pending().len() == 0,
            writer.pending_sizes().len() == 0,
            writer.armed() is None,
            writer.next_ticket() == 0,
            wal.wf() && wal.consistent() ==> writer.wf(),
    {
        let capacity = if config.record_count == 0 {
            1
        } else {
            config.record_count
        };
        let writer = BatchLogWriter { queue: Queue::new(wal, capacity), config, next_ticket: 0 };
        assert(wal.index() + writer.pending_sizes() =~= wal.index());
        writer
    }

    /// A writer with an empty queue that goes on with the tickets of a
    /// writer before it, so that a signal of that writer which is still
    /// waited for is not taken for one of this.
    pub fn resume(wal: SimpleFileWAL<F, S>, config: BatchLogConfig, next_ticket: u64) -> (writer:
        Self)
        ensures
            writer.wal() == wal,
            writer.config() == config,
            writer.pending().len() == 0,
            writer.pending_sizes().len() == 0,
            writer.armed() is None,
            writer.next_ticket() == next_ticket,
            wal.wf() && wal.consistent() ==> writer.wf(),
    {
        let mut writer = Self::new(wal, config);
        writer.next_ticket = next_ticket;
        assert(wal.index() + writer.pending_sizes() =~= wal.index());
        writer
    }

    /// Gives the log back. What waited in the queue is left uncommitted.
    pub fn into_inner(self) -> (wal: SimpleFileWAL<F, S>)
        ensures
            wal == self.wal(),
    {
        self.queue.wal
    }

    /// The number of commands that wait.
    pub fn queued(&self) -> (n: usize)
        ensures
            n == self.pending().len(),
    {
        self.queue.data_buf.len()
    }

    fn limit(&self) -> (n: usize)
        ensures
            n == self.capacity(),
    {
        if self.config.record_count == 0 {
            1
        } else {
            self.config.record_count
        }
    }

    /// The streams of the log are reliable, and the index has room for the
    /// markers of the commands that wait.
    pub open spec fn room(&self) -> bool {
        self.wal().reliable() && self.wal().index_bytes().len() + 8 * self.pending_sizes().len()
            <= u64::MAX
    }

    /// Whether the queue is full, so that the next command has it committed
    /// before it is let in.
    pub open spec fn full(&self) -> bool {
        self.pending().len() >= self.capacity()
    }

    /// Takes one command into the queue: `serializer` appends its payload
    /// to the data, and the value it gives waits, under a fresh ticket, for
    /// the commit of its batch.
    ///
    /// Where the queue is full, it is committed first, so that it never
    /// holds more than its capacity: its timer is cancelled and its signals
    /// are resolved, and where that commit fails, its error is also the
    /// outcome of this command, whose `serializer` is then not run. Where no
    /// timer is armed once the command is in the queue, one is to be armed.
    pub fn command<I>(&mut self, serializer: I) -> (r: Admission<T, F::Error>) where
        I: FnOnce(AsyncWriteWrapper<TrackingBufFile<F>>) -> (
            Result<T, F::Error>,
            AsyncWriteWrapper<TrackingBufFile<F>>,
        ),

        requires
            old(self).wf(),
            forall|w: AsyncWriteWrapper<TrackingBufFile<F>>|
                w.wf() && w@ == old(self).wal().data() ==> serializer.requires((w,)),
            forall|
                w: AsyncWriteWrapper<TrackingBufFile<F>>,
                out: (Result<T, F::Error>, AsyncWriteWrapper<TrackingBufFile<F>>),
            |
                w.wf() && w@ == old(self).wal().data() && serializer.ensures((w,), out)
                    ==> out.1.extends(w),
        ensures
            final(self).wal().streams_wf(),
            final(self).wal().reliable() == old(self).wal().reliable(),
            // On reliable streams with room in the index, only the write function can fail.
            old(self).room() && old(self).next_ticket() < u64::MAX && r.outcome is Err ==> {
                &&& final(self).wf()
                &&& final(self).wal().data() == old(self).wal().data()
                &&& r.outcome->Err_0 is Nested
                &&& *r.outcome->Err_0->Nested_0 is DataFailure
                &&& exists|
                    w0: AsyncWriteWrapper<TrackingBufFile<F>>,
                    w1: AsyncWriteWrapper<TrackingBufFile<F>>,
                |
                    w0.wf() && w0@ == old(self).wal().data() && serializer.ensures(
                        (w0,),
                        (Err(r.outcome->Err_0->Nested_0.cause()), w1),
                    )
            },
            final(self).config() == old(self).config(),
            final(self).pending().len() <= final(self).capacity(),
            old(self).wal().data().is_prefix_of(final(self).wal().data()),
            // No ticket is left: nothing happens.
            old(self).next_ticket() == u64::MAX ==> *final(self) == *old(self) && r.resolved@.len()
                == 0 && r.cancelled is None && r.armed is None && r.outcome == Err::<
                u64,
                BatchLogError<F::Error>,
            >(BatchLogError::CantHappen { ticket: u64::MAX }),
            // The queue was full: its batch is committed, and resolved one way or the other.
            old(self).next_ticket() < u64::MAX && old(self).full() ==> {
                &&& r.cancelled == old(self).armed()
                &&& r.resolved@ == resolved_ok::<T, F::Error>(old(self).pending()) || exists|
                    e: Arc<SimpleFileWALError<F::Error>>,
                |
                    r.resolved@ == resolved_err::<T, F::Error>(old(self).pending(), e) && r.outcome
                        == Err::<u64, BatchLogError<F::Error>>(BatchLogError::Nested(e))
            },
            old(self).next_ticket() < u64::MAX && !old(self).full() ==> r.cancelled is None
                && r.resolved@.len() == 0,
            // The command is in the queue.
            r.outcome is Ok ==> {
                &&& final(self).wf()
                &&& r.outcome->Ok_0 == old(self).next_ticket()
                &&& final(self).next_ticket() == old(self).next_ticket() + 1
                &&& final(self).pending().len() > 0
                &&& final(self).pending().last().1 == r.outcome->Ok_0
                &&& final(self).pending().drop_last() == (if old(self).full() {
                    Seq::<(T, u64)>::empty()
                } else {
                    old(self).pending()
                })
                &&& final(self).pending_sizes().last() == final(self).wal().data().len()
                    - old(self).wal().data().len()
                &&& final(self).records() == old(self).records().push(
                    final(self).wal().data().skip(old(self).wal().data().len() as int),
                )
                &&& exists|
                    w0: AsyncWriteWrapper<TrackingBufFile<F>>,
                    w1: AsyncWriteWrapper<TrackingBufFile<F>>,
                |
                    w0.wf() && w0@ == old(self).wal().data() && w1@ == final(self).wal().data()
                        && serializer.ensures((w0,), (Ok(final(self).pending().last().0), w1))
                &&& r.armed == (if old(self).full() || old(self).armed() is None {
                    Some(r.outcome->Ok_0)
                } else {
                    None::<u64>
                })
                &&& final(self).armed() == (if old(self).full() || old(self).armed() is None {
                    Some(r.outcome->Ok_0)
                } else {
                    old(self).armed()
                })
                &&& old(self).full() ==> final(self).wal().index() == old(self).wal().index()
                    + old(self).pending_sizes()
                &&& !old(self).full() ==> final(self).wal().index() == old(self).wal().index()
            },
            // The command is not in the queue.
            r.outcome is Err && old(self).next_ticket() < u64::MAX ==> {
                &&& r.armed is None
                &&& final(self).next_ticket() == old(self).next_ticket()
                &&& final(self).pending() == (if old(self).full() {
                    Seq::<(T, u64)>::empty()
                } else {
                    old(self).pending()
                })
                &&& final(self).armed() == (if old(self).full() {
                    None::<u64>
                } else {
                    old(self).armed()
                })
            },
    {
        let mut resolved: Vec<Completion<T, F::Error>> = Vec::new();
        let mut cancelled: Option<u64> = None;
        proof {
            self.queue.wal.lemma_wf_streams();
        }
        if self.next_ticket == u64::MAX {
            return Admission {
                resolved,
                cancelled,
                armed: None,
                outcome: Err(BatchLogError::CantHappen { ticket: u64::MAX }),
            };
        }
        if self.queue.index_buf.len() >= self.limit() {
            // The queue is full and has to be committed. Its timer goes first.
            cancelled = self.queue.flusher.take();
            let (done, flushed) = self.queue.flush();
            resolved = done;
            match flushed {
                Ok(_) => {},
                Err(e) => {
                    return Admission { resolved, cancelled, armed: None, outcome: Err(e) };
                },
            }
            assert(self.wal().index() + self.pending_sizes() =~= old(self).wal().index()
                + old(self).pending_sizes());
        }
        // From here on the queue has room.
        let ghost before = *self;
        proof {
            self.queue.wal.lemma_lease();
        }
        let (pos, val) = match self.queue.wal.command(serializer) {
            Ok(done) => done,
            Err(e) => {
                return Admission {
                    resolved,
                    cancelled,
                    armed: None,
                    outcome: Err(BatchLogError::Nested(Arc::new(e))),
                };
            },
        };
        let ticket = self.next_ticket;
        self.next_ticket = self.next_ticket + 1;
        self.queue.index_buf.push(pos);
        self.queue.data_buf.push((val, ticket));
        let mut armed: Option<u64> = None;
        if self.queue.flusher.is_none() {
            // Something waits now, so a timer has to run.
            self.queue.flusher = Some(ticket);
            armed = Some(ticket);
        }
        proof {
            let data = before.wal().data();
            let written = self.wal().data().skip(data.len() as int);
            let sizes = before.wal().index() + before.pending_sizes();
            assert(data + written =~= self.wal().data());
            crate::index::lemma_records_push(data, sizes, written);
            assert(self.wal().index() + self.pending_sizes() =~= sizes.push(pos));
            assert(self.pending().drop_last() =~= before.pending());
            before.wal().lemma_lease();
            self.wal().lemma_lease();
            let w0 = before.wal().lease();
            let w1 = self.wal().lease();
            assert(w0.wf() && w0@ == old(self).wal().data() && w1@ == self.wal().data()
                && serializer.ensures((w0,), (Ok(self.pending().last().0), w1)));
        }
        Admission { resolved, cancelled, armed, outcome: Ok(ticket) }
    }

    /// A timer has run out. Where it is the timer that is armed, the queue
    /// is committed in one pass and every signal in it is resolved, all
    /// with their values or all with the one error of the commit. A timer
    /// that was cancelled, or whose batch is committed already, does
    /// nothing.
    pub fn timer_fired(&mut self, timer: u64) -> (r: (
        Vec<Completion<T, F::Error>>,
        Result<(), BatchLogError<F::Error>>,
    ))
        requires
            old(self).wf(),
        ensures
            final(self).wal().streams_wf(),
            final(self).wal().reliable() == old(self).wal().reliable(),
            // On reliable streams with room in the index the commit succeeds.
            old(self).room() ==> r.1 is Ok,
            final(self).config() == old(self).config(),
            final(self).next_ticket() == old(self).next_ticket(),
            final(self).wal().data() == old(self).wal().data(),
            old(self).armed() != Some(timer) ==> *final(self) == *old(self) && r.0@.len() == 0
                && r.1 is Ok,
            old(self).armed() == Some(timer) ==> {
                &&& final(self).armed() is None
                &&& final(self).pending().len() == 0
                &&& final(self).pending_sizes().len() == 0
                &&& match r.1 {
                    Ok(_) => {
                        &&& final(self).wf()
                        &&& final(self).wal().consistent()
                        &&& final(self).wal().index() == old(self).wal().index() + old(self).pending_sizes()
                        &&& final(self).records() == old(self).records()
                        &&& r.0@ == resolved_ok::<T, F::Error>(old(self).pending())
                        &&& final(self).wal().syncer().syncs() ==> final(self).wal().data_synced()
                            == final(self).wal().data()
                    },
                    Err(BatchLogError::Nested(e)) => r.0@ == resolved_err::<T, F::Error>(
                        old(self).pending(),
                        e,
                    ),
                    Err(BatchLogError::CantHappen { .. }) => false,
                }
            },
    {
        let due = match self.queue.flusher {
            Some(armed) => armed == timer,
            None => false,
        };
        proof {
            self.queue.wal.lemma_wf_streams();
        }
        if !due {
            return (Vec::new(), Ok(()));
        }
        let r = self.queue.flush();
        self.queue.flusher = None;
        proof {
            if r.1 is Ok {
                assert(self.wal().index() + self.pending_sizes() =~= old(self).wal().index()
                    + old(self).pending_sizes());
            }
        }
        r
    }
}

/// The index describes a prefix of the data: the committed records of a
/// well-formed writer end inside the data, and what lies behind them is the
/// payloads of the commands that wait.
pub proof fn lemma_index_describes_prefix<F: AsyncBufFile, S: FileSyncer, T>(
    writer: BatchLogWriter<F, S, T>,
)
    requires
        writer.wf(),
    ensures
        0 <= total(writer.wal().index()) <= writer.wal().data().len(),
        writer.wal().data().len() - total(writer.wal().index()) == total(writer.pending_sizes()),
{
    crate::index::lemma_total_append(writer.wal().index(), writer.pending_sizes());
    crate::index::lemma_total_append(Seq::empty(), writer.wal().index());
}

/// Every signal is resolved once. The tickets of the commands that wait
/// are all different and all given out already; a commit resolves exactly
/// the signals of the queue, each once, and empties the queue; and a ticket
/// that is given out later is none of them.
pub proof fn lemma_tickets_differ<F: AsyncBufFile, S: FileSyncer, T>(
    writer: BatchLogWriter<F, S, T>,
    i: int,
    j: int,
)
    requires
        writer.wf(),
        0 <= i < writer.pending().len(),
        0 <= j < writer.pending().len(),
        i != j,
    ensures
        writer.pending()[i].1 != writer.pending()[j].1,
        writer.pending()[i].1 < writer.next_ticket(),
        resolved_ok::<T, F::Error>(writer.pending())[i].ticket != resolved_ok::<T, F::Error>(
            writer.pending(),
        )[j].ticket,
{
    if i < j {
        assert(writer.pending()[i].1 < writer.pending()[j].1);
    } else {
        assert(writer.pending()[j].1 < writer.pending()[i].1);
    }
}

} // verus!
