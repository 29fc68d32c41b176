//! The log with one writer at a time: a writer is taken from the log, appends
//! one record to the data, and is given back with the word to commit the
//! record or to abort it.

use vstd::prelude::*;
use crate::file::{AsyncBufFile, SeekFrom, resized};
use crate::index::{encode_marker, entries, marker_bytes, total};
use crate::index::lemma_entries_push;
use crate::storage::{recovered_data, recovered_index, scan_index, write_all};
use crate::storage::lemma_recovery_agrees;

verus! {

/// What it takes to commit a stream's writes.
pub trait Commiter {
    /// Whether committing syncs at all.
    spec fn syncs(&self) -> bool;

    /// Makes the contents of `file` durable, or leaves it to the system.
    fn commit<W: AsyncBufFile>(&mut self, file: &mut W) -> (r: Result<(), W::Error>)
        requires
            old(file).wf(),
        ensures
            final(self).syncs() == old(self).syncs(),
            final(file).wf(),
            final(file).reliable() == old(file).reliable(),
            old(file).reliable() ==> r is Ok,
            final(file).contents() == old(file).contents(),
            final(file).position() == old(file).position(),
            old(self).syncs() && r is Ok ==> final(file).synced() == final(file).contents(),
            !old(self).syncs() ==> r is Ok && final(file).synced() == old(file).synced(),
    ;
}

/// Commits without a sync. For tests that do not crash.
pub struct NoopCommiter {}

impl Commiter for NoopCommiter {
    open spec fn syncs(&self) -> bool {
        false
    }

    fn commit<W: AsyncBufFile>(&mut self, _file: &mut W) -> (r: Result<(), W::Error>) {
        Ok(())
    }
}

/// Commits with a sync of the data of the stream.
pub struct SyncDataCommiter {}

impl Commiter for SyncDataCommiter {
    open spec fn syncs(&self) -> bool {
        true
    }

    fn commit<W: AsyncBufFile>(&mut self, file: &mut W) -> (r: Result<(), W::Error>) {
        file.sync_data()
    }
}

/// A log of a data stream and a stream of the lengths of its records.
pub struct DoubleWAL<F: AsyncBufFile, T> {
    data_file: F,
    offsets_file: F,
    commiter: T,
}

/// The one writer of a `DoubleWAL`. It holds the log until the record is
/// committed or aborted.
pub struct DoubleWALWriter<F: AsyncBufFile, T> {
    data_rollback_pos: u64,
    offset_rollback_pos: u64,
    parent: DoubleWAL<F, T>,
}

impl<F: AsyncBufFile, T> DoubleWAL<F, T> {
    /// The bytes of the data stream.
    pub closed spec fn data(&self) -> Seq<u8> {
        self.data_file.contents()
    }

    /// The bytes of the stream of lengths.
    pub closed spec fn offsets(&self) -> Seq<u8> {
        self.offsets_file.contents()
    }

    /// What of the data stream is durable.
    pub closed spec fn data_synced(&self) -> Seq<u8> {
        self.data_file.synced()
    }

    /// What of the stream of lengths is durable.
    pub closed spec fn offsets_synced(&self) -> Seq<u8> {
        self.offsets_file.synced()
    }

    pub closed spec fn commiter(&self) -> T {
        self.commiter
    }

    /// Both streams are reliable.
    pub closed spec fn reliable(&self) -> bool {
        self.data_file.reliable() && self.offsets_file.reliable()
    }

    /// Both streams are well-formed. This holds after every operation.
    pub closed spec fn streams_wf(&self) -> bool {
        self.data_file.wf() && self.offsets_file.wf()
    }

    /// The log can be written to: both streams stand at their ends, and the
    /// stream of lengths is a whole number of markers.
    pub closed spec fn wf(&self) -> bool {
        &&& self.streams_wf()
        &&& self.data_file.position() == self.data_file.contents().len()
        &&& self.offsets_file.position() == self.offsets_file.contents().len()
        &&& self.offsets_file.contents().len() % 8 == 0
    }

    /// The two logs hold the same bytes, durable and not, and commit alike.
    pub open spec fn agrees(&self, other: Self) -> bool {
        &&& self.data() == other.data()
        &&& self.offsets() == other.offsets()
        &&& self.data_synced() == other.data_synced()
        &&& self.offsets_synced() == other.offsets_synced()
        &&& self.commiter() == other.commiter()
        &&& self.reliable() == other.reliable()
    }

    /// The committed records end where the data ends.
    pub open spec fn consistent(&self) -> bool {
        total(entries(self.offsets())) == self.data().len()
    }

    /// Opens a log over the two streams and recovers it as `SimpleFileWAL`
    /// does; both streams are synced, whatever the commiter.
    pub fn new(data_file: F, offsets_file: F, commiter: T) -> (r: Result<Self, F::Error>)
        requires
            data_file.wf(),
            offsets_file.wf(),
        ensures
            data_file.reliable() && offsets_file.reliable() ==> r is Ok,
            r is Ok ==> {
                &&& r->Ok_0.wf()
                &&& r->Ok_0.reliable() == (data_file.reliable() && offsets_file.reliable())
                &&& r->Ok_0.consistent()
                &&& r->Ok_0.commiter() == commiter
                &&& r->Ok_0.data() == recovered_data(data_file.contents(), offsets_file.contents())
                &&& r->Ok_0.offsets() == recovered_index(
                    data_file.contents(),
                    offsets_file.contents(),
                )
                &&& r->Ok_0.data_synced() == r->Ok_0.data()
                &&& r->Ok_0.offsets_synced() == r->Ok_0.offsets()
            },
    {
        let mut data_file = data_file;
        let mut offsets_file = offsets_file;
        let ghost data = data_file.contents();
        let ghost index = offsets_file.contents();
        let data_len = match data_file.seek(SeekFrom::End(0)) {
            Ok(len) => len,
            Err(e) => {
                return Err(e);
            },
        };
        match offsets_file.seek(SeekFrom::Start(0)) {
            Ok(_) => {},
            Err(e) => {
                return Err(e);
            },
        }
        let (offset_offset, data_committed_pos) = scan_index(&mut offsets_file, data_len);
        proof {
            lemma_recovery_agrees(data, index);
        }
        match cut_and_sync(&mut offsets_file, offset_offset) {
            Ok(_) => {},
            Err(e) => {
                return Err(e);
            },
        }
        match cut_and_sync(&mut data_file, data_committed_pos) {
            Ok(_) => {},
            Err(e) => {
                return Err(e);
            },
        }
        Ok(Self { data_file, offsets_file, commiter })
    }

    /// Takes the log apart into its data stream and its stream of lengths.
    pub fn into_files(self) -> (files: (F, F))
        ensures
            files.0 == self.data_file_of(),
            files.1 == self.offsets_file_of(),
    {
        (self.data_file, self.offsets_file)
    }

    /// The data stream itself.
    pub closed spec fn data_file_of(&self) -> F {
        self.data_file
    }

    /// The stream of lengths itself.
    pub closed spec fn offsets_file_of(&self) -> F {
        self.offsets_file
    }

    /// What the streams of a log hold.
    pub proof fn lemma_files(&self)
        ensures
            self.data_file_of().contents() == self.data(),
            self.offsets_file_of().contents() == self.offsets(),
            self.data_file_of().synced() == self.data_synced(),
            self.offsets_file_of().synced() == self.offsets_synced(),
            self.reliable() == (self.data_file_of().reliable() && self.offsets_file_of().reliable()),
            self.streams_wf() ==> self.data_file_of().wf() && self.offsets_file_of().wf(),
    {
    }

    /// Hands the log to a writer for one record, which notes where the two
    /// streams stand. Where a stream cannot say where it stands, the log
    /// comes back with the error.
    pub fn get_writer(self) -> (r: Result<DoubleWALWriter<F, T>, (Self, F::Error)>)
        requires
            self.wf(),
        ensures
            self.reliable() ==> r is Ok,
            match r {
                Ok(writer) => writer.wf() && writer.log().agrees(self) && writer.start_data()
                    == self.data(),
                Err((wal, _)) => wal.wf() && wal.agrees(self),
            },
    {
        let mut wal = self;
        let data_rollback_pos = match wal.data_file.seek(SeekFrom::Current(0)) {
            Ok(pos) => pos,
            Err(e) => {
                return Err((wal, e));
            },
        };
        let offset_rollback_pos = match wal.offsets_file.seek(SeekFrom::Current(0)) {
            Ok(pos) => pos,
            Err(e) => {
                return Err((wal, e));
            },
        };
        assert(wal.data().take(data_rollback_pos as int) =~= self.data());
        Ok(DoubleWALWriter { data_rollback_pos, offset_rollback_pos, parent: wal })
    }
}

/// Cuts `file` to `len` bytes, leaves it standing at its new end and syncs
/// it.
fn cut_and_sync<F: AsyncBufFile>(file: &mut F, len: u64) -> (r: Result<(), F::Error>)
    requires
        old(file).wf(),
    ensures
        final(file).wf(),
        final(file).reliable() == old(file).reliable(),
        old(file).reliable() && len <= old(file).contents().len() ==> r is Ok,
        r is Ok ==> final(file).contents() == resized(old(file).contents(), len as nat)
            && final(file).position() == len && final(file).synced() == final(file).contents(),
{
    match file.seek(SeekFrom::Start(len)) {
        Ok(_) => {},
        Err(e) => {
            return Err(e);
        },
    }
    match file.set_len(len) {
        Ok(_) => {},
        Err(e) => {
            return Err(e);
        },
    }
    file.sync_data()
}

/// Cuts `file` to `len` bytes and leaves it standing at its new end.
fn cut<F: AsyncBufFile>(file: &mut F, len: u64) -> (r: Result<(), F::Error>)
    requires
        old(file).wf(),
    ensures
        final(file).wf(),
        final(file).reliable() == old(file).reliable(),
        old(file).reliable() && len <= old(file).contents().len() ==> r is Ok,
        final(file).synced() == old(file).synced(),
        r is Ok ==> final(file).contents() == resized(old(file).contents(), len as nat)
            && final(file).position() == len,
{
    match file.seek(SeekFrom::Start(len)) {
        Ok(_) => {},
        Err(e) => {
            return Err(e);
        },
    }
    file.set_len(len)
}

impl<F: AsyncBufFile, T> DoubleWALWriter<F, T> {
    /// The log as the writer holds it now.
    pub closed spec fn log(&self) -> DoubleWAL<F, T> {
        self.parent
    }

    /// The data and the lengths as they stood when the writer was taken.
    pub closed spec fn start_data(&self) -> Seq<u8> {
        self.parent.data().take(self.data_rollback_pos as int)
    }

    /// The log under the writer is usable, and what was written lies behind
    /// the place that the writer noted.
    pub closed spec fn wf(&self) -> bool {
        &&& self.parent.wf()
        &&& self.data_rollback_pos <= self.parent.data().len()
        &&& self.offset_rollback_pos == self.parent.offsets().len()
    }

    /// Appends all of `buf` to the record. Where a write fails on the way,
    /// the part that went through before stays appended.
    pub fn write_all(&mut self, buf: &[u8]) -> (r: Result<(), F::Error>)
        requires
            old(self).wf(),
        ensures
            final(self).wf(),
            final(self).start_data() == old(self).start_data(),
            final(self).log().offsets() == old(self).log().offsets(),
            final(self).log().commiter() == old(self).log().commiter(),
            final(self).log().reliable() == old(self).log().reliable(),
            old(self).log().reliable() && old(self).log().data().len() + buf@.len() <= u64::MAX
                ==> r is Ok,
            r is Ok ==> final(self).log().data() == old(self).log().data() + buf@,
            r is Err ==> exists|n: int|
                0 <= n <= buf@.len() && final(self).log().data() == old(self).log().data()
                    + #[trigger] buf@.take(n),
    {
        let r = write_all(&mut self.parent.data_file, buf);
        assert(self.parent.data().take(self.data_rollback_pos as int) =~= old(
            self,
        ).parent.data().take(self.data_rollback_pos as int));
        r
    }

    /// Takes the record back: cuts both streams to where they stood when
    /// the writer was taken, and gives the log back.
    pub fn abort(self) -> (r: (DoubleWAL<F, T>, Result<(), F::Error>))
        requires
            self.wf(),
        ensures
            r.0.streams_wf(),
            r.0.reliable() == self.log().reliable(),
            self.log().reliable() ==> r.1 is Ok,
            r.0.commiter() == self.log().commiter(),
            r.1 is Ok ==> r.0.wf() && r.0.data() == self.start_data() && r.0.offsets()
                == self.log().offsets(),
    {
        let DoubleWALWriter { data_rollback_pos, offset_rollback_pos, parent } = self;
        let mut parent = parent;
        match cut(&mut parent.offsets_file, offset_rollback_pos) {
            Ok(_) => {},
            Err(e) => {
                return (parent, Err(e));
            },
        }
        let r = cut(&mut parent.data_file, data_rollback_pos);
        (parent, r)
    }
}

impl<F: AsyncBufFile, T: Commiter> DoubleWALWriter<F, T> {
    /// Commits the record: makes the data durable, appends the length of
    /// what was written to the stream of lengths, and makes that durable,
    /// each as the commiter has it. Gives the log back.
    pub fn commit(self) -> (r: (DoubleWAL<F, T>, Result<(), F::Error>))
        requires
            self.wf(),
        ensures
            r.0.streams_wf(),
            r.0.reliable() == self.log().reliable(),
            self.log().reliable() && self.log().offsets().len() + 8 <= u64::MAX ==> r.1 is Ok,
            r.0.data() == self.log().data(),
            self.log().offsets().is_prefix_of(r.0.offsets()),
            r.1 is Ok ==> {
                &&& r.0.wf()
                &&& r.0.offsets() == self.log().offsets() + marker_bytes(
                    (self.log().data().len() - self.start_data().len()) as u64,
                )
                &&& entries(r.0.offsets()) == entries(self.log().offsets()).push(
                    (self.log().data().len() - self.start_data().len()) as u64,
                )
                &&& self.log().commiter().syncs() ==> r.0.data_synced() == r.0.data()
                    && r.0.offsets_synced() == r.0.offsets()
            },
    {
        let DoubleWALWriter { data_rollback_pos, offset_rollback_pos: _, parent } = self;
        let mut parent = parent;
        match parent.commiter.commit(&mut parent.data_file) {
            Ok(_) => {},
            Err(e) => {
                return (parent, Err(e));
            },
        }
        let data_new_pos = match parent.data_file.seek(SeekFrom::Current(0)) {
            Ok(pos) => pos,
            Err(e) => {
                return (parent, Err(e));
            },
        };
        let mut marker: Vec<u8> = Vec::new();
        encode_marker(data_new_pos - data_rollback_pos, &mut marker);
        proof {
            lemma_entries_push(self.parent.offsets(), (data_new_pos - data_rollback_pos) as u64);
            assert(Seq::<u8>::empty() + marker_bytes((data_new_pos - data_rollback_pos) as u64)
                =~= marker_bytes((data_new_pos - data_rollback_pos) as u64));
        }
        match write_all(&mut parent.offsets_file, marker.as_slice()) {
            Ok(_) => {},
            Err(e) => {
                return (parent, Err(e));
            },
        }
        let r = parent.commiter.commit(&mut parent.offsets_file);
        (parent, r)
    }
}

} // verus!
