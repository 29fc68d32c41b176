//! The log itself: a data stream that holds the payloads end to end, an
//! index stream that holds the length of each committed record, the recovery
//! that makes the two agree when the log is opened, and the writer that
//! commits every command at once.

use vstd::prelude::*;
use crate::file::{AsyncBufFile, SeekFrom, resized};
use crate::index::{boundary, encoded, entries, marker_bytes, total, valid_count};
use crate::index::{lemma_boundary_monotone, lemma_boundary_prefix, lemma_entries_append};
use crate::index::{lemma_entries_push, lemma_entries_take, lemma_valid_count_unique};

verus! {

/// A stream that keeps count of its own position, so that asking for it
/// costs no call into the stream below and cannot fail.
pub struct TrackingBufFile<F: AsyncBufFile> {
    nested: F,
    pos: u64,
}

impl<F: AsyncBufFile> TrackingBufFile<F> {
    /// Takes over `file` at the position it stands at.
    pub fn new(file: F) -> (r: Result<Self, F::Error>)
        requires
            file.wf(),
        ensures
            file.reliable() ==> r is Ok,
            r is Ok ==> r->Ok_0.wf() && r->Ok_0.contents() == file.contents()
                && r->Ok_0.position() == file.position() && r->Ok_0.synced() == file.synced()
                && r->Ok_0.reliable() == file.reliable(),
    {
        let mut file = file;
        match file.seek(SeekFrom::Current(0)) {
            Ok(pos) => Ok(TrackingBufFile { nested: file, pos }),
            Err(e) => Err(e),
        }
    }

    /// The position, from the count.
    pub fn pos(&self) -> (pos: u64)
        requires
            self.wf(),
        ensures
            pos == self.position(),
    {
        self.pos
    }

    /// Gives the stream below back.
    pub fn into_inner(self) -> (file: F)
        requires
            self.wf(),
        ensures
            file.wf(),
            file.contents() == self.contents(),
            file.position() == self.position(),
            file.synced() == self.synced(),
            file.reliable() == self.reliable(),
    {
        self.nested
    }

    /// The stream below.
    pub fn get_ref(&self) -> (file: &F)
        requires
            self.wf(),
        ensures
            file.wf(),
            file.contents() == self.contents(),
            file.position() == self.position(),
            file.synced() == self.synced(),
            file.reliable() == self.reliable(),
    {
        &self.nested
    }
}

impl<F: AsyncBufFile> AsyncBufFile for TrackingBufFile<F> {
    type Error = F::Error;

    closed spec fn wf(&self) -> bool {
        self.nested.wf() && self.pos == self.nested.position()
    }

    closed spec fn contents(&self) -> Seq<u8> {
        self.nested.contents()
    }

    closed spec fn position(&self) -> u64 {
        self.nested.position()
    }

    closed spec fn synced(&self) -> Seq<u8> {
        self.nested.synced()
    }

    closed spec fn reliable(&self) -> bool {
        self.nested.reliable()
    }

    fn write(&mut self, buf: &[u8]) -> (r: Result<usize, F::Error>) {
        match self.nested.write(buf) {
            Ok(n) => {
                self.pos = self.pos + n as u64;
                Ok(n)
            },
            Err(e) => Err(e),
        }
    }

    open spec fn write_zero_error() -> F::Error {
        F::write_zero_error()
    }

    fn write_zero() -> (e: F::Error) {
        F::write_zero()
    }

    fn sync_data(&mut self) -> (r: Result<(), F::Error>) {
        self.nested.sync_data()
    }

    fn seek(&mut self, from: SeekFrom) -> (r: Result<u64, F::Error>) {
        match self.nested.seek(from) {
            Ok(newpos) => {
                self.pos = newpos;
                Ok(newpos)
            },
            Err(e) => Err(e),
        }
    }

    /// Never fails.
    fn tell(&mut self) -> (r: Result<u64, F::Error>)
        ensures
            r is Ok,
            *final(self) == *old(self),
    {
        Ok(self.pos)
    }

    fn set_len(&mut self, len: u64) -> (r: Result<(), F::Error>) {
        self.nested.set_len(len)
    }

    fn read_u64(&mut self) -> (r: Option<u64>) {
        let r = self.nested.read_u64();
        if r.is_some() {
            self.pos = self.pos + 8;
        }
        r
    }
}

/// The handle that a write function gets: a stream that can only be
/// appended to. Seeking and cutting stay with the log.
pub struct AsyncWriteWrapper<W: AsyncBufFile>(pub(crate) W);

impl<W: AsyncBufFile> AsyncWriteWrapper<W> {
    /// The bytes of the stream under the handle.
    pub closed spec fn view(&self) -> Seq<u8> {
        self.0.contents()
    }

    /// What of the stream under the handle is durable.
    pub closed spec fn synced(&self) -> Seq<u8> {
        self.0.synced()
    }

    /// No write through the handle fails while the stream has room.
    pub closed spec fn reliable(&self) -> bool {
        self.0.reliable()
    }

    /// The stream under the handle is well-formed and stands at its end.
    pub closed spec fn wf(&self) -> bool {
        self.0.wf() && self.0.position() == self.0.contents().len()
    }

    /// This handle is what `from` became by appending.
    pub open spec fn extends(&self, from: Self) -> bool {
        &&& self.wf()
        &&& from@.is_prefix_of(self@)
        &&& self.synced() == from.synced()
        &&& self.reliable() == from.reliable()
    }

    /// Appends some leading part of `buf` and says how many bytes that was.
    pub fn write(&mut self, buf: &[u8]) -> (r: Result<usize, W::Error>)
        requires
            old(self).wf(),
        ensures
            final(self).extends(*old(self)),
            // On a reliable stream with room the write goes through, and makes progress.
            old(self).reliable() && old(self)@.len() + buf@.len() <= u64::MAX ==> r is Ok && (
            buf@.len() > 0 ==> r->Ok_0 > 0),
            r is Err ==> final(self)@ == old(self)@,
            r is Ok ==> r->Ok_0 <= buf@.len() && final(self)@ == old(self)@ + buf@.take(
                r->Ok_0 as int,
            ),
    {
        self.0.write(buf)
    }

    /// Appends all of `buf`. Where a write fails on the way, the part that
    /// went through before stays appended.
    pub fn write_all(&mut self, buf: &[u8]) -> (r: Result<(), W::Error>)
        requires
            old(self).wf(),
        ensures
            final(self).extends(*old(self)),
            old(self).reliable() && old(self)@.len() + buf@.len() <= u64::MAX ==> r is Ok,
            r is Ok ==> final(self)@ == old(self)@ + buf@,
            r is Err ==> exists|n: int|
                0 <= n <= buf@.len() && final(self)@ == old(self)@ + #[trigger] buf@.take(n),
    {
        write_all(&mut self.0, buf)
    }
}

/// Appends all of `buf` to a stream that stands at its end. Where a write
/// fails on the way, the part that went through before stays appended.
pub fn write_all<W: AsyncBufFile>(file: &mut W, buf: &[u8]) -> (r: Result<(), W::Error>)
    requires
        old(file).wf(),
        old(file).position() == old(file).contents().len(),
    ensures
        final(file).wf(),
        final(file).position() == final(file).contents().len(),
        final(file).synced() == old(file).synced(),
        final(file).reliable() == old(file).reliable(),
        old(file).reliable() && old(file).contents().len() + buf@.len() <= u64::MAX ==> r is Ok,
        r is Ok ==> final(file).contents() == old(file).contents() + buf@,
        r is Err ==> exists|n: int|
            0 <= n <= buf@.len() && final(file).contents() == old(file).contents()
                + #[trigger] buf@.take(n),
{
    let mut done: usize = 0;
    while done < buf.len()
        invariant
            done <= buf@.len(),
            file.wf(),
            file.position() == file.contents().len(),
            file.synced() == old(file).synced(),
            file.reliable() == old(file).reliable(),
            file.contents() == old(file).contents() + buf@.take(done as int),
        decreases buf@.len() - done,
    {
        let rest = vstd::slice::slice_subrange(buf, done, buf.len());
        match file.write(rest) {
            Ok(n) => {
                if n == 0 {
                    return Err(W::write_zero());
                }
                assert(buf@.take(done as int) + rest@.take(n as int) =~= buf@.take(done + n));
                done = done + n;
            },
            Err(e) => {
                return Err(e);
            },
        }
    }
    assert(buf@.take(done as int) =~= buf@);
    Ok(())
}

/// The durability policy: what it takes to make a stream's writes durable.
pub trait FileSyncer {
    /// Whether this policy syncs at all.
    spec fn syncs(&self) -> bool;

    /// Makes the contents of `file` durable, or leaves it to the system.
    /// A policy that does not sync never fails and does not touch the file.
    fn sync<W: AsyncBufFile>(&self, file: &mut W) -> (r: Result<(), W::Error>)
        requires
            old(file).wf(),
        ensures
            final(file).wf(),
            final(file).reliable() == old(file).reliable(),
            old(file).reliable() ==> r is Ok,
            final(file).contents() == old(file).contents(),
            final(file).position() == old(file).position(),
            self.syncs() && r is Ok ==> final(file).synced() == final(file).contents(),
            !self.syncs() ==> r is Ok && final(file).synced() == old(file).synced(),
    ;
}

/// Leaves durability to the system's cache. For tests and measurements.
pub struct NoopFileSyncer {}

impl FileSyncer for NoopFileSyncer {
    open spec fn syncs(&self) -> bool {
        false
    }

    fn sync<W: AsyncBufFile>(&self, _file: &mut W) -> (r: Result<(), W::Error>) {
        Ok(())
    }
}

impl Default for NoopFileSyncer {
    fn default() -> (s: Self)
        ensures
            !s.syncs(),
    {
        NoopFileSyncer {  }
    }
}

/// Writes through what is buffered and syncs the data to the device.
pub struct SyncDataFileSyncer {}

impl FileSyncer for SyncDataFileSyncer {
    open spec fn syncs(&self) -> bool {
        true
    }

    fn sync<W: AsyncBufFile>(&self, file: &mut W) -> (r: Result<(), W::Error>) {
        file.sync_data()
    }
}

impl Default for SyncDataFileSyncer {
    fn default() -> (s: Self)
        ensures
            s.syncs(),
    {
        SyncDataFileSyncer {  }
    }
}

/// Cuts `file` to `len` bytes, leaves it standing at its new end, and makes
/// the cut durable as `sync` has it.
pub fn trim_log<W: AsyncBufFile, S: FileSyncer>(file: &mut W, len: u64, sync: &S) -> (r: Result<
    (),
    W::Error,
>)
    requires
        old(file).wf(),
    ensures
        final(file).wf(),
        final(file).reliable() == old(file).reliable(),
        old(file).reliable() && len <= old(file).contents().len() ==> r is Ok,
        r is Ok ==> final(file).contents() == resized(old(file).contents(), len as nat)
            && final(file).position() == len,
        r is Ok && sync.syncs() ==> final(file).synced() == final(file).contents(),
        r is Ok && !sync.syncs() ==> final(file).synced() == old(file).synced(),
        r is Err ==> final(file).contents() == old(file).contents() || final(file).contents()
            == resized(old(file).contents(), len as nat),
{
    match file.seek(SeekFrom::Start(len)) {
        Ok(_) => {},
        Err(e) => {
            return Err(e);
        },
    }
    match file.set_len(len) {
        Ok(_) => {},
        Err(e) => {
            return Err(e);
        },
    }
    sync.sync(file)
}

/// Reads the index from where it stands, which is its start, and finds where
/// the committed part of a log ends whose data stream is `data_len` bytes
/// long: the end, in the index, of the last entry that stays, and the end, in
/// the data, of its record. An entry stays while the records up to it lie
/// wholly inside the data; the first that does not ends the reading, and so
/// does the end of the index or an entry that is cut short.
pub fn scan_index<F: AsyncBufFile>(index_file: &mut F, data_len: u64) -> (r: (u64, u64))
    requires
        old(index_file).wf(),
        old(index_file).position() == 0,
    ensures
        final(index_file).wf(),
        final(index_file).reliable() == old(index_file).reliable(),
        final(index_file).contents() == old(index_file).contents(),
        final(index_file).synced() == old(index_file).synced(),
        r.0 == 8 * valid_count(entries(old(index_file).contents()), data_len as int),
        r.1 == boundary(
            entries(old(index_file).contents()),
            valid_count(entries(old(index_file).contents()), data_len as int),
        ),
{
    let ghost index = index_file.contents();
    let ghost index_synced = index_file.synced();
    let ghost reliable = index_file.reliable();
    let ghost sizes = entries(index);
    let mut data_committed_pos: u64 = 0;
    // The end of the last entry that is known to stay.
    let mut offset_offset: u64 = 0;
    let ghost mut kept: int = 0;
    loop
        invariant_except_break
            index_file.position() == offset_offset,
        invariant
            index_file.wf(),
            index_file.reliable() == reliable,
            index_file.contents() == index,
            index_file.synced() == index_synced,
            sizes == entries(index),
            0 <= kept,
            offset_offset == 8 * kept,
            offset_offset <= index.len(),
            data_committed_pos == boundary(sizes, kept),
            data_committed_pos <= data_len,
        ensures
            kept == valid_count(sizes, data_len as int),
            offset_offset == 8 * kept,
            data_committed_pos == boundary(sizes, kept),
            index_file.wf(),
            index_file.reliable() == reliable,
            index_file.contents() == index,
            index_file.synced() == index_synced,
        decreases index.len() - offset_offset,
    {
        let data_size: u64 = match index_file.read_u64() {
            Some(n) => n,
            None => {
                proof {
                    lemma_valid_count_unique(sizes, data_len as int, kept);
                }
                break ;
            },
        };
        if data_size <= data_len - data_committed_pos {
            data_committed_pos = data_committed_pos + data_size;
            offset_offset = offset_offset + crate::index::MARKER_WIDTH;
            proof {
                kept = kept + 1;
            }
        } else {
            proof {
                lemma_valid_count_unique(sizes, data_len as int, kept);
            }
            break ;
        }
    }
    (offset_offset, data_committed_pos)
}

/// How an operation on the log failed: which stream it was, and, for the
/// data stream, whether the log could take back what had been written.
#[derive(Debug, PartialEq, Eq)]
pub enum SimpleFileWALError<E> {
    /// The data stream failed; the log holds what it held before.
    DataFailure(E),
    /// The index stream failed.
    IndexFailure(E),
    /// Writing the data failed with the first error and taking it back
    /// failed with the second. The log is not to be used any further.
    DataFatalFailure(E, E),
}

impl<E> SimpleFileWALError<E> {
    /// The error that set the failure off: for a failure that could not be
    /// taken back, the first of the two.
    pub open spec fn cause(self) -> E {
        match self {
            SimpleFileWALError::DataFailure(e) => e,
            SimpleFileWALError::IndexFailure(e) => e,
            SimpleFileWALError::DataFatalFailure(e, _) => e,
        }
    }
}

/// A log of two streams, synced as `S` has it.
pub struct SimpleFileWAL<F: AsyncBufFile, S: FileSyncer> {
    data_file: Option<TrackingBufFile<F>>,
    index_file: TrackingBufFile<F>,
    sync: S,
}

/// What opening a log makes of a data stream that holds `data` and an index
/// stream that holds `index`: the number of entries that stay.
pub open spec fn recovered_count(data: Seq<u8>, index: Seq<u8>) -> int {
    valid_count(entries(index), data.len() as int)
}

/// The index stream after recovery: cut behind the last entry that stays.
pub open spec fn recovered_index(data: Seq<u8>, index: Seq<u8>) -> Seq<u8> {
    index.take(8 * recovered_count(data, index))
}

/// The data stream after recovery: cut at the end of the last record that
/// an entry that stays describes.
pub open spec fn recovered_data(data: Seq<u8>, index: Seq<u8>) -> Seq<u8> {
    data.take(boundary(entries(index), recovered_count(data, index)))
}

/// After recovery the index describes the whole of the data: the records
/// that its entries give end exactly where the data ends.
pub proof fn lemma_recovery_agrees(data: Seq<u8>, index: Seq<u8>)
    ensures
        0 <= recovered_count(data, index) <= entries(index).len(),
        8 * recovered_count(data, index) <= index.len(),
        0 <= boundary(entries(index), recovered_count(data, index)) <= data.len(),
        recovered_index(data, index).len() == 8 * recovered_count(data, index),
        entries(recovered_index(data, index)) == entries(index).take(
            recovered_count(data, index),
        ),
        total(entries(recovered_index(data, index))) == recovered_data(data, index).len(),
{
    let sizes = entries(index);
    let n = recovered_count(data, index);
    crate::index::lemma_valid_count(sizes, data.len() as int);
    lemma_entries_take(index, n);
    lemma_boundary_prefix(sizes.take(n), sizes, n);
    lemma_boundary_monotone(sizes, 0, n);
}

/// Recovery is idempotent: opening what recovery left changes nothing, so
/// two openings with no write between them leave streams of the same
/// lengths, and of the same bytes.
pub proof fn lemma_recovery_idempotent(data: Seq<u8>, index: Seq<u8>)
    ensures
        recovered_data(recovered_data(data, index), recovered_index(data, index))
            == recovered_data(data, index),
        recovered_index(recovered_data(data, index), recovered_index(data, index))
            == recovered_index(data, index),
{
    let once_data = recovered_data(data, index);
    let once_index = recovered_index(data, index);
    let n = recovered_count(data, index);
    lemma_recovery_agrees(data, index);
    lemma_valid_count_unique(entries(once_index), once_data.len() as int, n);
    assert(once_index.take(8 * n) =~= once_index);
    assert(once_data.take(once_data.len() as int) =~= once_data);
}

/// Recovery cuts off what is not whole: of an index stream that holds the
/// markers of `sizes` and then a run of fewer than eight bytes, over a data
/// stream that holds at least the records of `sizes`, it keeps exactly the
/// markers of `sizes`, and of the data exactly those records.
pub proof fn lemma_recovery_truncation(data: Seq<u8>, sizes: Seq<u64>, partial: Seq<u8>)
    requires
        partial.len() < 8,
        total(sizes) <= data.len(),
    ensures
        recovered_count(data, encoded(sizes) + partial) == sizes.len(),
        recovered_index(data, encoded(sizes) + partial) == encoded(sizes),
        entries(recovered_index(data, encoded(sizes) + partial)) == sizes,
        recovered_data(data, encoded(sizes) + partial) == data.take(total(sizes)),
{
    let index = encoded(sizes) + partial;
    let n = sizes.len() as int;
    crate::index::lemma_entries_of_encoded(sizes);
    lemma_entries_take(index, n);
    assert(index.take(8 * n) =~= encoded(sizes));
    assert(entries(index).take(n) =~= entries(index));
    lemma_valid_count_unique(sizes, data.len() as int, n);
}

impl<F: AsyncBufFile, S: FileSyncer> SimpleFileWAL<F, S> {
    /// The bytes of the data stream.
    pub closed spec fn data(&self) -> Seq<u8> {
        self.data_file->0.contents()
    }

    /// The bytes of the index stream.
    pub closed spec fn index_bytes(&self) -> Seq<u8> {
        self.index_file.contents()
    }

    /// The lengths of the committed records, in the order of their commit.
    pub open spec fn index(&self) -> Seq<u64> {
        entries(self.index_bytes())
    }

    /// What of the data stream is durable.
    pub closed spec fn data_synced(&self) -> Seq<u8> {
        self.data_file->0.synced()
    }

    /// What of the index stream is durable.
    pub closed spec fn index_synced(&self) -> Seq<u8> {
        self.index_file.synced()
    }

    /// Both streams are reliable: no operation of the log fails but for a
    /// write function that fails, or a stream that has no room.
    pub closed spec fn reliable(&self) -> bool {
        self.data_file->0.reliable() && self.index_file.reliable()
    }

    /// The durability policy.
    pub closed spec fn syncer(&self) -> S {
        self.sync
    }

    /// Both streams are there and well-formed. This holds after every
    /// operation, also after one that failed.
    pub closed spec fn streams_wf(&self) -> bool {
        &&& self.data_file is Some
        &&& self.data_file->0.wf()
        &&& self.index_file.wf()
    }

    /// The log can be written to: both streams stand at their ends, and the
    /// index stream is a whole number of markers.
    pub closed spec fn wf(&self) -> bool {
        &&& self.streams_wf()
        &&& self.data_file->0.position() == self.data_file->0.contents().len()
        &&& self.index_file.position() == self.index_file.contents().len()
        &&& self.index_file.contents().len() % 8 == 0
    }

    /// The index describes the whole data stream: the committed records end
    /// where the data ends.
    pub open spec fn consistent(&self) -> bool {
        total(self.index()) == self.data().len()
    }

    /// A usable log has well-formed streams.
    pub proof fn lemma_wf_streams(&self)
        requires
            self.wf(),
        ensures
            self.streams_wf(),
            self.index_bytes().len() == 8 * self.index().len(),
    {
    }

    /// Opens a log over the two streams and recovers it: reads the index
    /// from its start, keeps the entries whose records lie wholly inside the
    /// data, cuts the index behind the last of them and the data at the end
    /// of its record, and syncs both. What was written but never indexed is
    /// gone, and so is an entry that was cut short.
    pub fn new(data_file: F, index_file: F, sync: S) -> (r: Result<
        Self,
        SimpleFileWALError<F::Error>,
    >)
        requires
            data_file.wf(),
            index_file.wf(),
        ensures
            data_file.reliable() && index_file.reliable() ==> r is Ok,
            match r {
                Ok(wal) => {
                    &&& wal.wf()
                    &&& wal.reliable() == (data_file.reliable() && index_file.reliable())
                    &&& wal.consistent()
                    &&& wal.syncer() == sync
                    &&& wal.data() == recovered_data(data_file.contents(), index_file.contents())
                    &&& wal.index_bytes() == recovered_index(
                        data_file.contents(),
                        index_file.contents(),
                    )
                    &&& wal.index() == entries(index_file.contents()).take(
                        recovered_count(data_file.contents(), index_file.contents()),
                    )
                    &&& sync.syncs() ==> wal.data_synced() == wal.data() && wal.index_synced()
                        == wal.index_bytes()
                    &&& !sync.syncs() ==> wal.data_synced() == data_file.synced()
                        && wal.index_synced() == index_file.synced()
                },
                Err(SimpleFileWALError::DataFatalFailure(_, _)) => false,
                Err(_) => true,
            },
    {
        let mut data_file = data_file;
        let mut index_file = index_file;
        let ghost data = data_file.contents();
        let ghost index = index_file.contents();
        // The length is learned by going to the end. The position that counts is set
        // below, once the index has said where the committed data ends.
        let data_len: u64 = match data_file.seek(SeekFrom::End(0)) {
            Ok(len) => len,
            Err(e) => {
                return Err(SimpleFileWALError::DataFailure(e));
            },
        };
        match index_file.seek(SeekFrom::Start(0)) {
            Ok(_) => {},
            Err(e) => {
                return Err(SimpleFileWALError::IndexFailure(e));
            },
        }
        let (offset_offset, data_committed_pos) = scan_index(&mut index_file, data_len);
        proof {
            lemma_recovery_agrees(data, index);
        }
        match trim_log(&mut index_file, offset_offset, &sync) {
            Ok(_) => {},
            Err(e) => {
                return Err(SimpleFileWALError::IndexFailure(e));
            },
        }
        match trim_log(&mut data_file, data_committed_pos, &sync) {
            Ok(_) => {},
            Err(e) => {
                return Err(SimpleFileWALError::DataFailure(e));
            },
        }
        let index_file = match TrackingBufFile::new(index_file) {
            Ok(f) => f,
            Err(e) => {
                return Err(SimpleFileWALError::IndexFailure(e));
            },
        };
        let data_file = match TrackingBufFile::new(data_file) {
            Ok(f) => f,
            Err(e) => {
                return Err(SimpleFileWALError::DataFailure(e));
            },
        };
        Ok(SimpleFileWAL { data_file: Some(data_file), index_file, sync })
    }

    /// The handle that the next command hands to its write function: the
    /// data stream as it stands.
    pub closed spec fn lease(&self) -> AsyncWriteWrapper<TrackingBufFile<F>> {
        AsyncWriteWrapper(self.data_file->0)
    }

    /// What the handle of a usable log holds.
    pub proof fn lemma_lease(&self)
        requires
            self.wf(),
        ensures
            self.lease().wf(),
            self.lease()@ == self.data(),
            self.lease().synced() == self.data_synced(),
            self.reliable() ==> self.lease().reliable(),
    {
    }

    /// The length of the data stream.
    pub fn data_len(&self) -> (len: u64)
        requires
            self.wf(),
        ensures
            len == self.data().len(),
    {
        match &self.data_file {
            Some(f) => f.pos(),
            None => 0,
        }
    }

    /// The length of the index stream.
    pub fn index_len(&self) -> (len: u64)
        requires
            self.wf(),
        ensures
            len == self.index_bytes().len(),
    {
        self.index_file.pos()
    }

    /// Takes the log apart into its data stream and its index stream.
    pub fn into_files(self) -> (files: (F, F))
        requires
            self.streams_wf(),
        ensures
            files.0.wf(),
            files.1.wf(),
            files.0.contents() == self.data(),
            files.1.contents() == self.index_bytes(),
            files.0.synced() == self.data_synced(),
            files.1.synced() == self.index_synced(),
            self.reliable() == (files.0.reliable() && files.1.reliable()),
    {
        let SimpleFileWAL { data_file, index_file, sync: _ } = self;
        (data_file.unwrap().into_inner(), index_file.into_inner())
    }

    /// Runs one command: hands the data stream to `serializer`, which
    /// appends its payload, and says how many bytes that was. Nothing is
    /// committed yet; `indices` does that.
    ///
    /// Where `serializer` fails, the data stream is cut back to where it
    /// stood and the command fails with `DataFailure`. Where that cut fails
    /// too, the command fails with `DataFatalFailure`, and the log is not to
    /// be used again.
    pub fn command<T, I>(&mut self, serializer: I) -> (r: Result<
        (u64, T),
        SimpleFileWALError<F::Error>,
    >) where
        I: FnOnce(AsyncWriteWrapper<TrackingBufFile<F>>) -> (
            Result<T, F::Error>,
            AsyncWriteWrapper<TrackingBufFile<F>>,
        ),

        requires
            old(self).wf(),
            serializer.requires((old(self).lease(),)),
            forall|out: (Result<T, F::Error>, AsyncWriteWrapper<TrackingBufFile<F>>)|
                serializer.ensures((old(self).lease(),), out) ==> out.1.extends(old(self).lease()),
        ensures
            final(self).streams_wf(),
            final(self).reliable() == old(self).reliable(),
            old(self).reliable() && r is Err ==> r->Err_0 is DataFailure,
            final(self).syncer() == old(self).syncer(),
            final(self).index_bytes() == old(self).index_bytes(),
            final(self).index_synced() == old(self).index_synced(),
            old(self).data().is_prefix_of(final(self).data()),
            r is Ok ==> {
                &&& final(self).wf()
                &&& serializer.ensures(
                    (old(self).lease(),),
                    (Ok(r->Ok_0.1), final(self).lease()),
                )
                &&& r->Ok_0.0 == final(self).data().len() - old(self).data().len()
                &&& final(self).data_synced() == old(self).data_synced()
            },
            r is Err ==> exists|w: AsyncWriteWrapper<TrackingBufFile<F>>|
                serializer.ensures((old(self).lease(),), (Err(r->Err_0.cause()), w)),
            r is Err ==> !(r->Err_0 is IndexFailure),
            r is Err && r->Err_0 is DataFailure ==> {
                &&& final(self).wf()
                &&& final(self).data() == old(self).data()
            },
    {
        let mut data_write = self.data_file.take().unwrap();
        let orig_pos: u64 = data_write.pos();
        let handle = AsyncWriteWrapper(data_write);
        assert(handle == old(self).lease());
        let (res, wrapper) = serializer(handle);
        assert(wrapper.extends(old(self).lease()));
        let AsyncWriteWrapper(mut data_write) = wrapper;
        match res {
            Ok(v) => {
                let new_pos: u64 = data_write.pos();
                self.data_file = Some(data_write);
                assert(self.lease() == wrapper);
                assert(self.data().len() - old(self).data().len() == new_pos - orig_pos);
                Ok((new_pos - orig_pos, v))
            },
            Err(e) => {
                let rollback_res = trim_log(&mut data_write, orig_pos, &self.sync);
                proof {
                    assert(resized(wrapper@, orig_pos as nat) =~= old(self).data());
                }
                self.data_file = Some(data_write);
                let failure = match rollback_res {
                    Ok(_) => SimpleFileWALError::DataFailure(e),
                    Err(rollback_err) => SimpleFileWALError::DataFatalFailure(e, rollback_err),
                };
                assert(serializer.ensures((old(self).lease(),), (Err(failure.cause()), wrapper)));
                Err(failure)
            },
        }
    }

    /// Commits records of the lengths `pos`, in that order: makes the data
    /// durable, appends one marker for each length to the index, and makes
    /// the index durable.
    ///
    /// Where the index stream fails on the way, the markers that went
    /// through before stay in it, the last of them perhaps cut short: the
    /// log is then to be opened anew before it is used again.
    pub fn indices(&mut self, pos: &[u64]) -> (r: Result<(), SimpleFileWALError<F::Error>>)
        requires
            old(self).wf(),
        ensures
            final(self).streams_wf(),
            final(self).reliable() == old(self).reliable(),
            old(self).reliable() && old(self).index_bytes().len() + 8 * pos@.len() <= u64::MAX
                ==> r is Ok,
            final(self).syncer() == old(self).syncer(),
            final(self).data() == old(self).data(),
            old(self).index_bytes().is_prefix_of(final(self).index_bytes()),
            final(self).index_bytes().is_prefix_of(old(self).index_bytes() + encoded(pos@)),
            match r {
                Ok(_) => {
                    &&& final(self).wf()
                    &&& final(self).index_bytes() == old(self).index_bytes() + encoded(pos@)
                    &&& final(self).index() == old(self).index() + pos@
                    &&& final(self).syncer().syncs() ==> {
                        &&& final(self).data_synced() == final(self).data()
                        &&& final(self).index_synced() == final(self).index_bytes()
                    }
                    &&& !final(self).syncer().syncs() ==> {
                        &&& final(self).data_synced() == old(self).data_synced()
                        &&& final(self).index_synced() == old(self).index_synced()
                    }
                },
                Err(SimpleFileWALError::DataFailure(_)) => {
                    &&& final(self).wf()
                    &&& final(self).index_bytes() == old(self).index_bytes()
                    &&& final(self).index_synced() == old(self).index_synced()
                },
                Err(SimpleFileWALError::IndexFailure(_)) => true,
                Err(SimpleFileWALError::DataFatalFailure(_, _)) => false,
            },
    {
        let mut data_write = self.data_file.take().unwrap();
        let synced = self.sync.sync(&mut data_write);
        self.data_file = Some(data_write);
        match synced {
            Ok(_) => {},
            Err(e) => {
                return Err(SimpleFileWALError::DataFailure(e));
            },
        }
        let markers = crate::index::encode(pos);
        proof {
            lemma_entries_append(old(self).index_bytes(), pos@);
        }
        match write_all(&mut self.index_file, markers.as_slice()) {
            Ok(_) => {},
            Err(e) => {
                return Err(SimpleFileWALError::IndexFailure(e));
            },
        }
        match self.sync.sync(&mut self.index_file) {
            Ok(_) => Ok(()),
            Err(e) => Err(SimpleFileWALError::IndexFailure(e)),
        }
    }
}


/// The writer that commits each command before it returns: one append to
/// the data, then one commit of just that record. A command that returned
/// its value is durable, as the log's policy has it.
pub struct InstantLogWriter<F: AsyncBufFile, S: FileSyncer> {
    wal: SimpleFileWAL<F, S>,
}

impl<F: AsyncBufFile, S: FileSyncer> InstantLogWriter<F, S> {
    /// The log under the writer.
    pub closed spec fn wal(&self) -> SimpleFileWAL<F, S> {
        self.wal
    }

    /// The log is usable and every record in its data is committed.
    pub open spec fn wf(&self) -> bool {
        self.wal().wf() && self.wal().consistent()
    }

    /// The committed payloads, in the order of their commands: what
    /// replaying the log gives.
    pub open spec fn records(&self) -> Seq<Seq<u8>> {
        crate::index::records(self.wal().data(), self.wal().index())
    }

    /// A writer over a log as opening it leaves it.
    pub fn new(wal: SimpleFileWAL<F, S>) -> (writer: Self)
        ensures
            writer.wal() == wal,
    {
        InstantLogWriter { wal }
    }

    /// Gives the log back.
    pub fn into_inner(self) -> (wal: SimpleFileWAL<F, S>)
        ensures
            wal == self.wal(),
    {
        self.wal
    }

    /// Runs one command and commits it: `serializer` appends its payload to
    /// the data, the length of the payload goes to the index, and both are
    /// made durable as the policy has it. Only then is the value of
    /// `serializer` given out.
    ///
    /// A command fails where `serializer` fails, and then nothing of it
    /// stays in the log unless the failure is `DataFatalFailure`; or where
    /// the commit fails, and then the payload stays in the data with no
    /// entry, or a broken one, in the index. After a failure of the second
    /// sort the log has to be opened anew before more is written to it.
    pub fn command<V, I>(&mut self, serializer: I) -> (r: Result<V, SimpleFileWALError<F::Error>>)
        where
        I: FnOnce(AsyncWriteWrapper<TrackingBufFile<F>>) -> (
            Result<V, F::Error>,
            AsyncWriteWrapper<TrackingBufFile<F>>,
        ),

        requires
            old(self).wf(),
            serializer.requires((old(self).wal().lease(),)),
            forall|out: (Result<V, F::Error>, AsyncWriteWrapper<TrackingBufFile<F>>)|
                serializer.ensures((old(self).wal().lease(),), out) ==> out.1.extends(
                    old(self).wal().lease(),
                ),
        ensures
            final(self).wal().streams_wf(),
            final(self).wal().reliable() == old(self).wal().reliable(),
            // On reliable streams with room in the index, only the write function can fail.
            old(self).wal().reliable() && old(self).wal().index_bytes().len() + 8 <= u64::MAX && r
                is Err ==> {
                &&& r->Err_0 is DataFailure
                &&& final(self).wf()
                &&& final(self).wal().data() == old(self).wal().data()
                &&& final(self).wal().index_bytes() == old(self).wal().index_bytes()
                &&& exists|w: AsyncWriteWrapper<TrackingBufFile<F>>|
                    serializer.ensures((old(self).wal().lease(),), (Err(r->Err_0.cause()), w))
            },
            final(self).wal().syncer() == old(self).wal().syncer(),
            old(self).wal().data().is_prefix_of(final(self).wal().data()),
            old(self).wal().index_bytes().is_prefix_of(final(self).wal().index_bytes()),
            r is Ok ==> {
                &&& final(self).wf()
                &&& exists|w: AsyncWriteWrapper<TrackingBufFile<F>>|
                    w@ == final(self).wal().data() && serializer.ensures(
                        (old(self).wal().lease(),),
                        (Ok(r->Ok_0), w),
                    )
                &&& final(self).wal().index() == old(self).wal().index().push(
                    (final(self).wal().data().len() - old(self).wal().data().len()) as u64,
                )
                &&& final(self).records() == old(self).records().push(
                    final(self).wal().data().skip(old(self).wal().data().len() as int),
                )
                &&& final(self).wal().syncer().syncs() ==> final(self).wal().data_synced()
                    == final(self).wal().data()
                        && final(self).wal().index_synced() == final(self).wal().index_bytes()
            },
            r is Err ==> {
                ||| {
                    &&& exists|w: AsyncWriteWrapper<TrackingBufFile<F>>|
                        serializer.ensures((old(self).wal().lease(),), (Err(r->Err_0.cause()), w))
                    &&& !(r->Err_0 is IndexFailure)
                    &&& final(self).wal().index_bytes() == old(self).wal().index_bytes()
                    &&& r->Err_0 is DataFailure ==> final(self).wf() && final(self).wal().data()
                        == old(self).wal().data()
                }
                ||| {
                    &&& exists|v: V, w: AsyncWriteWrapper<TrackingBufFile<F>>|
                        w@ == final(self).wal().data() && serializer.ensures(
                            (old(self).wal().lease(),),
                            (Ok(v), w),
                        )
                    &&& !(r->Err_0 is DataFatalFailure)
                    &&& r->Err_0 is DataFailure ==> final(self).wal().index_bytes()
                        == old(self).wal().index_bytes()
                    &&& final(self).wal().index_bytes().is_prefix_of(
                        old(self).wal().index_bytes() + marker_bytes(
                            (final(self).wal().data().len() - old(self).wal().data().len()) as u64,
                        ),
                    )
                }
            },
    {
        let (pos, val) = match self.wal.command(serializer) {
            Ok(done) => done,
            Err(e) => {
                return Err(e);
            },
        };
        let ghost written = self.wal.data().skip(old(self).wal().data().len() as int);
        let ghost handle = self.wal.lease();
        proof {
            assert(old(self).wal().data() + written =~= self.wal.data());
            crate::index::lemma_records_push(
                old(self).wal().data(),
                old(self).wal().index(),
                written,
            );
            assert(seq![pos] =~= Seq::<u64>::empty().push(pos));
            assert(encoded(seq![pos]) =~= marker_bytes(pos)) by {
                assert(seq![pos].drop_last() =~= Seq::<u64>::empty());
                assert(encoded(Seq::<u64>::empty()) =~= Seq::<u8>::empty());
                reveal_with_fuel(encoded, 2);
            }
            assert(old(self).wal().index() + seq![pos] =~= old(self).wal().index().push(pos));
        }
        let one: [u64; 1] = [pos];
        let committed = self.wal.indices(one.as_slice());
        proof {
            assert(one@ =~= seq![pos]);
            assert(handle@ == self.wal.data());
            assert(serializer.ensures((old(self).wal().lease(),), (Ok(val), handle)));
        }
        match committed {
            Ok(_) => Ok(val),
            Err(e) => Err(e),
        }
    }
}

} // verus!
