//! The streams under the log. A stream is a growable run of bytes with a
//! position, and a record of what the last successful sync made durable.
//! The log never looks at a file in any other way, so anything that keeps
//! this contract can stand under it: a file on disk, or the in-memory stream
//! of this module.

use vstd::prelude::*;
use crate::index::marker_value;

verus! {

/// Where a seek goes: to an offset from the start, from the end, or from the
/// current position.
#[derive(Clone, Copy, Debug, PartialEq, Eq, Structural)]
pub enum SeekFrom {
    Start(u64),
    End(i64),
    Current(i64),
}

impl SeekFrom {
    /// The position that a seek asks for, in a stream of `len` bytes that
    /// stands at `position`.
    pub open spec fn target(self, position: u64, len: nat) -> int {
        match self {
            SeekFrom::Start(n) => n as int,
            SeekFrom::End(d) => len + d,
            SeekFrom::Current(d) => position + d,
        }
    }
}

/// `contents` cut or filled with zero bytes to the length `len`.
pub open spec fn resized(contents: Seq<u8>, len: nat) -> Seq<u8> {
    if len <= contents.len() {
        contents.take(len as int)
    } else {
        contents + Seq::new((len - contents.len()) as nat, |i: int| 0u8)
    }
}

/// A stream of bytes that can be written, cut, synced and read back.
///
/// `contents` is what reading the stream from its start yields, written
/// through or still buffered. `synced` is what the stream held when
/// `sync_data` last succeeded: the bytes that outlast a crash. An operation
/// that fails leaves the stream well-formed, so that the caller can try to
/// repair it.
///
/// The four spec functions are the model that the contracts of the methods
/// are written over. A verified stream defines them. A stream that is not
/// verified, such as a file on disk, leaves them as they are here, and is
/// trusted to behave as the contracts say of the stream that it stands for.
pub trait AsyncBufFile: Sized {
    type Error;

    /// The stream is in a state that its operations can work on.
    open spec fn wf(&self) -> bool {
        true
    }

    /// What reading the stream from its start yields.
    open spec fn contents(&self) -> Seq<u8> {
        Seq::empty()
    }

    /// Where the next read or write takes place.
    open spec fn position(&self) -> u64 {
        0
    }

    /// What the stream held when it was last synced.
    open spec fn synced(&self) -> Seq<u8> {
        Seq::empty()
    }

    /// No operation on the stream fails but for what is asked of it: a seek
    /// to where no position is, a stream made longer than it can be. Of a
    /// stream that is not reliable nothing of the kind is known, and every
    /// operation may fail; a file on disk is such a stream.
    open spec fn reliable(&self) -> bool {
        false
    }

    /// Writes some leading part of `buf` at the position and says how many
    /// bytes that was. At the end of the stream this appends them. A write
    /// that fails has written nothing.
    fn write(&mut self, buf: &[u8]) -> (r: Result<usize, Self::Error>)
        requires
            old(self).wf(),
        ensures
            final(self).wf(),
            final(self).reliable() == old(self).reliable(),
            final(self).synced() == old(self).synced(),
            old(self).reliable() && old(self).position() == old(self).contents().len() && old(self).contents().len() + buf@.len() <= u64::MAX ==> r is Ok && (buf@.len() > 0 ==> r->Ok_0
                > 0),
            r is Err ==> final(self).contents() == old(self).contents() && final(self).position()
                == old(self).position(),
            r is Ok ==> r->Ok_0 <= buf@.len() && final(self).position() == old(self).position()
                + r->Ok_0,
            r is Ok && old(self).position() == old(self).contents().len()
                ==> final(self).contents() == old(self).contents() + buf@.take(r->Ok_0 as int),
    ;

    /// The error that stands for a write that made no progress on a buffer
    /// that is not empty.
    open spec fn write_zero_error() -> Self::Error {
        arbitrary()
    }

    /// The error of a write that made no progress on a buffer that is not
    /// empty.
    fn write_zero() -> (e: Self::Error)
        ensures
            e == Self::write_zero_error(),
    ;

    /// Makes the contents durable: writes through what is buffered and syncs
    /// the data to the device.
    fn sync_data(&mut self) -> (r: Result<(), Self::Error>)
        requires
            old(self).wf(),
        ensures
            final(self).wf(),
            final(self).reliable() == old(self).reliable(),
            old(self).reliable() ==> r is Ok,
            final(self).contents() == old(self).contents(),
            final(self).position() == old(self).position(),
            r is Ok ==> final(self).synced() == final(self).contents(),
    ;

    /// Moves the position and returns the new one. A seek that fails leaves
    /// the position where it was.
    fn seek(&mut self, from: SeekFrom) -> (r: Result<u64, Self::Error>)
        requires
            old(self).wf(),
        ensures
            final(self).wf(),
            final(self).reliable() == old(self).reliable(),
            old(self).reliable() && (from == SeekFrom::End(0) || 0 <= from.target(
                old(self).position(),
                old(self).contents().len(),
            ) <= u64::MAX) ==> r is Ok,
            final(self).contents() == old(self).contents(),
            final(self).synced() == old(self).synced(),
            r is Ok ==> r->Ok_0 == from.target(old(self).position(), old(self).contents().len())
                && final(self).position() == r->Ok_0,
            r is Err ==> final(self).position() == old(self).position(),
    ;

    /// The position.
    fn tell(&mut self) -> (r: Result<u64, Self::Error>)
        requires
            old(self).wf(),
        ensures
            final(self).wf(),
            final(self).reliable() == old(self).reliable(),
            old(self).reliable() ==> r is Ok,
            final(self).contents() == old(self).contents(),
            final(self).position() == old(self).position(),
            final(self).synced() == old(self).synced(),
            r is Ok ==> r->Ok_0 == old(self).position(),
    ;

    /// Cuts the stream to `len` bytes, or fills it with zero bytes up to
    /// `len`. The position stays. After a failure the stream holds the old
    /// contents or the new.
    fn set_len(&mut self, len: u64) -> (r: Result<(), Self::Error>)
        requires
            old(self).wf(),
        ensures
            final(self).wf(),
            final(self).reliable() == old(self).reliable(),
            old(self).reliable() && len <= old(self).contents().len() ==> r is Ok,
            final(self).position() == old(self).position(),
            final(self).synced() == old(self).synced(),
            r is Ok ==> final(self).contents() == resized(old(self).contents(), len as nat),
            r is Err ==> final(self).contents() == old(self).contents() || final(self).contents()
                == resized(old(self).contents(), len as nat),
    ;

    /// Reads the size marker at the position and steps over it. Gives `None`,
    /// and leaves the position, where fewer than eight bytes are left.
    fn read_u64(&mut self) -> (r: Option<u64>)
        requires
            old(self).wf(),
        ensures
            final(self).wf(),
            final(self).reliable() == old(self).reliable(),
            final(self).contents() == old(self).contents(),
            final(self).synced() == old(self).synced(),
            r is Some <==> old(self).position() + 8 <= old(self).contents().len(),
            r is Some ==> r->0 == marker_value(
                old(self).contents().subrange(
                    old(self).position() as int,
                    old(self).position() + 8,
                ),
            ) && final(self).position() == old(self).position() + 8,
            r is None ==> final(self).position() == old(self).position(),
    ;
}

/// Why an operation on a `MemFile` failed.
#[derive(Clone, Copy, Debug, PartialEq, Eq)]
pub enum MemFileError {
    /// The stream had used up the operations it was told to carry out.
    Injected,
    /// A seek to before the start or beyond what an offset can hold, a write
    /// away from the end, or a length that memory cannot hold.
    OutOfRange,
    /// A write made no progress.
    WriteZero,
}

/// A stream held in memory. It can be told to fail: made with
/// `failing_after`, it carries out that many operations and fails every one
/// after them, which is how a disk that goes bad is played through. Reading
/// is not counted and never fails.
pub struct MemFile {
    bytes: Vec<u8>,
    pos: u64,
    stable: Vec<u8>,
    healthy: Option<u64>,
}

impl MemFile {
    /// The bytes of the stream.
    pub closed spec fn view(&self) -> Seq<u8> {
        self.bytes@
    }

    /// The operations that the stream will still carry out before it starts
    /// to fail; `None` where it never fails.
    pub closed spec fn healthy(&self) -> Option<u64> {
        self.healthy
    }

    /// Whether the next counted operation fails.
    pub open spec fn broken(&self) -> bool {
        self.healthy() == Some(0u64)
    }

    /// What one operation leaves of the count.
    pub open spec fn spent(healthy: Option<u64>) -> Option<u64> {
        match healthy {
            Some(n) if n > 0 => Some((n - 1) as u64),
            other => other,
        }
    }

    /// An empty stream that never fails.
    pub fn new() -> (file: MemFile)
        ensures
            file.wf(),
            file.contents() == Seq::<u8>::empty(),
            file.position() == 0,
            file.synced() == Seq::<u8>::empty(),
            file.healthy() is None,
    {
        MemFile { bytes: Vec::new(), pos: 0, stable: Vec::new(), healthy: None }
    }

    /// A stream that holds `bytes`, none of them synced, and stands at its
    /// start. It never fails.
    pub fn from_bytes(bytes: Vec<u8>) -> (file: MemFile)
        ensures
            file.wf(),
            file.contents() == bytes@,
            file.position() == 0,
            file.synced() == Seq::<u8>::empty(),
            file.healthy() is None,
    {
        MemFile { bytes, pos: 0, stable: Vec::new(), healthy: None }
    }

    /// A stream that holds `bytes`, carries out `operations` operations and
    /// fails from then on.
    pub fn failing_after(bytes: Vec<u8>, operations: u64) -> (file: MemFile)
        ensures
            file.wf(),
            file.contents() == bytes@,
            file.position() == 0,
            file.synced() == Seq::<u8>::empty(),
            file.healthy() == Some(operations),
    {
        MemFile { bytes, pos: 0, stable: Vec::new(), healthy: Some(operations) }
    }

    /// A copy of the bytes of the stream.
    pub fn to_vec(&self) -> (bytes: Vec<u8>)
        ensures
            bytes@ == self.contents(),
    {
        copy_of(&self.bytes)
    }

    /// A copy of what the last successful sync made durable.
    pub fn synced_to_vec(&self) -> (bytes: Vec<u8>)
        ensures
            bytes@ == self.synced(),
    {
        copy_of(&self.stable)
    }

    /// Counts one operation. Says whether it is to fail.
    fn spend(&mut self) -> (fails: bool)
        ensures
            fails == old(self).broken(),
            final(self).healthy == Self::spent(old(self).healthy),
            final(self).bytes == old(self).bytes,
            final(self).pos == old(self).pos,
            final(self).stable == old(self).stable,
    {
        match self.healthy {
            Some(n) => {
                if n == 0 {
                    true
                } else {
                    self.healthy = Some(n - 1);
                    false
                }
            },
            None => false,
        }
    }
}

/// A copy of `bytes`.
fn copy_of(bytes: &Vec<u8>) -> (copy: Vec<u8>)
    ensures
        copy@ == bytes@,
{
    let mut copy: Vec<u8> = Vec::new();
    let mut i: usize = 0;
    while i < bytes.len()
        invariant
            i <= bytes@.len(),
            copy@ == bytes@.take(i as int),
        decreases bytes@.len() - i,
    {
        copy.push(bytes[i]);
        assert(copy@ =~= bytes@.take(i + 1));
        i += 1;
    }
    assert(bytes@.take(i as int) =~= bytes@);
    copy
}

impl AsyncBufFile for MemFile {
    type Error = MemFileError;

    closed spec fn wf(&self) -> bool {
        true
    }

    closed spec fn contents(&self) -> Seq<u8> {
        self.bytes@
    }

    closed spec fn position(&self) -> u64 {
        self.pos
    }

    closed spec fn synced(&self) -> Seq<u8> {
        self.stable@
    }

    /// A stream in memory is reliable where it was not told to fail.
    open spec fn reliable(&self) -> bool {
        self.healthy() is None
    }

    /// Appends all of `buf`. Fails, with `OutOfRange`, where the position is
    /// not the end or the new end would be beyond what an offset can hold.
    fn write(&mut self, buf: &[u8]) -> (r: Result<usize, MemFileError>)
        ensures
            final(self).healthy() == Self::spent(old(self).healthy()),
            r is Ok <==> !old(self).broken() && old(self).position() == old(self).contents().len()
                && old(self).position() + buf@.len() <= u64::MAX,
            r is Ok ==> r->Ok_0 == buf@.len(),
            r is Err ==> r->Err_0 == (if old(self).broken() {
                MemFileError::Injected
            } else {
                MemFileError::OutOfRange
            }),
    {
        if self.spend() {
            return Err(MemFileError::Injected);
        }
        if self.bytes.len() as u64 != self.pos || buf.len() as u64 > u64::MAX - self.pos {
            return Err(MemFileError::OutOfRange);
        }
        let mut i: usize = 0;
        while i < buf.len()
            invariant
                i <= buf@.len(),
                self.bytes@ == old(self).bytes@ + buf@.take(i as int),
                self.pos == old(self).pos,
                self.stable == old(self).stable,
                self.healthy == Self::spent(old(self).healthy),
            decreases buf@.len() - i,
        {
            self.bytes.push(buf[i]);
            assert(self.bytes@ =~= old(self).bytes@ + buf@.take(i + 1));
            i += 1;
        }
        self.pos = self.pos + buf.len() as u64;
        Ok(buf.len())
    }

    open spec fn write_zero_error() -> MemFileError {
        MemFileError::WriteZero
    }

    fn write_zero() -> (e: MemFileError) {
        MemFileError::WriteZero
    }

    /// Records the contents as durable.
    fn sync_data(&mut self) -> (r: Result<(), MemFileError>)
        ensures
            final(self).healthy() == Self::spent(old(self).healthy()),
            r is Ok <==> !old(self).broken(),
            r is Err ==> r->Err_0 == MemFileError::Injected && final(self).synced() == old(self).synced(),
    {
        if self.spend() {
            return Err(MemFileError::Injected);
        }
        self.stable = copy_of(&self.bytes);
        Ok(())
    }

    /// Moves the position. Fails, with `OutOfRange`, where the target lies
    /// before the start or beyond what an offset can hold.
    fn seek(&mut self, from: SeekFrom) -> (r: Result<u64, MemFileError>)
        ensures
            final(self).healthy() == Self::spent(old(self).healthy()),
            r is Ok <==> !old(self).broken() && 0 <= from.target(
                old(self).position(),
                old(self).contents().len(),
            ) <= u64::MAX,
            r is Err ==> r->Err_0 == (if old(self).broken() {
                MemFileError::Injected
            } else {
                MemFileError::OutOfRange
            }),
    {
        if self.spend() {
            return Err(MemFileError::Injected);
        }
        let target: Option<u64> = match from {
            SeekFrom::Start(n) => Some(n),
            SeekFrom::End(d) => offset_by(self.bytes.len() as u64, d),
            SeekFrom::Current(d) => offset_by(self.pos, d),
        };
        match target {
            Some(p) => {
                self.pos = p;
                Ok(p)
            },
            None => Err(MemFileError::OutOfRange),
        }
    }

    fn tell(&mut self) -> (r: Result<u64, MemFileError>)
        ensures
            final(self).healthy() == Self::spent(old(self).healthy()),
            r is Ok <==> !old(self).broken(),
            r is Err ==> r->Err_0 == MemFileError::Injected,
    {
        if self.spend() {
            return Err(MemFileError::Injected);
        }
        Ok(self.pos)
    }

    /// Cuts or fills the stream. Fails, with `OutOfRange`, where memory
    /// cannot hold `len` bytes; a failure leaves the contents as they were.
    fn set_len(&mut self, len: u64) -> (r: Result<(), MemFileError>)
        ensures
            final(self).healthy() == Self::spent(old(self).healthy()),
            r is Ok <==> !old(self).broken() && len <= usize::MAX,
            r is Err ==> final(self).contents() == old(self).contents() && r->Err_0 == (if old(self).broken() {
                MemFileError::Injected
            } else {
                MemFileError::OutOfRange
            }),
    {
        if self.spend() {
            return Err(MemFileError::Injected);
        }
        let have = self.bytes.len();
        if len > have as u64 && len > usize::MAX as u64 {
            return Err(MemFileError::OutOfRange);
        }
        let n: usize = len as usize;
        if n <= self.bytes.len() {
            self.bytes.truncate(n);
        } else {
            while self.bytes.len() < n
                invariant
                    old(self).bytes@.len() <= self.bytes@.len() <= n,
                    self.bytes@ == resized(old(self).bytes@, self.bytes@.len()),
                    self.pos == old(self).pos,
                    self.stable == old(self).stable,
                    self.healthy == Self::spent(old(self).healthy),
                decreases n - self.bytes@.len(),
            {
                self.bytes.push(0u8);
                assert(self.bytes@ =~= resized(old(self).bytes@, self.bytes@.len()));
            }
        }
        Ok(())
    }

    fn read_u64(&mut self) -> (r: Option<u64>)
        ensures
            final(self).healthy() == old(self).healthy(),
    {
        let len: u64 = self.bytes.len() as u64;
        if self.pos > len || len - self.pos < 8 {
            return None;
        }
        let at: usize = self.pos as usize;
        let size = crate::index::decode_marker(self.bytes.as_slice(), at);
        self.pos = self.pos + 8;
        Some(size)
    }
}

/// `base + delta`, where that is an offset.
fn offset_by(base: u64, delta: i64) -> (r: Option<u64>)
    ensures
        r is Some <==> 0 <= base + delta <= u64::MAX,
        r is Some ==> r->0 == base + delta,
{
    if delta >= 0 {
        let d: u64 = delta as u64;
        if d <= u64::MAX - base {
            Some(base + d)
        } else {
            None
        }
    } else {
        let d: u64 = if delta == i64::MIN {
            0x8000_0000_0000_0000u64
        } else {
            (-delta) as u64
        };
        if d <= base {
            Some(base - d)
        } else {
            None
        }
    }
}

} // verus!
