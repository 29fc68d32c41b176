use liblog::file::{MemFile, MemFileError};
use liblog::index::{encode, replay};
use liblog::storage::{
    AsyncWriteWrapper, InstantLogWriter, NoopFileSyncer, SimpleFileWAL, SimpleFileWALError,
    SyncDataFileSyncer, TrackingBufFile,
};

type Handle = AsyncWriteWrapper<TrackingBufFile<MemFile>>;

fn payload(bytes: &'static [u8], value: u32) -> impl FnOnce(Handle) -> (Result<u32, MemFileError>, Handle) {
    move |mut w: Handle| {
        let r = w.write_all(bytes);
        (r.map(|_| value), w)
    }
}

#[test]
fn sequential_commands_are_indexed_in_order() {
    let wal = SimpleFileWAL::new(MemFile::new(), MemFile::new(), NoopFileSyncer::default())
        .expect("an empty log opens");
    let mut writer = InstantLogWriter::new(wal);
    assert_eq!(writer.command(payload(b"abc", 1)), Ok(1));
    assert_eq!(writer.command(payload(b"defgh", 2)), Ok(2));
    assert_eq!(writer.command(payload(b"ij", 3)), Ok(3));
    let (data, index) = writer.into_inner().into_files();
    assert_eq!(data.to_vec(), b"abcdefghij".to_vec());
    assert_eq!(index.to_vec(), encode(&[3, 5, 2]));
    assert_eq!(
        replay(&data.to_vec(), &index.to_vec()),
        vec![b"abc".to_vec(), b"defgh".to_vec(), b"ij".to_vec()]
    );
}

#[test]
fn instant_command_is_durable_on_return() {
    let wal = SimpleFileWAL::new(MemFile::new(), MemFile::new(), SyncDataFileSyncer::default())
        .expect("an empty log opens");
    let mut writer = InstantLogWriter::new(wal);
    assert_eq!(writer.command(payload(b"Hello!", 0)), Ok(0));
    let (data, index) = writer.into_inner().into_files();
    assert_eq!(data.synced_to_vec(), b"Hello!".to_vec());
    assert_eq!(index.synced_to_vec(), vec![0, 0, 0, 0, 0, 0, 0, 6]);
}

#[test]
fn failed_write_function_is_rolled_back() {
    let wal = SimpleFileWAL::new(MemFile::new(), MemFile::new(), NoopFileSyncer::default())
        .expect("an empty log opens");
    let mut writer = InstantLogWriter::new(wal);
    assert_eq!(writer.command(payload(b"abc", 1)), Ok(1));
    let failing = |mut w: Handle| {
        let _ = w.write_all(b"half");
        (Err::<u32, MemFileError>(MemFileError::WriteZero), w)
    };
    assert_eq!(
        writer.command(failing),
        Err(SimpleFileWALError::DataFailure(MemFileError::WriteZero))
    );
    assert_eq!(writer.command(payload(b"de", 2)), Ok(2));
    let (data, index) = writer.into_inner().into_files();
    assert_eq!(data.to_vec(), b"abcde".to_vec());
    assert_eq!(index.to_vec(), encode(&[3, 2]));
}

#[test]
fn test_async_write_simple() {
    let wal = SimpleFileWAL::new(MemFile::new(), MemFile::new(), NoopFileSyncer::default())
        .expect("an empty log opens");
    let noop = InstantLogWriter::new(wal);
    let mut noop = noop;

    let hello = |mut w: Handle| (w.write_all("Hello!".as_bytes()), w);

    noop.command(hello).unwrap();
    let (data, _) = noop.into_inner().into_files();
    assert!(String::from_utf8(data.to_vec()) == Ok("Hello!".to_string()));
}

#[test]
fn failed_commit_leaves_the_payload_without_an_entry() {
    // The index stream carries out the four operations of recovery; the write of the
    // marker is the fifth.
    let wal = SimpleFileWAL::new(
        MemFile::new(),
        MemFile::failing_after(Vec::new(), 4),
        NoopFileSyncer::default(),
    )
    .unwrap();
    let mut writer = InstantLogWriter::new(wal);
    assert_eq!(
        writer.command(payload(b"abc", 1)),
        Err(SimpleFileWALError::IndexFailure(MemFileError::Injected))
    );
    let (data, index) = writer.into_inner().into_files();
    assert_eq!(data.to_vec(), b"abc".to_vec());
    assert!(index.to_vec().is_empty());
    // Opening the log anew takes the payload back.
    let wal = SimpleFileWAL::new(
        MemFile::from_bytes(data.to_vec()),
        MemFile::from_bytes(index.to_vec()),
        NoopFileSyncer::default(),
    )
    .unwrap();
    assert_eq!(wal.data_len(), 0);
    assert_eq!(wal.index_len(), 0);
}

#[test]
fn partial_write_is_kept_by_the_handle() {
    let wal = SimpleFileWAL::new(MemFile::new(), MemFile::new(), SyncDataFileSyncer::default())
        .unwrap();
    let mut writer = InstantLogWriter::new(wal);
    let two_writes = |mut w: Handle| {
        let first = w.write(b"ab");
        let second = w.write_all(b"cde");
        (second.map(|_| first.unwrap_or(0) as u32), w)
    };
    assert_eq!(writer.command(two_writes), Ok(2));
    let (data, index) = writer.into_inner().into_files();
    assert_eq!(data.to_vec(), b"abcde".to_vec());
    assert_eq!(index.to_vec(), encode(&[5]));
}
