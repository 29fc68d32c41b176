use liblog::file::{AsyncBufFile, MemFile, MemFileError, SeekFrom};
use liblog::index::{decode_marker, encode, encode_marker, replay};
use liblog::storage::{
    trim_log, write_all, NoopFileSyncer, SimpleFileWAL, SimpleFileWALError, SyncDataFileSyncer,
    TrackingBufFile,
};

fn open(data: Vec<u8>, index: Vec<u8>) -> (Vec<u8>, Vec<u8>) {
    let wal = SimpleFileWAL::new(
        MemFile::from_bytes(data),
        MemFile::from_bytes(index),
        NoopFileSyncer::default(),
    )
    .expect("a stream in memory does not fail");
    let (data, index) = wal.into_files();
    (data.to_vec(), index.to_vec())
}

#[test]
fn marker_is_eight_bytes_most_significant_first() {
    let mut out = vec![0xaa];
    encode_marker(0x0102_0304_0506_0708, &mut out);
    assert_eq!(out, vec![0xaa, 1, 2, 3, 4, 5, 6, 7, 8]);
    assert_eq!(decode_marker(&out, 1), 0x0102_0304_0506_0708);
    assert_eq!(encode(&[3, 0]), vec![0, 0, 0, 0, 0, 0, 0, 3, 0, 0, 0, 0, 0, 0, 0, 0]);
    assert_eq!(encode(&[]), Vec::<u8>::new());
    assert_eq!(decode_marker(&encode(&[u64::MAX]), 0), u64::MAX);
}

#[test]
fn recovery_cuts_a_short_trailing_entry() {
    let mut index = encode(&[3, 5, 2]);
    index.extend_from_slice(&[0, 0, 0]);
    let (data, index) = open(b"abcdefghij".to_vec(), index);
    assert_eq!(index, encode(&[3, 5, 2]));
    assert_eq!(index.len(), 24);
    assert_eq!(data, b"abcdefghij".to_vec());
}

#[test]
fn recovery_cuts_data_that_was_never_indexed() {
    let (data, index) = open(b"abcdefghij-unindexed".to_vec(), encode(&[3, 5, 2]));
    assert_eq!(index, encode(&[3, 5, 2]));
    assert_eq!(data, b"abcdefghij".to_vec());
}

#[test]
fn recovery_stops_at_the_first_entry_beyond_the_data() {
    // The third record would end at 12, beyond the 10 bytes of data; the fourth would fit
    // again if it were counted from 8, but nothing behind the third stays.
    let (data, index) = open(b"abcdefghij".to_vec(), encode(&[3, 5, 4, 1]));
    assert_eq!(index, encode(&[3, 5]));
    assert_eq!(data, b"abcdefgh".to_vec());
}

#[test]
fn recovery_of_an_entry_that_overflows_the_sum() {
    let (data, index) = open(b"abc".to_vec(), encode(&[2, u64::MAX, 1]));
    assert_eq!(index, encode(&[2]));
    assert_eq!(data, b"ab".to_vec());
}

#[test]
fn recovery_of_empty_streams() {
    let (data, index) = open(Vec::new(), Vec::new());
    assert!(data.is_empty());
    assert!(index.is_empty());
    let (data, index) = open(b"orphan".to_vec(), vec![1, 2, 3]);
    assert!(data.is_empty());
    assert!(index.is_empty());
}

#[test]
fn recovery_is_idempotent() {
    let mut index = encode(&[4, 4, 9]);
    index.push(7);
    let (data1, index1) = open(b"0123456789".to_vec(), index);
    let (data2, index2) = open(data1.clone(), index1.clone());
    assert_eq!((data1.len(), index1.len()), (8, 16));
    assert_eq!((data2.len(), index2.len()), (8, 16));
    assert_eq!(data1, data2);
    assert_eq!(index1, index2);
}

#[test]
fn recovery_syncs_what_it_leaves() {
    let wal = SimpleFileWAL::new(
        MemFile::from_bytes(b"abcdef".to_vec()),
        MemFile::from_bytes(encode(&[4])),
        SyncDataFileSyncer::default(),
    )
    .unwrap();
    assert_eq!(wal.data_len(), 4);
    assert_eq!(wal.index_len(), 8);
    let (data, index) = wal.into_files();
    assert_eq!(data.synced_to_vec(), b"abcd".to_vec());
    assert_eq!(index.synced_to_vec(), encode(&[4]));
}

#[test]
fn recovery_reports_which_stream_failed() {
    // The first operation on the data stream is the seek to its end.
    let r = SimpleFileWAL::new(
        MemFile::failing_after(b"abc".to_vec(), 0),
        MemFile::from_bytes(encode(&[3])),
        NoopFileSyncer::default(),
    );
    assert_eq!(r.err(), Some(SimpleFileWALError::DataFailure(MemFileError::Injected)));
    // The first operation on the index stream is the seek to its start.
    let r = SimpleFileWAL::new(
        MemFile::from_bytes(b"abc".to_vec()),
        MemFile::failing_after(encode(&[3]), 0),
        NoopFileSyncer::default(),
    );
    assert_eq!(r.err(), Some(SimpleFileWALError::IndexFailure(MemFileError::Injected)));
    // Seek, seek, cut: the sync of the index is its fourth operation.
    let r = SimpleFileWAL::new(
        MemFile::from_bytes(b"abc".to_vec()),
        MemFile::failing_after(encode(&[3]), 3),
        SyncDataFileSyncer::default(),
    );
    assert_eq!(r.err(), Some(SimpleFileWALError::IndexFailure(MemFileError::Injected)));
    // The cut of the data is its third operation.
    let r = SimpleFileWAL::new(
        MemFile::failing_after(b"abc".to_vec(), 2),
        MemFile::from_bytes(encode(&[3])),
        SyncDataFileSyncer::default(),
    );
    assert_eq!(r.err(), Some(SimpleFileWALError::DataFailure(MemFileError::Injected)));
}

#[test]
fn replay_splits_the_data_at_the_entries() {
    assert_eq!(
        replay(b"abcdefghij", &encode(&[3, 0, 5, 2])),
        vec![b"abc".to_vec(), Vec::new(), b"defgh".to_vec(), b"ij".to_vec()]
    );
    // An entry beyond the data, and what follows it, is not replayed.
    assert_eq!(replay(b"abcd", &encode(&[3, 5, 1])), vec![b"abc".to_vec()]);
    assert_eq!(replay(b"abcd", &[0, 0, 0, 0, 0, 0, 0]), Vec::<Vec<u8>>::new());
}

#[test]
fn mem_file_seeks_writes_and_cuts() {
    let mut f = MemFile::from_bytes(b"test\n".to_vec());
    assert_eq!(f.tell(), Ok(0));
    assert_eq!(f.seek(SeekFrom::End(0)), Ok(5));
    assert_eq!(f.write(b"more"), Ok(4));
    assert_eq!(f.tell(), Ok(9));
    assert_eq!(f.seek(SeekFrom::Start(2)), Ok(2));
    assert_eq!(f.write(b"x"), Err(MemFileError::OutOfRange));
    assert_eq!(f.seek(SeekFrom::Current(-3)), Err(MemFileError::OutOfRange));
    assert_eq!(f.seek(SeekFrom::Current(1)), Ok(3));
    assert_eq!(f.seek(SeekFrom::End(-9)), Ok(0));
    assert_eq!(f.set_len(11), Ok(()));
    assert_eq!(f.to_vec(), b"test\nmore\0\0".to_vec());
    assert_eq!(f.set_len(4), Ok(()));
    assert_eq!(f.to_vec(), b"test".to_vec());
    assert_eq!(f.synced_to_vec(), Vec::<u8>::new());
    assert_eq!(f.sync_data(), Ok(()));
    assert_eq!(f.synced_to_vec(), b"test".to_vec());
    assert_eq!(f.read_u64(), None);
    assert_eq!(f.tell(), Ok(0));
    assert_eq!(MemFile::write_zero(), MemFileError::WriteZero);
}

#[test]
fn mem_file_reads_markers_in_turn() {
    let mut bytes = encode(&[7, 9]);
    bytes.push(1);
    let mut f = MemFile::from_bytes(bytes);
    assert_eq!(f.read_u64(), Some(7));
    assert_eq!(f.read_u64(), Some(9));
    assert_eq!(f.read_u64(), None);
    assert_eq!(f.tell(), Ok(16));
}

#[test]
fn mem_file_fails_after_its_operations() {
    let mut f = MemFile::failing_after(Vec::new(), 2);
    assert_eq!(f.write(b"a"), Ok(1));
    assert_eq!(f.sync_data(), Ok(()));
    assert_eq!(f.write(b"b"), Err(MemFileError::Injected));
    assert_eq!(f.sync_data(), Err(MemFileError::Injected));
    assert_eq!(f.set_len(0), Err(MemFileError::Injected));
    assert_eq!(f.seek(SeekFrom::Start(0)), Err(MemFileError::Injected));
    assert_eq!(f.tell(), Err(MemFileError::Injected));
    assert_eq!(f.to_vec(), b"a".to_vec());
}

#[test]
fn test_basic_tracking_writer() {
    let mut track_file = TrackingBufFile::new(MemFile::new()).unwrap();

    let data1 = "test\n".as_bytes();
    write_all(&mut track_file, data1).unwrap();
    assert_eq!(track_file.tell().unwrap(), data1.len() as u64);

    track_file.seek(SeekFrom::Start(2)).unwrap();
    assert_eq!(track_file.tell().unwrap(), 2);

    track_file.seek(SeekFrom::End(0)).unwrap();
    assert_eq!(track_file.tell().unwrap(), data1.len() as u64);

    let mut data2 = Vec::new();
    data2.resize(16 * 2048, 0xFFu8);
    write_all(&mut track_file, &data2[..]).unwrap();
    assert_eq!(track_file.tell().unwrap(), (data1.len() + data2.len()) as u64);
    assert_eq!(track_file.pos(), (data1.len() + data2.len()) as u64);

    let read = track_file.into_inner().to_vec();
    assert_eq!(data1, &read[..data1.len()]);
    assert_eq!(data2, &read[data1.len()..]);
}

#[test]
fn trim_cuts_and_leaves_the_stream_at_its_end() {
    let mut f = MemFile::from_bytes(b"0123456789".to_vec());
    assert_eq!(trim_log(&mut f, 4, &SyncDataFileSyncer::default()), Ok(()));
    assert_eq!(f.to_vec(), b"0123".to_vec());
    assert_eq!(f.synced_to_vec(), b"0123".to_vec());
    assert_eq!(f.tell(), Ok(4));
    assert_eq!(trim_log(&mut f, 2, &NoopFileSyncer::default()), Ok(()));
    assert_eq!(f.to_vec(), b"01".to_vec());
    assert_eq!(f.synced_to_vec(), b"0123".to_vec());
}
