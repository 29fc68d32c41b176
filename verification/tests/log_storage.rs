use liblog::file::{MemFile, MemFileError};
use liblog::index::{encode, replay};
use liblog::log_storage::{DoubleWAL, NoopCommiter, SyncDataCommiter};

#[test]
fn double_wal_commits_and_aborts() {
    let wal = DoubleWAL::new(MemFile::new(), MemFile::new(), SyncDataCommiter {}).unwrap();
    let mut writer = wal.get_writer().ok().unwrap();
    writer.write_all(b"abc").unwrap();
    let (wal, r) = writer.commit();
    assert_eq!(r, Ok(()));

    let mut writer = wal.get_writer().ok().unwrap();
    writer.write_all(b"never").unwrap();
    let (wal, r) = writer.abort();
    assert_eq!(r, Ok(()));

    let mut writer = wal.get_writer().ok().unwrap();
    writer.write_all(b"de").unwrap();
    writer.write_all(b"fgh").unwrap();
    let (wal, r) = writer.commit();
    assert_eq!(r, Ok(()));

    let (data, offsets) = wal.into_files();
    assert_eq!(data.to_vec(), b"abcdefgh".to_vec());
    assert_eq!(offsets.to_vec(), encode(&[3, 5]));
    assert_eq!(data.synced_to_vec(), b"abcdefgh".to_vec());
    assert_eq!(offsets.synced_to_vec(), encode(&[3, 5]));
    assert_eq!(
        replay(&data.to_vec(), &offsets.to_vec()),
        vec![b"abc".to_vec(), b"defgh".to_vec()]
    );
}

#[test]
fn double_wal_recovers_on_opening() {
    let mut offsets = encode(&[2, 2, 9]);
    offsets.extend_from_slice(&[1, 2]);
    let wal = DoubleWAL::new(
        MemFile::from_bytes(b"aabbcc".to_vec()),
        MemFile::from_bytes(offsets),
        NoopCommiter {},
    )
    .unwrap();
    let (data, offsets) = wal.into_files();
    assert_eq!(data.to_vec(), b"aabb".to_vec());
    assert_eq!(offsets.to_vec(), encode(&[2, 2]));
    // Opening syncs both streams, whatever the commiter.
    assert_eq!(data.synced_to_vec(), b"aabb".to_vec());
    assert_eq!(offsets.synced_to_vec(), encode(&[2, 2]));
}

#[test]
fn double_wal_without_sync_leaves_durability_to_the_system() {
    let wal = DoubleWAL::new(MemFile::new(), MemFile::new(), NoopCommiter {}).unwrap();
    let mut writer = wal.get_writer().ok().unwrap();
    writer.write_all(b"abc").unwrap();
    let (wal, r) = writer.commit();
    assert_eq!(r, Ok(()));
    let (data, offsets) = wal.into_files();
    assert_eq!(data.to_vec(), b"abc".to_vec());
    assert_eq!(offsets.to_vec(), encode(&[3]));
    assert!(data.synced_to_vec().is_empty());
    assert!(offsets.synced_to_vec().is_empty());
}

#[test]
fn double_wal_reports_failures() {
    assert_eq!(
        DoubleWAL::new(MemFile::failing_after(Vec::new(), 0), MemFile::new(), NoopCommiter {})
            .err(),
        Some(MemFileError::Injected)
    );
    // Four operations to open, one to take the writer, one write; the sync of the commit fails.
    let wal =
        DoubleWAL::new(MemFile::failing_after(Vec::new(), 6), MemFile::new(), SyncDataCommiter {})
            .unwrap();
    let mut writer = wal.get_writer().ok().unwrap();
    writer.write_all(b"abc").unwrap();
    let (wal, r) = writer.commit();
    assert_eq!(r, Err(MemFileError::Injected));
    let (wal, e) = wal.get_writer().err().unwrap();
    assert_eq!(e, MemFileError::Injected);
    let (_, offsets) = wal.into_files();
    assert!(offsets.to_vec().is_empty());
}
