use fleetfs::client_cache::{open_rights, plan_read, FileHandleAttributes, FileHandleTable, ReadAheadCache, ReadPlan, SPECULATIVE_READ_SIZE};
use fleetfs::metadata::MetadataStorage;
use fleetfs::types::{ErrorCode, FileKind, Timestamp};

/// Serves a read through the cache and a fake server; counts round trips.
fn serve(handles: &FileHandleTable, cache: &mut ReadAheadCache, fh: u64, offset: u64, size: u32, pid: u32, now: u64, trips: &mut u32) -> Vec<u8> {
    match plan_read(handles, cache, fh, offset, size, pid, now) {
        ReadPlan::Denied => panic!("denied"),
        ReadPlan::Cached(v) => v,
        ReadPlan::Fetch { offset, length, read_ahead } => {
            *trips += 1;
            let data: Vec<u8> = (0..length as u64).map(|i| ((offset + i) % 251) as u8).collect();
            if read_ahead {
                cache.fill(fh, offset, size, pid, data, now)
            } else {
                data
            }
        }
    }
}

#[test]
fn read_ahead_serves_second_read() {
    let mut handles = FileHandleTable::new();
    let fh = handles.allocate(true, false).unwrap();
    let mut cache = ReadAheadCache::new();
    let mut trips = 0;
    let first = serve(&handles, &mut cache, fh, 0, 131072, 42, 1_000, &mut trips);
    let second = serve(&handles, &mut cache, fh, 131072, 131072, 42, 500_000, &mut trips);
    assert_eq!(trips, 1);
    assert_eq!(first.len(), 131072);
    assert_eq!(second.len(), 131072);
    assert_eq!(second[0], (131072 % 251) as u8);
    let third = serve(&handles, &mut cache, fh, 262144, 131072, 42, 600_000, &mut trips);
    assert_eq!(trips, 1);
    let expected: Vec<u8> = (262144..393216u64).map(|i| (i % 251) as u8).collect();
    assert_eq!(third, expected);
}

#[test]
fn read_ahead_other_process_misses() {
    let mut handles = FileHandleTable::new();
    let fh = handles.allocate(true, false).unwrap();
    let mut cache = ReadAheadCache::new();
    let mut trips = 0;
    serve(&handles, &mut cache, fh, 0, 131072, 42, 1_000, &mut trips);
    serve(&handles, &mut cache, fh, 131072, 131072, 43, 2_000, &mut trips);
    assert_eq!(trips, 2);
}

#[test]
fn read_ahead_expires_and_purges() {
    let mut handles = FileHandleTable::new();
    let fh = handles.allocate(true, false).unwrap();
    let mut cache = ReadAheadCache::new();
    let mut trips = 0;
    serve(&handles, &mut cache, fh, 0, 131072, 1, 0, &mut trips);
    serve(&handles, &mut cache, fh, 131072, 131072, 1, 1_000_000, &mut trips);
    assert_eq!(trips, 2);
    serve(&handles, &mut cache, fh, 262144, 131072, 1, 1_000_001, &mut trips);
    assert_eq!(trips, 2);
    cache.purge(fh);
    serve(&handles, &mut cache, fh, 393216, 131072, 1, 1_000_002, &mut trips);
    assert_eq!(trips, 3);
}

#[test]
fn small_reads_skip_read_ahead() {
    let mut handles = FileHandleTable::new();
    let fh = handles.allocate(true, true).unwrap();
    let mut cache = ReadAheadCache::new();
    match plan_read(&handles, &mut cache, fh, 10, 4096, 1, 0) {
        ReadPlan::Fetch { offset, length, read_ahead } => assert_eq!((offset, length, read_ahead), (10, 4096, false)),
        other => panic!("{:?}", other),
    }
    match plan_read(&handles, &mut cache, fh, 0, 131072, 1, 0) {
        ReadPlan::Fetch { length, read_ahead, .. } => assert_eq!((length, read_ahead), (SPECULATIVE_READ_SIZE, true)),
        other => panic!("{:?}", other),
    }
    let short = cache.fill(fh, 0, 131072, 1, vec![1, 2, 3], 0);
    assert_eq!(short, vec![1, 2, 3]);
}

#[test]
fn handle_table_rights() {
    let mut handles = FileHandleTable::new();
    let r = handles.allocate(true, false).unwrap();
    let w = handles.allocate(false, true).unwrap();
    assert_eq!((r, w), (1, 2));
    assert!(handles.check_read(r));
    assert!(!handles.check_write(r));
    assert!(handles.check_write(w));
    handles.release(w);
    assert!(!handles.check_write(w));
    let mut cache = ReadAheadCache::new();
    assert!(matches!(plan_read(&handles, &mut cache, w, 0, 10, 1, 0), ReadPlan::Denied));
}

#[test]
fn open_flags_decide_rights() {
    let mut s = MetadataStorage::new(Timestamp::new(1, 0));
    let (_, attrs) = s.create(1, "f", 1000, 1000, 0o640, FileKind::File, Timestamp::new(2, 0)).unwrap();
    assert_eq!(open_rights(0, &attrs, 1000, 1000), Ok(FileHandleAttributes { read: true, write: false }));
    assert_eq!(open_rights(2, &attrs, 1000, 1000), Ok(FileHandleAttributes { read: true, write: true }));
    assert_eq!(open_rights(1, &attrs, 2000, 1000), Err(ErrorCode::AccessDenied));
    assert_eq!(open_rights(0, &attrs, 2000, 1000), Ok(FileHandleAttributes { read: true, write: false }));
    assert_eq!(open_rights(0o1000, &attrs, 1000, 1000), Err(ErrorCode::AccessDenied));
    assert_eq!(open_rights(3, &attrs, 1000, 1000), Err(ErrorCode::BadRequest));
}
