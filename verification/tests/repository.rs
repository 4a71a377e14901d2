use rustcloud::clock::Timestamp;
use rustcloud::db::{
    Database, DeviceRecord, FileRecord, NewDeviceRecord, NewFileRecord, NewSyncRecord, Repository,
    SyncRecord, SyncStatus,
};
use rustcloud::error::Error;

fn setup() -> Repository {
    Repository::new(Database::new())
}

fn at(secs: i64) -> Timestamp {
    Timestamp { secs, nanos: 0 }
}

fn new_file(path: &str, hash: &str, size: u64) -> NewFileRecord {
    NewFileRecord { path: path.to_string(), hash: Some(hash.to_string()), size }
}

#[test]
fn test_repository_create_and_get_file() {
    let mut repository = setup();

    let new_file = NewFileRecord {
        path: "test.txt".to_string(),
        hash: Some("abc123".to_string()),
        size: 100,
    };

    let created = repository.create_file(new_file.clone()).unwrap();
    assert_eq!(created.path, "test.txt");
    assert_eq!(created.size, 100);
    assert_eq!(created.version, 1);

    let fetched = repository.get_file_by_path("test.txt").unwrap();
    assert_eq!(fetched.id, created.id);
}

#[test]
fn test_repository_update_file() {
    let mut repository = setup();

    let new_file = NewFileRecord {
        path: "test.txt".to_string(),
        hash: Some("abc123".to_string()),
        size: 100,
    };

    let created = repository.create_file(new_file).unwrap();

    let updated = repository.update_file(created.id, Some("def456".to_string()), 200).unwrap();

    assert_eq!(updated.hash, Some("def456".to_string()));
    assert_eq!(updated.size, 200);
    assert_eq!(updated.version, 2);
}

#[test]
fn test_repository_delete_file() {
    let mut repository = setup();

    let new_file = NewFileRecord {
        path: "test.txt".to_string(),
        hash: Some("abc123".to_string()),
        size: 100,
    };

    let created = repository.create_file(new_file).unwrap();
    repository.delete_file(created.id).unwrap();

    let result = repository.get_file_by_path("test.txt");
    assert!(result.is_err());
}

#[test]
fn a_new_record_is_version_one_created_and_updated_at_once() {
    let mut repository = setup();
    let created = repository.create_file(new_file("a.txt", "h1", 5)).unwrap();
    assert_eq!(created.hash, Some("h1".to_string()));
    assert_eq!(created.created_at, created.updated_at);
    assert_eq!(repository.list_files(), vec![created.clone()]);
    assert_eq!(repository.get_file_by_id(created.id), Ok(created));
}

#[test]
fn a_record_made_with_a_given_identity_is_exact() {
    let mut repository = setup();
    let created = repository.create_file_with(new_file("a.txt", "h1", 5), 7, at(100)).unwrap();
    assert_eq!(
        created,
        FileRecord {
            id: 7,
            path: "a.txt".to_string(),
            hash: Some("h1".to_string()),
            size: 5,
            version: 1,
            created_at: at(100),
            updated_at: at(100),
        }
    );
    let no_hash = NewFileRecord { path: "b.txt".to_string(), hash: None, size: 0 };
    let second = repository.create_file_with(no_hash, 8, at(101)).unwrap();
    assert_eq!(second.hash, None);
    assert_eq!(repository.database().files.len(), 2);
}

#[test]
fn a_path_has_one_record() {
    let mut repository = setup();
    repository.create_file(new_file("a.txt", "h1", 5)).unwrap();
    let again = repository.create_file(new_file("a.txt", "h2", 6));
    assert_eq!(again, Err(Error::AlreadyExists("a.txt".to_string())));
    assert_eq!(repository.list_files().len(), 1);
    assert_eq!(repository.get_file_by_path("a.txt").unwrap().hash, Some("h1".to_string()));
}

#[test]
fn what_is_missing_is_named() {
    let mut repository = setup();
    let id: u128 = 0xa1a2a3a4b1b2c1c2d1d2d3d4d5d6d7d8;
    assert_eq!(
        repository.get_file_by_path("nowhere"),
        Err(Error::NotFound("nowhere".to_string()))
    );
    assert_eq!(
        repository.get_file_by_id(id),
        Err(Error::NotFound("file:a1a2a3a4-b1b2-c1c2-d1d2-d3d4d5d6d7d8".to_string()))
    );
    assert_eq!(
        repository.update_file(0, None, 1),
        Err(Error::NotFound("file:00000000-0000-0000-0000-000000000000".to_string()))
    );
    assert_eq!(
        repository.delete_file(0x0123456789abcdef0fedcba987654321),
        Err(Error::NotFound("file:01234567-89ab-cdef-0fed-cba987654321".to_string()))
    );
    assert_eq!(
        repository.get_device(u128::MAX),
        Err(Error::NotFound("device:ffffffff-ffff-ffff-ffff-ffffffffffff".to_string()))
    );
    assert_eq!(
        repository.update_device_last_seen(1),
        Err(Error::NotFound("device:00000000-0000-0000-0000-000000000001".to_string()))
    );
    assert_eq!(
        repository.update_sync_status(16, SyncStatus::Failed),
        Err(Error::NotFound("sync:00000000-0000-0000-0000-000000000010".to_string()))
    );
    let orphan = NewSyncRecord { device_id: 1, file_id: id, sync_status: SyncStatus::Pending };
    assert_eq!(
        repository.create_sync(orphan),
        Err(Error::NotFound("file:a1a2a3a4-b1b2-c1c2-d1d2-d3d4d5d6d7d8".to_string()))
    );
}

#[test]
fn each_update_is_one_version_more() {
    let mut repository = setup();
    let created = repository.create_file_with(new_file("a.txt", "h1", 5), 1, at(10)).unwrap();
    let mut version = created.version;
    let mut last = created.updated_at;
    for round in 0..5i64 {
        let updated = repository
            .update_file_at(1, Some(format!("h{}", round)), round as u64, at(11 + round))
            .unwrap();
        assert_eq!(updated.version, version + 1);
        assert!(updated.updated_at.after(&last));
        assert_eq!(updated.created_at, at(10));
        assert_eq!(updated.path, "a.txt");
        assert_eq!(updated.id, 1);
        version = updated.version;
        last = updated.updated_at;
    }
    assert_eq!(repository.get_file_by_id(1).unwrap().version, 6);
    let by_clock = repository.update_file(1, None, 0).unwrap();
    assert_eq!(by_clock.version, 7);
    assert_eq!(by_clock.hash, None);
    assert!(!last.after(&by_clock.updated_at) || by_clock.updated_at.secs < 17);
}

#[test]
fn an_update_changes_one_record_only() {
    let mut repository = setup();
    let a = repository.create_file_with(new_file("a.txt", "h1", 5), 1, at(10)).unwrap();
    let b = repository.create_file_with(new_file("b.txt", "h2", 6), 2, at(10)).unwrap();
    let updated = repository.update_file_at(2, Some("h3".to_string()), 9, at(20)).unwrap();
    assert_eq!(
        updated,
        FileRecord {
            hash: Some("h3".to_string()),
            size: 9,
            version: 2,
            updated_at: at(20),
            ..b
        }
    );
    assert_eq!(repository.list_files(), vec![a, updated]);
}

#[test]
fn deleting_a_file_takes_its_sync_records_along() {
    let mut repository = setup();
    let a = repository.create_file(new_file("a.txt", "h1", 5)).unwrap();
    let b = repository.create_file(new_file("b.txt", "h2", 6)).unwrap();
    for file in [&a, &b, &a] {
        let sync =
            NewSyncRecord { device_id: 9, file_id: file.id, sync_status: SyncStatus::Pending };
        repository.create_sync(sync).unwrap();
    }
    assert_eq!(repository.list_syncs_by_file(a.id).len(), 2);
    assert_eq!(repository.list_syncs_by_file(b.id).len(), 1);

    repository.delete_file(a.id).unwrap();

    assert_eq!(repository.list_syncs_by_file(a.id), Vec::<SyncRecord>::new());
    assert_eq!(repository.list_syncs_by_file(b.id).len(), 1);
    assert_eq!(repository.list_files(), vec![b]);
    assert_eq!(repository.database().syncs.len(), 1);
}

#[test]
fn sync_records_pass_from_status_to_status() {
    let mut repository = setup();
    let file = repository.create_file_with(new_file("a.txt", "h1", 5), 1, at(10)).unwrap();
    let opened = repository
        .create_sync_with(
            NewSyncRecord { device_id: 3, file_id: file.id, sync_status: SyncStatus::Syncing },
            40,
            at(11),
        )
        .unwrap();
    assert_eq!(
        opened,
        SyncRecord {
            id: 40,
            device_id: 3,
            file_id: 1,
            sync_status: SyncStatus::Syncing,
            last_sync_at: at(11),
        }
    );
    let closed = repository.update_sync_status_at(40, SyncStatus::Completed, at(12)).unwrap();
    assert_eq!(closed, SyncRecord { sync_status: SyncStatus::Completed, last_sync_at: at(12), ..opened });
    assert_eq!(repository.list_syncs_by_file(1), vec![closed]);
    let failed = repository.update_sync_status(40, SyncStatus::Failed).unwrap();
    assert_eq!(failed.sync_status, SyncStatus::Failed);
    assert_eq!(failed.id, 40);
}

#[test]
fn status_names() {
    assert_eq!(SyncStatus::Pending.as_str(), "PENDING");
    assert_eq!(SyncStatus::Syncing.as_str(), "SYNCING");
    assert_eq!(SyncStatus::Completed.as_str(), "COMPLETED");
    assert_eq!(SyncStatus::Failed.as_str(), "FAILED");
}

#[test]
fn devices_are_registered_and_seen() {
    let mut repository = setup();
    let laptop = repository.create_device(NewDeviceRecord { name: "laptop".to_string() });
    assert_eq!(laptop.name, "laptop");
    let phone =
        repository.create_device_with(NewDeviceRecord { name: "phone".to_string() }, 5, at(1));
    assert_eq!(phone, DeviceRecord { id: 5, name: "phone".to_string(), last_seen: at(1) });
    assert_eq!(repository.list_devices(), vec![laptop, phone.clone()]);
    assert_eq!(repository.get_device(5), Ok(phone.clone()));
    let seen = repository.update_device_last_seen_at(5, at(2)).unwrap();
    assert_eq!(seen, DeviceRecord { last_seen: at(2), ..phone });
    assert_eq!(repository.get_device(5), Ok(seen));
    let again = repository.update_device_last_seen(5).unwrap();
    assert_eq!(again.name, "phone");
    assert_eq!(again.id, 5);
}

#[test]
fn a_repository_opens_on_a_table_loaded_before() {
    let table = Database {
        files: vec![FileRecord {
            id: 3,
            path: "kept.txt".to_string(),
            hash: None,
            size: 1,
            version: 4,
            created_at: at(1),
            updated_at: at(2),
        }],
        syncs: vec![],
        devices: vec![DeviceRecord { id: 1, name: "d".to_string(), last_seen: at(3) }],
    };
    let mut repository = Repository::new(table.clone());
    assert_eq!(repository.database(), &table);
    assert_eq!(repository.get_file_by_path("kept.txt").unwrap().version, 4);
    assert_eq!(repository.update_file(3, None, 2).unwrap().version, 5);
}

#[test]
fn records_made_by_themselves() {
    let record = FileRecord::new(new_file("a", "h", 1));
    assert_eq!(record.version, 1);
    assert_eq!(record.created_at, record.updated_at);
    let mut record = FileRecord::with_identity(new_file("a", "h", 1), 2, at(5));
    record.increment_version_at(at(6));
    assert_eq!(record.version, 2);
    assert_eq!(record.updated_at, at(6));
    assert_eq!(record.created_at, at(5));
    record.increment_version();
    assert_eq!(record.version, 3);
    let sync = SyncRecord::new(NewSyncRecord {
        device_id: 1,
        file_id: 2,
        sync_status: SyncStatus::Pending,
    });
    assert_eq!((sync.device_id, sync.file_id, sync.sync_status), (1, 2, SyncStatus::Pending));
    let mut device = DeviceRecord::new(NewDeviceRecord { name: "n".to_string() });
    device.update_last_seen_at(at(9));
    assert_eq!(device.last_seen, at(9));
    device.update_last_seen();
    assert_eq!(device.name, "n");
}

#[test]
fn instants_are_ordered_by_seconds_then_nanoseconds() {
    let a = Timestamp { secs: 1, nanos: 5 };
    let b = Timestamp { secs: 1, nanos: 6 };
    let c = Timestamp { secs: 2, nanos: 0 };
    assert!(b.after(&a));
    assert!(c.after(&b));
    assert!(!a.after(&a));
    assert!(!a.after(&c));
    assert!(Timestamp { secs: -1, nanos: 0 }.after(&Timestamp { secs: -2, nanos: 999 }));
}

#[test]
fn messages_name_the_kind_and_the_detail() {
    assert_eq!(Error::NotFound("a/b".to_string()).message(), "File not found: a/b");
    assert_eq!(Error::AlreadyExists("a".to_string()).message(), "File already exists: a");
    assert_eq!(Error::InvalidPath("Not a directory".to_string()).message(), "Invalid path: Not a directory");
    assert_eq!(Error::Io("disk".to_string()).message(), "IO error: disk");
    assert_eq!(Error::Serialization("eof".to_string()).message(), "Serialization error: eof");
    assert_eq!(Error::Config("bad".to_string()).message(), "Configuration error: bad");
    assert_eq!(Error::Io("x".to_string()).clone(), Error::Io("x".to_string()));
}

#[test]
fn an_upload_is_recorded_as_first_or_next_version() {
    let mut repository = setup();
    let first = repository.record_upload("a.txt", Some("h1".to_string()), 5).unwrap();
    assert_eq!(first.version, 1);
    assert_eq!(first.path, "a.txt");
    assert_eq!(first.hash, Some("h1".to_string()));
    let second = repository.record_upload("a.txt", Some("h1".to_string()), 5).unwrap();
    assert_eq!(second.version, 2);
    assert_eq!(second.id, first.id);
    assert_eq!(second.created_at, first.created_at);
    let other = repository.record_upload("b.txt", None, 0).unwrap();
    assert_eq!(other.version, 1);
    assert_eq!(repository.list_files(), vec![second, other]);
}

#[test]
fn a_file_at_the_last_version_has_no_room() {
    let full = FileRecord {
        id: 3,
        path: "full".to_string(),
        hash: None,
        size: 1,
        version: i32::MAX,
        created_at: at(1),
        updated_at: at(2),
    };
    let mut other = full.clone();
    other.id = 4;
    other.path = "other".to_string();
    other.version = i32::MAX - 1;
    let repository =
        Repository::new(Database { files: vec![other, full], syncs: vec![], devices: vec![] });
    assert!(!repository.check_has_room());
    assert!(!repository.check_can_advance(3));
    assert!(repository.check_can_advance(4));
    assert!(repository.check_can_advance(5));
    assert!(setup().check_has_room());
}
