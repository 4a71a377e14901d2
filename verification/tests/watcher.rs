use rustcloud::db::{Database, NewFileRecord, NewSyncRecord, Repository, SyncStatus};
use rustcloud::hashing::hash_bytes;
use rustcloud::service::storage::{StorageConfig, StorageService};
use rustcloud::watcher::file_watcher::EVENT_QUEUE_CAPACITY;
use rustcloud::watcher::{convert_event, handle_event, FileEvent, RawEvent, RawKind};

fn raw(kind: RawKind, paths: &[&str]) -> RawEvent {
    RawEvent { kind, paths: paths.iter().map(|p| p.to_string()).collect() }
}

fn setup() -> (StorageService, Repository) {
    (
        StorageService::new(StorageConfig { storage_path: "s".to_string(), chunk_size: 1024 }),
        Repository::new(Database::new()),
    )
}

#[test]
fn notifications_reduce_to_four_events() {
    assert_eq!(
        convert_event(raw(RawKind::Create, &["watched.txt"])),
        Some(FileEvent::Created("watched.txt".to_string()))
    );
    assert_eq!(
        convert_event(raw(RawKind::Modify, &["a", "b"])),
        Some(FileEvent::Modified("a".to_string()))
    );
    assert_eq!(
        convert_event(raw(RawKind::Remove, &["a"])),
        Some(FileEvent::Deleted("a".to_string()))
    );
    assert_eq!(
        convert_event(raw(RawKind::RenameBoth, &["old", "new"])),
        Some(FileEvent::Renamed { from: "old".to_string(), to: "new".to_string() })
    );
}

#[test]
fn a_rename_seen_from_one_side_is_a_deletion_or_a_creation() {
    assert_eq!(
        convert_event(raw(RawKind::RenameFrom, &["old"])),
        Some(FileEvent::Deleted("old".to_string()))
    );
    assert_eq!(
        convert_event(raw(RawKind::RenameTo, &["new"])),
        Some(FileEvent::Created("new".to_string()))
    );
    assert_eq!(
        convert_event(raw(RawKind::RenameBoth, &["only"])),
        Some(FileEvent::Modified("only".to_string()))
    );
}

#[test]
fn notifications_that_tell_of_no_change_are_passed_over() {
    for kind in [RawKind::Any, RawKind::Access, RawKind::Other] {
        assert_eq!(convert_event(raw(kind, &["a"])), None);
    }
    for kind in [
        RawKind::Create,
        RawKind::Modify,
        RawKind::Remove,
        RawKind::RenameFrom,
        RawKind::RenameTo,
        RawKind::RenameBoth,
        RawKind::Any,
    ] {
        assert_eq!(convert_event(raw(kind, &[])), None);
    }
}

#[test]
fn the_queue_holds_a_hundred_events() {
    assert_eq!(EVENT_QUEUE_CAPACITY, 100);
}

#[test]
fn a_created_file_is_stored_under_the_hash_that_storing_it_gives() {
    let (mut storage, mut repository) = setup();
    let event = FileEvent::Created("watched.txt".to_string());
    let stored = handle_event(&event, Some(b"content"), &mut storage, &mut repository);

    let (mut direct, _) = setup();
    let (hash, size) = direct.store_file(b"content");
    assert_eq!(stored, Some((hash.clone(), size)));
    assert_eq!(hash, hash_bytes(b"content"));
    assert_eq!(storage.retrieve_file(&hash).unwrap(), b"content");
    assert_eq!(repository.list_files(), vec![]);

    let again = FileEvent::Modified("watched.txt".to_string());
    assert_eq!(
        handle_event(&again, Some(b"content"), &mut storage, &mut repository),
        Some((hash, 7))
    );
    assert_eq!(storage.area().len(), 1);
}

#[test]
fn what_is_no_regular_file_is_not_stored() {
    let (mut storage, mut repository) = setup();
    for event in [FileEvent::Created("dir".to_string()), FileEvent::Modified("dir".to_string())] {
        assert_eq!(handle_event(&event, None, &mut storage, &mut repository), None);
    }
    assert_eq!(storage.area().len(), 0);
}

fn with_two_files() -> (StorageService, Repository, u128, u128) {
    let (storage, mut repository) = setup();
    let a = repository
        .create_file(NewFileRecord { path: "a.txt".to_string(), hash: None, size: 0 })
        .unwrap();
    let b = repository
        .create_file(NewFileRecord { path: "b.txt".to_string(), hash: None, size: 0 })
        .unwrap();
    for id in [a.id, b.id] {
        repository
            .create_sync(NewSyncRecord { device_id: 1, file_id: id, sync_status: SyncStatus::Pending })
            .unwrap();
    }
    (storage, repository, a.id, b.id)
}

#[test]
fn a_deleted_path_loses_its_record_and_its_sync_records() {
    let (mut storage, mut repository, a, b) = with_two_files();
    let event = FileEvent::Deleted("a.txt".to_string());
    assert_eq!(handle_event(&event, Some(b"ignored"), &mut storage, &mut repository), None);
    assert!(repository.get_file_by_path("a.txt").is_err());
    assert_eq!(repository.list_syncs_by_file(a), vec![]);
    assert_eq!(repository.list_syncs_by_file(b).len(), 1);
    assert_eq!(repository.list_files().len(), 1);
    assert_eq!(storage.area().len(), 0);

    let unknown = FileEvent::Deleted("c.txt".to_string());
    assert_eq!(handle_event(&unknown, None, &mut storage, &mut repository), None);
    assert_eq!(repository.list_files().len(), 1);
}

#[test]
fn a_rename_deletes_the_old_path_and_stores_the_new_one() {
    let (mut storage, mut repository, a, _) = with_two_files();
    let event = FileEvent::Renamed { from: "a.txt".to_string(), to: "z.txt".to_string() };
    let stored = handle_event(&event, Some(b"moved"), &mut storage, &mut repository);
    assert_eq!(stored, Some((hash_bytes(b"moved"), 5)));
    assert!(repository.get_file_by_path("a.txt").is_err());
    assert_eq!(repository.list_syncs_by_file(a), vec![]);
    assert!(storage.file_exists(&hash_bytes(b"moved")));

    let to_a_directory = FileEvent::Renamed { from: "b.txt".to_string(), to: "d".to_string() };
    assert_eq!(handle_event(&to_a_directory, None, &mut storage, &mut repository), None);
    assert_eq!(repository.list_files(), vec![]);
    assert_eq!(storage.area().len(), 1);
}
