use rustcloud::clock::Timestamp;
use rustcloud::db::{Database, FileRecord, NewFileRecord, Repository, SyncStatus};
use rustcloud::error::Error;
use rustcloud::service::sync::{SyncAction, SyncEngine, SyncPlan, SyncReport};
use rustcloud::service::storage::{StorageConfig, StorageService};
use rustcloud::service::version::VersionService;
use rustcloud::hashing::hash_bytes;

fn at(secs: i64) -> Timestamp {
    Timestamp { secs, nanos: 0 }
}

fn record(id: u128, path: &str, hash: Option<&str>, version: i32) -> FileRecord {
    FileRecord {
        id,
        path: path.to_string(),
        hash: hash.map(|h| h.to_string()),
        size: 1,
        version,
        created_at: at(0),
        updated_at: at(0),
    }
}

fn engine_with(files: Vec<FileRecord>) -> SyncEngine {
    SyncEngine::new(Repository::new(Database { files, syncs: vec![], devices: vec![] }))
}

fn only_action(remote: Vec<FileRecord>, local: FileRecord) -> SyncAction {
    let engine = engine_with(remote);
    let plans = engine.create_sync_plan(&[local.clone()]);
    assert_eq!(plans.len(), 1);
    assert_eq!(plans[0].file_id, local.id);
    assert_eq!(plans[0].path, local.path);
    plans[0].action
}

#[test]
fn a_path_that_the_server_does_not_know_is_uploaded() {
    let local = record(1, "a.txt", Some("H1"), 1);
    assert_eq!(only_action(vec![], local.clone()), SyncAction::Upload);
    assert_eq!(only_action(vec![record(9, "b.txt", Some("H1"), 3)], local), SyncAction::Upload);
}

#[test]
fn a_path_with_the_same_hash_is_skipped() {
    let local = record(1, "a.txt", Some("H1"), 1);
    assert_eq!(only_action(vec![record(9, "a.txt", Some("H1"), 3)], local), SyncAction::Skip);
    let unknown = record(1, "a.txt", None, 1);
    assert_eq!(only_action(vec![record(9, "a.txt", None, 3)], unknown), SyncAction::Skip);
}

#[test]
fn a_newer_version_on_the_server_is_downloaded() {
    let local = record(1, "a.txt", Some("H1"), 2);
    assert_eq!(only_action(vec![record(9, "a.txt", Some("H2"), 5)], local), SyncAction::Download);
}

#[test]
fn a_version_that_is_not_newer_on_the_server_is_uploaded() {
    let local = record(1, "a.txt", Some("H1"), 5);
    assert_eq!(
        only_action(vec![record(9, "a.txt", Some("H2"), 5)], local.clone()),
        SyncAction::Upload
    );
    assert_eq!(
        only_action(vec![record(9, "a.txt", Some("H2"), 4)], local.clone()),
        SyncAction::Upload
    );
    assert_eq!(only_action(vec![record(9, "a.txt", None, 4)], local), SyncAction::Upload);
}

#[test]
fn a_plan_has_one_decision_per_local_file_in_order() {
    let engine = engine_with(vec![
        record(10, "same.txt", Some("S"), 1),
        record(11, "newer.txt", Some("N2"), 7),
        record(12, "remote-only.txt", Some("R"), 1),
    ]);
    let local = vec![
        record(1, "newer.txt", Some("N1"), 6),
        record(2, "fresh.txt", Some("F"), 1),
        record(3, "same.txt", Some("S"), 9),
    ];
    let plans = engine.create_sync_plan(&local);
    assert_eq!(
        plans,
        vec![
            SyncPlan { file_id: 1, path: "newer.txt".to_string(), action: SyncAction::Download },
            SyncPlan { file_id: 2, path: "fresh.txt".to_string(), action: SyncAction::Upload },
            SyncPlan { file_id: 3, path: "same.txt".to_string(), action: SyncAction::Skip },
        ]
    );
    assert!(plans.iter().all(|p| p.action != SyncAction::Delete));
    assert_eq!(engine.create_sync_plan(&[]), vec![]);
}

#[test]
fn an_action_on_a_known_file_leaves_a_completed_record() {
    for action in [SyncAction::Upload, SyncAction::Download, SyncAction::Skip] {
        let mut engine = engine_with(vec![record(1, "a.txt", Some("H"), 1)]);
        assert_eq!(engine.sync_file(1, 77, action), Ok(()));
        let syncs = engine.get_sync_status(1);
        assert_eq!(syncs.len(), 1);
        assert_eq!(syncs[0].sync_status, SyncStatus::Completed);
        assert_eq!(syncs[0].device_id, 77);
        assert_eq!(syncs[0].file_id, 1);
        assert_eq!(engine.repository_ref().list_files().len(), 1);
    }
}

#[test]
fn each_attempt_has_its_own_record() {
    let mut engine = engine_with(vec![record(1, "a.txt", Some("H"), 1)]);
    engine.sync_file(1, 7, SyncAction::Upload).unwrap();
    engine.sync_file(1, 8, SyncAction::Skip).unwrap();
    let syncs = engine.get_sync_status(1);
    assert_eq!(syncs.len(), 2);
    assert_eq!((syncs[0].device_id, syncs[1].device_id), (7, 8));
    assert!(syncs.iter().all(|s| s.sync_status == SyncStatus::Completed));
}

#[test]
fn a_deletion_removes_the_file_and_all_its_records() {
    let mut engine = engine_with(vec![record(1, "a.txt", Some("H"), 1), record(2, "b", None, 1)]);
    engine.sync_file(1, 7, SyncAction::Upload).unwrap();
    engine.sync_file(2, 7, SyncAction::Upload).unwrap();
    assert_eq!(engine.sync_file(1, 7, SyncAction::Delete), Ok(()));
    assert_eq!(engine.get_sync_status(1), vec![]);
    assert_eq!(engine.get_sync_status(2).len(), 1);
    let repository = engine.into_repository();
    assert_eq!(repository.list_files(), vec![record(2, "b", None, 1)]);
}

#[test]
fn an_action_on_an_unknown_file_fails_and_changes_nothing() {
    for action in [SyncAction::Upload, SyncAction::Download, SyncAction::Delete, SyncAction::Skip] {
        let mut engine = engine_with(vec![record(1, "a.txt", Some("H"), 1)]);
        assert_eq!(
            engine.sync_file(2, 7, action),
            Err(Error::NotFound("file:00000000-0000-0000-0000-000000000002".to_string()))
        );
        assert_eq!(engine.get_sync_status(2), vec![]);
        assert_eq!(engine.repository_ref().database().syncs.len(), 0);
        assert_eq!(engine.repository_ref().list_files().len(), 1);
    }
}

#[test]
fn devices_register_and_beat() {
    let mut engine = engine_with(vec![]);
    let device = engine.register_device("test-device");
    assert_eq!(device.name, "test-device");
    assert_eq!(engine.list_devices(), vec![device.clone()]);
    let alive = engine.heartbeat(device.id).unwrap();
    assert_eq!(alive.id, device.id);
    assert_eq!(alive.name, "test-device");
    assert!(engine.heartbeat(device.id.wrapping_add(1)).is_err());
}

#[test]
fn a_report_starts_at_zero() {
    let report = SyncReport::default();
    assert_eq!(
        (report.uploaded, report.downloaded, report.deleted, report.skipped),
        (0, 0, 0, 0)
    );
    assert!(report.errors.is_empty());
}

fn versions() -> VersionService {
    VersionService::new(
        StorageService::new(StorageConfig { storage_path: "s".to_string(), chunk_size: 4 }),
        Repository::new(Database::new()),
    )
}

#[test]
fn a_new_path_gets_its_first_version() {
    let mut service = versions();
    let created = service.create_version("docs/a.txt", b"hello world").unwrap();
    assert_eq!(created.path, "docs/a.txt");
    assert_eq!(created.hash, Some(hash_bytes(b"hello world")));
    assert_eq!(created.size, 11);
    assert_eq!(created.version, 1);
    assert_eq!(service.get_version("docs/a.txt"), Ok(created.clone()));
    assert_eq!(service.get_content(&created).unwrap(), b"hello world");
    assert_eq!(
        service.create_version("docs/a.txt", b"other"),
        Err(Error::AlreadyExists("docs/a.txt".to_string()))
    );
    assert_eq!(service.list_versions(), vec![created]);
    assert_eq!(service.storage_ref().area().len(), 2);
}

#[test]
fn new_content_moves_a_path_to_its_next_version() {
    let mut service = versions();
    let first = service.update_version("a.txt", b"one").unwrap();
    assert_eq!(first.version, 1);
    assert!(!service.has_changes("a.txt", b"one"));
    assert!(service.has_changes("a.txt", b"two"));
    assert!(service.has_changes("b.txt", b"one"));

    let same = service.update_version("a.txt", b"one").unwrap();
    assert_eq!(same, first);

    let second = service.update_version("a.txt", b"two").unwrap();
    assert_eq!(second.version, 2);
    assert_eq!(second.id, first.id);
    assert_eq!(second.hash, Some(hash_bytes(b"two")));
    assert_eq!(second.size, 3);
    assert_eq!(service.get_content(&second).unwrap(), b"two");
    assert_eq!(service.get_content(&first).unwrap(), b"one");
    assert_eq!(service.list_versions(), vec![second]);
}

#[test]
fn a_record_without_a_hash_has_no_content() {
    let service = versions();
    let record = FileRecord::with_identity(
        NewFileRecord { path: "p".to_string(), hash: None, size: 0 },
        1,
        at(0),
    );
    assert_eq!(service.get_content(&record), Err(Error::NotFound("p".to_string())));
}

#[test]
fn a_deleted_path_has_no_version() {
    let mut service = versions();
    service.create_version("a.txt", b"one").unwrap();
    assert_eq!(service.delete_version("a.txt"), Ok(()));
    assert_eq!(service.delete_version("a.txt"), Err(Error::NotFound("a.txt".to_string())));
    assert!(service.get_version("a.txt").is_err());
    let (storage, repository) = service.into_parts();
    assert!(storage.file_exists(&hash_bytes(b"one")));
    assert_eq!(repository.list_files(), vec![]);
}

#[test]
fn content_filed_through_versions_is_chunked_on_retrieval() {
    let (mut storage, repository) = versions().into_parts();
    let (hash, size, _) = storage.store_chunked(b"hello world");
    let mut service = VersionService::new(storage, repository);
    let record = service
        .repository_ref()
        .get_file_by_path("big")
        .unwrap_or(FileRecord::with_identity(
            NewFileRecord { path: "big".to_string(), hash: Some(hash), size },
            1,
            at(0),
        ));
    assert_eq!(service.get_content(&record).unwrap(), b"hello world");
    assert!(service.update_version("big", b"hello world").is_ok());
}
