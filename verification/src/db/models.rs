//! The records of the metadata table.

use vstd::prelude::*;
use crate::clock::Timestamp;
use crate::ident::{fresh_id, RecordId};

verus! {

/// Copies an optional text.
pub(crate) fn clone_text(text: &Option<String>) -> (copy: Option<String>)
    ensures
        copy == *text,
{
    match text {
        Some(s) => Some(s.clone()),
        None => None,
    }
}

/// The text of an optional string.
pub open spec fn text_of(s: Option<String>) -> Option<Seq<char>> {
    match s {
        Some(t) => Some(t@),
        None => None,
    }
}

/// Whether two optional strings have the same text, or are both absent.
pub(crate) fn same_text(a: &Option<String>, b: &Option<String>) -> (same: bool)
    ensures
        same == (text_of(*a) == text_of(*b)),
{
    match (a, b) {
        (Some(x), Some(y)) => *x == *y,
        (None, None) => true,
        _ => false,
    }
}

/// What is known of one path: the hash of its content, where known, its size
/// and its version, which starts at 1 and grows by one with each update.
#[derive(Debug, PartialEq, Eq)]
pub struct FileRecord {
    pub id: RecordId,
    pub path: String,
    pub hash: Option<String>,
    pub size: u64,
    pub version: i32,
    pub created_at: Timestamp,
    pub updated_at: Timestamp,
}

/// What a caller supplies to have a file record made.
#[derive(Debug, PartialEq, Eq)]
pub struct NewFileRecord {
    pub path: String,
    pub hash: Option<String>,
    pub size: u64,
}

/// The state of one attempt to synchronise one file with one device.
#[derive(Debug, Clone, Copy, PartialEq, Eq, Structural)]
pub struct SyncRecord {
    pub id: RecordId,
    pub device_id: RecordId,
    pub file_id: RecordId,
    pub sync_status: SyncStatus,
    pub last_sync_at: Timestamp,
}

/// What a caller supplies to have a sync record made.
#[derive(Debug, Clone, Copy, PartialEq, Eq, Structural)]
pub struct NewSyncRecord {
    pub device_id: RecordId,
    pub file_id: RecordId,
    pub sync_status: SyncStatus,
}

/// Where an attempt stands. `Pending` and `Syncing` are passing states;
/// `Completed` and `Failed` end the attempt.
#[derive(Debug, Clone, Copy, PartialEq, Eq, Structural)]
pub enum SyncStatus {
    Pending,
    Syncing,
    Completed,
    Failed,
}

/// A registered device and the instant it was last heard of.
#[derive(Debug, PartialEq, Eq)]
pub struct DeviceRecord {
    pub id: RecordId,
    pub name: String,
    pub last_seen: Timestamp,
}

/// What a caller supplies to have a device registered.
#[derive(Debug, PartialEq, Eq)]
pub struct NewDeviceRecord {
    pub name: String,
}

/// The whole metadata table.
#[derive(Debug, PartialEq, Eq)]
pub struct Database {
    pub files: Vec<FileRecord>,
    pub syncs: Vec<SyncRecord>,
    pub devices: Vec<DeviceRecord>,
}

impl Clone for FileRecord {
    fn clone(&self) -> (copy: Self)
        ensures
            copy == *self,
    {
        FileRecord {
            id: self.id,
            path: self.path.clone(),
            hash: clone_text(&self.hash),
            size: self.size,
            version: self.version,
            created_at: self.created_at,
            updated_at: self.updated_at,
        }
    }
}

impl Clone for NewFileRecord {
    fn clone(&self) -> (copy: Self)
        ensures
            copy == *self,
    {
        NewFileRecord { path: self.path.clone(), hash: clone_text(&self.hash), size: self.size }
    }
}

impl Clone for DeviceRecord {
    fn clone(&self) -> (copy: Self)
        ensures
            copy == *self,
    {
        DeviceRecord { id: self.id, name: self.name.clone(), last_seen: self.last_seen }
    }
}

impl Clone for NewDeviceRecord {
    fn clone(&self) -> (copy: Self)
        ensures
            copy == *self,
    {
        NewDeviceRecord { name: self.name.clone() }
    }
}

impl SyncStatus {
    /// The name of the status as it is written in persisted documents.
    pub open spec fn name(self) -> Seq<char> {
        match self {
            SyncStatus::Pending => "PENDING"@,
            SyncStatus::Syncing => "SYNCING"@,
            SyncStatus::Completed => "COMPLETED"@,
            SyncStatus::Failed => "FAILED"@,
        }
    }

    /// Whether the status ends an attempt.
    pub open spec fn is_terminal(self) -> bool {
        self == SyncStatus::Completed || self == SyncStatus::Failed
    }

    /// Whether an attempt in this status may pass to `next`: a pending one
    /// starts syncing, a syncing one completes or fails, and nothing follows a
    /// terminal status.
    pub open spec fn may_become(self, next: SyncStatus) -> bool {
        match self {
            SyncStatus::Pending => next == SyncStatus::Syncing,
            SyncStatus::Syncing => next.is_terminal(),
            SyncStatus::Completed => false,
            SyncStatus::Failed => false,
        }
    }

    /// The name of the status as it is written in persisted documents.
    pub fn as_str(&self) -> (text: &'static str)
        ensures
            text@ == self.name(),
    {
        match self {
            SyncStatus::Pending => "PENDING",
            SyncStatus::Syncing => "SYNCING",
            SyncStatus::Completed => "COMPLETED",
            SyncStatus::Failed => "FAILED",
        }
    }
}

impl FileRecord {
    /// The record that `new_record` becomes under the given identifier at the
    /// given instant.
    pub open spec fn first_version(new_record: NewFileRecord, id: RecordId, at: Timestamp)
        -> FileRecord {
        FileRecord {
            id,
            path: new_record.path,
            hash: new_record.hash,
            size: new_record.size,
            version: 1,
            created_at: at,
            updated_at: at,
        }
    }

    /// Makes the first version of a record under a given identifier, created
    /// at a given instant.
    pub fn with_identity(new_record: NewFileRecord, id: RecordId, at: Timestamp) -> (record:
        FileRecord)
        ensures
            record == FileRecord::first_version(new_record, id, at),
    {
        FileRecord {
            id,
            path: new_record.path,
            hash: new_record.hash,
            size: new_record.size,
            version: 1,
            created_at: at,
            updated_at: at,
        }
    }

    /// Makes the first version of a record under a fresh identifier, created
    /// now.
    pub fn new(new_record: NewFileRecord) -> (record: FileRecord)
        ensures
            record == FileRecord::first_version(new_record, record.id, record.created_at),
    {
        let at = Timestamp::now();
        FileRecord::with_identity(new_record, fresh_id(), at)
    }

    /// The record one version later, last touched at `at`.
    pub open spec fn next_version(self, at: Timestamp) -> FileRecord {
        FileRecord { version: (self.version + 1) as i32, updated_at: at, ..self }
    }

    /// Moves the record to its next version, touched at a given instant.
    pub fn increment_version_at(&mut self, at: Timestamp)
        requires
            old(self).version < i32::MAX,
        ensures
            *final(self) == old(self).next_version(at),
    {
        self.version = self.version + 1;
        self.updated_at = at;
    }

    /// Moves the record to its next version, touched now.
    pub fn increment_version(&mut self)
        requires
            old(self).version < i32::MAX,
        ensures
            *final(self) == old(self).next_version(final(self).updated_at),
    {
        self.increment_version_at(Timestamp::now());
    }
}

impl SyncRecord {
    /// The record that `new_record` becomes under the given identifier at the
    /// given instant.
    pub open spec fn started(new_record: NewSyncRecord, id: RecordId, at: Timestamp)
        -> SyncRecord {
        SyncRecord {
            id,
            device_id: new_record.device_id,
            file_id: new_record.file_id,
            sync_status: new_record.sync_status,
            last_sync_at: at,
        }
    }

    /// Makes a sync record under a given identifier at a given instant.
    pub fn with_identity(new_record: NewSyncRecord, id: RecordId, at: Timestamp) -> (record:
        SyncRecord)
        ensures
            record == SyncRecord::started(new_record, id, at),
    {
        SyncRecord {
            id,
            device_id: new_record.device_id,
            file_id: new_record.file_id,
            sync_status: new_record.sync_status,
            last_sync_at: at,
        }
    }

    /// Makes a sync record under a fresh identifier, now.
    pub fn new(new_record: NewSyncRecord) -> (record: SyncRecord)
        ensures
            record == SyncRecord::started(new_record, record.id, record.last_sync_at),
    {
        let id = fresh_id();
        SyncRecord::with_identity(new_record, id, Timestamp::now())
    }
}

impl DeviceRecord {
    /// Registers a device under a given identifier, seen at a given instant.
    pub fn with_identity(new_record: NewDeviceRecord, id: RecordId, at: Timestamp) -> (record:
        DeviceRecord)
        ensures
            record == (DeviceRecord { id, name: new_record.name, last_seen: at }),
    {
        DeviceRecord { id, name: new_record.name, last_seen: at }
    }

    /// Registers a device under a fresh identifier, seen now.
    pub fn new(new_record: NewDeviceRecord) -> (record: DeviceRecord)
        ensures
            record.name == new_record.name,
    {
        let id = fresh_id();
        DeviceRecord::with_identity(new_record, id, Timestamp::now())
    }

    /// Notes that the device was heard of at a given instant.
    pub fn update_last_seen_at(&mut self, at: Timestamp)
        ensures
            *final(self) == (DeviceRecord { last_seen: at, ..*old(self) }),
    {
        self.last_seen = at;
    }

    /// Notes that the device was heard of now.
    pub fn update_last_seen(&mut self)
        ensures
            final(self).id == old(self).id,
            final(self).name == old(self).name,
    {
        self.update_last_seen_at(Timestamp::now());
    }
}

impl Database {
    /// The table without any record.
    pub fn new() -> (db: Database)
        ensures
            db.files@.len() == 0,
            db.syncs@.len() == 0,
            db.devices@.len() == 0,
    {
        Database { files: Vec::new(), syncs: Vec::new(), devices: Vec::new() }
    }
}

impl Clone for Database {
    fn clone(&self) -> (copy: Self)
        ensures
            copy.files@ == self.files@,
            copy.syncs@ == self.syncs@,
            copy.devices@ == self.devices@,
    {
        Database {
            files: copy_files(&self.files),
            syncs: copy_syncs(&self.syncs),
            devices: copy_devices(&self.devices),
        }
    }
}

/// Copies a list of file records.
pub(crate) fn copy_files(files: &Vec<FileRecord>) -> (copy: Vec<FileRecord>)
    ensures
        copy@ == files@,
{
    let mut copy: Vec<FileRecord> = Vec::new();
    let mut i: usize = 0;
    while i < files.len()
        invariant
            i <= files.len(),
            copy@ == files@.take(i as int),
        decreases files.len() - i,
    {
        copy.push(files[i].clone());
        assert(files@.take(i as int).push(files@[i as int]) =~= files@.take(i + 1));
        i = i + 1;
    }
    assert(files@.take(files.len() as int) =~= files@);
    copy
}

/// Copies a list of sync records.
pub(crate) fn copy_syncs(syncs: &Vec<SyncRecord>) -> (copy: Vec<SyncRecord>)
    ensures
        copy@ == syncs@,
{
    let mut copy: Vec<SyncRecord> = Vec::new();
    let mut i: usize = 0;
    while i < syncs.len()
        invariant
            i <= syncs.len(),
            copy@ == syncs@.take(i as int),
        decreases syncs.len() - i,
    {
        copy.push(syncs[i]);
        assert(syncs@.take(i as int).push(syncs@[i as int]) =~= syncs@.take(i + 1));
        i = i + 1;
    }
    assert(syncs@.take(syncs.len() as int) =~= syncs@);
    copy
}

/// Copies a list of device records.
pub(crate) fn copy_devices(devices: &Vec<DeviceRecord>) -> (copy: Vec<DeviceRecord>)
    ensures
        copy@ == devices@,
{
    let mut copy: Vec<DeviceRecord> = Vec::new();
    let mut i: usize = 0;
    while i < devices.len()
        invariant
            i <= devices.len(),
            copy@ == devices@.take(i as int),
        decreases devices.len() - i,
    {
        copy.push(devices[i].clone());
        assert(devices@.take(i as int).push(devices@[i as int]) =~= devices@.take(i + 1));
        i = i + 1;
    }
    assert(devices@.take(devices.len() as int) =~= devices@);
    copy
}

} // verus!
