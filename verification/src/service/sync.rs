//! The reconciliation engine: it compares a local snapshot with the files
//! that the server knows, one action per local path, and carries out one
//! action at a time, with a sync record that tells how it went.

use vstd::prelude::*;
use vstd::string::*;
use crate::clock::Timestamp;
use crate::db::lookup::{
    device_ids, file_ids, file_paths, sync_ids, syncs_except_file, syncs_of_file,
};
use crate::db::models::{
    same_text, text_of, DeviceRecord, FileRecord, NewDeviceRecord, NewSyncRecord, SyncRecord,
    SyncStatus,
};
use crate::db::repository::{brought_to, record_name, seen_at, Repository};
use crate::error::Error;
use crate::ident::RecordId;

verus! {

/// What is to be done about one local file.
#[derive(Debug, Clone, Copy, PartialEq, Eq, Structural)]
pub enum SyncAction {
    Upload,
    Download,
    Delete,
    Skip,
}

/// The decision for one local file. It is not kept: each pass makes its plan
/// anew.
#[derive(Debug, PartialEq, Eq)]
pub struct SyncPlan {
    pub file_id: RecordId,
    pub path: String,
    pub action: SyncAction,
}

impl Clone for SyncPlan {
    fn clone(&self) -> (copy: Self)
        ensures
            copy == *self,
    {
        SyncPlan { file_id: self.file_id, path: self.path.clone(), action: self.action }
    }
}

/// How many files a pass uploaded, downloaded, deleted and skipped, and what
/// went wrong.
#[derive(Debug, PartialEq, Eq)]
pub struct SyncReport {
    pub uploaded: usize,
    pub downloaded: usize,
    pub deleted: usize,
    pub skipped: usize,
    pub errors: Vec<String>,
}

impl Default for SyncReport {
    fn default() -> (report: Self)
        ensures
            report.uploaded == 0,
            report.downloaded == 0,
            report.deleted == 0,
            report.skipped == 0,
            report.errors@.len() == 0,
    {
        SyncReport { uploaded: 0, downloaded: 0, deleted: 0, skipped: 0, errors: Vec::new() }
    }
}

/// What is to be done about a local file, given the files that the server
/// knows. A path that the server does not know is uploaded. A path that it
/// knows with the same hash is skipped. Where the hashes differ, the side
/// with the larger version wins: the file is downloaded if the server's
/// version is strictly larger, and uploaded otherwise.
pub open spec fn planned_action(local: FileRecord, remote: Seq<FileRecord>) -> SyncAction {
    match file_paths(remote).index_of_first(local.path@) {
        None => SyncAction::Upload,
        Some(i) => if text_of(remote[i].hash) == text_of(local.hash) {
            SyncAction::Skip
        } else if remote[i].version > local.version {
            SyncAction::Download
        } else {
            SyncAction::Upload
        },
    }
}

/// Whether `plan` is the decision for `local`, given the server's files.
pub open spec fn is_plan_for(plan: SyncPlan, local: FileRecord, remote: Seq<FileRecord>) -> bool {
    &&& plan.file_id == local.id
    &&& plan.path@ == local.path@
    &&& plan.action == planned_action(local, remote)
}

/// The sync records after the first one with an identifier is brought to a
/// status at an instant; the same records where none has the identifier.
pub open spec fn with_status(
    syncs: Seq<SyncRecord>,
    id: RecordId,
    status: SyncStatus,
    at: Timestamp,
) -> Seq<SyncRecord> {
    match sync_ids(syncs).index_of_first(id) {
        Some(i) => syncs.update(i, brought_to(syncs[i], status, at)),
        None => syncs,
    }
}

/// The record that opens an attempt for a file and a device.
pub open spec fn attempt(
    file_id: RecordId,
    device_id: RecordId,
    id: RecordId,
    at: Timestamp,
) -> SyncRecord {
    SyncRecord { id, device_id, file_id, sync_status: SyncStatus::Syncing, last_sync_at: at }
}

/// The sync records after an action on a known file was carried out, where
/// the attempt got the identifier `id`, was opened at `opened` and closed at
/// `closed`. A deletion takes every record of the file with it, the one of
/// this attempt too; any other action leaves the attempt behind as completed.
pub open spec fn syncs_after(
    syncs: Seq<SyncRecord>,
    file_id: RecordId,
    device_id: RecordId,
    action: SyncAction,
    id: RecordId,
    opened: Timestamp,
    closed: Timestamp,
) -> Seq<SyncRecord> {
    let opened_syncs = syncs.push(attempt(file_id, device_id, id, opened));
    let acted = if action == SyncAction::Delete {
        syncs_except_file(opened_syncs, file_id)
    } else {
        opened_syncs
    };
    with_status(acted, id, SyncStatus::Completed, closed)
}

/// The file records after an action on a file was carried out.
pub open spec fn files_after(files: Seq<FileRecord>, file_id: RecordId, action: SyncAction) -> Seq<
    FileRecord,
> {
    match file_ids(files).index_of_first(file_id) {
        Some(i) => if action == SyncAction::Delete {
            files.remove(i)
        } else {
            files
        },
        None => files,
    }
}

/// Where no sync record has the identifier that an attempt gets, an action
/// other than a deletion leaves the records as they were, with the attempt
/// behind them, completed at the instant it was closed. The attempt has
/// passed from `Syncing` to `Completed`, as the order of the statuses allows.
pub proof fn lemma_attempt_ends_completed(
    syncs: Seq<SyncRecord>,
    file_id: RecordId,
    device_id: RecordId,
    action: SyncAction,
    id: RecordId,
    opened: Timestamp,
    closed: Timestamp,
)
    requires
        action != SyncAction::Delete,
        !sync_ids(syncs).contains(id),
    ensures
        syncs_after(syncs, file_id, device_id, action, id, opened, closed) == syncs.push(
            brought_to(attempt(file_id, device_id, id, opened), SyncStatus::Completed, closed),
        ),
        attempt(file_id, device_id, id, opened).sync_status.may_become(SyncStatus::Completed),
        SyncStatus::Completed.is_terminal(),
{
    let record = attempt(file_id, device_id, id, opened);
    let opened_syncs = syncs.push(record);
    let ids = sync_ids(opened_syncs);
    assert(ids[syncs.len() as int] == id);
    assert forall|j: int| 0 <= j < syncs.len() implies ids[j] != id by {
        assert(sync_ids(syncs)[j] == ids[j]);
        assert(sync_ids(syncs).contains(sync_ids(syncs)[j]));
    }
    crate::db::lookup::lemma_first_position(ids, id, syncs.len() as int);
    assert(opened_syncs.update(
        syncs.len() as int,
        brought_to(record, SyncStatus::Completed, closed),
    ) =~= syncs.push(brought_to(record, SyncStatus::Completed, closed)));
}

/// A deletion leaves no sync record of the file behind, the one of the
/// attempt included.
pub proof fn lemma_deletion_leaves_no_attempt(
    syncs: Seq<SyncRecord>,
    file_id: RecordId,
    device_id: RecordId,
    id: RecordId,
    opened: Timestamp,
    closed: Timestamp,
)
    ensures
        syncs_of_file(
            syncs_after(syncs, file_id, device_id, SyncAction::Delete, id, opened, closed),
            file_id,
        ) == Seq::<SyncRecord>::empty(),
{
    let opened_syncs = syncs.push(attempt(file_id, device_id, id, opened));
    let acted = syncs_except_file(opened_syncs, file_id);
    crate::db::lookup::lemma_cascade_leaves_no_sync(opened_syncs, file_id);
    let after = with_status(acted, id, SyncStatus::Completed, closed);
    sync_ids(acted).index_of_first_ensures(id);
    assert(after.len() == acted.len());
    assert forall|i: int| 0 <= i < after.len() implies (#[trigger] after[i]).file_id
        != file_id by {
        assert(acted[i].file_id != file_id);
    }
    crate::db::lookup::lemma_none_of_file(after, file_id);
}

/// The planner never asks for a deletion, whatever the two sides hold: a
/// path that only the server knows is left alone.
pub proof fn lemma_plan_never_deletes(local: FileRecord, remote: Seq<FileRecord>)
    ensures
        planned_action(local, remote) != SyncAction::Delete,
{
}

/// The engine that plans and carries out synchronisation against the
/// metadata table.
#[derive(Debug)]
pub struct SyncEngine {
    repository: Repository,
}

impl SyncEngine {
    /// The metadata table that the engine works on.
    pub closed spec fn repository(&self) -> Repository {
        self.repository
    }

    /// An engine that works on a metadata table.
    pub fn new(repository: Repository) -> (engine: SyncEngine)
        ensures
            engine.repository() == repository,
    {
        SyncEngine { repository }
    }

    /// Gives the metadata table back.
    pub fn into_repository(self) -> (repository: Repository)
        ensures
            repository == self.repository(),
    {
        self.repository
    }

    /// The metadata table, to read.
    pub fn repository_ref(&self) -> (repository: &Repository)
        ensures
            *repository == self.repository(),
    {
        &self.repository
    }

    /// Registers a device under a name.
    pub fn register_device(&mut self, name: &str) -> (record: DeviceRecord)
        ensures
            record.name@ == name@,
            final(self).repository().devices() == old(self).repository().devices().push(record),
            final(self).repository().files() == old(self).repository().files(),
            final(self).repository().syncs() == old(self).repository().syncs(),
    {
        self.repository.create_device(NewDeviceRecord { name: name.to_owned() })
    }

    /// All registered devices.
    pub fn list_devices(&self) -> (devices: Vec<DeviceRecord>)
        ensures
            devices@ == self.repository().devices(),
    {
        self.repository.list_devices()
    }

    /// Notes that a device is alive now.
    pub fn heartbeat(&mut self, device_id: RecordId) -> (r: Result<DeviceRecord, Error>)
        ensures
            final(self).repository().files() == old(self).repository().files(),
            final(self).repository().syncs() == old(self).repository().syncs(),
            match device_ids(old(self).repository().devices()).index_of_first(device_id) {
                Some(i) => {
                    &&& r matches Ok(record) && record == seen_at(
                        old(self).repository().devices()[i],
                        record.last_seen,
                    )
                    &&& final(self).repository().devices() == old(
                        self,
                    ).repository().devices().update(i, r.unwrap())
                },
                None => {
                    &&& r matches Err(e) && e.is_not_found(record_name("device:"@, device_id))
                    &&& final(self).repository().devices() == old(self).repository().devices()
                },
            },
    {
        self.repository.update_device_last_seen(device_id)
    }

    /// Decides, for each file of a local snapshot, what is to be done about
    /// it: one decision per local file, in the order of the snapshot.
    pub fn create_sync_plan(&self, local_files: &[FileRecord]) -> (plans: Vec<SyncPlan>)
        ensures
            plans@.len() == local_files@.len(),
            forall|i: int|
                0 <= i < plans@.len() ==> is_plan_for(
                    #[trigger] plans@[i],
                    local_files@[i],
                    self.repository().files(),
                ),
    {
        let mut plans: Vec<SyncPlan> = Vec::new();
        let mut i: usize = 0;
        while i < local_files.len()
            invariant
                i <= local_files@.len(),
                plans@.len() == i,
                forall|k: int|
                    0 <= k < i ==> is_plan_for(
                        #[trigger] plans@[k],
                        local_files@[k],
                        self.repository().files(),
                    ),
            decreases local_files@.len() - i,
        {
            let local = &local_files[i];
            let action = match self.repository.get_file_by_path(local.path.as_str()) {
                Err(_) => SyncAction::Upload,
                Ok(remote) => {
                    if same_text(&remote.hash, &local.hash) {
                        SyncAction::Skip
                    } else if remote.version > local.version {
                        SyncAction::Download
                    } else {
                        SyncAction::Upload
                    }
                },
            };
            plans.push(SyncPlan { file_id: local.id, path: local.path.clone(), action });
            i = i + 1;
        }
        plans
    }

    /// Carries out one action on one file for one device. For a file that
    /// the table does not know, nothing happens and the file is reported
    /// missing. Otherwise a sync record is opened in the status `Syncing`;
    /// a deletion removes the file with all its sync records, every other
    /// action moves no data at this level; and the record of the attempt,
    /// if it is still there, is closed as `Completed`.
    pub fn sync_file(&mut self, file_id: RecordId, device_id: RecordId, action: SyncAction) -> (r:
        Result<(), Error>)
        ensures
            final(self).repository().devices() == old(self).repository().devices(),
            final(self).repository().files() == files_after(
                old(self).repository().files(),
                file_id,
                action,
            ),
            match file_ids(old(self).repository().files()).index_of_first(file_id) {
                Some(_) => {
                    &&& r is Ok
                    &&& exists|id: RecordId, opened: Timestamp, closed: Timestamp|
                        final(self).repository().syncs() == #[trigger] syncs_after(
                            old(self).repository().syncs(),
                            file_id,
                            device_id,
                            action,
                            id,
                            opened,
                            closed,
                        )
                },
                None => {
                    &&& r matches Err(e) && e.is_not_found(record_name("file:"@, file_id))
                    &&& final(self).repository().syncs() == old(self).repository().syncs()
                },
            },
    {
        proof {
            file_ids(self.repository.files()).index_of_first_ensures(file_id);
        }
        let new_sync = NewSyncRecord { device_id, file_id, sync_status: SyncStatus::Syncing };
        let record = match self.repository.create_sync(new_sync) {
            Ok(record) => record,
            Err(e) => {
                return Err(e);
            },
        };
        let ghost opened_syncs = self.repository.syncs();
        assert(record == attempt(file_id, device_id, record.id, record.last_sync_at));
        let outcome = match action {
            SyncAction::Delete => self.repository.delete_file(file_id),
            _ => Ok(()),
        };
        let ghost acted = self.repository.syncs();
        match outcome {
            Ok(_) => {
                let closing = self.repository.update_sync_status(record.id, SyncStatus::Completed);
                proof {
                    let closed = match closing {
                        Ok(done) => done.last_sync_at,
                        Err(_) => record.last_sync_at,
                    };
                    assert(self.repository.syncs() == syncs_after(
                        old(self).repository().syncs(),
                        file_id,
                        device_id,
                        action,
                        record.id,
                        record.last_sync_at,
                        closed,
                    ));
                }
                Ok(())
            },
            Err(e) => {
                let _ = self.repository.update_sync_status(record.id, SyncStatus::Failed);
                Err(e)
            },
        }
    }

    /// The sync records of a file, in the order of their creation.
    pub fn get_sync_status(&self, file_id: RecordId) -> (syncs: Vec<SyncRecord>)
        ensures
            syncs@ == syncs_of_file(self.repository().syncs(), file_id),
    {
        self.repository.list_syncs_by_file(file_id)
    }
}

} // verus!
