//! The operations on the metadata table. Every mutation works on the table
//! in memory; whoever owns the repository writes it out afterwards.

use vstd::prelude::*;
use vstd::string::*;
use crate::clock::Timestamp;
use crate::db::lookup::{
    device_ids, file_ids, file_paths, lemma_cascade_leaves_no_sync, lemma_first_position,
    lemma_no_position, sync_ids, syncs_except_file, syncs_of_file,
};
use crate::db::models::{
    copy_devices, copy_files, text_of, Database, DeviceRecord, FileRecord, NewDeviceRecord,
    NewFileRecord, NewSyncRecord, SyncRecord, SyncStatus,
};
use crate::error::Error;
use crate::ident::{format_id, fresh_id, id_text, RecordId};

verus! {

/// The handle through which every component reads and changes the metadata
/// table.
#[derive(Debug)]
pub struct Repository {
    data: Database,
}

/// The file record `record` after an update to the given hash and size at the
/// given instant.
pub open spec fn revised(record: FileRecord, hash: Option<String>, size: u64, at: Timestamp)
    -> FileRecord {
    (FileRecord { hash, size, ..record }).next_version(at)
}

/// Whether `new` is the next version of `old` with the given hash and size:
/// the same file, one version later.
pub open spec fn is_revision_of(
    new: FileRecord,
    old: FileRecord,
    hash: Option<Seq<char>>,
    size: u64,
) -> bool {
    &&& new.id == old.id
    &&& new.path == old.path
    &&& new.created_at == old.created_at
    &&& new.version == old.version + 1
    &&& text_of(new.hash) == hash
    &&& new.size == size
}

/// Whether `new` is the first version of a record for the given path, hash
/// and size.
pub open spec fn is_first_version_of(
    new: FileRecord,
    path: Seq<char>,
    hash: Option<Seq<char>>,
    size: u64,
) -> bool {
    &&& new.path@ == path
    &&& text_of(new.hash) == hash
    &&& new.size == size
    &&& new.version == 1
    &&& new.created_at == new.updated_at
}

/// The sync record `record` brought to a status at the given instant.
pub open spec fn brought_to(record: SyncRecord, status: SyncStatus, at: Timestamp) -> SyncRecord {
    SyncRecord { sync_status: status, last_sync_at: at, ..record }
}

/// The device record `record` heard of at the given instant.
pub open spec fn seen_at(record: DeviceRecord, at: Timestamp) -> DeviceRecord {
    DeviceRecord { last_seen: at, ..record }
}

/// The text that names a missing record: its kind, a colon and its
/// identifier.
pub open spec fn record_name(kind: Seq<char>, id: RecordId) -> Seq<char> {
    kind + id_text(id)
}

/// A list of records with distinct paths keeps them distinct when a record
/// with a path that is not among them is added.
pub proof fn lemma_new_path_keeps_unique(files: Seq<FileRecord>, record: FileRecord)
    requires
        !file_paths(files).contains(record.path@),
    ensures
        file_paths(files.push(record)) == file_paths(files).push(record.path@),
        file_paths(files).no_duplicates() ==> file_paths(files.push(record)).no_duplicates(),
{
    let before = file_paths(files);
    let after = file_paths(files.push(record));
    assert(after =~= before.push(record.path@));
    if before.no_duplicates() {
        assert forall|i: int, j: int| 0 <= i < after.len() && 0 <= j < after.len() && i != j
            implies after[i] != after[j] by {
            if i < before.len() && j < before.len() {
                assert(before[i] != before[j]);
            } else if i < before.len() {
                assert(before.contains(before[i]));
            } else {
                assert(before.contains(before[j]));
            }
        }
    }
}

/// A list of records with distinct paths keeps them distinct when a record
/// is taken out.
pub proof fn lemma_removal_keeps_unique(files: Seq<FileRecord>, i: int)
    requires
        0 <= i < files.len(),
    ensures
        file_paths(files).no_duplicates() ==> file_paths(files.remove(i)).no_duplicates(),
{
    let before = file_paths(files);
    let after = file_paths(files.remove(i));
    if before.no_duplicates() {
        assert forall|a: int, b: int| 0 <= a < after.len() && 0 <= b < after.len() && a != b
            implies after[a] != after[b] by {
            let a0 = if a < i {
                a
            } else {
                a + 1
            };
            let b0 = if b < i {
                b
            } else {
                b + 1
            };
            assert(after[a] == before[a0]);
            assert(after[b] == before[b0]);
        }
    }
}

/// An update moves a file to the next version, strictly above the one it had,
/// keeps its identifier, path and instant of creation, and dates it at the
/// instant given: later than before wherever that instant is later.
pub proof fn lemma_update_advances(
    record: FileRecord,
    hash: Option<String>,
    size: u64,
    at: Timestamp,
)
    requires
        record.version < i32::MAX,
    ensures
        revised(record, hash, size, at).version == record.version + 1,
        revised(record, hash, size, at).version > record.version,
        revised(record, hash, size, at).updated_at == at,
        at.is_after(record.updated_at) ==> revised(record, hash, size, at).updated_at.is_after(
            record.updated_at,
        ),
        revised(record, hash, size, at).id == record.id,
        revised(record, hash, size, at).path == record.path,
        revised(record, hash, size, at).created_at == record.created_at,
        revised(record, hash, size, at).hash == hash,
        revised(record, hash, size, at).size == size,
{
}

fn missing(kind: &str, id: RecordId) -> (e: Error)
    ensures
        e.is_not_found(record_name(kind@, id)),
{
    let text = format_id(id);
    Error::NotFound(String::from_str(kind).concat(text.as_str()))
}

impl Repository {
    /// The file records, in the order of their creation.
    pub closed spec fn files(&self) -> Seq<FileRecord> {
        self.data.files@
    }

    /// The sync records, in the order of their creation.
    pub closed spec fn syncs(&self) -> Seq<SyncRecord> {
        self.data.syncs@
    }

    /// The device records, in the order of their registration.
    pub closed spec fn devices(&self) -> Seq<DeviceRecord> {
        self.data.devices@
    }

    /// Whether no two file records have the same path.
    pub open spec fn paths_unique(&self) -> bool {
        file_paths(self.files()).no_duplicates()
    }

    /// Opens a repository on a table that was loaded before.
    pub fn new(data: Database) -> (repo: Repository)
        ensures
            repo.files() == data.files@,
            repo.syncs() == data.syncs@,
            repo.devices() == data.devices@,
    {
        Repository { data }
    }

    /// The table as it stands, to be written out.
    pub fn database(&self) -> (data: &Database)
        ensures
            data.files@ == self.files(),
            data.syncs@ == self.syncs(),
            data.devices@ == self.devices(),
    {
        &self.data
    }

    fn position_of_path(&self, path: &String) -> (r: Option<usize>)
        ensures
            file_paths(self.files()).index_of_first(path@) == match r {
                Some(i) => Some(i as int),
                None => None,
            },
            r matches Some(i) ==> i < self.files().len() && self.files()[i as int].path@
                == path@,
    {
        let mut i: usize = 0;
        while i < self.data.files.len()
            invariant
                i <= self.data.files.len(),
                forall|j: int| 0 <= j < i ==> file_paths(self.files())[j] != path@,
            decreases self.data.files.len() - i,
        {
            if self.data.files[i].path == *path {
                proof {
                    lemma_first_position(file_paths(self.files()), path@, i as int);
                }
                return Some(i);
            }
            i = i + 1;
        }
        proof {
            lemma_no_position(file_paths(self.files()), path@);
        }
        None
    }

    fn position_of_file(&self, id: RecordId) -> (r: Option<usize>)
        ensures
            file_ids(self.files()).index_of_first(id) == match r {
                Some(i) => Some(i as int),
                None => None,
            },
            r matches Some(i) ==> i < self.files().len() && self.files()[i as int].id == id,
    {
        let mut i: usize = 0;
        while i < self.data.files.len()
            invariant
                i <= self.data.files.len(),
                forall|j: int| 0 <= j < i ==> file_ids(self.files())[j] != id,
            decreases self.data.files.len() - i,
        {
            if self.data.files[i].id == id {
                proof {
                    lemma_first_position(file_ids(self.files()), id, i as int);
                }
                return Some(i);
            }
            i = i + 1;
        }
        proof {
            lemma_no_position(file_ids(self.files()), id);
        }
        None
    }

    fn position_of_sync(&self, id: RecordId) -> (r: Option<usize>)
        ensures
            sync_ids(self.syncs()).index_of_first(id) == match r {
                Some(i) => Some(i as int),
                None => None,
            },
            r matches Some(i) ==> i < self.syncs().len() && self.syncs()[i as int].id == id,
    {
        let mut i: usize = 0;
        while i < self.data.syncs.len()
            invariant
                i <= self.data.syncs.len(),
                forall|j: int| 0 <= j < i ==> sync_ids(self.syncs())[j] != id,
            decreases self.data.syncs.len() - i,
        {
            if self.data.syncs[i].id == id {
                proof {
                    lemma_first_position(sync_ids(self.syncs()), id, i as int);
                }
                return Some(i);
            }
            i = i + 1;
        }
        proof {
            lemma_no_position(sync_ids(self.syncs()), id);
        }
        None
    }

    fn position_of_device(&self, id: RecordId) -> (r: Option<usize>)
        ensures
            device_ids(self.devices()).index_of_first(id) == match r {
                Some(i) => Some(i as int),
                None => None,
            },
            r matches Some(i) ==> i < self.devices().len() && self.devices()[i as int].id == id,
    {
        let mut i: usize = 0;
        while i < self.data.devices.len()
            invariant
                i <= self.data.devices.len(),
                forall|j: int| 0 <= j < i ==> device_ids(self.devices())[j] != id,
            decreases self.data.devices.len() - i,
        {
            if self.data.devices[i].id == id {
                proof {
                    lemma_first_position(device_ids(self.devices()), id, i as int);
                }
                return Some(i);
            }
            i = i + 1;
        }
        proof {
            lemma_no_position(device_ids(self.devices()), id);
        }
        None
    }

    /// Creates the record of a path under a given identifier at a given
    /// instant, unless the path has a record already.
    pub fn create_file_with(&mut self, new_file: NewFileRecord, id: RecordId, at: Timestamp) -> (r:
        Result<FileRecord, Error>)
        ensures
            final(self).syncs() == old(self).syncs(),
            final(self).devices() == old(self).devices(),
            old(self).paths_unique() ==> final(self).paths_unique(),
            match r {
                Ok(record) => {
                    &&& !file_paths(old(self).files()).contains(new_file.path@)
                    &&& record == FileRecord::first_version(new_file, id, at)
                    &&& final(self).files() == old(self).files().push(record)
                },
                Err(e) => {
                    &&& file_paths(old(self).files()).contains(new_file.path@)
                    &&& e.is_already_exists(new_file.path@)
                    &&& final(self).files() == old(self).files()
                },
            },
    {
        proof {
            file_paths(self.files()).index_of_first_ensures(new_file.path@);
        }
        match self.position_of_path(&new_file.path) {
            Some(_) => Err(Error::AlreadyExists(new_file.path.clone())),
            None => {
                let record = FileRecord::with_identity(new_file, id, at);
                self.data.files.push(record.clone());
                proof {
                    lemma_new_path_keeps_unique(old(self).files(), record);
                }
                Ok(record)
            },
        }
    }

    /// Creates the record of a path, unless the path has one already: version
    /// 1, under a fresh identifier, created and updated now.
    pub fn create_file(&mut self, new_file: NewFileRecord) -> (r: Result<FileRecord, Error>)
        ensures
            final(self).syncs() == old(self).syncs(),
            final(self).devices() == old(self).devices(),
            old(self).paths_unique() ==> final(self).paths_unique(),
            match r {
                Ok(record) => {
                    &&& !file_paths(old(self).files()).contains(new_file.path@)
                    &&& record == FileRecord::first_version(
                        new_file,
                        record.id,
                        record.created_at,
                    )
                    &&& final(self).files() == old(self).files().push(record)
                },
                Err(e) => {
                    &&& file_paths(old(self).files()).contains(new_file.path@)
                    &&& e.is_already_exists(new_file.path@)
                    &&& final(self).files() == old(self).files()
                },
            },
    {
        let id = fresh_id();
        self.create_file_with(new_file, id, Timestamp::now())
    }

    /// The record of a path: the first one in the table that has it.
    pub fn get_file_by_path(&self, path: &str) -> (r: Result<FileRecord, Error>)
        ensures
            match file_paths(self.files()).index_of_first(path@) {
                Some(i) => r == Ok::<FileRecord, Error>(self.files()[i]),
                None => r matches Err(e) && e.is_not_found(path@),
            },
    {
        let key = path.to_owned();
        match self.position_of_path(&key) {
            Some(i) => Ok(self.data.files[i].clone()),
            None => Err(Error::NotFound(key)),
        }
    }

    /// The record with an identifier: the first one in the table that has it.
    pub fn get_file_by_id(&self, id: RecordId) -> (r: Result<FileRecord, Error>)
        ensures
            match file_ids(self.files()).index_of_first(id) {
                Some(i) => r == Ok::<FileRecord, Error>(self.files()[i]),
                None => r matches Err(e) && e.is_not_found(record_name("file:"@, id)),
            },
    {
        match self.position_of_file(id) {
            Some(i) => Ok(self.data.files[i].clone()),
            None => Err(missing("file:", id)),
        }
    }

    /// Whether every file can take one more version: none is at the largest
    /// version that the counter holds.
    pub open spec fn has_room(&self) -> bool {
        forall|i: int| 0 <= i < self.files().len() ==> (#[trigger] self.files()[i]).version
            < i32::MAX
    }

    /// Where every file can take one more version, the file with a given
    /// identifier can.
    pub proof fn lemma_room_for_each(&self, id: RecordId)
        requires
            self.has_room(),
        ensures
            self.can_advance(id),
    {
        file_ids(self.files()).index_of_first_ensures(id);
    }

    /// Whether the file with an identifier can take one more version: it can
    /// unless its version is the largest that the counter holds. Holds also
    /// where there is no such file.
    pub open spec fn can_advance(&self, id: RecordId) -> bool {
        file_ids(self.files()).index_of_first(id) matches Some(i) ==> self.files()[i].version
            < i32::MAX
    }

    /// Tells whether every file can take one more version.
    pub fn check_has_room(&self) -> (ok: bool)
        ensures
            ok == self.has_room(),
    {
        let mut i: usize = 0;
        while i < self.data.files.len()
            invariant
                i <= self.data.files.len(),
                forall|k: int| 0 <= k < i ==> (#[trigger] self.files()[k]).version < i32::MAX,
            decreases self.data.files.len() - i,
        {
            if self.data.files[i].version == i32::MAX {
                return false;
            }
            i = i + 1;
        }
        true
    }

    /// Tells whether the file with an identifier can take one more version.
    pub fn check_can_advance(&self, id: RecordId) -> (ok: bool)
        ensures
            ok == self.can_advance(id),
    {
        match self.position_of_file(id) {
            Some(i) => self.data.files[i].version < i32::MAX,
            None => true,
        }
    }

    /// Gives a file a new hash and size at a given instant; its version grows
    /// by one.
    pub fn update_file_at(&mut self, id: RecordId, hash: Option<String>, size: u64, at: Timestamp)
        -> (r: Result<FileRecord, Error>)
        requires
            old(self).can_advance(id),
        ensures
            final(self).syncs() == old(self).syncs(),
            final(self).devices() == old(self).devices(),
            file_paths(final(self).files()) == file_paths(old(self).files()),
            match file_ids(old(self).files()).index_of_first(id) {
                Some(i) => {
                    &&& r == Ok::<FileRecord, Error>(revised(old(self).files()[i], hash, size, at))
                    &&& final(self).files() == old(self).files().update(i, r.unwrap())
                },
                None => {
                    &&& r matches Err(e) && e.is_not_found(record_name("file:"@, id))
                    &&& final(self).files() == old(self).files()
                },
            },
    {
        match self.position_of_file(id) {
            Some(i) => {
                let mut record = self.data.files[i].clone();
                record.hash = hash;
                record.size = size;
                record.increment_version_at(at);
                self.data.files.set(i, record.clone());
                assert(file_paths(self.files()) =~= file_paths(old(self).files()));
                Ok(record)
            },
            None => Err(missing("file:", id)),
        }
    }

    /// Gives a file a new hash and size; its version grows by one and it
    /// counts as updated now.
    pub fn update_file(&mut self, id: RecordId, hash: Option<String>, size: u64) -> (r: Result<
        FileRecord,
        Error,
    >)
        requires
            old(self).can_advance(id),
        ensures
            final(self).syncs() == old(self).syncs(),
            final(self).devices() == old(self).devices(),
            file_paths(final(self).files()) == file_paths(old(self).files()),
            match file_ids(old(self).files()).index_of_first(id) {
                Some(i) => {
                    &&& r matches Ok(record) && record == revised(
                        old(self).files()[i],
                        hash,
                        size,
                        record.updated_at,
                    )
                    &&& final(self).files() == old(self).files().update(i, r.unwrap())
                },
                None => {
                    &&& r matches Err(e) && e.is_not_found(record_name("file:"@, id))
                    &&& final(self).files() == old(self).files()
                },
            },
    {
        self.update_file_at(id, hash, size, Timestamp::now())
    }

    /// Records what was uploaded to a path: a path without a record gets its
    /// first one; otherwise the file that the record of the path names moves
    /// to its next version.
    pub fn record_upload(&mut self, path: &str, hash: Option<String>, size: u64) -> (r: Result<
        FileRecord,
        Error,
    >)
        requires
            old(self).has_room(),
        ensures
            final(self).syncs() == old(self).syncs(),
            final(self).devices() == old(self).devices(),
            old(self).paths_unique() ==> final(self).paths_unique(),
            r is Ok,
            match file_paths(old(self).files()).index_of_first(path@) {
                None => {
                    &&& r.unwrap().path@ == path@
                    &&& r.unwrap() == FileRecord::first_version(
                        (NewFileRecord { path: r.unwrap().path, hash, size }),
                        r.unwrap().id,
                        r.unwrap().created_at,
                    )
                    &&& final(self).files() == old(self).files().push(r.unwrap())
                },
                Some(i) => {
                    let j = file_ids(old(self).files()).index_of_first(
                        old(self).files()[i].id,
                    ).unwrap();
                    &&& 0 <= j <= i
                    &&& r.unwrap() == revised(
                        old(self).files()[j],
                        hash,
                        size,
                        r.unwrap().updated_at,
                    )
                    &&& final(self).files() == old(self).files().update(j, r.unwrap())
                },
            },
    {
        proof {
            file_paths(self.files()).index_of_first_ensures(path@);
        }
        match self.get_file_by_path(path) {
            Ok(existing) => {
                proof {
                    self.lemma_room_for_each(existing.id);
                    let ids = file_ids(self.files());
                    let i = file_paths(self.files()).index_of_first(path@).unwrap();
                    ids.index_of_first_ensures(existing.id);
                    assert(ids[i] == existing.id);
                }
                self.update_file(existing.id, hash, size)
            },
            Err(_) => self.create_file(NewFileRecord { path: path.to_owned(), hash, size }),
        }
    }

    /// Removes a file and, with it, every sync record that refers to it.
    pub fn delete_file(&mut self, id: RecordId) -> (r: Result<(), Error>)
        ensures
            final(self).devices() == old(self).devices(),
            old(self).paths_unique() ==> final(self).paths_unique(),
            match file_ids(old(self).files()).index_of_first(id) {
                Some(i) => {
                    &&& r is Ok
                    &&& final(self).files() == old(self).files().remove(i)
                    &&& final(self).syncs() == syncs_except_file(old(self).syncs(), id)
                    &&& syncs_of_file(final(self).syncs(), id) == Seq::<SyncRecord>::empty()
                },
                None => {
                    &&& r matches Err(e) && e.is_not_found(record_name("file:"@, id))
                    &&& final(self).files() == old(self).files()
                    &&& final(self).syncs() == old(self).syncs()
                },
            },
    {
        match self.position_of_file(id) {
            Some(i) => {
                self.data.files.remove(i);
                proof {
                    lemma_removal_keeps_unique(old(self).files(), i as int);
                }
                let mut kept: Vec<SyncRecord> = Vec::new();
                let mut k: usize = 0;
                while k < self.data.syncs.len()
                    invariant
                        k <= self.data.syncs.len(),
                        self.data.syncs@ == old(self).data.syncs@,
                        self.data.devices@ == old(self).data.devices@,
                        self.data.files@ == old(self).data.files@.remove(i as int),
                        kept@ == syncs_except_file(self.data.syncs@.take(k as int), id),
                    decreases self.data.syncs.len() - k,
                {
                    let record = self.data.syncs[k];
                    proof {
                        let upto = self.data.syncs@.take(k + 1);
                        assert(upto.drop_last() =~= self.data.syncs@.take(k as int));
                        assert(upto.last() == record);
                    }
                    if record.file_id != id {
                        kept.push(record);
                    }
                    k = k + 1;
                }
                assert(self.data.syncs@.take(k as int) =~= self.data.syncs@);
                proof {
                    lemma_cascade_leaves_no_sync(self.data.syncs@, id);
                }
                self.data.syncs = kept;
                Ok(())
            },
            None => Err(missing("file:", id)),
        }
    }

    /// All file records.
    pub fn list_files(&self) -> (files: Vec<FileRecord>)
        ensures
            files@ == self.files(),
    {
        copy_files(&self.data.files)
    }

    /// Opens a sync record under a given identifier at a given instant, for a
    /// file that the table knows.
    pub fn create_sync_with(&mut self, new_sync: NewSyncRecord, id: RecordId, at: Timestamp) -> (r:
        Result<SyncRecord, Error>)
        ensures
            final(self).files() == old(self).files(),
            final(self).devices() == old(self).devices(),
            match r {
                Ok(record) => {
                    &&& file_ids(old(self).files()).contains(new_sync.file_id)
                    &&& record == SyncRecord::started(new_sync, id, at)
                    &&& final(self).syncs() == old(self).syncs().push(record)
                },
                Err(e) => {
                    &&& !file_ids(old(self).files()).contains(new_sync.file_id)
                    &&& e.is_not_found(record_name("file:"@, new_sync.file_id))
                    &&& final(self).syncs() == old(self).syncs()
                },
            },
    {
        proof {
            file_ids(self.files()).index_of_first_ensures(new_sync.file_id);
        }
        match self.position_of_file(new_sync.file_id) {
            Some(_) => {
                let record = SyncRecord::with_identity(new_sync, id, at);
                self.data.syncs.push(record);
                Ok(record)
            },
            None => Err(missing("file:", new_sync.file_id)),
        }
    }

    /// Opens a sync record, under a fresh identifier and dated now, for a file
    /// that the table knows.
    pub fn create_sync(&mut self, new_sync: NewSyncRecord) -> (r: Result<SyncRecord, Error>)
        ensures
            final(self).files() == old(self).files(),
            final(self).devices() == old(self).devices(),
            match r {
                Ok(record) => {
                    &&& file_ids(old(self).files()).contains(new_sync.file_id)
                    &&& record == SyncRecord::started(new_sync, record.id, record.last_sync_at)
                    &&& final(self).syncs() == old(self).syncs().push(record)
                },
                Err(e) => {
                    &&& !file_ids(old(self).files()).contains(new_sync.file_id)
                    &&& e.is_not_found(record_name("file:"@, new_sync.file_id))
                    &&& final(self).syncs() == old(self).syncs()
                },
            },
    {
        let id = fresh_id();
        self.create_sync_with(new_sync, id, Timestamp::now())
    }

    /// Brings a sync record to a status at a given instant.
    pub fn update_sync_status_at(&mut self, id: RecordId, status: SyncStatus, at: Timestamp) -> (r:
        Result<SyncRecord, Error>)
        ensures
            final(self).files() == old(self).files(),
            final(self).devices() == old(self).devices(),
            match sync_ids(old(self).syncs()).index_of_first(id) {
                Some(i) => {
                    &&& r == Ok::<SyncRecord, Error>(brought_to(old(self).syncs()[i], status, at))
                    &&& final(self).syncs() == old(self).syncs().update(i, r.unwrap())
                },
                None => {
                    &&& r matches Err(e) && e.is_not_found(record_name("sync:"@, id))
                    &&& final(self).syncs() == old(self).syncs()
                },
            },
    {
        match self.position_of_sync(id) {
            Some(i) => {
                let before = self.data.syncs[i];
                let record = SyncRecord { sync_status: status, last_sync_at: at, ..before };
                self.data.syncs.set(i, record);
                Ok(record)
            },
            None => Err(missing("sync:", id)),
        }
    }

    /// Brings a sync record to a status, dated now.
    pub fn update_sync_status(&mut self, id: RecordId, status: SyncStatus) -> (r: Result<
        SyncRecord,
        Error,
    >)
        ensures
            final(self).files() == old(self).files(),
            final(self).devices() == old(self).devices(),
            match sync_ids(old(self).syncs()).index_of_first(id) {
                Some(i) => {
                    &&& r matches Ok(record) && record == brought_to(
                        old(self).syncs()[i],
                        status,
                        record.last_sync_at,
                    )
                    &&& final(self).syncs() == old(self).syncs().update(i, r.unwrap())
                },
                None => {
                    &&& r matches Err(e) && e.is_not_found(record_name("sync:"@, id))
                    &&& final(self).syncs() == old(self).syncs()
                },
            },
    {
        self.update_sync_status_at(id, status, Timestamp::now())
    }

    /// The sync records that refer to a file, in the order of their creation.
    pub fn list_syncs_by_file(&self, file_id: RecordId) -> (syncs: Vec<SyncRecord>)
        ensures
            syncs@ == syncs_of_file(self.syncs(), file_id),
    {
        let mut found: Vec<SyncRecord> = Vec::new();
        let mut k: usize = 0;
        while k < self.data.syncs.len()
            invariant
                k <= self.data.syncs.len(),
                found@ == syncs_of_file(self.data.syncs@.take(k as int), file_id),
            decreases self.data.syncs.len() - k,
        {
            let record = self.data.syncs[k];
            proof {
                let upto = self.data.syncs@.take(k + 1);
                assert(upto.drop_last() =~= self.data.syncs@.take(k as int));
                assert(upto.last() == record);
            }
            if record.file_id == file_id {
                found.push(record);
            }
            k = k + 1;
        }
        assert(self.data.syncs@.take(k as int) =~= self.data.syncs@);
        found
    }

    /// Registers a device under a given identifier, seen at a given instant.
    pub fn create_device_with(&mut self, new_device: NewDeviceRecord, id: RecordId, at: Timestamp)
        -> (record: DeviceRecord)
        ensures
            record == (DeviceRecord { id, name: new_device.name, last_seen: at }),
            final(self).devices() == old(self).devices().push(record),
            final(self).files() == old(self).files(),
            final(self).syncs() == old(self).syncs(),
    {
        let record = DeviceRecord::with_identity(new_device, id, at);
        self.data.devices.push(record.clone());
        record
    }

    /// Registers a device under a fresh identifier, seen now.
    pub fn create_device(&mut self, new_device: NewDeviceRecord) -> (record: DeviceRecord)
        ensures
            record.name == new_device.name,
            final(self).devices() == old(self).devices().push(record),
            final(self).files() == old(self).files(),
            final(self).syncs() == old(self).syncs(),
    {
        let id = fresh_id();
        self.create_device_with(new_device, id, Timestamp::now())
    }

    /// The device with an identifier: the first one in the table that has it.
    pub fn get_device(&self, id: RecordId) -> (r: Result<DeviceRecord, Error>)
        ensures
            match device_ids(self.devices()).index_of_first(id) {
                Some(i) => r == Ok::<DeviceRecord, Error>(self.devices()[i]),
                None => r matches Err(e) && e.is_not_found(record_name("device:"@, id)),
            },
    {
        match self.position_of_device(id) {
            Some(i) => Ok(self.data.devices[i].clone()),
            None => Err(missing("device:", id)),
        }
    }

    /// Notes that a device was heard of at a given instant.
    pub fn update_device_last_seen_at(&mut self, id: RecordId, at: Timestamp) -> (r: Result<
        DeviceRecord,
        Error,
    >)
        ensures
            final(self).files() == old(self).files(),
            final(self).syncs() == old(self).syncs(),
            match device_ids(old(self).devices()).index_of_first(id) {
                Some(i) => {
                    &&& r == Ok::<DeviceRecord, Error>(seen_at(old(self).devices()[i], at))
                    &&& final(self).devices() == old(self).devices().update(i, r.unwrap())
                },
                None => {
                    &&& r matches Err(e) && e.is_not_found(record_name("device:"@, id))
                    &&& final(self).devices() == old(self).devices()
                },
            },
    {
        match self.position_of_device(id) {
            Some(i) => {
                let mut record = self.data.devices[i].clone();
                record.update_last_seen_at(at);
                self.data.devices.set(i, record.clone());
                Ok(record)
            },
            None => Err(missing("device:", id)),
        }
    }

    /// Notes that a device was heard of now.
    pub fn update_device_last_seen(&mut self, id: RecordId) -> (r: Result<DeviceRecord, Error>)
        ensures
            final(self).files() == old(self).files(),
            final(self).syncs() == old(self).syncs(),
            match device_ids(old(self).devices()).index_of_first(id) {
                Some(i) => {
                    &&& r matches Ok(record) && record == seen_at(
                        old(self).devices()[i],
                        record.last_seen,
                    )
                    &&& final(self).devices() == old(self).devices().update(i, r.unwrap())
                },
                None => {
                    &&& r matches Err(e) && e.is_not_found(record_name("device:"@, id))
                    &&& final(self).devices() == old(self).devices()
                },
            },
    {
        self.update_device_last_seen_at(id, Timestamp::now())
    }

    /// All device records.
    pub fn list_devices(&self) -> (devices: Vec<DeviceRecord>)
        ensures
            devices@ == self.devices(),
    {
        copy_devices(&self.data.devices)
    }
}

} // verus!
