//! The versions of files: each path has one record, which an upload of new
//! content moves to its next version.

use vstd::prelude::*;
use vstd::string::*;
use crate::db::lookup::{file_ids, file_paths, syncs_except_file};
use crate::db::models::{same_text, text_of, FileRecord, NewFileRecord};
use crate::db::repository::{is_first_version_of, is_revision_of, Repository};
use crate::error::Error;
use crate::hashing::content_hash;
use crate::service::layout::{fetched_chunked, with_object};
use crate::service::storage::{agrees, StorageService};

verus! {

/// The service that files content in the blob store and keeps the record of
/// each path up to date.
#[derive(Debug)]
pub struct VersionService {
    storage: StorageService,
    repository: Repository,
}

impl VersionService {
    /// The blob store that the service files content in.
    pub closed spec fn storage(&self) -> StorageService {
        self.storage
    }

    /// The metadata table that the service keeps.
    pub closed spec fn repository(&self) -> Repository {
        self.repository
    }

    /// A service over a blob store and a metadata table.
    pub fn new(storage: StorageService, repository: Repository) -> (service: VersionService)
        ensures
            service.storage() == storage,
            service.repository() == repository,
    {
        VersionService { storage, repository }
    }

    /// Gives the blob store and the metadata table back.
    pub fn into_parts(self) -> (parts: (StorageService, Repository))
        ensures
            parts.0 == self.storage(),
            parts.1 == self.repository(),
    {
        (self.storage, self.repository)
    }

    /// The blob store, to read.
    pub fn storage_ref(&self) -> (storage: &StorageService)
        ensures
            *storage == self.storage(),
    {
        &self.storage
    }

    /// The metadata table, to read.
    pub fn repository_ref(&self) -> (repository: &Repository)
        ensures
            *repository == self.repository(),
    {
        &self.repository
    }

    /// Files the content of a new path: the content is stored, and the path
    /// gets its first record, unless it has one already.
    pub fn create_version(&mut self, path: &str, content: &[u8]) -> (r: Result<FileRecord, Error>)
        requires
            old(self).storage().block_size() > 0,
        ensures
            final(self).storage().config() == old(self).storage().config(),
            final(self).storage().objects() == with_object(
                old(self).storage().objects(),
                old(self).storage().root(),
                content@,
            ),
            final(self).repository().syncs() == old(self).repository().syncs(),
            final(self).repository().devices() == old(self).repository().devices(),
            match r {
                Ok(record) => {
                    &&& !file_paths(old(self).repository().files()).contains(path@)
                    &&& is_first_version_of(
                        record,
                        path@,
                        Some(content_hash(content@)),
                        content@.len() as u64,
                    )
                    &&& final(self).repository().files() == old(self).repository().files().push(
                        record,
                    )
                },
                Err(e) => {
                    &&& file_paths(old(self).repository().files()).contains(path@)
                    &&& e.is_already_exists(path@)
                    &&& final(self).repository().files() == old(self).repository().files()
                },
            },
    {
        let (hash, size) = self.storage.store_file(content);
        let new_file = NewFileRecord { path: path.to_owned(), hash: Some(hash), size };
        self.repository.create_file(new_file)
    }

    /// Files the content of a path. The content is stored in any case. A
    /// path without a record gets its first one. A path whose record has the
    /// hash of the content already keeps its record unchanged. Otherwise the
    /// file that the record names moves to its next version.
    pub fn update_version(&mut self, path: &str, content: &[u8]) -> (r: Result<FileRecord, Error>)
        requires
            old(self).storage().block_size() > 0,
            old(self).repository().has_room(),
        ensures
            final(self).storage().config() == old(self).storage().config(),
            final(self).storage().objects() == with_object(
                old(self).storage().objects(),
                old(self).storage().root(),
                content@,
            ),
            final(self).repository().syncs() == old(self).repository().syncs(),
            final(self).repository().devices() == old(self).repository().devices(),
            r is Ok,
            match file_paths(old(self).repository().files()).index_of_first(path@) {
                None => {
                    &&& is_first_version_of(
                        r.unwrap(),
                        path@,
                        Some(content_hash(content@)),
                        content@.len() as u64,
                    )
                    &&& final(self).repository().files() == old(self).repository().files().push(
                        r.unwrap(),
                    )
                },
                Some(i) => {
                    let known = old(self).repository().files()[i];
                    if text_of(known.hash) == Some(content_hash(content@)) {
                        &&& r.unwrap() == known
                        &&& final(self).repository().files() == old(self).repository().files()
                    } else {
                        let j = file_ids(old(self).repository().files()).index_of_first(
                            known.id,
                        ).unwrap();
                        &&& 0 <= j <= i
                        &&& is_revision_of(
                            r.unwrap(),
                            old(self).repository().files()[j],
                            Some(content_hash(content@)),
                            content@.len() as u64,
                        )
                        &&& final(self).repository().files() == old(
                            self,
                        ).repository().files().update(j, r.unwrap())
                    }
                },
            },
    {
        let existing = self.repository.get_file_by_path(path);
        let (hash, size) = self.storage.store_file(content);
        proof {
            file_paths(self.repository.files()).index_of_first_ensures(path@);
        }
        match existing {
            Ok(record) => {
                let now_known = Some(hash);
                if same_text(&record.hash, &now_known) {
                    return Ok(record);
                }
                proof {
                    self.repository.lemma_room_for_each(record.id);
                    let ids = file_ids(self.repository.files());
                    let i = file_paths(self.repository.files()).index_of_first(path@).unwrap();
                    ids.index_of_first_ensures(record.id);
                    assert(ids[i] == record.id);
                }
                self.repository.update_file(record.id, now_known, size)
            },
            Err(_) => {
                let new_file = NewFileRecord { path: path.to_owned(), hash: Some(hash), size };
                self.repository.create_file(new_file)
            },
        }
    }

    /// The record of a path.
    pub fn get_version(&self, path: &str) -> (r: Result<FileRecord, Error>)
        ensures
            match file_paths(self.repository().files()).index_of_first(path@) {
                Some(i) => r == Ok::<FileRecord, Error>(self.repository().files()[i]),
                None => r matches Err(e) && e.is_not_found(path@),
            },
    {
        self.repository.get_file_by_path(path)
    }

    /// The content that a record stands for: what the store retrieves for
    /// its hash. A record without a hash has no content, and its path is
    /// reported missing.
    pub fn get_content(&self, record: &FileRecord) -> (r: Result<Vec<u8>, Error>)
        ensures
            match record.hash {
                Some(hash) => agrees(
                    r,
                    fetched_chunked(self.storage().objects(), self.storage().root(), hash@),
                ),
                None => r matches Err(e) && e.is_not_found(record.path@),
            },
    {
        match &record.hash {
            Some(hash) => self.storage.retrieve_chunked(hash.as_str()),
            None => Err(Error::NotFound(record.path.clone())),
        }
    }

    /// Removes the record of a path, and with it the sync records of the
    /// file that the record names.
    pub fn delete_version(&mut self, path: &str) -> (r: Result<(), Error>)
        ensures
            final(self).storage() == old(self).storage(),
            final(self).repository().devices() == old(self).repository().devices(),
            match file_paths(old(self).repository().files()).index_of_first(path@) {
                Some(i) => {
                    let id = old(self).repository().files()[i].id;
                    let j = file_ids(old(self).repository().files()).index_of_first(id).unwrap();
                    &&& r is Ok
                    &&& 0 <= j <= i
                    &&& final(self).repository().files() == old(
                        self,
                    ).repository().files().remove(j)
                    &&& final(self).repository().syncs() == syncs_except_file(
                        old(self).repository().syncs(),
                        id,
                    )
                },
                None => {
                    &&& r matches Err(e) && e.is_not_found(path@)
                    &&& final(self).repository().files() == old(self).repository().files()
                    &&& final(self).repository().syncs() == old(self).repository().syncs()
                },
            },
    {
        proof {
            file_paths(self.repository.files()).index_of_first_ensures(path@);
        }
        match self.repository.get_file_by_path(path) {
            Ok(record) => {
                proof {
                    let ids = file_ids(self.repository.files());
                    let i = file_paths(self.repository.files()).index_of_first(path@).unwrap();
                    ids.index_of_first_ensures(record.id);
                    assert(ids[i] == record.id);
                }
                self.repository.delete_file(record.id)
            },
            Err(e) => Err(e),
        }
    }

    /// All file records.
    pub fn list_versions(&self) -> (files: Vec<FileRecord>)
        ensures
            files@ == self.repository().files(),
    {
        self.repository.list_files()
    }

    /// Whether a content differs from what is recorded for a path: it does
    /// where the path has no record, and where the record has another hash
    /// or none.
    pub fn has_changes(&self, path: &str, content: &[u8]) -> (changed: bool)
        requires
            self.storage().block_size() > 0,
        ensures
            changed == match file_paths(self.repository().files()).index_of_first(path@) {
                Some(i) => text_of(self.repository().files()[i].hash) != Some(
                    content_hash(content@),
                ),
                None => true,
            },
    {
        let current = Some(self.storage.compute_hash(content));
        match self.repository.get_file_by_path(path) {
            Ok(record) => !same_text(&record.hash, &current),
            Err(_) => true,
        }
    }
}

} // verus!
