//! Raw notifications of the operating system are reduced to four events,
//! which are handed on in the order of their arrival through a queue of
//! bounded length, and handled one by one.

use vstd::prelude::*;
use vstd::string::*;
use crate::db::lookup::{file_ids, file_paths, syncs_except_file};
use crate::db::models::{FileRecord, SyncRecord};
use crate::db::repository::Repository;
use crate::hashing::content_hash;
use crate::ident::RecordId;
use crate::service::layout::{with_object, Area};
use crate::service::objects::texts;
use crate::service::storage::StorageService;

verus! {

/// How many events may wait between the thread that receives notifications
/// and the one consumer that handles them. Where the queue is full the
/// producer waits; no event is dropped.
pub const EVENT_QUEUE_CAPACITY: usize = 100;

/// The kind of a raw notification.
#[derive(Debug, Clone, Copy, PartialEq, Eq, Structural)]
pub enum RawKind {
    /// Nothing is known of the event.
    Any,
    /// Something was read or opened.
    Access,
    /// Something was created.
    Create,
    /// Content or metadata changed, or a name changed in a way that is not
    /// told more precisely.
    Modify,
    /// The path is the earlier name of something that was renamed.
    RenameFrom,
    /// The path is the later name of something that was renamed.
    RenameTo,
    /// Something was renamed; the earlier path comes first, the later second.
    RenameBoth,
    /// Something was removed.
    Remove,
    /// An event about the watch itself.
    Other,
}

/// A raw notification: its kind and the paths it is about.
#[derive(Debug, PartialEq, Eq)]
pub struct RawEvent {
    pub kind: RawKind,
    pub paths: Vec<String>,
}

/// A change in the watched tree. Events are consumed once and never kept.
#[derive(Debug, PartialEq, Eq)]
pub enum FileEvent {
    Created(String),
    Modified(String),
    Deleted(String),
    Renamed { from: String, to: String },
}

/// A change in the watched tree, with its paths as plain text.
pub enum FileEventView {
    Created(Seq<char>),
    Modified(Seq<char>),
    Deleted(Seq<char>),
    Renamed { from: Seq<char>, to: Seq<char> },
}

impl View for FileEvent {
    type V = FileEventView;

    open spec fn view(&self) -> FileEventView {
        match self {
            FileEvent::Created(path) => FileEventView::Created(path@),
            FileEvent::Modified(path) => FileEventView::Modified(path@),
            FileEvent::Deleted(path) => FileEventView::Deleted(path@),
            FileEvent::Renamed { from, to } => FileEventView::Renamed { from: from@, to: to@ },
        }
    }
}

impl Clone for FileEvent {
    fn clone(&self) -> (copy: Self)
        ensures
            copy == *self,
    {
        match self {
            FileEvent::Created(path) => FileEvent::Created(path.clone()),
            FileEvent::Modified(path) => FileEvent::Modified(path.clone()),
            FileEvent::Deleted(path) => FileEvent::Deleted(path.clone()),
            FileEvent::Renamed { from, to } => FileEvent::Renamed {
                from: from.clone(),
                to: to.clone(),
            },
        }
    }
}

/// What a raw notification of a kind about some paths means. A notification
/// without a path means nothing, and neither does one that tells of no
/// change. A rename that comes with both paths is a rename; one that comes
/// with the earlier path alone is a deletion, and one with the later path
/// alone a creation.
pub open spec fn meaning(kind: RawKind, paths: Seq<Seq<char>>) -> Option<FileEventView> {
    if paths.len() == 0 {
        None
    } else {
        match kind {
            RawKind::Create => Some(FileEventView::Created(paths[0])),
            RawKind::Modify => Some(FileEventView::Modified(paths[0])),
            RawKind::Remove => Some(FileEventView::Deleted(paths[0])),
            RawKind::RenameFrom => Some(FileEventView::Deleted(paths[0])),
            RawKind::RenameTo => Some(FileEventView::Created(paths[0])),
            RawKind::RenameBoth => if paths.len() >= 2 {
                Some(FileEventView::Renamed { from: paths[0], to: paths[1] })
            } else {
                Some(FileEventView::Modified(paths[0]))
            },
            RawKind::Any => None,
            RawKind::Access => None,
            RawKind::Other => None,
        }
    }
}

/// Reduces a raw notification to the event it means, if it means one.
pub fn convert_event(event: RawEvent) -> (r: Option<FileEvent>)
    ensures
        match meaning(event.kind, texts(event.paths@)) {
            Some(view) => r matches Some(found) && found@ == view,
            None => r is None,
        },
{
    if event.paths.len() == 0 {
        return None;
    }
    let first = event.paths[0].clone();
    match event.kind {
        RawKind::Create => Some(FileEvent::Created(first)),
        RawKind::Modify => Some(FileEvent::Modified(first)),
        RawKind::Remove => Some(FileEvent::Deleted(first)),
        RawKind::RenameFrom => Some(FileEvent::Deleted(first)),
        RawKind::RenameTo => Some(FileEvent::Created(first)),
        RawKind::RenameBoth => {
            if event.paths.len() >= 2 {
                Some(FileEvent::Renamed { from: first, to: event.paths[1].clone() })
            } else {
                Some(FileEvent::Modified(first))
            }
        },
        RawKind::Any => None,
        RawKind::Access => None,
        RawKind::Other => None,
    }
}

/// The path whose record an event does away with, if it does away with one.
pub open spec fn path_given_up(event: FileEventView) -> Option<Seq<char>> {
    match event {
        FileEventView::Deleted(path) => Some(path),
        FileEventView::Renamed { from, to } => Some(from),
        _ => None,
    }
}

/// Whether an event brings content that is to be stored.
pub open spec fn brings_content(event: FileEventView) -> bool {
    !(event is Deleted)
}

/// The identifier of the file that the first record of a path names.
pub open spec fn file_named(files: Seq<FileRecord>, path: Seq<char>) -> Option<RecordId> {
    match file_paths(files).index_of_first(path) {
        Some(i) => Some(files[i].id),
        None => None,
    }
}

/// The file records after the file that a path names is removed; the same
/// records where the path has none.
pub open spec fn files_forgetting(files: Seq<FileRecord>, path: Option<Seq<char>>) -> Seq<
    FileRecord,
> {
    if path is Some && file_named(files, path.unwrap()) is Some {
        files.remove(
            file_ids(files).index_of_first(file_named(files, path.unwrap()).unwrap()).unwrap(),
        )
    } else {
        files
    }
}

/// The sync records after the file that a path names is removed: all its
/// sync records go with it.
pub open spec fn syncs_forgetting(
    files: Seq<FileRecord>,
    syncs: Seq<SyncRecord>,
    path: Option<Seq<char>>,
) -> Seq<SyncRecord> {
    if path is Some && file_named(files, path.unwrap()) is Some {
        syncs_except_file(syncs, file_named(files, path.unwrap()).unwrap())
    } else {
        syncs
    }
}

/// The object area after an event was handled, where `content` is what the
/// path of the event held at that moment, if it was a regular file.
pub open spec fn objects_after(
    area: Area,
    root: Seq<char>,
    event: FileEventView,
    content: Option<Seq<u8>>,
) -> Area {
    if brings_content(event) && content is Some {
        with_object(area, root, content.unwrap())
    } else {
        area
    }
}

/// The bytes of an optional byte string.
pub open spec fn bytes_of(content: Option<&[u8]>) -> Option<Seq<u8>> {
    match content {
        Some(bytes) => Some(bytes@),
        None => None,
    }
}

/// Handles one event. `content` is what the path of the event (for a
/// rename, the later path) holds, where that is a regular file.
///
/// A created or modified file is stored in the blob store, and its hash and
/// size are handed back, to be associated with metadata later. A deleted
/// path loses its record, and the file that the record names loses its sync
/// records. A rename is both: the earlier path is deleted, the later one
/// created. Each event is handled by itself, whatever became of the one
/// before.
pub fn handle_event(
    event: &FileEvent,
    content: Option<&[u8]>,
    storage: &mut StorageService,
    repository: &mut Repository,
) -> (stored: Option<(String, u64)>)
    requires
        old(storage).block_size() > 0,
    ensures
        final(storage).config() == old(storage).config(),
        final(storage).objects() == objects_after(
            old(storage).objects(),
            old(storage).root(),
            event@,
            bytes_of(content),
        ),
        final(repository).devices() == old(repository).devices(),
        final(repository).files() == files_forgetting(
            old(repository).files(),
            path_given_up(event@),
        ),
        final(repository).syncs() == syncs_forgetting(
            old(repository).files(),
            old(repository).syncs(),
            path_given_up(event@),
        ),
        match stored {
            Some((hash, size)) => {
                &&& brings_content(event@)
                &&& content matches Some(bytes) && hash@ == content_hash(bytes@) && size
                    == bytes@.len()
            },
            None => !brings_content(event@) || content is None,
        },
{
    match event {
        FileEvent::Created(_) => store_if_file(content, storage),
        FileEvent::Modified(_) => store_if_file(content, storage),
        FileEvent::Deleted(path) => {
            forget(path, repository);
            None
        },
        FileEvent::Renamed { from, to } => {
            forget(from, repository);
            store_if_file(content, storage)
        },
    }
}

fn store_if_file(content: Option<&[u8]>, storage: &mut StorageService) -> (stored: Option<
    (String, u64),
>)
    requires
        old(storage).block_size() > 0,
    ensures
        final(storage).config() == old(storage).config(),
        match content {
            Some(bytes) => {
                &&& final(storage).objects() == with_object(
                    old(storage).objects(),
                    old(storage).root(),
                    bytes@,
                )
                &&& stored matches Some((hash, size)) && hash@ == content_hash(bytes@) && size
                    == bytes@.len()
            },
            None => final(storage).objects() == old(storage).objects() && stored is None,
        },
{
    match content {
        Some(bytes) => Some(storage.store_file(bytes)),
        None => None,
    }
}

fn forget(path: &String, repository: &mut Repository)
    ensures
        final(repository).devices() == old(repository).devices(),
        final(repository).files() == files_forgetting(old(repository).files(), Some(path@)),
        final(repository).syncs() == syncs_forgetting(
            old(repository).files(),
            old(repository).syncs(),
            Some(path@),
        ),
{
    proof {
        file_paths(repository.files()).index_of_first_ensures(path@);
    }
    match repository.get_file_by_path(path.as_str()) {
        Ok(record) => {
            proof {
                let ids = file_ids(repository.files());
                let i = file_paths(repository.files()).index_of_first(path@).unwrap();
                ids.index_of_first_ensures(record.id);
                assert(ids[i] == record.id);
            }
            let _ = repository.delete_file(record.id);
        },
        Err(_) => {},
    }
}

} // verus!
