//! How records are found in the lists of the table: by the first position
//! that holds a key.

use vstd::prelude::*;
use crate::db::models::{DeviceRecord, FileRecord, SyncRecord};
use crate::ident::RecordId;

verus! {

/// The paths of a list of file records, in order.
pub open spec fn file_paths(files: Seq<FileRecord>) -> Seq<Seq<char>> {
    Seq::new(files.len(), |i: int| files[i].path@)
}

/// The identifiers of a list of file records, in order.
pub open spec fn file_ids(files: Seq<FileRecord>) -> Seq<RecordId> {
    Seq::new(files.len(), |i: int| files[i].id)
}

/// The identifiers of a list of sync records, in order.
pub open spec fn sync_ids(syncs: Seq<SyncRecord>) -> Seq<RecordId> {
    Seq::new(syncs.len(), |i: int| syncs[i].id)
}

/// The identifiers of a list of device records, in order.
pub open spec fn device_ids(devices: Seq<DeviceRecord>) -> Seq<RecordId> {
    Seq::new(devices.len(), |i: int| devices[i].id)
}

/// The sync records that refer to a file, in their order.
pub open spec fn syncs_of_file(syncs: Seq<SyncRecord>, file_id: RecordId) -> Seq<SyncRecord>
    decreases syncs.len(),
{
    if syncs.len() == 0 {
        Seq::empty()
    } else if syncs.last().file_id == file_id {
        syncs_of_file(syncs.drop_last(), file_id).push(syncs.last())
    } else {
        syncs_of_file(syncs.drop_last(), file_id)
    }
}

/// The sync records that do not refer to a file, in their order.
pub open spec fn syncs_except_file(syncs: Seq<SyncRecord>, file_id: RecordId) -> Seq<SyncRecord>
    decreases syncs.len(),
{
    if syncs.len() == 0 {
        Seq::empty()
    } else if syncs.last().file_id != file_id {
        syncs_except_file(syncs.drop_last(), file_id).push(syncs.last())
    } else {
        syncs_except_file(syncs.drop_last(), file_id)
    }
}

/// A position that holds the key, with no earlier one that does, is the
/// first position of the key.
pub proof fn lemma_first_position<K>(keys: Seq<K>, key: K, i: int)
    requires
        0 <= i < keys.len(),
        keys[i] == key,
        forall|j: int| 0 <= j < i ==> keys[j] != key,
    ensures
        keys.index_of_first(key) == Some(i),
{
    keys.index_of_first_ensures(key);
    assert(keys.contains(key));
    let k = keys.index_of_first(key).unwrap();
    if k < i {
        assert(keys[k] != key);
    }
}

/// A key that no position holds has no first position.
pub proof fn lemma_no_position<K>(keys: Seq<K>, key: K)
    requires
        forall|j: int| 0 <= j < keys.len() ==> keys[j] != key,
    ensures
        keys.index_of_first(key) is None,
        !keys.contains(key),
{
    keys.index_of_first_ensures(key);
}

/// Among records of which none refers to a file, a listing for the file is
/// empty.
pub proof fn lemma_none_of_file(syncs: Seq<SyncRecord>, file_id: RecordId)
    requires
        forall|i: int| 0 <= i < syncs.len() ==> (#[trigger] syncs[i]).file_id != file_id,
    ensures
        syncs_of_file(syncs, file_id) == Seq::<SyncRecord>::empty(),
    decreases syncs.len(),
{
    if syncs.len() > 0 {
        assert forall|i: int| 0 <= i < syncs.drop_last().len() implies (
        #[trigger] syncs.drop_last()[i]).file_id != file_id by {
            assert(syncs.drop_last()[i] == syncs[i]);
        }
        lemma_none_of_file(syncs.drop_last(), file_id);
        assert(syncs.last() == syncs[syncs.len() - 1]);
    }
}

/// Once the sync records of a file are taken out, none of those left refers
/// to the file, and a listing for the file is empty.
pub proof fn lemma_cascade_leaves_no_sync(syncs: Seq<SyncRecord>, file_id: RecordId)
    ensures
        syncs_of_file(syncs_except_file(syncs, file_id), file_id) == Seq::<SyncRecord>::empty(),
        forall|i: int|
            0 <= i < syncs_except_file(syncs, file_id).len() ==> (#[trigger] syncs_except_file(
                syncs,
                file_id,
            )[i]).file_id != file_id,
    decreases syncs.len(),
{
    if syncs.len() > 0 {
        lemma_cascade_leaves_no_sync(syncs.drop_last(), file_id);
        if syncs.last().file_id != file_id {
            let kept = syncs_except_file(syncs.drop_last(), file_id);
            assert(kept.push(syncs.last()).drop_last() =~= kept);
        }
    }
}

} // verus!
