//! The layout of the object area in mathematical terms: where an object
//! lies, how a file is cut into blocks, and what the store holds after each
//! operation.

use vstd::prelude::*;
use crate::hashing::content_hash;
use crate::service::objects::{ManifestView, StoredView};

verus! {

/// What the object area holds at each location.
pub type Area = Map<Seq<char>, StoredView>;

/// The location of the object with a name: below the root, the directory
/// `objects`, then a directory named by the first two characters of the name,
/// then the remainder of the name.
pub open spec fn location_of(root: Seq<char>, name: Seq<char>) -> Seq<char> {
    root + "/objects/"@ + name.take(2) + "/"@ + name.skip(2)
}

/// The name under which the manifest of a chunked file is kept: the hash of
/// the whole file behind a prefix that no hash begins with.
pub open spec fn manifest_name(hash: Seq<char>) -> Seq<char> {
    "manifest-"@ + hash
}

/// The hash whose manifest has a given name; none where the name is not
/// that of a manifest.
pub open spec fn manifest_hash(name: Seq<char>) -> Option<Seq<char>> {
    if name.len() >= "manifest-"@.len() && name.take("manifest-"@.len() as int) == "manifest-"@ {
        Some(name.skip("manifest-"@.len() as int))
    } else {
        None
    }
}

/// The location of the manifest of the file with a hash.
pub open spec fn manifest_location(root: Seq<char>, hash: Seq<char>) -> Seq<char> {
    location_of(root, manifest_name(hash))
}

/// The area after an item is written to a location unless something lies
/// there already.
pub open spec fn written_if_absent(area: Area, location: Seq<char>, item: StoredView) -> Area {
    if area.contains_key(location) {
        area
    } else {
        area.insert(location, item)
    }
}

/// The area after a byte string is stored under its content hash.
pub open spec fn with_object(area: Area, root: Seq<char>, content: Seq<u8>) -> Area {
    written_if_absent(
        area,
        location_of(root, content_hash(content)),
        StoredView::Blob(content),
    )
}

/// The area after each of a list of byte strings is stored, in order.
pub open spec fn with_objects(area: Area, root: Seq<char>, blocks: Seq<Seq<u8>>) -> Area
    decreases blocks.len(),
{
    if blocks.len() == 0 {
        area
    } else {
        with_object(with_objects(area, root, blocks.drop_last()), root, blocks.last())
    }
}

/// The blocks of a content cut at every `size` bytes: all of them `size`
/// long but the last, which holds what is left and is not empty.
pub open spec fn blocks_of(content: Seq<u8>, size: int) -> Seq<Seq<u8>>
    decreases content.len(),
{
    if size <= 0 || content.len() == 0 {
        Seq::empty()
    } else if content.len() <= size {
        seq![content]
    } else {
        seq![content.take(size)] + blocks_of(content.skip(size), size)
    }
}

/// The content hashes of a list of byte strings, in order.
pub open spec fn block_hashes(blocks: Seq<Seq<u8>>) -> Seq<Seq<char>> {
    Seq::new(blocks.len(), |i: int| content_hash(blocks[i]))
}

/// The manifest of a content cut at every `size` bytes.
pub open spec fn manifest_of(content: Seq<u8>, size: int) -> ManifestView {
    ManifestView {
        file_hash: content_hash(content),
        file_size: content.len() as u64,
        chunks: block_hashes(blocks_of(content, size)),
    }
}

/// The area after a content is stored in chunks of `size` bytes: a content
/// of at most `size` bytes is stored whole; a longer one is stored block by
/// block, and its manifest is written in place of any earlier one.
pub open spec fn with_chunked(area: Area, root: Seq<char>, content: Seq<u8>, size: int) -> Area {
    if content.len() <= size {
        with_object(area, root, content)
    } else {
        with_objects(area, root, blocks_of(content, size)).insert(
            manifest_location(root, content_hash(content)),
            StoredView::Manifest(manifest_of(content, size)),
        )
    }
}

/// The chunk list that storing a content in chunks of `size` bytes returns.
pub open spec fn chunk_list(content: Seq<u8>, size: int) -> Seq<Seq<char>> {
    if content.len() <= size {
        seq![content_hash(content)]
    } else {
        block_hashes(blocks_of(content, size))
    }
}

/// The bytes of the object at a location, where an object lies there.
pub open spec fn blob_at(area: Area, location: Seq<char>) -> Option<Seq<u8>> {
    if area.contains_key(location) && area[location] is Blob {
        Some(area[location]->Blob_0)
    } else {
        None
    }
}

/// The manifest at a location, where a manifest lies there.
pub open spec fn manifest_at(area: Area, location: Seq<char>) -> Option<ManifestView> {
    if area.contains_key(location) && area[location] is Manifest {
        Some(area[location]->Manifest_0)
    } else {
        None
    }
}

/// What a failed lookup of a name reports as missing: the location of the
/// name, or the name itself where it is too short to have a location.
pub open spec fn missing_text(root: Seq<char>, name: Seq<char>) -> Seq<char> {
    if name.len() >= 2 {
        location_of(root, name)
    } else {
        name
    }
}

/// The outcome of looking up the object with a name: its bytes, or what is
/// reported as missing.
pub open spec fn fetched(area: Area, root: Seq<char>, name: Seq<char>) -> Result<
    Seq<u8>,
    Seq<char>,
> {
    if name.len() >= 2 && blob_at(area, location_of(root, name)) is Some {
        Ok(blob_at(area, location_of(root, name)).unwrap())
    } else {
        Err(missing_text(root, name))
    }
}

/// The outcome of putting together the objects named by a chunk list: their
/// bytes one after the other, or what the first failed lookup reports.
pub open spec fn assembled(area: Area, root: Seq<char>, chunks: Seq<Seq<char>>) -> Result<
    Seq<u8>,
    Seq<char>,
>
    decreases chunks.len(),
{
    if chunks.len() == 0 {
        Ok(Seq::empty())
    } else {
        match assembled(area, root, chunks.drop_last()) {
            Err(missing) => Err(missing),
            Ok(bytes) => match fetched(area, root, chunks.last()) {
                Ok(more) => Ok(bytes + more),
                Err(missing) => Err(missing),
            },
        }
    }
}

/// The outcome of retrieving the file with a hash: put together from its
/// manifest where the area holds one, looked up as a single object otherwise.
pub open spec fn fetched_chunked(area: Area, root: Seq<char>, hash: Seq<char>) -> Result<
    Seq<u8>,
    Seq<char>,
> {
    match manifest_at(area, manifest_location(root, hash)) {
        Some(manifest) => assembled(area, root, manifest.chunks),
        None => fetched(area, root, hash),
    }
}

} // verus!
