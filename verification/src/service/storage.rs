//! The blob store: content-addressed, deduplicating persistence of byte
//! strings and whole files, with chunked storage for large files.

use vstd::prelude::*;
use vstd::slice::slice_subrange;
use vstd::string::*;
use crate::error::Error;
use crate::hashing::{
    absorbed, content_hash, hash_bytes, lemma_content_hash_shape, to_hex, RunningDigest,
};
use crate::service::layout::{
    assembled, block_hashes, blocks_of, chunk_list, fetched, fetched_chunked, location_of,
    manifest_at, manifest_hash, manifest_location, with_chunked, with_object, with_objects,
    written_if_absent, Area,
};
use crate::service::objects::{
    copy_bytes, copy_strings, texts, ChunkManifest, ObjectArea, Stored, StoredView,
};

verus! {

/// The size of the blocks in which files are read and chunked unless the
/// configuration says otherwise: 4 MiB.
pub const CHUNK_SIZE: usize = 4 * 1024 * 1024;

/// Where the store keeps its objects and how large its blocks are.
#[derive(Debug, PartialEq, Eq)]
pub struct StorageConfig {
    pub storage_path: String,
    pub chunk_size: usize,
}

impl Clone for StorageConfig {
    fn clone(&self) -> (copy: Self)
        ensures
            copy == *self,
    {
        StorageConfig { storage_path: self.storage_path.clone(), chunk_size: self.chunk_size }
    }
}

impl Default for StorageConfig {
    fn default() -> (config: Self)
        ensures
            config.storage_path@ == "./storage"@,
            config.chunk_size == CHUNK_SIZE,
    {
        StorageConfig { storage_path: String::from_str("./storage"), chunk_size: CHUNK_SIZE }
    }
}

/// The blob store of one storage root.
#[derive(Debug)]
pub struct StorageService {
    config: StorageConfig,
    area: ObjectArea,
}

/// Whether an outcome of the store is the one that the layout predicts: the
/// same bytes, or the report that the same thing is missing.
pub open spec fn agrees(r: Result<Vec<u8>, Error>, want: Result<Seq<u8>, Seq<char>>) -> bool {
    match want {
        Ok(bytes) => r matches Ok(found) && found@ == bytes,
        Err(missing) => r matches Err(e) && e.is_not_found(missing),
    }
}

impl StorageService {
    /// The configuration that the store was made with.
    pub closed spec fn config(&self) -> StorageConfig {
        self.config
    }

    /// The root below which the store keeps its objects.
    pub open spec fn root(&self) -> Seq<char> {
        self.config().storage_path@
    }

    /// The size of the blocks in which the store reads and chunks files.
    pub open spec fn block_size(&self) -> int {
        self.config().chunk_size as int
    }

    /// What the object area holds at each location.
    pub closed spec fn objects(&self) -> Area {
        self.area@
    }

    /// A store with an empty object area.
    pub fn new(config: StorageConfig) -> (service: StorageService)
        ensures
            service.config() == config,
            service.objects() == Map::<Seq<char>, StoredView>::empty(),
    {
        StorageService { config, area: ObjectArea::new() }
    }

    /// A store over an object area that was loaded before.
    pub fn with_objects(config: StorageConfig, area: ObjectArea) -> (service: StorageService)
        ensures
            service.config() == config,
            service.objects() == area@,
    {
        StorageService { config, area }
    }

    /// The object area as it stands, to be written out.
    pub fn area(&self) -> (area: &ObjectArea)
        ensures
            area@ == self.objects(),
    {
        &self.area
    }

    /// The root below which the store keeps its objects.
    pub fn storage_path(&self) -> (path: &str)
        ensures
            path@ == self.root(),
    {
        self.config.storage_path.as_str()
    }

    /// The size of the blocks in which the store reads and chunks files.
    pub fn chunk_size(&self) -> (size: usize)
        ensures
            size == self.block_size(),
    {
        self.config.chunk_size
    }

    /// Hashes a content the way a file is read: block by block, each block
    /// fed to one running digest.
    pub fn compute_hash(&self, content: &[u8]) -> (hash: String)
        requires
            self.block_size() > 0,
        ensures
            hash@ == content_hash(content@),
    {
        let n: usize = content.len();
        let size: usize = self.config.chunk_size;
        let mut hasher = RunningDigest::start();
        let mut offset: usize = 0;
        assert(content@.take(0) =~= Seq::<u8>::empty());
        while offset < n
            invariant
                n == content@.len(),
                size > 0,
                offset <= n,
                absorbed(hasher) == content@.take(offset as int),
            decreases n - offset,
        {
            let len: usize = if n - offset < size {
                n - offset
            } else {
                size
            };
            let block = slice_subrange(content, offset, offset + len);
            hasher.absorb(block);
            assert(content@.take(offset as int) + block@ =~= content@.take(offset + len));
            offset = offset + len;
        }
        assert(content@.take(n as int) =~= content@);
        let digest = hasher.finish();
        to_hex(digest.as_slice())
    }

    /// The location of the object with a name.
    pub fn hash_to_path(&self, hash: &str) -> (path: String)
        requires
            hash@.len() >= 2,
        ensures
            path@ == location_of(self.root(), hash@),
    {
        let n: usize = hash.unicode_len();
        let mut path = self.config.storage_path.clone();
        path.append("/objects/");
        path.append(hash.substring_char(0, 2));
        path.append("/");
        path.append(hash.substring_char(2, n));
        assert(hash@.take(2) =~= hash@.subrange(0, 2));
        assert(hash@.skip(2) =~= hash@.subrange(2, n as int));
        path
    }

    /// The location of the manifest of the file with a hash.
    pub fn manifest_path(&self, hash: &str) -> (path: String)
        ensures
            path@ == manifest_location(self.root(), hash@),
    {
        let name = String::from_str("manifest-").concat(hash);
        proof {
            reveal_strlit("manifest-");
        }
        self.hash_to_path(name.as_str())
    }

    /// Tells whether a name is that of a manifest, and of which hash.
    pub fn manifest_hash_of(name: &str) -> (hash: Option<String>)
        ensures
            match manifest_hash(name@) {
                Some(text) => hash matches Some(found) && found@ == text,
                None => hash is None,
            },
    {
        proof {
            reveal_strlit("manifest-");
        }
        let n: usize = name.unicode_len();
        if n < 9 {
            return None;
        }
        let front = name.substring_char(0, 9).to_owned();
        assert(name@.take(9) =~= name@.subrange(0, 9));
        assert(name@.skip(9) =~= name@.subrange(9, n as int));
        if front == String::from_str("manifest-") {
            Some(name.substring_char(9, n).to_owned())
        } else {
            None
        }
    }

    /// Writes bytes as the object with a given name, unless something lies
    /// at the location of the name already. The store itself names every
    /// object by the hash of its bytes.
    pub fn store_under(&mut self, name: &str, content: &[u8])
        requires
            name@.len() >= 2,
        ensures
            final(self).config() == old(self).config(),
            final(self).objects() == written_if_absent(
                old(self).objects(),
                location_of(old(self).root(), name@),
                StoredView::Blob(content@),
            ),
    {
        let target = self.hash_to_path(name);
        if !self.area.contains(&target) {
            self.area.put(target, Stored::Blob(copy_bytes(content)));
        }
    }

    /// Stores the content of a file under its hash, unless an object lies
    /// there already, and returns the hash and the size.
    pub fn store_file(&mut self, content: &[u8]) -> (r: (String, u64))
        requires
            old(self).block_size() > 0,
        ensures
            r.0@ == content_hash(content@),
            r.1 == content@.len(),
            final(self).config() == old(self).config(),
            final(self).objects() == with_object(old(self).objects(), old(self).root(), content@),
    {
        let hash = self.compute_hash(content);
        proof {
            lemma_content_hash_shape(content@);
        }
        self.store_under(hash.as_str(), content);
        (hash, content.len() as u64)
    }

    /// Stores a byte string under its hash, unless an object lies there
    /// already, and returns the hash and the size.
    pub fn store_content(&mut self, content: &[u8]) -> (r: (String, u64))
        ensures
            r.0@ == content_hash(content@),
            r.1 == content@.len(),
            final(self).config() == old(self).config(),
            final(self).objects() == with_object(old(self).objects(), old(self).root(), content@),
    {
        let hash = hash_bytes(content);
        proof {
            lemma_content_hash_shape(content@);
        }
        self.store_under(hash.as_str(), content);
        (hash, content.len() as u64)
    }

    /// The bytes of the object with a name.
    pub fn retrieve_file(&self, hash: &str) -> (r: Result<Vec<u8>, Error>)
        ensures
            agrees(r, fetched(self.objects(), self.root(), hash@)),
    {
        if hash.unicode_len() < 2 {
            return Err(Error::NotFound(hash.to_owned()));
        }
        let path = self.hash_to_path(hash);
        match self.area.get(&path) {
            Some(Stored::Blob(bytes)) => Ok(copy_bytes(bytes.as_slice())),
            _ => Err(Error::NotFound(path)),
        }
    }

    /// Whether anything lies at the location of a name.
    pub fn file_exists(&self, hash: &str) -> (found: bool)
        ensures
            found == (hash@.len() >= 2 && self.objects().contains_key(
                location_of(self.root(), hash@),
            )),
    {
        if hash.unicode_len() < 2 {
            return false;
        }
        let path = self.hash_to_path(hash);
        self.area.contains(&path)
    }

    /// Removes what lies at the location of a name, if anything does.
    pub fn delete_file(&mut self, hash: &str)
        ensures
            final(self).config() == old(self).config(),
            final(self).objects() == if hash@.len() >= 2 {
                old(self).objects().remove(location_of(old(self).root(), hash@))
            } else {
                old(self).objects()
            },
    {
        if hash.unicode_len() >= 2 {
            let path = self.hash_to_path(hash);
            self.area.remove(&path);
        }
    }

    /// Stores the content of a file in chunks. A content of at most one
    /// block is stored whole, and its hash is the only chunk. A longer one is
    /// cut into blocks, each stored under its own hash, and the list of those
    /// hashes is kept in a manifest under the hash of the whole content.
    pub fn store_chunked(&mut self, content: &[u8]) -> (r: (String, u64, Vec<String>))
        requires
            old(self).block_size() > 0,
        ensures
            r.0@ == content_hash(content@),
            r.1 == content@.len(),
            texts(r.2@) == chunk_list(content@, old(self).block_size()),
            final(self).config() == old(self).config(),
            final(self).objects() == with_chunked(
                old(self).objects(),
                old(self).root(),
                content@,
                old(self).block_size(),
            ),
    {
        let n: usize = content.len();
        let size: usize = self.config.chunk_size;
        if n <= size {
            let (hash, file_size) = self.store_file(content);
            let mut chunks: Vec<String> = Vec::new();
            chunks.push(hash.clone());
            assert(texts(chunks@) =~= seq![content_hash(content@)]);
            return (hash, file_size, chunks);
        }
        let mut chunks: Vec<String> = Vec::new();
        let mut hasher = RunningDigest::start();
        let mut offset: usize = 0;
        let ghost mut done: Seq<Seq<u8>> = Seq::empty();
        proof {
            assert(content@.take(0) =~= Seq::<u8>::empty());
            assert(content@.skip(0) =~= content@);
            assert(done + blocks_of(content@, size as int) =~= blocks_of(content@, size as int));
            assert(texts(chunks@) =~= block_hashes(done));
        }
        while offset < n
            invariant
                n == content@.len(),
                size > 0,
                offset <= n,
                self.config() == old(self).config(),
                absorbed(hasher) == content@.take(offset as int),
                blocks_of(content@, size as int) == done + blocks_of(
                    content@.skip(offset as int),
                    size as int,
                ),
                self.objects() == with_objects(old(self).objects(), old(self).root(), done),
                texts(chunks@) == block_hashes(done),
            decreases n - offset,
        {
            let len: usize = if n - offset < size {
                n - offset
            } else {
                size
            };
            let block = slice_subrange(content, offset, offset + len);
            hasher.absorb(block);
            let (chunk_hash, _) = self.store_content(block);
            let ghost earlier = chunks@;
            chunks.push(chunk_hash);
            proof {
                let rest = content@.skip(offset as int);
                assert(content@.take(offset as int) + block@ =~= content@.take(offset + len));
                assert(rest.take(len as int) =~= block@);
                assert(rest.skip(len as int) =~= content@.skip(offset + len));
                if rest.len() <= size {
                    assert(rest =~= block@);
                    assert(blocks_of(rest, size as int) =~= seq![block@]);
                    assert(blocks_of(content@.skip(offset + len), size as int) =~= Seq::<
                        Seq<u8>,
                    >::empty());
                }
                assert(blocks_of(rest, size as int) =~= seq![block@] + blocks_of(
                    content@.skip(offset + len),
                    size as int,
                ));
                let next = done.push(block@);
                assert(next + blocks_of(content@.skip(offset + len), size as int) =~= done + (
                seq![block@] + blocks_of(content@.skip(offset + len), size as int)));
                assert(next.drop_last() =~= done);
                assert(texts(earlier).len() == block_hashes(done).len());
                assert(chunks@.len() == next.len());
                assert forall|k: int| 0 <= k < next.len() implies texts(chunks@)[k]
                    == block_hashes(next)[k] by {
                    if k < done.len() {
                        assert(texts(earlier)[k] == block_hashes(done)[k]);
                    }
                }
                assert(texts(chunks@) =~= block_hashes(next));
                done = next;
            }
            offset = offset + len;
        }
        proof {
            assert(content@.take(n as int) =~= content@);
            assert(content@.skip(n as int) =~= Seq::<u8>::empty());
            assert(done + Seq::<Seq<u8>>::empty() =~= done);
        }
        let digest = hasher.finish();
        let file_hash = to_hex(digest.as_slice());
        let manifest = ChunkManifest {
            file_hash: file_hash.clone(),
            file_size: n as u64,
            chunks: copy_strings(&chunks),
        };
        let target = self.manifest_path(file_hash.as_str());
        self.area.put(target, Stored::Manifest(manifest));
        (file_hash, n as u64, chunks)
    }

    /// The bytes of the file with a hash: put together from the chunks that
    /// its manifest lists, in order, where the store holds a manifest for the
    /// hash, and those of the object of that name otherwise.
    pub fn retrieve_chunked(&self, hash: &str) -> (r: Result<Vec<u8>, Error>)
        ensures
            agrees(r, fetched_chunked(self.objects(), self.root(), hash@)),
    {
        let target = self.manifest_path(hash);
        match self.area.get(&target) {
            Some(Stored::Manifest(manifest)) => {
                let mut result: Vec<u8> = Vec::new();
                let mut i: usize = 0;
                let ghost names = texts(manifest.chunks@);
                assert(names.take(0) =~= Seq::<Seq<char>>::empty());
                assert(manifest_at(self.objects(), target@) == Some(manifest@));
                while i < manifest.chunks.len()
                    invariant
                        i <= manifest.chunks.len(),
                        names == texts(manifest.chunks@),
                        fetched_chunked(self.objects(), self.root(), hash@) == assembled(
                            self.objects(),
                            self.root(),
                            names,
                        ),
                        assembled(self.objects(), self.root(), names.take(i as int)) == Ok::<
                            Seq<u8>,
                            Seq<char>,
                        >(result@),
                    decreases manifest.chunks.len() - i,
                {
                    let ghost upto = names.take(i + 1);
                    proof {
                        assert(upto.drop_last() =~= names.take(i as int));
                        assert(upto.last() == manifest.chunks@[i as int]@);
                    }
                    match self.retrieve_file(manifest.chunks[i].as_str()) {
                        Ok(data) => {
                            let ghost before = result@;
                            result.extend_from_slice(data.as_slice());
                            assert(result@ =~= before + data@);
                        },
                        Err(e) => {
                            proof {
                                assert(fetched(self.objects(), self.root(), upto.last()) is Err);
                                assert(assembled(self.objects(), self.root(), upto)
                                    == fetched(self.objects(), self.root(), upto.last()));
                                lemma_assembly_fails_on(
                                    self.objects(),
                                    self.root(),
                                    names,
                                    i + 1,
                                );
                            }
                            return Err(e);
                        },
                    }
                    i = i + 1;
                }
                assert(names.take(i as int) =~= names);
                Ok(result)
            },
            _ => self.retrieve_file(hash),
        }
    }
}

/// Once the assembly of the first chunks of a list has failed, the assembly
/// of the whole list fails with the same report.
pub proof fn lemma_assembly_fails_on(
    area: Area,
    root: Seq<char>,
    chunks: Seq<Seq<char>>,
    upto: int,
)
    requires
        0 <= upto <= chunks.len(),
        assembled(area, root, chunks.take(upto)) is Err,
    ensures
        assembled(area, root, chunks) == assembled(area, root, chunks.take(upto)),
    decreases chunks.len() - upto,
{
    if upto < chunks.len() {
        assert(chunks.take(upto + 1).drop_last() =~= chunks.take(upto));
        lemma_assembly_fails_on(area, root, chunks, upto + 1);
    } else {
        assert(chunks.take(upto) =~= chunks);
    }
}

} // verus!
