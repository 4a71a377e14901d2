//! The object area of a storage root: what lies at each location, held as a
//! table with one entry per location.

use vstd::prelude::*;

verus! {

/// The record that lists, in order, the chunks of one large file.
#[derive(Debug, PartialEq, Eq)]
pub struct ChunkManifest {
    /// The hash of the whole file.
    pub file_hash: String,
    /// The size of the whole file in bytes.
    pub file_size: u64,
    /// The hashes of the chunks, in the order in which they make up the file.
    pub chunks: Vec<String>,
}

/// A chunk manifest as plain values.
pub struct ManifestView {
    pub file_hash: Seq<char>,
    pub file_size: u64,
    pub chunks: Seq<Seq<char>>,
}

/// What lies at one location of the object area.
#[derive(Debug, PartialEq, Eq)]
pub enum Stored {
    /// The bytes of an object.
    Blob(Vec<u8>),
    /// The manifest of a chunked file.
    Manifest(ChunkManifest),
}

/// A stored item as plain values.
pub enum StoredView {
    Blob(Seq<u8>),
    Manifest(ManifestView),
}

/// One entry of the object area.
#[derive(Debug, PartialEq, Eq)]
pub struct StoredObject {
    pub location: String,
    pub item: Stored,
}

/// The texts of a list of strings, in order.
pub open spec fn texts(strings: Seq<String>) -> Seq<Seq<char>> {
    Seq::new(strings.len(), |i: int| strings[i]@)
}

impl View for ChunkManifest {
    type V = ManifestView;

    open spec fn view(&self) -> ManifestView {
        ManifestView {
            file_hash: self.file_hash@,
            file_size: self.file_size,
            chunks: texts(self.chunks@),
        }
    }
}

impl View for Stored {
    type V = StoredView;

    open spec fn view(&self) -> StoredView {
        match self {
            Stored::Blob(bytes) => StoredView::Blob(bytes@),
            Stored::Manifest(manifest) => StoredView::Manifest(manifest@),
        }
    }
}

/// Copies a list of strings.
pub(crate) fn copy_strings(strings: &Vec<String>) -> (copy: Vec<String>)
    ensures
        copy@ == strings@,
{
    let mut copy: Vec<String> = Vec::new();
    let mut i: usize = 0;
    while i < strings.len()
        invariant
            i <= strings.len(),
            copy@ == strings@.take(i as int),
        decreases strings.len() - i,
    {
        copy.push(strings[i].clone());
        assert(strings@.take(i as int).push(strings@[i as int]) =~= strings@.take(i + 1));
        i = i + 1;
    }
    assert(strings@.take(strings.len() as int) =~= strings@);
    copy
}

/// Copies a byte string.
pub(crate) fn copy_bytes(bytes: &[u8]) -> (copy: Vec<u8>)
    ensures
        copy@ == bytes@,
{
    vstd::slice::slice_to_vec(bytes)
}

impl Clone for ChunkManifest {
    fn clone(&self) -> (copy: Self)
        ensures
            copy@ == self@,
    {
        ChunkManifest {
            file_hash: self.file_hash.clone(),
            file_size: self.file_size,
            chunks: copy_strings(&self.chunks),
        }
    }
}

impl Clone for Stored {
    fn clone(&self) -> (copy: Self)
        ensures
            copy@ == self@,
    {
        match self {
            Stored::Blob(bytes) => Stored::Blob(copy_bytes(bytes.as_slice())),
            Stored::Manifest(manifest) => Stored::Manifest(manifest.clone()),
        }
    }
}

/// The locations of a list of entries, in order.
pub open spec fn locations(entries: Seq<StoredObject>) -> Seq<Seq<char>> {
    Seq::new(entries.len(), |i: int| entries[i].location@)
}

/// What a list of entries holds at each location; where a location occurs
/// more than once, its first entry counts.
pub open spec fn contents(entries: Seq<StoredObject>) -> Map<Seq<char>, StoredView> {
    Map::new(
        |location: Seq<char>| locations(entries).contains(location),
        |location: Seq<char>| entries[locations(entries).index_of_first(location).unwrap()].item@,
    )
}

/// The first entry of a location is what the contents hold there.
proof fn lemma_first_entry_is_content(entries: Seq<StoredObject>, i: int)
    requires
        0 <= i < entries.len(),
        forall|j: int| 0 <= j < i ==> entries[j].location@ != entries[i].location@,
    ensures
        contents(entries).contains_key(entries[i].location@),
        contents(entries)[entries[i].location@] == entries[i].item@,
{
    let keys = locations(entries);
    let key = entries[i].location@;
    assert(keys[i] == key);
    keys.index_of_first_ensures(key);
    let k = keys.index_of_first(key).unwrap();
    if k < i {
        assert(keys[k] == entries[k].location@);
    }
}

/// Whatever the contents hold lies in some entry, the first of its location.
proof fn lemma_content_has_entry(entries: Seq<StoredObject>, location: Seq<char>)
    requires
        contents(entries).contains_key(location),
    ensures
        locations(entries).index_of_first(location) matches Some(i) && 0 <= i < entries.len()
            && entries[i].location@ == location && contents(entries)[location]
            == entries[i].item@ && (forall|j: int|
            0 <= j < i ==> entries[j].location@ != location),
{
    let keys = locations(entries);
    keys.index_of_first_ensures(location);
    let i = keys.index_of_first(location).unwrap();
    assert forall|j: int| 0 <= j < i implies entries[j].location@ != location by {
        assert(keys[j] != location);
    }
}

/// An entry added at the end fills its location if that was vacant, and is
/// hidden by the earlier entry otherwise.
proof fn lemma_contents_after_push(entries: Seq<StoredObject>, entry: StoredObject)
    ensures
        contents(entries.push(entry)) == if contents(entries).contains_key(entry.location@) {
            contents(entries)
        } else {
            contents(entries).insert(entry.location@, entry.item@)
        },
{
    let after = entries.push(entry);
    let before = contents(entries);
    let want = if before.contains_key(entry.location@) {
        before
    } else {
        before.insert(entry.location@, entry.item@)
    };
    assert(locations(after) =~= locations(entries).push(entry.location@));
    assert forall|k: Seq<char>| contents(after).contains_key(k) <==> want.contains_key(k) by {
        if locations(after).contains(k) {
            let i = choose|i: int| 0 <= i < locations(after).len() && locations(after)[i] == k;
            if i < entries.len() {
                assert(locations(entries)[i] == k);
            }
        }
        if locations(entries).contains(k) {
            let i = choose|i: int| 0 <= i < locations(entries).len() && locations(entries)[i] == k;
            assert(locations(after)[i] == k);
        }
        if k == entry.location@ {
            assert(locations(after)[entries.len() as int] == k);
        }
    }
    assert forall|k: Seq<char>| contents(after).contains_key(k) implies contents(after)[k]
        == want[k] by {
        lemma_content_has_entry(after, k);
        let i = locations(after).index_of_first(k).unwrap();
        if i < entries.len() {
            assert forall|j: int| 0 <= j < i implies entries[j].location@ != entries[i].location@ by {
                assert(after[j].location@ != k);
            }
            lemma_first_entry_is_content(entries, i);
        } else {
            if before.contains_key(k) {
                lemma_content_has_entry(entries, k);
                let j = locations(entries).index_of_first(k).unwrap();
                assert(after[j].location@ == k);
            }
        }
    }
    assert(contents(after) =~= want);
}

/// An entry put in the place of the first entry of its location changes what
/// the contents hold there, and nothing else.
proof fn lemma_contents_after_update(entries: Seq<StoredObject>, i: int, entry: StoredObject)
    requires
        0 <= i < entries.len(),
        entry.location@ == entries[i].location@,
        forall|j: int| 0 <= j < i ==> entries[j].location@ != entries[i].location@,
    ensures
        contents(entries.update(i, entry)) == contents(entries).insert(
            entry.location@,
            entry.item@,
        ),
{
    let after = entries.update(i, entry);
    assert(locations(after) =~= locations(entries));
    let want = contents(entries).insert(entry.location@, entry.item@);
    lemma_first_entry_is_content(entries, i);
    assert forall|k: Seq<char>| contents(after).contains_key(k) implies contents(after)[k]
        == want[k] by {
        lemma_content_has_entry(after, k);
        let j = locations(after).index_of_first(k).unwrap();
        if k != entry.location@ {
            lemma_content_has_entry(entries, k);
        } else {
            if j < i {
                assert(entries[j].location@ != entries[i].location@);
            }
            if i < j {
                assert(after[i].location@ != k);
            }
        }
    }
    assert(contents(after) =~= want);
}

/// The object area: what lies at each location.
#[derive(Debug)]
pub struct ObjectArea {
    entries: Vec<StoredObject>,
}

impl View for ObjectArea {
    type V = Map<Seq<char>, StoredView>;

    closed spec fn view(&self) -> Map<Seq<char>, StoredView> {
        contents(self.entries@)
    }
}

impl ObjectArea {
    /// The entries of the area, in the order in which their locations were
    /// filled.
    pub closed spec fn listing(&self) -> Seq<StoredObject> {
        self.entries@
    }

    /// An area with nothing in it.
    pub fn new() -> (area: ObjectArea)
        ensures
            area@ == Map::<Seq<char>, StoredView>::empty(),
            area.listing().len() == 0,
    {
        let area = ObjectArea { entries: Vec::new() };
        assert(area@ =~= Map::<Seq<char>, StoredView>::empty());
        area
    }

    /// The number of entries.
    pub fn len(&self) -> (n: usize)
        ensures
            n == self.listing().len(),
    {
        self.entries.len()
    }

    /// The `i`-th entry of the listing.
    pub fn entry(&self, i: usize) -> (entry: &StoredObject)
        requires
            i < self.listing().len(),
        ensures
            *entry == self.listing()[i as int],
            self@.contains_key(entry.location@),
    {
        proof {
            assert(locations(self.entries@)[i as int] == self.entries@[i as int].location@);
        }
        &self.entries[i]
    }

    fn position(&self, location: &String) -> (r: Option<usize>)
        ensures
            match r {
                Some(i) => {
                    &&& i < self.entries@.len()
                    &&& self.entries@[i as int].location@ == location@
                    &&& forall|j: int| 0 <= j < i ==> self.entries@[j].location@ != location@
                    &&& self@.contains_key(location@)
                    &&& self@[location@] == self.entries@[i as int].item@
                },
                None => !self@.contains_key(location@),
            },
    {
        let mut i: usize = 0;
        while i < self.entries.len()
            invariant
                i <= self.entries.len(),
                forall|j: int| 0 <= j < i ==> self.entries@[j].location@ != location@,
            decreases self.entries.len() - i,
        {
            if self.entries[i].location == *location {
                proof {
                    lemma_first_entry_is_content(self.entries@, i as int);
                }
                return Some(i);
            }
            i = i + 1;
        }
        proof {
            if self@.contains_key(location@) {
                lemma_content_has_entry(self.entries@, location@);
            }
        }
        None
    }

    /// Whether anything lies at a location.
    pub fn contains(&self, location: &String) -> (found: bool)
        ensures
            found == self@.contains_key(location@),
    {
        self.position(location).is_some()
    }

    /// What lies at a location.
    pub fn get(&self, location: &String) -> (item: Option<&Stored>)
        ensures
            match item {
                Some(stored) => self@.contains_key(location@) && self@[location@] == stored@,
                None => !self@.contains_key(location@),
            },
    {
        match self.position(location) {
            Some(i) => Some(&self.entries[i].item),
            None => None,
        }
    }

    /// Puts an item at a location, in place of what lay there.
    pub fn put(&mut self, location: String, item: Stored)
        ensures
            final(self)@ == old(self)@.insert(location@, item@),
    {
        match self.position(&location) {
            Some(i) => {
                let entry = StoredObject { location, item };
                proof {
                    lemma_contents_after_update(self.entries@, i as int, entry);
                }
                self.entries.set(i, entry);
            },
            None => {
                let entry = StoredObject { location, item };
                proof {
                    lemma_contents_after_push(self.entries@, entry);
                }
                self.entries.push(entry);
            },
        }
    }

    /// Takes away what lies at a location, if anything does.
    pub fn remove(&mut self, location: &String)
        ensures
            final(self)@ == old(self)@.remove(location@),
    {
        let mut kept: Vec<StoredObject> = Vec::new();
        let mut rest: Vec<StoredObject> = Vec::new();
        std::mem::swap(&mut self.entries, &mut rest);
        let ghost all = rest@;
        let mut i: usize = 0;
        assert(contents(kept@) =~= contents(all.take(0)).remove(location@));
        while i < rest.len()
            invariant
                i <= rest.len(),
                rest@.len() == all.len(),
                forall|j: int| i <= j < rest.len() ==> rest@[j] == all[j],
                contents(kept@) == contents(all.take(i as int)).remove(location@),
            decreases rest.len() - i,
        {
            let mut entry = StoredObject { location: String::new(), item: Stored::Blob(Vec::new()) };
            std::mem::swap(&mut rest[i], &mut entry);
            proof {
                assert(entry == all[i as int]);
                assert(all.take(i as int).push(entry) =~= all.take(i + 1));
                lemma_contents_after_push(all.take(i as int), entry);
                lemma_contents_after_push(kept@, entry);
            }
            if entry.location != *location {
                kept.push(entry);
                assert(contents(kept@) =~= contents(all.take(i + 1)).remove(location@));
            } else {
                assert(contents(kept@) =~= contents(all.take(i + 1)).remove(location@));
            }
            i = i + 1;
        }
        assert(all.take(all.len() as int) =~= all);
        self.entries = kept;
    }
}

} // verus!
