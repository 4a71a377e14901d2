//! What the blob store guarantees: storing is idempotent and deduplicates,
//! and what was stored comes back byte for byte.

use vstd::prelude::*;
use crate::hashing::{content_hash, hex_digit, is_hex_char, lemma_content_hash_shape};
use crate::service::layout::{
    assembled, blob_at, block_hashes, blocks_of, chunk_list, fetched, fetched_chunked,
    location_of, manifest_at, manifest_hash, manifest_location, manifest_name, manifest_of,
    with_chunked,
    with_object, with_objects, Area,
};
use crate::service::objects::StoredView;

verus! {

/// Whether the area has room for a content: the location of its hash is
/// vacant, or holds that very content. It fails only where other bytes lie
/// under the hash of the content.
pub open spec fn admits(area: Area, root: Seq<char>, content: Seq<u8>) -> bool {
    let location = location_of(root, content_hash(content));
    area.contains_key(location) ==> area[location] == StoredView::Blob(content)
}

/// Whether two contents are the same whenever their hashes are.
pub open spec fn distinguishable(a: Seq<u8>, b: Seq<u8>) -> bool {
    content_hash(a) == content_hash(b) ==> a == b
}

/// Whether a list of blocks can be stored in the area and told apart
/// afterwards: the area admits each of them, and no two different blocks
/// have the same hash.
pub open spec fn storable(area: Area, root: Seq<char>, blocks: Seq<Seq<u8>>) -> bool {
    &&& forall|i: int| 0 <= i < blocks.len() ==> admits(area, root, #[trigger] blocks[i])
    &&& forall|i: int, j: int|
        0 <= i < blocks.len() && 0 <= j < blocks.len() ==> distinguishable(
            #[trigger] blocks[i],
            #[trigger] blocks[j],
        )
}

/// Two names of at least two characters that lie at the same location are
/// the same name.
pub proof fn lemma_location_tells_names_apart(root: Seq<char>, a: Seq<char>, b: Seq<char>)
    requires
        a.len() >= 2,
        b.len() >= 2,
        location_of(root, a) == location_of(root, b),
    ensures
        a == b,
{
    let front = root + "/objects/"@;
    let sep = "/"@;
    let la = location_of(root, a);
    let lb = location_of(root, b);
    let p = front.len() as int;
    let q = sep.len() as int;
    assert(la.len() == p + q + a.len());
    assert(lb.len() == p + q + b.len());
    assert forall|k: int| 0 <= k < a.len() implies a[k] == b[k] by {
        if k < 2 {
            assert(la[p + k] == a.take(2)[k]);
            assert(lb[p + k] == b.take(2)[k]);
        } else {
            assert(la[p + q + k] == a.skip(2)[k - 2]);
            assert(lb[p + q + k] == b.skip(2)[k - 2]);
        }
    }
    assert(a =~= b);
}

/// No hexadecimal digit is the letter `m`.
proof fn lemma_m_is_no_hex_digit()
    ensures
        !is_hex_char('m'),
{
    assert forall|n: int| 0 <= n < 16 implies #[trigger] hex_digit(n) != 'm' by {}
}

/// The manifest of a file never lies where an object lies that is stored
/// under its content hash: the prefix of the manifest's name keeps the two
/// apart.
pub proof fn lemma_manifest_apart_from_objects(
    root: Seq<char>,
    file_hash: Seq<char>,
    content: Seq<u8>,
)
    ensures
        manifest_location(root, file_hash) != location_of(root, content_hash(content)),
{
    reveal_strlit("manifest-");
    lemma_content_hash_shape(content);
    lemma_m_is_no_hex_digit();
    let name = manifest_name(file_hash);
    let hash = content_hash(content);
    assert(name[0] == 'm');
    assert(is_hex_char(hash[0]));
    if manifest_location(root, file_hash) == location_of(root, hash) {
        lemma_location_tells_names_apart(root, name, hash);
    }
}

/// Storing a content a second time changes nothing: the object is written
/// once. The hash returned is a function of the content alone, so it is the
/// same both times.
pub proof fn lemma_store_is_idempotent(area: Area, root: Seq<char>, content: Seq<u8>)
    ensures
        with_object(with_object(area, root, content), root, content) == with_object(
            area,
            root,
            content,
        ),
{
}

/// Storing never rewrites: whatever lay at a location before lies there
/// afterwards, and at most the location of the content's hash is filled.
pub proof fn lemma_store_keeps_objects(area: Area, root: Seq<char>, content: Seq<u8>)
    ensures
        forall|location: Seq<char>| #[trigger]
            area.contains_key(location) ==> with_object(area, root, content).contains_key(
                location,
            ) && with_object(area, root, content)[location] == area[location],
        with_object(area, root, content).dom() == area.dom().insert(
            location_of(root, content_hash(content)),
        ),
{
    let location = location_of(root, content_hash(content));
    assert(with_object(area, root, content).dom() =~= area.dom().insert(location));
}

/// Two stores need no order between them: whichever of two contents is
/// stored first, the area ends up the same, as long as the two do not share
/// a hash while differing.
pub proof fn lemma_stores_commute(area: Area, root: Seq<char>, a: Seq<u8>, b: Seq<u8>)
    requires
        distinguishable(a, b),
    ensures
        with_object(with_object(area, root, a), root, b) == with_object(
            with_object(area, root, b),
            root,
            a,
        ),
{
    lemma_content_hash_shape(a);
    lemma_content_hash_shape(b);
    if location_of(root, content_hash(a)) == location_of(root, content_hash(b)) {
        lemma_location_tells_names_apart(root, content_hash(a), content_hash(b));
    }
    assert(with_object(with_object(area, root, a), root, b) =~= with_object(
        with_object(area, root, b),
        root,
        a,
    ));
}

/// What is stored comes back: after a content is stored in an area that
/// admits it, a lookup of its hash yields the content.
pub proof fn lemma_store_then_retrieve(area: Area, root: Seq<char>, content: Seq<u8>)
    requires
        admits(area, root, content),
    ensures
        fetched(with_object(area, root, content), root, content_hash(content)) == Ok::<
            Seq<u8>,
            Seq<char>,
        >(content),
{
    lemma_content_hash_shape(content);
}

/// Two files with the same content are one object: they get the same hash,
/// and storing the second leaves the area as the first left it, with one
/// location more than before at most.
pub proof fn lemma_same_content_one_object(
    area: Area,
    root: Seq<char>,
    first: Seq<u8>,
    second: Seq<u8>,
)
    requires
        first == second,
    ensures
        content_hash(first) == content_hash(second),
        with_object(with_object(area, root, first), root, second) == with_object(
            area,
            root,
            first,
        ),
        with_object(with_object(area, root, first), root, second).dom() == area.dom().insert(
            location_of(root, content_hash(first)),
        ),
{
    lemma_store_keeps_objects(area, root, first);
}

/// Storing a list of blocks never rewrites either: whatever lay at a
/// location before lies there afterwards.
pub proof fn lemma_chunks_keep_objects(area: Area, root: Seq<char>, blocks: Seq<Seq<u8>>)
    ensures
        forall|location: Seq<char>| #[trigger]
            area.contains_key(location) ==> with_objects(area, root, blocks).contains_key(
                location,
            ) && with_objects(area, root, blocks)[location] == area[location],
    decreases blocks.len(),
{
    if blocks.len() > 0 {
        lemma_chunks_keep_objects(area, root, blocks.drop_last());
        lemma_store_keeps_objects(
            with_objects(area, root, blocks.drop_last()),
            root,
            blocks.last(),
        );
    }
}

/// A file of at most one block comes back as well: after it was stored by
/// the chunked operation, in an area that admits it and holds no manifest
/// for its hash, retrieving its hash yields the content.
pub proof fn lemma_small_file_comes_back(
    area: Area,
    root: Seq<char>,
    content: Seq<u8>,
    size: int,
)
    requires
        content.len() <= size,
        admits(area, root, content),
        manifest_at(area, manifest_location(root, content_hash(content))) is None,
    ensures
        fetched_chunked(
            with_chunked(area, root, content, size),
            root,
            content_hash(content),
        ) == Ok::<Seq<u8>, Seq<char>>(content),
        chunk_list(content, size) == seq![content_hash(content)],
{
    lemma_content_hash_shape(content);
    lemma_manifest_apart_from_objects(root, content_hash(content), content);
}

/// The blocks of a content, one after the other, are the content.
pub proof fn lemma_blocks_make_content(content: Seq<u8>, size: int)
    requires
        size > 0,
    ensures
        blocks_of(content, size).flatten() == content,
    decreases content.len(),
{
    let blocks = blocks_of(content, size);
    if content.len() == 0 {
        assert(blocks.flatten() =~= content);
    } else if content.len() <= size {
        blocks.lemma_flatten_one_element();
    } else {
        let rest = blocks_of(content.skip(size), size);
        lemma_blocks_make_content(content.skip(size), size);
        assert(blocks.first() == content.take(size));
        assert(blocks.drop_first() =~= rest);
        assert(content.take(size) + content.skip(size) =~= content);
    }
}

/// Every block of a content is at most `size` bytes long and not empty.
pub proof fn lemma_blocks_are_sized(content: Seq<u8>, size: int)
    requires
        size > 0,
    ensures
        forall|i: int|
            0 <= i < blocks_of(content, size).len() ==> 0 < (#[trigger] blocks_of(
                content,
                size,
            )[i]).len() <= size,
    decreases content.len(),
{
    if content.len() > size {
        lemma_blocks_are_sized(content.skip(size), size);
        let rest = blocks_of(content.skip(size), size);
        assert forall|i: int| 0 <= i < blocks_of(content, size).len() implies 0 < (
        #[trigger] blocks_of(content, size)[i]).len() <= size by {
            if i > 0 {
                assert(blocks_of(content, size)[i] == rest[i - 1]);
            }
        }
    }
}

/// Whatever lies in the area after a list of blocks was stored lay there
/// before, or is one of the blocks at the location of its hash.
proof fn lemma_stored_blocks_origin(
    area: Area,
    root: Seq<char>,
    blocks: Seq<Seq<u8>>,
    location: Seq<char>,
)
    requires
        with_objects(area, root, blocks).contains_key(location),
    ensures
        (area.contains_key(location) && with_objects(area, root, blocks)[location]
            == area[location]) || (exists|j: int|
            0 <= j < blocks.len() && location == location_of(
                root,
                content_hash(#[trigger] blocks[j]),
            ) && with_objects(area, root, blocks)[location] == StoredView::Blob(blocks[j])),
    decreases blocks.len(),
{
    if blocks.len() > 0 {
        let before = with_objects(area, root, blocks.drop_last());
        let last_location = location_of(root, content_hash(blocks.last()));
        if before.contains_key(location) {
            lemma_stored_blocks_origin(area, root, blocks.drop_last(), location);
            if !area.contains_key(location) || before[location] != area[location] {
                let j = choose|j: int|
                    0 <= j < blocks.drop_last().len() && location == location_of(
                        root,
                        content_hash(#[trigger] blocks.drop_last()[j]),
                    ) && before[location] == StoredView::Blob(blocks.drop_last()[j]);
                assert(blocks[j] == blocks.drop_last()[j]);
            }
        } else {
            assert(location == last_location);
            assert(blocks[blocks.len() - 1] == blocks.last());
        }
    }
}

/// After a storable list of blocks was stored, each block lies at the
/// location of its hash.
pub proof fn lemma_stored_blocks_present(
    area: Area,
    root: Seq<char>,
    blocks: Seq<Seq<u8>>,
    i: int,
)
    requires
        storable(area, root, blocks),
        0 <= i < blocks.len(),
    ensures
        blob_at(
            with_objects(area, root, blocks),
            location_of(root, content_hash(blocks[i])),
        ) == Some(blocks[i]),
    decreases blocks.len(),
{
    let before = with_objects(area, root, blocks.drop_last());
    let earlier = blocks.drop_last();
    assert forall|a: int| 0 <= a < earlier.len() implies admits(area, root, #[trigger] earlier[a]) by {
        assert(earlier[a] == blocks[a]);
    }
    assert forall|a: int, b: int| 0 <= a < earlier.len() && 0 <= b < earlier.len() implies 
        distinguishable(#[trigger] earlier[a], #[trigger] earlier[b]) by {
        assert(earlier[a] == blocks[a]);
        assert(earlier[b] == blocks[b]);
    }
    if i < blocks.len() - 1 {
        lemma_stored_blocks_present(area, root, earlier, i);
        assert(earlier[i] == blocks[i]);
    } else {
        let location = location_of(root, content_hash(blocks[i]));
        assert(blocks.last() == blocks[i]);
        if before.contains_key(location) {
            lemma_stored_blocks_origin(area, root, earlier, location);
            if area.contains_key(location) && before[location] == area[location] {
                assert(admits(area, root, blocks[i]));
            } else {
                let j = choose|j: int|
                    0 <= j < earlier.len() && location == location_of(
                        root,
                        content_hash(#[trigger] earlier[j]),
                    ) && before[location] == StoredView::Blob(earlier[j]);
                assert(earlier[j] == blocks[j]);
                lemma_content_hash_shape(blocks[j]);
                lemma_content_hash_shape(blocks[i]);
                lemma_location_tells_names_apart(
                    root,
                    content_hash(blocks[j]),
                    content_hash(blocks[i]),
                );
                assert(distinguishable(blocks[j], blocks[i]));
            }
        }
    }
}

/// Where every name of a chunk list is found, the assembly is the bytes of
/// the objects one after the other.
pub proof fn lemma_assembly_of_present(
    area: Area,
    root: Seq<char>,
    names: Seq<Seq<char>>,
    parts: Seq<Seq<u8>>,
)
    requires
        names.len() == parts.len(),
        forall|i: int|
            0 <= i < names.len() ==> fetched(area, root, #[trigger] names[i]) == Ok::<
                Seq<u8>,
                Seq<char>,
            >(parts[i]),
    ensures
        assembled(area, root, names) == Ok::<Seq<u8>, Seq<char>>(parts.flatten()),
    decreases names.len(),
{
    if names.len() == 0 {
        assert(parts.flatten() =~= Seq::<u8>::empty());
    } else {
        let n = names.drop_last();
        let p = parts.drop_last();
        assert forall|i: int| 0 <= i < n.len() implies fetched(area, root, #[trigger] n[i]) == Ok::<
            Seq<u8>,
            Seq<char>,
        >(p[i]) by {
            assert(n[i] == names[i]);
            assert(p[i] == parts[i]);
        }
        lemma_assembly_of_present(area, root, n, p);
        assert(names.last() == names[names.len() - 1]);
        assert(parts.last() == parts[parts.len() - 1]);
        p.lemma_flatten_push(parts.last());
        assert(p.push(parts.last()) =~= parts);
    }
}

/// The name of a manifest tells the hash that the manifest is kept for.
pub proof fn lemma_manifest_name_tells_hash(hash: Seq<char>)
    ensures
        manifest_hash(manifest_name(hash)) == Some(hash),
{
    let name = manifest_name(hash);
    let prefix = "manifest-"@;
    assert(name.take(prefix.len() as int) =~= prefix);
    assert(name.skip(prefix.len() as int) =~= hash);
}

/// A chunked file comes back: after a content longer than one block was
/// stored in chunks, in an area that can take its blocks, retrieving its hash
/// yields the content, and the chunk list is the list of the hashes of its
/// blocks, in order.
pub proof fn lemma_chunked_store_then_retrieve(
    area: Area,
    root: Seq<char>,
    content: Seq<u8>,
    size: int,
)
    requires
        size > 0,
        content.len() > size,
        storable(area, root, blocks_of(content, size)),
    ensures
        fetched_chunked(
            with_chunked(area, root, content, size),
            root,
            content_hash(content),
        ) == Ok::<Seq<u8>, Seq<char>>(content),
        chunk_list(content, size) == block_hashes(blocks_of(content, size)),
        blocks_of(content, size).flatten() == content,
{
    let blocks = blocks_of(content, size);
    let names = block_hashes(blocks);
    let stored = with_objects(area, root, blocks);
    let place = manifest_location(root, content_hash(content));
    let after = with_chunked(area, root, content, size);
    assert(manifest_at(after, place) == Some(manifest_of(content, size)));
    assert forall|i: int| 0 <= i < names.len() implies fetched(after, root, #[trigger] names[i])
        == Ok::<Seq<u8>, Seq<char>>(blocks[i]) by {
        lemma_stored_blocks_present(area, root, blocks, i);
        lemma_manifest_apart_from_objects(root, content_hash(content), blocks[i]);
        lemma_content_hash_shape(blocks[i]);
    }
    lemma_assembly_of_present(after, root, names, blocks);
    lemma_blocks_make_content(content, size);
}

} // verus!
