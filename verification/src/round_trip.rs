//! What comes back of what was uploaded.

use vstd::prelude::*;
use crate::download::{download, file_response, lemma_download_reassembles};
use crate::layout::{chunk_location, lemma_merged_is_no_chunk, merged_location};
use crate::manifest::FileMetaView;
use crate::storage::Storage;
use crate::upload::{
    buffer_count,
    default_file_name,
    handles,
    lemma_upload_outcome,
    name_after,
    upload,
    FieldView,
};

verus! {

/// The file name of an upload of the one field `field`.
pub open spec fn name_of(field: FieldView) -> Seq<char> {
    match field.file_name {
        Some(name) => name,
        None => default_file_name(),
    }
}

/// Any number of empty sequences, concatenated, are empty.
proof fn lemma_merged_empties(parts: Seq<Seq<u8>>)
    requires
        forall|i: int| 0 <= i < parts.len() ==> (#[trigger] parts[i]).len() == 0,
    ensures
        parts.flatten() == Seq::<u8>::empty(),
    decreases parts.len(),
{
    if parts.len() > 0 {
        lemma_merged_empties(parts.drop_first());
        assert(parts.first() + parts.drop_first().flatten() =~= Seq::<u8>::empty());
    }
}

/// A manifest persisted under an identifier that the storage did not know
/// is the one that a lookup of the identifier finds.
pub proof fn lemma_persisted_is_found(storage: Storage, manifest: FileMetaView)
    requires
        !storage.knows(manifest.file_id),
    ensures
        storage.persist(manifest).knows(manifest.file_id),
        storage.persist(manifest).manifest_of(manifest.file_id) == Some(manifest),
{
    let after = storage.persist(manifest);
    let last = storage.manifests.len() as int;
    assert(after.manifests[last].file_id == manifest.file_id);
    let found = choose|i: int|
        0 <= i < after.manifests.len() && (#[trigger] after.manifests[i]).file_id
            == manifest.file_id;
    if found < last {
        assert(storage.manifests[found].file_id == manifest.file_id);
    }
}

/// What an upload of the one field `field` comes to: the manifest, and the
/// storage with the chunk file written and the manifest persisted.
proof fn lemma_single_field_outcome(
    storage: Storage,
    field: FieldView,
    file_id: Seq<char>,
    uploads_path: Seq<char>,
)
    ensures
        ({
            let path = chunk_location(uploads_path, file_id);
            let manifest = FileMetaView {
                file_id,
                file_name: name_of(field),
                chunks: handles(path, field.buffers.len()),
            };
            upload(storage, seq![field], file_id, uploads_path) == Some(
                (manifest, storage.with_file(path, field.buffers.flatten()).persist(manifest)),
            )
        }),
{
    let fields = seq![field];
    lemma_upload_outcome(storage, fields, file_id, uploads_path);
    assert(fields.drop_first() =~= Seq::<FieldView>::empty());
    assert(name_after(fields, default_file_name()) == name_of(field)) by {
        reveal_with_fuel(name_after, 2);
    }
    assert(buffer_count(fields) == field.buffers.len()) by {
        reveal_with_fuel(buffer_count, 2);
    }
}

/// The chunks of a file sent as one field, read back in the manifest's order
/// and concatenated, are the bytes of the field once for each of its
/// buffers: every buffer adds a handle of the one chunk file, which holds
/// them all.
pub proof fn lemma_single_field_read_back(
    storage: Storage,
    field: FieldView,
    file_id: Seq<char>,
    uploads_path: Seq<char>,
)
    ensures
        upload(storage, seq![field], file_id, uploads_path) matches Some((manifest, stored))
            && stored.read_back(manifest.chunks) == Some(
            Seq::new(field.buffers.len(), |i: int| field.buffers.flatten()).flatten(),
        ),
{
    lemma_single_field_outcome(storage, field, file_id, uploads_path);
    let (manifest, stored) = upload(storage, seq![field], file_id, uploads_path)->0;
    assert(stored.contents(manifest.chunks) =~= Seq::new(
        field.buffers.len(),
        |i: int| field.buffers.flatten(),
    ));
}

/// The chunks of a file sent as one field in at most one buffer, read back
/// in the manifest's order and concatenated, are the bytes of the field.
/// The same holds of any number of buffers that are all empty. (Of other
/// fields it does not: see [`lemma_single_field_read_back`].)
pub proof fn lemma_single_field_round_trip(
    storage: Storage,
    field: FieldView,
    file_id: Seq<char>,
    uploads_path: Seq<char>,
)
    requires
        field.buffers.len() <= 1 || field.buffers.flatten().len() == 0,
    ensures
        upload(storage, seq![field], file_id, uploads_path) matches Some((manifest, stored))
            && stored.read_back(manifest.chunks) == Some(field.buffers.flatten()),
{
    let sent = field.buffers.flatten();
    let count = field.buffers.len();
    let parts = Seq::new(count, |i: int| sent);
    lemma_single_field_read_back(storage, field, file_id, uploads_path);
    if count == 0 {
        assert(field.buffers =~= Seq::<Seq<u8>>::empty());
    } else if count == 1 {
        parts.lemma_flatten_one_element();
    } else {
        assert(sent =~= Seq::<u8>::empty());
        lemma_merged_empties(parts);
    }
}

/// A file sent as one field in at most one buffer, under an identifier that
/// the storage does not know yet, comes back as it was sent: a download of
/// the identifier answers with the bytes of the field under the field's file
/// name, or under the default name if the field carries none. The same holds
/// of any number of buffers that are all empty.
pub proof fn lemma_uploaded_file_comes_back(
    storage: Storage,
    field: FieldView,
    file_id: Seq<char>,
    uploads_path: Seq<char>,
)
    requires
        !storage.knows(file_id),
        field.buffers.len() <= 1 || field.buffers.flatten().len() == 0,
    ensures
        upload(storage, seq![field], file_id, uploads_path) matches Some((manifest, stored))
            && download(stored, file_id, uploads_path) matches Some((response, left))
            && response == file_response(name_of(field), field.buffers.flatten()),
{
    let path = chunk_location(uploads_path, file_id);
    lemma_single_field_outcome(storage, field, file_id, uploads_path);
    lemma_single_field_round_trip(storage, field, file_id, uploads_path);
    let (manifest, stored) = upload(storage, seq![field], file_id, uploads_path)->0;
    let written = storage.with_file(path, field.buffers.flatten());
    assert(!written.knows(file_id));
    lemma_persisted_is_found(written, manifest);
    lemma_merged_is_no_chunk(uploads_path, file_id, file_id);
    assert(!manifest.chunks.contains(merged_location(uploads_path, file_id)));
    lemma_download_reassembles(stored, file_id, uploads_path);
}

} // verus!
