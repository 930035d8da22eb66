//! The manifest of a stored file: its identifier, its display name, and the
//! locations of its chunks in the order of the file's bytes.

use vstd::prelude::*;

verus! {

/// The record from which a stored file is rebuilt.
///
/// Reading the chunks in the order of `chunks` and concatenating what they
/// hold gives the file's bytes. The same location may occur more than once.
#[derive(Debug, Clone, PartialEq, Eq)]
pub struct FileMeta {
    /// The identifier generated when the file was uploaded.
    pub file_id: String,
    /// The name that the client gave the file.
    pub file_name: String,
    /// The locations of the chunks, in byte order.
    pub chunks: Vec<String>,
}

/// A manifest as a mathematical value.
pub struct FileMetaView {
    pub file_id: Seq<char>,
    pub file_name: Seq<char>,
    pub chunks: Seq<Seq<char>>,
}

impl View for FileMeta {
    type V = FileMetaView;

    open spec fn view(&self) -> FileMetaView {
        FileMetaView {
            file_id: self.file_id@,
            file_name: self.file_name@,
            chunks: self.chunks.deep_view(),
        }
    }
}

/// The records of a listing that could be read, in the order of the listing.
pub open spec fn readable(records: Seq<Option<FileMeta>>) -> Seq<FileMeta> {
    records.filter_map(|record: Option<FileMeta>| record)
}

/// Collects the manifests of a listing, passing over each record that could
/// not be read (`None`).
pub fn listed_files(records: Vec<Option<FileMeta>>) -> (files: Vec<FileMeta>)
    ensures
        files@ == readable(records@),
{
    let ghost all = records@;
    let mut files: Vec<FileMeta> = Vec::new();
    proof {
        assert(all.take(0) =~= Seq::<Option<FileMeta>>::empty());
    }
    for record in iter: records
        invariant
            iter.seq() == all,
            files@ == readable(all.take(iter.index())),
    {
        proof {
            all.lemma_filter_map_take_succ(|record: Option<FileMeta>| record, iter.index());
        }
        match record {
            Some(meta) => {
                files.push(meta);
            },
            None => {},
        }
    }
    proof {
        assert(all.take(all.len() as int) =~= all);
    }
    files
}

} // verus!
