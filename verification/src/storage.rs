//! The collaborators of uploads and downloads, as mathematical values: a
//! metadata store that keeps manifests, and a file storage that keeps the
//! bytes of each file under its location.
//!
//! Nothing here runs. The laws of uploads and downloads are stated against
//! this model of a storage that does what it is asked.

use vstd::prelude::*;
use crate::manifest::FileMetaView;

verus! {

/// What the metadata store and the file storage hold.
#[verifier::ext_equal]
pub struct Storage {
    /// The manifests that were persisted.
    pub manifests: Seq<FileMetaView>,
    /// The bytes of each file, by its location.
    pub files: Map<Seq<char>, Seq<u8>>,
}

impl Storage {
    /// Whether a manifest was persisted under `file_id`.
    pub open spec fn knows(self, file_id: Seq<char>) -> bool {
        exists|i: int| 0 <= i < self.manifests.len() && (#[trigger] self.manifests[i]).file_id == file_id
    }

    /// A manifest persisted under `file_id`, if there is one.
    pub open spec fn manifest_of(self, file_id: Seq<char>) -> Option<FileMetaView> {
        if self.knows(file_id) {
            let i = choose|i: int|
                0 <= i < self.manifests.len() && (#[trigger] self.manifests[i]).file_id == file_id;
            Some(self.manifests[i])
        } else {
            None
        }
    }

    /// The storage after `manifest` was persisted.
    pub open spec fn persist(self, manifest: FileMetaView) -> Storage {
        Storage { manifests: self.manifests.push(manifest), ..self }
    }

    /// The storage in which the file `path` holds `bytes`.
    pub open spec fn with_file(self, path: Seq<char>, bytes: Seq<u8>) -> Storage {
        Storage { files: self.files.insert(path, bytes), ..self }
    }

    /// The storage after the file `path` was created, empty.
    pub open spec fn create(self, path: Seq<char>) -> Storage {
        self.with_file(path, Seq::empty())
    }

    /// What the file `path` holds, if it exists.
    pub open spec fn read(self, path: Seq<char>) -> Option<Seq<u8>> {
        if self.files.dom().contains(path) {
            Some(self.files[path])
        } else {
            None
        }
    }

    /// The storage after `data` was appended to the file `path`.
    pub open spec fn append(self, path: Seq<char>, data: Seq<u8>) -> Storage {
        match self.read(path) {
            Some(bytes) => self.with_file(path, bytes + data),
            None => self.with_file(path, data),
        }
    }

    /// What the files `paths` hold, one after the other.
    pub open spec fn contents(self, paths: Seq<Seq<char>>) -> Seq<Seq<u8>> {
        Seq::new(paths.len(), |i: int| self.files[paths[i]])
    }

    /// Whether each of the files `paths` exists.
    pub open spec fn has_all(self, paths: Seq<Seq<char>>) -> bool {
        forall|i: int| 0 <= i < paths.len() ==> self.files.dom().contains(#[trigger] paths[i])
    }

    /// What reading the files `paths` in order and concatenating what they
    /// hold gives; `None` if one of them does not exist.
    pub open spec fn read_back(self, paths: Seq<Seq<char>>) -> Option<Seq<u8>> {
        if self.has_all(paths) {
            Some(self.contents(paths).flatten())
        } else {
            None
        }
    }
}

} // verus!
