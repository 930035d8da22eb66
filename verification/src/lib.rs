//! Chunked file storage: receiving files as streams of buffers, recording
//! the chunks of each file in a manifest, and rebuilding files from their
//! manifests.
//!
//! - [`chunking`]: splitting bytes into chunks of a fixed size, and merging
//!   chunks.
//! - [`identifier`]: the identifiers that uploads are stored under.
//! - [`layout`]: where the chunk file and the merged file of a file live.
//! - [`manifest`]: the manifest of a stored file, and listings of manifests.
//! - [`upload`]: the session that receives an upload.
//! - [`download`]: the session that serves a download.
//! - [`storage`]: the metadata store and the file storage as mathematical
//!   values, against which the laws of uploads and downloads are stated.
//! - [`round_trip`]: what comes back of what was uploaded.
//!
//! The sessions read and write nothing themselves. They say what is to be
//! done, and are told how it went.

pub mod chunking;
pub mod download;
pub mod identifier;
pub mod layout;
pub mod manifest;
pub mod round_trip;
pub mod storage;
pub mod upload;
