//! Serving a download.
//!
//! A download looks the manifest of a file up, copies the file's chunks in
//! the manifest's order into a merged file, and answers with what the merged
//! file then holds. The session decides what to do next from what happened
//! last; the caller does the lookup, the reading and the writing and reports
//! how each went. A file without a manifest is answered as not found, with
//! no file touched. Any failure of the storage ends the download with a
//! failure: no partial content is ever sent.

use vstd::prelude::*;
use vstd::string::*;
use crate::layout::{merged_location, merged_path};
use crate::manifest::{FileMeta, FileMetaView};
use crate::storage::Storage;

verus! {

/// What a download session is waiting for.
#[derive(Debug, Clone, Copy, PartialEq, Eq, Structural)]
pub enum DownloadPhase {
    /// Nothing was asked for yet.
    Idle,
    /// The manifest is being looked up.
    Looking,
    /// The merged file is being created.
    CreatingMerged,
    /// A chunk is being read.
    ReadingChunk,
    /// A chunk is being appended to the merged file.
    Appending,
    /// The merged file is being read back.
    ReadingMerged,
    /// The download has been answered.
    Done,
}

/// What happened since the session last asked for something.
#[derive(Debug, PartialEq, Eq)]
pub enum DownloadEvent {
    /// The download request arrived.
    Started,
    /// The lookup ended, with the manifest of the file if it has one.
    Found { manifest: Option<FileMeta> },
    /// The merged file was created, empty (`ok`), or could not be.
    MergedCreated { ok: bool },
    /// The chunk was read in full, or could not be (`None`).
    ChunkRead { data: Option<Vec<u8>> },
    /// The chunk was appended to the merged file in full (`ok`), or not.
    Appended { ok: bool },
    /// The merged file was read in full, or could not be (`None`).
    MergedRead { data: Option<Vec<u8>> },
}

/// How a download is answered.
#[derive(Debug, PartialEq, Eq)]
pub enum DownloadResponse {
    /// The file has no manifest.
    NotFound { message: String },
    /// The file's bytes, offered as an attachment under the file's name.
    File { content_type: String, content_disposition: String, body: Vec<u8> },
    /// The storage failed; nothing of the file is sent.
    StorageFailure,
}

/// What the session asks its caller to do.
#[derive(Debug, PartialEq, Eq)]
pub enum DownloadAction {
    /// Look up the manifest whose identifier is exactly `file_id`.
    FindManifest { file_id: String },
    /// Create the file `path`, empty, and keep it open for appending.
    CreateMergedFile { path: String },
    /// Read all of the chunk file `path`.
    ReadChunk { path: String },
    /// Append `data` to the open merged file `path`.
    AppendMerged { path: String, data: Vec<u8> },
    /// Read all of the merged file `path`.
    ReadMerged { path: String },
    /// Answer the request.
    Respond { response: DownloadResponse },
}

/// An event as a mathematical value.
pub enum DownloadEventView {
    Started,
    Found { manifest: Option<FileMetaView> },
    MergedCreated { ok: bool },
    ChunkRead { data: Option<Seq<u8>> },
    Appended { ok: bool },
    MergedRead { data: Option<Seq<u8>> },
}

/// A response as a mathematical value.
pub enum DownloadResponseView {
    NotFound { message: Seq<char> },
    File { content_type: Seq<char>, content_disposition: Seq<char>, body: Seq<u8> },
    StorageFailure,
}

/// An action as a mathematical value.
pub enum DownloadActionView {
    FindManifest { file_id: Seq<char> },
    CreateMergedFile { path: Seq<char> },
    ReadChunk { path: Seq<char> },
    AppendMerged { path: Seq<char>, data: Seq<u8> },
    ReadMerged { path: Seq<char> },
    Respond { response: DownloadResponseView },
}

/// What was read, as a mathematical value.
pub open spec fn bytes_view(data: Option<Vec<u8>>) -> Option<Seq<u8>> {
    match data {
        Some(bytes) => Some(bytes@),
        None => None,
    }
}

impl View for DownloadEvent {
    type V = DownloadEventView;

    open spec fn view(&self) -> DownloadEventView {
        match self {
            DownloadEvent::Started => DownloadEventView::Started,
            DownloadEvent::Found { manifest } => DownloadEventView::Found {
                manifest: match manifest {
                    Some(meta) => Some(meta@),
                    None => None,
                },
            },
            DownloadEvent::MergedCreated { ok } => DownloadEventView::MergedCreated { ok: *ok },
            DownloadEvent::ChunkRead { data } => DownloadEventView::ChunkRead {
                data: bytes_view(*data),
            },
            DownloadEvent::Appended { ok } => DownloadEventView::Appended { ok: *ok },
            DownloadEvent::MergedRead { data } => DownloadEventView::MergedRead {
                data: bytes_view(*data),
            },
        }
    }
}

impl View for DownloadResponse {
    type V = DownloadResponseView;

    open spec fn view(&self) -> DownloadResponseView {
        match self {
            DownloadResponse::NotFound { message } => DownloadResponseView::NotFound {
                message: message@,
            },
            DownloadResponse::File {
                content_type,
                content_disposition,
                body,
            } => DownloadResponseView::File {
                content_type: content_type@,
                content_disposition: content_disposition@,
                body: body@,
            },
            DownloadResponse::StorageFailure => DownloadResponseView::StorageFailure,
        }
    }
}

impl View for DownloadAction {
    type V = DownloadActionView;

    open spec fn view(&self) -> DownloadActionView {
        match self {
            DownloadAction::FindManifest { file_id } => DownloadActionView::FindManifest {
                file_id: file_id@,
            },
            DownloadAction::CreateMergedFile { path } => DownloadActionView::CreateMergedFile {
                path: path@,
            },
            DownloadAction::ReadChunk { path } => DownloadActionView::ReadChunk { path: path@ },
            DownloadAction::AppendMerged { path, data } => DownloadActionView::AppendMerged {
                path: path@,
                data: data@,
            },
            DownloadAction::ReadMerged { path } => DownloadActionView::ReadMerged { path: path@ },
            DownloadAction::Respond { response } => DownloadActionView::Respond {
                response: response@,
            },
        }
    }
}

/// The text that answers a download of a file without a manifest.
pub open spec fn not_found_message() -> Seq<char> {
    "File not found"@
}

/// The content type of every file sent: plain bytes.
pub open spec fn binary_content_type() -> Seq<char> {
    "application/octet-stream"@
}

/// The header value that offers a file as an attachment named `file_name`:
/// `attachment; filename="{file_name}"`.
pub open spec fn attachment_disposition(file_name: Seq<char>) -> Seq<char> {
    "attachment; filename=\""@ + file_name + "\""@
}

/// The response that carries `body` as the file named `file_name`.
pub open spec fn file_response(file_name: Seq<char>, body: Seq<u8>) -> DownloadResponseView {
    DownloadResponseView::File {
        content_type: binary_content_type(),
        content_disposition: attachment_disposition(file_name),
        body,
    }
}

/// A download session as a mathematical value.
pub struct DownloadView {
    pub file_id: Seq<char>,
    pub uploads_path: Seq<char>,
    pub file_name: Seq<char>,
    pub chunks: Seq<Seq<char>>,
    pub next: nat,
    pub phase: DownloadPhase,
}

impl DownloadView {
    /// The session of a request that has just arrived.
    pub open spec fn initial(file_id: Seq<char>, uploads_path: Seq<char>) -> DownloadView {
        DownloadView {
            file_id,
            uploads_path,
            file_name: Seq::empty(),
            chunks: Seq::empty(),
            next: 0,
            phase: DownloadPhase::Idle,
        }
    }

    /// The merged file of this download.
    pub open spec fn merged_file(self) -> Seq<char> {
        merged_location(self.uploads_path, self.file_id)
    }

    /// While a chunk is read or appended, it is one of the manifest's.
    pub open spec fn well_formed(self) -> bool {
        (self.phase == DownloadPhase::ReadingChunk || self.phase == DownloadPhase::Appending)
            ==> self.next < self.chunks.len()
    }

    /// The session after a failure of the storage, and its answer.
    pub open spec fn failed(self) -> (DownloadView, DownloadActionView) {
        (
            DownloadView { phase: DownloadPhase::Done, ..self },
            DownloadActionView::Respond { response: DownloadResponseView::StorageFailure },
        )
    }

    /// The session once the chunks before `index` are in the merged file:
    /// it reads chunk `index`, or, after the last chunk, the merged file.
    pub open spec fn copying_from(self, index: nat) -> (DownloadView, DownloadActionView) {
        if index < self.chunks.len() {
            (
                DownloadView { next: index, phase: DownloadPhase::ReadingChunk, ..self },
                DownloadActionView::ReadChunk { path: self.chunks[index as int] },
            )
        } else {
            (
                DownloadView { next: index, phase: DownloadPhase::ReadingMerged, ..self },
                DownloadActionView::ReadMerged { path: self.merged_file() },
            )
        }
    }

    /// The session after `event`, and what it then asks for; `None` if the
    /// session is not waiting for such an event.
    pub open spec fn step(self, event: DownloadEventView) -> Option<
        (DownloadView, DownloadActionView),
    > {
        match (self.phase, event) {
            (DownloadPhase::Idle, DownloadEventView::Started) => Some(
                (
                    DownloadView { phase: DownloadPhase::Looking, ..self },
                    DownloadActionView::FindManifest { file_id: self.file_id },
                ),
            ),
            (DownloadPhase::Looking, DownloadEventView::Found { manifest: None }) => Some(
                (
                    DownloadView { phase: DownloadPhase::Done, ..self },
                    DownloadActionView::Respond {
                        response: DownloadResponseView::NotFound { message: not_found_message() },
                    },
                ),
            ),
            (DownloadPhase::Looking, DownloadEventView::Found { manifest: Some(meta) }) => Some(
                (
                    DownloadView {
                        file_name: meta.file_name,
                        chunks: meta.chunks,
                        next: 0,
                        phase: DownloadPhase::CreatingMerged,
                        ..self
                    },
                    DownloadActionView::CreateMergedFile { path: self.merged_file() },
                ),
            ),
            (DownloadPhase::CreatingMerged, DownloadEventView::MergedCreated { ok }) => Some(
                if ok {
                    self.copying_from(0)
                } else {
                    self.failed()
                },
            ),
            (DownloadPhase::ReadingChunk, DownloadEventView::ChunkRead { data: None }) => Some(
                self.failed(),
            ),
            (DownloadPhase::ReadingChunk, DownloadEventView::ChunkRead { data: Some(bytes) }) => Some(
                (
                    DownloadView { phase: DownloadPhase::Appending, ..self },
                    DownloadActionView::AppendMerged { path: self.merged_file(), data: bytes },
                ),
            ),
            (DownloadPhase::Appending, DownloadEventView::Appended { ok }) => Some(
                if ok {
                    self.copying_from(self.next + 1)
                } else {
                    self.failed()
                },
            ),
            (DownloadPhase::ReadingMerged, DownloadEventView::MergedRead { data: None }) => Some(
                self.failed(),
            ),
            (DownloadPhase::ReadingMerged, DownloadEventView::MergedRead { data: Some(bytes) }) => Some(
                (
                    DownloadView { phase: DownloadPhase::Done, ..self },
                    DownloadActionView::Respond { response: file_response(self.file_name, bytes) },
                ),
            ),
            _ => None,
        }
    }
}

/// The state of one download.
pub struct DownloadSession {
    file_id: String,
    uploads_path: String,
    file_name: String,
    chunks: Vec<String>,
    next: usize,
    phase: DownloadPhase,
}

impl View for DownloadSession {
    type V = DownloadView;

    closed spec fn view(&self) -> DownloadView {
        DownloadView {
            file_id: self.file_id@,
            uploads_path: self.uploads_path@,
            file_name: self.file_name@,
            chunks: self.chunks.deep_view(),
            next: self.next as nat,
            phase: self.phase,
        }
    }
}

impl DownloadSession {
    #[verifier::type_invariant]
    spec fn chunk_in_range(self) -> bool {
        self@.well_formed()
    }

    /// The session of a request that has just arrived, for the file
    /// `file_id` under the directory `uploads_path`. The identifier is taken
    /// as it is.
    pub fn new(file_id: String, uploads_path: String) -> (session: DownloadSession)
        ensures
            session@ == DownloadView::initial(file_id@, uploads_path@),
    {
        let session = DownloadSession {
            file_id,
            uploads_path,
            file_name: String::new(),
            chunks: Vec::new(),
            next: 0,
            phase: DownloadPhase::Idle,
        };
        assert(session@.chunks =~= Seq::empty());
        session
    }

    /// What the session is waiting for.
    pub fn phase(&self) -> (phase: DownloadPhase)
        ensures
            phase == self@.phase,
    {
        self.phase
    }

    /// Ends the download with a failure of the storage.
    fn fail(&mut self) -> (action: DownloadAction)
        ensures
            (final(self)@, action@) == old(self)@.failed(),
    {
        self.phase = DownloadPhase::Done;
        DownloadAction::Respond { response: DownloadResponse::StorageFailure }
    }

    /// Goes on with chunk `index`, or, after the last chunk, with the merged
    /// file.
    fn copy_from(&mut self, index: usize) -> (action: DownloadAction)
        ensures
            (final(self)@, action@) == old(self)@.copying_from(index as nat),
    {
        if index < self.chunks.len() {
            self.next = index;
            self.phase = DownloadPhase::ReadingChunk;
            DownloadAction::ReadChunk { path: self.chunks[index].clone() }
        } else {
            self.phase = DownloadPhase::ReadingMerged;
            self.next = index;
            DownloadAction::ReadMerged {
                path: merged_path(self.uploads_path.as_str(), self.file_id.as_str()),
            }
        }
    }

    /// Takes in what happened and says what to do next. An event that the
    /// session is not waiting for changes nothing and gives `None`.
    pub fn step(&mut self, event: DownloadEvent) -> (action: Option<DownloadAction>)
        ensures
            match old(self)@.step(event@) {
                Some((next, expected)) => final(self)@ == next && action is Some
                    && action->0@ == expected,
                None => final(self)@ == old(self)@ && action is None,
            },
    {
        proof {
            use_type_invariant(&*self);
        }
        match (self.phase, event) {
            (DownloadPhase::Idle, DownloadEvent::Started) => {
                self.phase = DownloadPhase::Looking;
                Some(DownloadAction::FindManifest { file_id: self.file_id.clone() })
            },
            (DownloadPhase::Looking, DownloadEvent::Found { manifest: None }) => {
                self.phase = DownloadPhase::Done;
                Some(
                    DownloadAction::Respond {
                        response: DownloadResponse::NotFound {
                            message: String::from_str("File not found"),
                        },
                    },
                )
            },
            (DownloadPhase::Looking, DownloadEvent::Found { manifest: Some(meta) }) => {
                self.file_name = meta.file_name;
                self.chunks = meta.chunks;
                self.next = 0;
                self.phase = DownloadPhase::CreatingMerged;
                Some(
                    DownloadAction::CreateMergedFile {
                        path: merged_path(self.uploads_path.as_str(), self.file_id.as_str()),
                    },
                )
            },
            (DownloadPhase::CreatingMerged, DownloadEvent::MergedCreated { ok }) => {
                if ok {
                    Some(self.copy_from(0))
                } else {
                    Some(self.fail())
                }
            },
            (DownloadPhase::ReadingChunk, DownloadEvent::ChunkRead { data: None }) => Some(
                self.fail(),
            ),
            (DownloadPhase::ReadingChunk, DownloadEvent::ChunkRead { data: Some(bytes) }) => {
                self.phase = DownloadPhase::Appending;
                Some(
                    DownloadAction::AppendMerged {
                        path: merged_path(self.uploads_path.as_str(), self.file_id.as_str()),
                        data: bytes,
                    },
                )
            },
            (DownloadPhase::Appending, DownloadEvent::Appended { ok }) => {
                if ok {
                    assert(self.next < self.chunks.deep_view().len() == self.chunks.len());
                    let index: usize = self.next + 1;
                    Some(self.copy_from(index))
                } else {
                    Some(self.fail())
                }
            },
            (DownloadPhase::ReadingMerged, DownloadEvent::MergedRead { data: None }) => Some(
                self.fail(),
            ),
            (DownloadPhase::ReadingMerged, DownloadEvent::MergedRead { data: Some(bytes) }) => {
                self.phase = DownloadPhase::Done;
                let mut content_disposition = String::from_str("attachment; filename=\"");
                content_disposition.append(self.file_name.as_str());
                content_disposition.append("\"");
                Some(
                    DownloadAction::Respond {
                        response: DownloadResponse::File {
                            content_type: String::from_str("application/octet-stream"),
                            content_disposition,
                            body: bytes,
                        },
                    },
                )
            },
            _ => None,
        }
    }
}

/// Whether `event` reports a failure of the storage.
pub open spec fn is_failure(event: DownloadEventView) -> bool {
    match event {
        DownloadEventView::MergedCreated { ok } => !ok,
        DownloadEventView::ChunkRead { data } => data is None,
        DownloadEventView::Appended { ok } => !ok,
        DownloadEventView::MergedRead { data } => data is None,
        _ => false,
    }
}

/// A failure of the storage ends a download at once, with a failure as the
/// answer.
pub proof fn lemma_failure_ends_download(session: DownloadView, event: DownloadEventView)
    requires
        is_failure(event),
        session.step(event) is Some,
    ensures
        session.step(event) == Some(session.failed()),
{
}

/// How a storage that does what it is asked answers `action`: the storage
/// afterwards and the event that reports the outcome. A chunk or merged file
/// that does not exist cannot be read. An answer to the request (`Respond`)
/// asks nothing of the storage.
pub open spec fn answer(storage: Storage, action: DownloadActionView) -> Option<
    (Storage, DownloadEventView),
> {
    match action {
        DownloadActionView::FindManifest { file_id } => Some(
            (storage, DownloadEventView::Found { manifest: storage.manifest_of(file_id) }),
        ),
        DownloadActionView::CreateMergedFile { path } => Some(
            (storage.create(path), DownloadEventView::MergedCreated { ok: true }),
        ),
        DownloadActionView::ReadChunk { path } => Some(
            (storage, DownloadEventView::ChunkRead { data: storage.read(path) }),
        ),
        DownloadActionView::AppendMerged { path, data } => Some(
            (storage.append(path, data), DownloadEventView::Appended { ok: true }),
        ),
        DownloadActionView::ReadMerged { path } => Some(
            (storage, DownloadEventView::MergedRead { data: storage.read(path) }),
        ),
        DownloadActionView::Respond { response } => None,
    }
}

/// Runs `session` against `storage` from `event` on, for at most `steps`
/// steps: the response and the storage it leaves behind, or `None` if the
/// session has not answered by then.
pub open spec fn serve(
    session: DownloadView,
    storage: Storage,
    event: DownloadEventView,
    steps: nat,
) -> Option<(DownloadResponseView, Storage)>
    decreases steps,
{
    if steps == 0 {
        None
    } else {
        match session.step(event) {
            None => None,
            Some((next, DownloadActionView::Respond { response })) => Some((response, storage)),
            Some((next, action)) => match answer(storage, action) {
                Some((after, outcome)) => serve(next, after, outcome, (steps - 1) as nat),
                None => None,
            },
        }
    }
}

/// The number of steps in which a download of `file_id` is answered.
pub open spec fn steps_to_answer(storage: Storage, file_id: Seq<char>) -> nat {
    match storage.manifest_of(file_id) {
        Some(manifest) => 2 * manifest.chunks.len() + 4,
        None => 2,
    }
}

/// A download of `file_id` against `storage`: the response and the storage
/// it leaves behind.
pub open spec fn download(storage: Storage, file_id: Seq<char>, uploads_path: Seq<char>) -> Option<
    (DownloadResponseView, Storage),
> {
    serve(
        DownloadView::initial(file_id, uploads_path),
        storage,
        DownloadEventView::Started,
        steps_to_answer(storage, file_id),
    )
}

/// A download of a file of which no manifest was persisted is answered as
/// not found, and the storage is left as it was.
pub proof fn lemma_unknown_file_is_not_found(
    storage: Storage,
    file_id: Seq<char>,
    uploads_path: Seq<char>,
)
    requires
        !storage.knows(file_id),
    ensures
        download(storage, file_id, uploads_path) == Some(
            (DownloadResponseView::NotFound { message: not_found_message() }, storage),
        ),
{
    reveal_with_fuel(serve, 3);
}

/// The chunks from `session.next` on are copied and the merged file is sent,
/// if the merged file holds the chunks before that one.
proof fn lemma_copy_rest(session: DownloadView, original: Storage, storage: Storage, steps: nat)
    requires
        session.phase == DownloadPhase::ReadingChunk,
        session.next < session.chunks.len(),
        original.has_all(session.chunks),
        !session.chunks.contains(session.merged_file()),
        storage == original.with_file(
            session.merged_file(),
            original.contents(session.chunks).take(session.next as int).flatten(),
        ),
        steps >= 2 * (session.chunks.len() - session.next) + 1,
    ensures
        serve(
            session,
            storage,
            DownloadEventView::ChunkRead { data: storage.read(session.chunks[session.next as int]) },
            steps,
        ) == Some(
            (
                file_response(session.file_name, original.contents(session.chunks).flatten()),
                original.with_file(
                    session.merged_file(),
                    original.contents(session.chunks).flatten(),
                ),
            ),
        ),
    decreases session.chunks.len() - session.next,
{
    let merged = session.merged_file();
    let index = session.next as int;
    let chunk = session.chunks[index];
    let contents = original.contents(session.chunks);
    // The chunk is no merged file, so it holds what it held at first.
    assert(session.chunks.contains(chunk));
    assert(storage.read(chunk) == Some(contents[index]));
    // It is appended: the merged file holds one chunk more.
    let appending = DownloadView { phase: DownloadPhase::Appending, ..session };
    let grown = storage.append(merged, contents[index]);
    assert(contents.take(index + 1) =~= contents.take(index).push(contents[index]));
    contents.take(index).lemma_flatten_push(contents[index]);
    assert(grown =~= original.with_file(merged, contents.take(index + 1).flatten()));
    let next = appending.copying_from((index + 1) as nat).0;
    assert(serve(session, storage, DownloadEventView::ChunkRead { data: Some(contents[index]) }, steps)
        == serve(appending, grown, DownloadEventView::Appended { ok: true }, (steps - 1) as nat));
    if index + 1 < session.chunks.len() {
        assert(serve(appending, grown, DownloadEventView::Appended { ok: true }, (steps - 1) as nat)
            == serve(
            next,
            grown,
            DownloadEventView::ChunkRead { data: grown.read(session.chunks[index + 1]) },
            (steps - 2) as nat,
        ));
        lemma_copy_rest(next, original, grown, (steps - 2) as nat);
    } else {
        assert(contents.take(index + 1) =~= contents);
        assert(serve(appending, grown, DownloadEventView::Appended { ok: true }, (steps - 1) as nat)
            == serve(
            next,
            grown,
            DownloadEventView::MergedRead { data: Some(contents.flatten()) },
            (steps - 2) as nat,
        ));
    }
}

/// A download of a file whose manifest was persisted and whose chunks all
/// exist is answered with what the chunks hold, read in the manifest's order
/// and concatenated, under the manifest's file name. The merged file, which
/// holds the same bytes, is left behind. (No chunk may lie where the merged
/// file goes.)
pub proof fn lemma_download_reassembles(
    storage: Storage,
    file_id: Seq<char>,
    uploads_path: Seq<char>,
)
    requires
        storage.knows(file_id),
        storage.has_all(storage.manifest_of(file_id)->0.chunks),
        !storage.manifest_of(file_id)->0.chunks.contains(merged_location(uploads_path, file_id)),
    ensures
        ({
            let manifest = storage.manifest_of(file_id)->0;
            let content = storage.read_back(manifest.chunks)->0;
            download(storage, file_id, uploads_path) == Some(
                (
                    file_response(manifest.file_name, content),
                    storage.with_file(merged_location(uploads_path, file_id), content),
                ),
            )
        }),
{
    let manifest = storage.manifest_of(file_id)->0;
    let merged = merged_location(uploads_path, file_id);
    let contents = storage.contents(manifest.chunks);
    let steps = steps_to_answer(storage, file_id);
    let idle = DownloadView::initial(file_id, uploads_path);
    let looking = DownloadView { phase: DownloadPhase::Looking, ..idle };
    let creating = DownloadView {
        file_name: manifest.file_name,
        chunks: manifest.chunks,
        next: 0,
        phase: DownloadPhase::CreatingMerged,
        ..idle
    };
    let created = storage.create(merged);
    let copying = creating.copying_from(0).0;
    assert(contents.take(0) =~= Seq::<Seq<u8>>::empty());
    assert(created =~= storage.with_file(merged, contents.take(0).flatten()));
    assert(download(storage, file_id, uploads_path) == serve(
        looking,
        storage,
        DownloadEventView::Found { manifest: Some(manifest) },
        (steps - 1) as nat,
    ));
    assert(serve(
        looking,
        storage,
        DownloadEventView::Found { manifest: Some(manifest) },
        (steps - 1) as nat,
    ) == serve(
        creating,
        created,
        DownloadEventView::MergedCreated { ok: true },
        (steps - 2) as nat,
    ));
    if manifest.chunks.len() == 0 {
        assert(contents =~= Seq::<Seq<u8>>::empty());
        assert(serve(
            creating,
            created,
            DownloadEventView::MergedCreated { ok: true },
            (steps - 2) as nat,
        ) == serve(
            copying,
            created,
            DownloadEventView::MergedRead { data: Some(contents.flatten()) },
            (steps - 3) as nat,
        ));
    } else {
        assert(serve(
            creating,
            created,
            DownloadEventView::MergedCreated { ok: true },
            (steps - 2) as nat,
        ) == serve(
            copying,
            created,
            DownloadEventView::ChunkRead { data: created.read(manifest.chunks[0]) },
            (steps - 3) as nat,
        ));
        lemma_copy_rest(copying, storage, created, (steps - 3) as nat);
    }
}

/// Whether a download is answered with a failure of the storage.
pub open spec fn fails(outcome: Option<(DownloadResponseView, Storage)>) -> bool {
    outcome matches Some((response, left)) && response == DownloadResponseView::StorageFailure
}

/// Copying stops with a failure at the first chunk that does not exist.
proof fn lemma_copy_stops(session: DownloadView, storage: Storage, missing: int, steps: nat)
    requires
        session.phase == DownloadPhase::ReadingChunk,
        session.next <= missing < session.chunks.len(),
        !storage.files.dom().contains(session.chunks[missing]),
        !session.chunks.contains(session.merged_file()),
        steps >= 2 * (session.chunks.len() - session.next) + 1,
    ensures
        fails(
            serve(
                session,
                storage,
                DownloadEventView::ChunkRead {
                    data: storage.read(session.chunks[session.next as int]),
                },
                steps,
            ),
        ),
    decreases session.chunks.len() - session.next,
{
    let index = session.next as int;
    let chunk = session.chunks[index];
    reveal_with_fuel(serve, 3);
    if storage.files.dom().contains(chunk) {
        let appending = DownloadView { phase: DownloadPhase::Appending, ..session };
        let grown = storage.append(session.merged_file(), storage.files[chunk]);
        let next = appending.copying_from((index + 1) as nat).0;
        assert(session.chunks.contains(session.chunks[missing]));
        assert(!grown.files.dom().contains(session.chunks[missing]));
        assert(serve(
            session,
            storage,
            DownloadEventView::ChunkRead { data: storage.read(chunk) },
            steps,
        ) == serve(
            next,
            grown,
            DownloadEventView::ChunkRead { data: grown.read(session.chunks[index + 1]) },
            (steps - 2) as nat,
        ));
        lemma_copy_stops(next, grown, missing, (steps - 2) as nat);
    }
}

/// A download of a file one of whose chunks does not exist is answered with
/// a failure: nothing of the file is sent.
pub proof fn lemma_missing_chunk_fails(
    storage: Storage,
    file_id: Seq<char>,
    uploads_path: Seq<char>,
)
    requires
        storage.knows(file_id),
        !storage.has_all(storage.manifest_of(file_id)->0.chunks),
        !storage.manifest_of(file_id)->0.chunks.contains(merged_location(uploads_path, file_id)),
    ensures
        fails(download(storage, file_id, uploads_path)),
{
    let manifest = storage.manifest_of(file_id)->0;
    let merged = merged_location(uploads_path, file_id);
    let missing = choose|i: int|
        0 <= i < manifest.chunks.len() && !storage.files.dom().contains(
            #[trigger] manifest.chunks[i],
        );
    let steps = steps_to_answer(storage, file_id);
    let idle = DownloadView::initial(file_id, uploads_path);
    let creating = DownloadView {
        file_name: manifest.file_name,
        chunks: manifest.chunks,
        next: 0,
        phase: DownloadPhase::CreatingMerged,
        ..idle
    };
    let created = storage.create(merged);
    let copying = creating.copying_from(0).0;
    reveal_with_fuel(serve, 4);
    assert(manifest.chunks.contains(manifest.chunks[missing]));
    assert(!created.files.dom().contains(manifest.chunks[missing]));
    assert(download(storage, file_id, uploads_path) == serve(
        copying,
        created,
        DownloadEventView::ChunkRead { data: created.read(manifest.chunks[0]) },
        (steps - 3) as nat,
    ));
    lemma_copy_stops(copying, created, missing, (steps - 3) as nat);
}

} // verus!
