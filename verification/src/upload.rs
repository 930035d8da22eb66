//! Receiving an upload.
//!
//! An upload is a stream of fields, each a stream of byte buffers. The
//! session decides what to do next from what happened last: it asks for the
//! next field or buffer, names the chunk file to create or append to, and
//! records a chunk handle for every buffer that was stored. The caller does
//! the reading and writing and reports how each went. Failures of single
//! fields, buffers and writes do not end the upload.

use vstd::prelude::*;
use vstd::string::*;
use crate::identifier::{is_canonical_id, random_file_id};
use crate::layout::{chunk_location, chunk_path, lemma_chunk_locations_distinct};
use crate::manifest::{FileMeta, FileMetaView};
use crate::storage::Storage;

verus! {

/// What an upload session is waiting for.
#[derive(Debug, Clone, Copy, PartialEq, Eq, Structural)]
pub enum UploadPhase {
    /// Nothing was asked for yet.
    Idle,
    /// The upload directory is being created.
    Preparing,
    /// The next field of the upload.
    AwaitingField,
    /// The chunk file of the current field is being created.
    OpeningChunk,
    /// The next buffer of the current field.
    AwaitingBuffer,
    /// A buffer is being written to the chunk file.
    Writing,
    /// The upload has been read to its end.
    Finished,
}

/// What happened since the session last asked for something.
#[derive(Debug, PartialEq, Eq)]
pub enum UploadEvent {
    /// The upload request arrived.
    Started,
    /// The upload directory exists.
    DirectoryReady,
    /// The transport could not deliver a field.
    FieldFailed,
    /// A field arrived, with the file name it carries, if any.
    Field { file_name: Option<String> },
    /// The upload has no more fields.
    PayloadEnd,
    /// The chunk file was created, empty (`ok`), or could not be.
    ChunkFileCreated { ok: bool },
    /// The transport could not deliver a buffer of the current field.
    BufferFailed,
    /// A buffer of the current field arrived.
    Buffer { data: Vec<u8> },
    /// The current field has no more buffers.
    FieldEnd,
    /// The buffer was appended to the chunk file in full (`ok`), or not.
    Written { ok: bool },
}

/// What the session asks its caller to do.
#[derive(Debug, PartialEq, Eq)]
pub enum UploadAction {
    /// Create the directory `path` unless it exists.
    CreateDirectory { path: String },
    /// Read the next field of the upload.
    NextField,
    /// Create the file `path`, empty, and keep it open for appending.
    CreateChunkFile { path: String },
    /// Read the next buffer of the current field.
    NextBuffer,
    /// Append `data` to the open chunk file `path`.
    AppendChunk { path: String, data: Vec<u8> },
    /// Nothing more: build the manifest and answer the request.
    Finish,
}

/// An event as a mathematical value.
pub enum UploadEventView {
    Started,
    DirectoryReady,
    FieldFailed,
    Field { file_name: Option<Seq<char>> },
    PayloadEnd,
    ChunkFileCreated { ok: bool },
    BufferFailed,
    Buffer { data: Seq<u8> },
    FieldEnd,
    Written { ok: bool },
}

/// An action as a mathematical value.
pub enum UploadActionView {
    CreateDirectory { path: Seq<char> },
    NextField,
    CreateChunkFile { path: Seq<char> },
    NextBuffer,
    AppendChunk { path: Seq<char>, data: Seq<u8> },
    Finish,
}

impl View for UploadEvent {
    type V = UploadEventView;

    open spec fn view(&self) -> UploadEventView {
        match self {
            UploadEvent::Started => UploadEventView::Started,
            UploadEvent::DirectoryReady => UploadEventView::DirectoryReady,
            UploadEvent::FieldFailed => UploadEventView::FieldFailed,
            UploadEvent::Field { file_name } => UploadEventView::Field {
                file_name: match file_name {
                    Some(name) => Some(name@),
                    None => None,
                },
            },
            UploadEvent::PayloadEnd => UploadEventView::PayloadEnd,
            UploadEvent::ChunkFileCreated { ok } => UploadEventView::ChunkFileCreated { ok: *ok },
            UploadEvent::BufferFailed => UploadEventView::BufferFailed,
            UploadEvent::Buffer { data } => UploadEventView::Buffer { data: data@ },
            UploadEvent::FieldEnd => UploadEventView::FieldEnd,
            UploadEvent::Written { ok } => UploadEventView::Written { ok: *ok },
        }
    }
}

impl View for UploadAction {
    type V = UploadActionView;

    open spec fn view(&self) -> UploadActionView {
        match self {
            UploadAction::CreateDirectory { path } => UploadActionView::CreateDirectory {
                path: path@,
            },
            UploadAction::NextField => UploadActionView::NextField,
            UploadAction::CreateChunkFile { path } => UploadActionView::CreateChunkFile {
                path: path@,
            },
            UploadAction::NextBuffer => UploadActionView::NextBuffer,
            UploadAction::AppendChunk { path, data } => UploadActionView::AppendChunk {
                path: path@,
                data: data@,
            },
            UploadAction::Finish => UploadActionView::Finish,
        }
    }
}

/// The name of a file whose upload carried none.
pub open spec fn default_file_name() -> Seq<char> {
    "file"@
}

/// The text that answers a finished upload of `file_id`.
pub open spec fn upload_message(file_id: Seq<char>) -> Seq<char> {
    "File uploaded successfully with id: "@ + file_id
}

/// An upload session as a mathematical value.
#[verifier::ext_equal]
pub struct UploadView {
    pub file_id: Seq<char>,
    pub uploads_path: Seq<char>,
    pub file_name: Seq<char>,
    pub chunks: Seq<Seq<char>>,
    pub phase: UploadPhase,
}

impl UploadView {
    /// The session of a request that has just arrived.
    pub open spec fn initial(file_id: Seq<char>, uploads_path: Seq<char>) -> UploadView {
        UploadView {
            file_id,
            uploads_path,
            file_name: default_file_name(),
            chunks: Seq::empty(),
            phase: UploadPhase::Idle,
        }
    }

    /// The one chunk file of this upload.
    pub open spec fn chunk_file(self) -> Seq<char> {
        chunk_location(self.uploads_path, self.file_id)
    }

    /// Every chunk handle recorded so far is the location of the upload's
    /// chunk file, and so embeds the file identifier.
    pub open spec fn well_formed(self) -> bool {
        forall|i: int| 0 <= i < self.chunks.len() ==> #[trigger] self.chunks[i] == self.chunk_file()
    }

    /// The session in another phase.
    pub open spec fn in_phase(self, phase: UploadPhase) -> UploadView {
        UploadView { phase, ..self }
    }

    /// The session after `event`, and what it then asks for; `None` if the
    /// session is not waiting for such an event.
    pub open spec fn step(self, event: UploadEventView) -> Option<(UploadView, UploadActionView)> {
        match (self.phase, event) {
            (UploadPhase::Idle, UploadEventView::Started) => Some(
                (
                    self.in_phase(UploadPhase::Preparing),
                    UploadActionView::CreateDirectory { path: self.uploads_path },
                ),
            ),
            (UploadPhase::Preparing, UploadEventView::DirectoryReady) => Some(
                (self.in_phase(UploadPhase::AwaitingField), UploadActionView::NextField),
            ),
            (UploadPhase::AwaitingField, UploadEventView::FieldFailed) => Some(
                (self, UploadActionView::NextField),
            ),
            (UploadPhase::AwaitingField, UploadEventView::Field { file_name }) => Some(
                (
                    UploadView {
                        file_name: match file_name {
                            Some(name) => name,
                            None => self.file_name,
                        },
                        phase: UploadPhase::OpeningChunk,
                        ..self
                    },
                    UploadActionView::CreateChunkFile { path: self.chunk_file() },
                ),
            ),
            (UploadPhase::AwaitingField, UploadEventView::PayloadEnd) => Some(
                (self.in_phase(UploadPhase::Finished), UploadActionView::Finish),
            ),
            (UploadPhase::OpeningChunk, UploadEventView::ChunkFileCreated { ok }) => Some(
                if ok {
                    (self.in_phase(UploadPhase::AwaitingBuffer), UploadActionView::NextBuffer)
                } else {
                    (self.in_phase(UploadPhase::AwaitingField), UploadActionView::NextField)
                },
            ),
            (UploadPhase::AwaitingBuffer, UploadEventView::BufferFailed) => Some(
                (self, UploadActionView::NextBuffer),
            ),
            (UploadPhase::AwaitingBuffer, UploadEventView::Buffer { data }) => Some(
                (
                    self.in_phase(UploadPhase::Writing),
                    UploadActionView::AppendChunk { path: self.chunk_file(), data },
                ),
            ),
            (UploadPhase::AwaitingBuffer, UploadEventView::FieldEnd) => Some(
                (self.in_phase(UploadPhase::AwaitingField), UploadActionView::NextField),
            ),
            (UploadPhase::Writing, UploadEventView::Written { ok }) => Some(
                (
                    UploadView {
                        chunks: if ok {
                            self.chunks.push(self.chunk_file())
                        } else {
                            self.chunks
                        },
                        phase: UploadPhase::AwaitingBuffer,
                        ..self
                    },
                    UploadActionView::NextBuffer,
                ),
            ),
            _ => None,
        }
    }

    /// The manifest of what was received so far.
    pub open spec fn manifest(self) -> FileMetaView {
        FileMetaView { file_id: self.file_id, file_name: self.file_name, chunks: self.chunks }
    }
}

/// The state of one upload.
pub struct UploadSession {
    file_id: String,
    uploads_path: String,
    file_name: String,
    chunks: Vec<String>,
    phase: UploadPhase,
}

impl View for UploadSession {
    type V = UploadView;

    closed spec fn view(&self) -> UploadView {
        UploadView {
            file_id: self.file_id@,
            uploads_path: self.uploads_path@,
            file_name: self.file_name@,
            chunks: self.chunks.deep_view(),
            phase: self.phase,
        }
    }
}

impl UploadSession {
    #[verifier::type_invariant]
    spec fn handles_embed_id(self) -> bool {
        self@.well_formed()
    }

    /// The session of a request that has just arrived, for the file
    /// `file_id` under the directory `uploads_path`.
    pub fn new(file_id: String, uploads_path: String) -> (session: UploadSession)
        ensures
            session@ == UploadView::initial(file_id@, uploads_path@),
    {
        let session = UploadSession {
            file_id,
            uploads_path,
            file_name: String::from_str("file"),
            chunks: Vec::new(),
            phase: UploadPhase::Idle,
        };
        assert(session@.chunks =~= Seq::empty());
        session
    }

    /// The identifier of the file being uploaded.
    pub fn file_id(&self) -> (id: &String)
        ensures
            id@ == self@.file_id,
    {
        &self.file_id
    }

    /// What the session is waiting for.
    pub fn phase(&self) -> (phase: UploadPhase)
        ensures
            phase == self@.phase,
    {
        self.phase
    }

    /// Takes in what happened and says what to do next. An event that the
    /// session is not waiting for changes nothing and gives `None`.
    pub fn step(&mut self, event: UploadEvent) -> (action: Option<UploadAction>)
        ensures
            match old(self)@.step(event@) {
                Some((next, expected)) => final(self)@ == next && action is Some
                    && action->0@ == expected,
                None => final(self)@ == old(self)@ && action is None,
            },
    {
        proof {
            use_type_invariant(&*self);
        }
        match (self.phase, event) {
            (UploadPhase::Idle, UploadEvent::Started) => {
                self.phase = UploadPhase::Preparing;
                Some(UploadAction::CreateDirectory { path: self.uploads_path.clone() })
            },
            (UploadPhase::Preparing, UploadEvent::DirectoryReady) => {
                self.phase = UploadPhase::AwaitingField;
                Some(UploadAction::NextField)
            },
            (UploadPhase::AwaitingField, UploadEvent::FieldFailed) => Some(UploadAction::NextField),
            (UploadPhase::AwaitingField, UploadEvent::Field { file_name }) => {
                match file_name {
                    Some(name) => {
                        self.file_name = name;
                    },
                    None => {},
                }
                self.phase = UploadPhase::OpeningChunk;
                Some(
                    UploadAction::CreateChunkFile {
                        path: chunk_path(self.uploads_path.as_str(), self.file_id.as_str()),
                    },
                )
            },
            (UploadPhase::AwaitingField, UploadEvent::PayloadEnd) => {
                self.phase = UploadPhase::Finished;
                Some(UploadAction::Finish)
            },
            (UploadPhase::OpeningChunk, UploadEvent::ChunkFileCreated { ok }) => {
                if ok {
                    self.phase = UploadPhase::AwaitingBuffer;
                    Some(UploadAction::NextBuffer)
                } else {
                    self.phase = UploadPhase::AwaitingField;
                    Some(UploadAction::NextField)
                }
            },
            (UploadPhase::AwaitingBuffer, UploadEvent::BufferFailed) => Some(
                UploadAction::NextBuffer,
            ),
            (UploadPhase::AwaitingBuffer, UploadEvent::Buffer { data }) => {
                self.phase = UploadPhase::Writing;
                Some(
                    UploadAction::AppendChunk {
                        path: chunk_path(self.uploads_path.as_str(), self.file_id.as_str()),
                        data,
                    },
                )
            },
            (UploadPhase::AwaitingBuffer, UploadEvent::FieldEnd) => {
                self.phase = UploadPhase::AwaitingField;
                Some(UploadAction::NextField)
            },
            (UploadPhase::Writing, UploadEvent::Written { ok }) => {
                if ok {
                    let handle = chunk_path(self.uploads_path.as_str(), self.file_id.as_str());
                    let ghost before = self.chunks.deep_view();
                    let mut chunks: Vec<String> = Vec::new();
                    core::mem::swap(&mut self.chunks, &mut chunks);
                    chunks.push(handle);
                    assert(chunks.deep_view() =~= before.push(handle@));
                    self.chunks = chunks;
                }
                self.phase = UploadPhase::AwaitingBuffer;
                Some(UploadAction::NextBuffer)
            },
            _ => None,
        }
    }

    /// Builds the manifest of what was received: the identifier, the last
    /// file name that a field carried (or the default), and the chunk
    /// handles in the order in which their buffers arrived. Every handle is
    /// the location of the upload's chunk file.
    pub fn into_manifest(self) -> (manifest: FileMeta)
        ensures
            manifest@ == self@.manifest(),
            forall|i: int|
                0 <= i < manifest@.chunks.len() ==> #[trigger] manifest@.chunks[i]
                    == chunk_location(self@.uploads_path, manifest@.file_id),
    {
        proof {
            use_type_invariant(&self);
            assert(self@.well_formed());
        }
        FileMeta { file_id: self.file_id, file_name: self.file_name, chunks: self.chunks }
    }
}

/// The text that answers a finished upload of `file_id`. It reports success
/// and names the identifier, whether or not the manifest could be
/// `persisted`.
pub fn upload_response(file_id: &str, persisted: bool) -> (body: String)
    ensures
        body@ == upload_message(file_id@),
{
    let mut body = String::from_str("File uploaded successfully with id: ");
    body.append(file_id);
    body
}

/// Opens the session of a request that has just arrived, under a fresh random
/// identifier in canonical form.
pub fn start_upload(uploads_path: &str) -> (session: UploadSession)
    ensures
        is_canonical_id(session@.file_id),
        session@ == UploadView::initial(session@.file_id, uploads_path@),
{
    UploadSession::new(random_file_id(), String::from_str(uploads_path))
}

/// The file that `action` creates or writes to, if it does.
pub open spec fn written_file(action: UploadActionView) -> Option<Seq<char>> {
    match action {
        UploadActionView::CreateChunkFile { path } => Some(path),
        UploadActionView::AppendChunk { path, data } => Some(path),
        _ => None,
    }
}

/// A step changes neither the identifier nor the directory of a session,
/// writes to no file but the session's chunk file, and keeps every handle a
/// handle of that file.
pub proof fn lemma_step_stays_with_its_file(session: UploadView, event: UploadEventView)
    requires
        session.step(event) is Some,
    ensures
        ({
            let (next, action) = session.step(event)->0;
            &&& next.file_id == session.file_id
            &&& next.uploads_path == session.uploads_path
            &&& written_file(action) is Some ==> written_file(action) == Some(
                session.chunk_file(),
            )
            &&& session.well_formed() ==> next.well_formed()
        }),
{
}

/// Whether `event` reports a failure of the transport or of the storage.
pub open spec fn is_failure(event: UploadEventView) -> bool {
    match event {
        UploadEventView::FieldFailed => true,
        UploadEventView::ChunkFileCreated { ok } => !ok,
        UploadEventView::BufferFailed => true,
        UploadEventView::Written { ok } => !ok,
        _ => false,
    }
}

/// A failure does not end an upload: the session passes over the field or
/// the buffer that failed, records nothing for it, and asks for the next
/// one.
pub proof fn lemma_failure_is_passed_over(session: UploadView, event: UploadEventView)
    requires
        is_failure(event),
        session.step(event) is Some,
    ensures
        ({
            let (next, action) = session.step(event)->0;
            &&& next.chunks == session.chunks
            &&& next.file_name == session.file_name
            &&& (next.phase == UploadPhase::AwaitingField && action == UploadActionView::NextField)
                || (next.phase == UploadPhase::AwaitingBuffer && action
                == UploadActionView::NextBuffer)
        }),
{
}

/// The file that `session` creates or writes to when `event` happens, if
/// it then does.
pub open spec fn write_of(session: UploadView, event: UploadEventView) -> Option<Seq<char>> {
    match session.step(event) {
        Some((next, action)) => written_file(action),
        None => None,
    }
}

/// Two uploads into the same directory under distinct identifiers never
/// write to the same file, whatever state each is in and whatever happens
/// to it.
pub proof fn lemma_uploads_write_apart(
    first: UploadView,
    second: UploadView,
    first_event: UploadEventView,
    second_event: UploadEventView,
)
    requires
        first.uploads_path == second.uploads_path,
        first.file_id != second.file_id,
        write_of(first, first_event) is Some,
    ensures
        write_of(first, first_event) != write_of(second, second_event),
{
    lemma_step_stays_with_its_file(first, first_event);
    if second.step(second_event) is Some {
        lemma_step_stays_with_its_file(second, second_event);
    }
    lemma_chunk_locations_distinct(first.uploads_path, first.file_id, second.file_id);
}

/// One field of an upload: the file name it carries, if any, and its
/// buffers in the order of their arrival.
pub struct FieldView {
    pub file_name: Option<Seq<char>>,
    pub buffers: Seq<Seq<u8>>,
}

/// What the transport has yet to deliver: the rest of the current field's
/// buffers, and the fields after it.
#[verifier::ext_equal]
pub struct Inbound {
    pub buffers: Seq<Seq<u8>>,
    pub fields: Seq<FieldView>,
}

/// How a transport and a storage that do what they are asked answer
/// `action`: the storage and the transport afterwards, and the event that
/// reports the outcome. `Finish` asks nothing of them.
pub open spec fn answer(storage: Storage, inbound: Inbound, action: UploadActionView) -> Option<
    (Storage, Inbound, UploadEventView),
> {
    match action {
        UploadActionView::CreateDirectory { path } => Some(
            (storage, inbound, UploadEventView::DirectoryReady),
        ),
        UploadActionView::NextField => if inbound.fields.len() == 0 {
            Some((storage, inbound, UploadEventView::PayloadEnd))
        } else {
            Some(
                (
                    storage,
                    Inbound {
                        buffers: inbound.fields.first().buffers,
                        fields: inbound.fields.drop_first(),
                    },
                    UploadEventView::Field { file_name: inbound.fields.first().file_name },
                ),
            )
        },
        UploadActionView::CreateChunkFile { path } => Some(
            (storage.create(path), inbound, UploadEventView::ChunkFileCreated { ok: true }),
        ),
        UploadActionView::NextBuffer => if inbound.buffers.len() == 0 {
            Some((storage, inbound, UploadEventView::FieldEnd))
        } else {
            Some(
                (
                    storage,
                    Inbound { buffers: inbound.buffers.drop_first(), ..inbound },
                    UploadEventView::Buffer { data: inbound.buffers.first() },
                ),
            )
        },
        UploadActionView::AppendChunk { path, data } => Some(
            (storage.append(path, data), inbound, UploadEventView::Written { ok: true }),
        ),
        UploadActionView::Finish => None,
    }
}

/// Runs `session` against `storage` and `inbound` from `event` on, for at
/// most `steps` steps: the session and the storage when the upload has been
/// read to its end, or `None` if it has not been by then.
pub open spec fn receive(
    session: UploadView,
    storage: Storage,
    inbound: Inbound,
    event: UploadEventView,
    steps: nat,
) -> Option<(UploadView, Storage)>
    decreases steps,
{
    if steps == 0 {
        None
    } else {
        match session.step(event) {
            None => None,
            Some((next, UploadActionView::Finish)) => Some((next, storage)),
            Some((next, action)) => match answer(storage, inbound, action) {
                Some((after, rest, outcome)) => receive(next, after, rest, outcome, (steps - 1) as nat),
                None => None,
            },
        }
    }
}

/// The number of steps that `fields` take: three for each field, two for
/// each buffer.
pub open spec fn steps_for(fields: Seq<FieldView>) -> nat
    decreases fields.len(),
{
    if fields.len() == 0 {
        0
    } else {
        3 + 2 * fields.first().buffers.len() + steps_for(fields.drop_first())
    }
}

/// An upload of `fields` under the identifier `file_id`: the manifest that
/// is built, and the storage once the chunks are written and the manifest is
/// persisted.
pub open spec fn upload(
    storage: Storage,
    fields: Seq<FieldView>,
    file_id: Seq<char>,
    uploads_path: Seq<char>,
) -> Option<(FileMetaView, Storage)> {
    match receive(
        UploadView::initial(file_id, uploads_path),
        storage,
        Inbound { buffers: Seq::empty(), fields },
        UploadEventView::Started,
        steps_for(fields) + 3,
    ) {
        Some((session, stored)) => Some((session.manifest(), stored.persist(session.manifest()))),
        None => None,
    }
}

/// The file name after `fields`, if it was `current` before them: the last
/// name that a field carries.
pub open spec fn name_after(fields: Seq<FieldView>, current: Seq<char>) -> Seq<char>
    decreases fields.len(),
{
    if fields.len() == 0 {
        current
    } else {
        name_after(
            fields.drop_first(),
            match fields.first().file_name {
                Some(name) => name,
                None => current,
            },
        )
    }
}

/// The number of buffers in `fields`.
pub open spec fn buffer_count(fields: Seq<FieldView>) -> nat
    decreases fields.len(),
{
    if fields.len() == 0 {
        0
    } else {
        fields.first().buffers.len() + buffer_count(fields.drop_first())
    }
}

/// The storage after `fields` were written to the chunk file `path`: each
/// field starts the file anew, so it holds the buffers of the last one.
pub open spec fn stored_after(storage: Storage, path: Seq<char>, fields: Seq<FieldView>) -> Storage {
    if fields.len() == 0 {
        storage
    } else {
        storage.with_file(path, fields.last().buffers.flatten())
    }
}

/// `count` handles of the chunk file `path`.
pub open spec fn handles(path: Seq<char>, count: nat) -> Seq<Seq<char>> {
    Seq::new(count, |i: int| path)
}

/// Goes on with `session` once `action` has been answered.
spec fn resume(
    session: UploadView,
    storage: Storage,
    inbound: Inbound,
    action: UploadActionView,
    steps: nat,
) -> Option<(UploadView, Storage)> {
    match answer(storage, inbound, action) {
        Some((after, rest, outcome)) => receive(session, after, rest, outcome, steps),
        None => None,
    }
}

/// Receiving the rest of a field appends its buffers to the chunk file and
/// records one handle for each.
proof fn lemma_receive_buffers(
    session: UploadView,
    storage: Storage,
    inbound: Inbound,
    steps: nat,
)
    requires
        session.phase == UploadPhase::AwaitingBuffer,
        storage.files.dom().contains(session.chunk_file()),
        steps >= 2 * inbound.buffers.len() + 1,
    ensures
        resume(session, storage, inbound, UploadActionView::NextBuffer, steps) == resume(
            UploadView {
                chunks: session.chunks + handles(session.chunk_file(), inbound.buffers.len()),
                phase: UploadPhase::AwaitingField,
                ..session
            },
            storage.with_file(
                session.chunk_file(),
                storage.files[session.chunk_file()] + inbound.buffers.flatten(),
            ),
            Inbound { buffers: Seq::empty(), fields: inbound.fields },
            UploadActionView::NextField,
            (steps - 2 * inbound.buffers.len() - 1) as nat,
        ),
    decreases inbound.buffers.len(),
{
    let path = session.chunk_file();
    let held = storage.files[path];
    let count = inbound.buffers.len();
    reveal_with_fuel(receive, 3);
    if count == 0 {
        // The field ends: nothing is written, nothing recorded.
        assert(session.chunks + handles(path, 0) =~= session.chunks);
        assert(held + inbound.buffers.flatten() =~= held);
        assert(storage.with_file(path, held) =~= storage);
        assert(Inbound { buffers: Seq::empty(), fields: inbound.fields } =~= inbound);
    } else {
        // The first buffer is written and recorded; the others follow.
        let data = inbound.buffers.first();
        let rest = Inbound { buffers: inbound.buffers.drop_first(), ..inbound };
        let written = UploadView {
            chunks: session.chunks.push(path),
            phase: UploadPhase::AwaitingBuffer,
            ..session
        };
        let grown = storage.append(path, data);
        assert(grown =~= storage.with_file(path, held + data));
        assert(resume(session, storage, inbound, UploadActionView::NextBuffer, steps) == resume(
            written,
            grown,
            rest,
            UploadActionView::NextBuffer,
            (steps - 2) as nat,
        ));
        lemma_receive_buffers(written, grown, rest, (steps - 2) as nat);
        assert(written.chunks + handles(path, rest.buffers.len()) =~= session.chunks + handles(
            path,
            count,
        ));
        assert((held + data) + rest.buffers.flatten() =~= held + inbound.buffers.flatten());
        assert(grown.with_file(path, grown.files[path] + rest.buffers.flatten())
            =~= storage.with_file(path, held + inbound.buffers.flatten()));
    }
}

/// Receiving fields up to the end of the upload.
proof fn lemma_receive_fields(
    session: UploadView,
    storage: Storage,
    fields: Seq<FieldView>,
    steps: nat,
)
    requires
        session.phase == UploadPhase::AwaitingField,
        steps >= steps_for(fields) + 1,
    ensures
        resume(
            session,
            storage,
            Inbound { buffers: Seq::empty(), fields },
            UploadActionView::NextField,
            steps,
        ) == Some(
            (
                UploadView {
                    file_name: name_after(fields, session.file_name),
                    chunks: session.chunks + handles(session.chunk_file(), buffer_count(fields)),
                    phase: UploadPhase::Finished,
                    ..session
                },
                stored_after(storage, session.chunk_file(), fields),
            ),
        ),
    decreases fields.len(),
{
    let path = session.chunk_file();
    reveal_with_fuel(receive, 3);
    if fields.len() == 0 {
        // The upload ends.
        assert(session.chunks + handles(path, 0) =~= session.chunks);
    } else {
        // The first field names the file and starts the chunk file anew;
        // its buffers are received, and then the fields after it.
        let field = fields.first();
        let rest = fields.drop_first();
        let count = field.buffers.len();
        let opened = UploadView {
            file_name: match field.file_name {
                Some(name) => name,
                None => session.file_name,
            },
            phase: UploadPhase::AwaitingBuffer,
            ..session
        };
        let created = storage.create(path);
        let inbound = Inbound { buffers: field.buffers, fields: rest };
        assert(resume(
            session,
            storage,
            Inbound { buffers: Seq::empty(), fields },
            UploadActionView::NextField,
            steps,
        ) == resume(opened, created, inbound, UploadActionView::NextBuffer, (steps - 2) as nat));
        lemma_receive_buffers(opened, created, inbound, (steps - 2) as nat);
        let closed = UploadView {
            chunks: session.chunks + handles(path, count),
            phase: UploadPhase::AwaitingField,
            ..opened
        };
        let written = created.with_file(path, created.files[path] + field.buffers.flatten());
        assert(written =~= storage.with_file(path, field.buffers.flatten()));
        lemma_receive_fields(closed, written, rest, (steps - 2 * count - 3) as nat);
        assert(closed.chunks + handles(path, buffer_count(rest)) =~= session.chunks + handles(
            path,
            buffer_count(fields),
        ));
        assert(stored_after(written, path, rest) =~= stored_after(storage, path, fields)) by {
            if rest.len() > 0 {
                assert(fields.last() == rest.last());
            }
        }
    }
}

/// What an upload comes to when the transport and the storage do what they
/// are asked. The manifest carries the identifier, the last file name that
/// a field carried (the default if none did), and one handle of the chunk
/// file for each buffer. The chunk file holds the buffers of the last field,
/// concatenated in the order of their arrival.
pub proof fn lemma_upload_outcome(
    storage: Storage,
    fields: Seq<FieldView>,
    file_id: Seq<char>,
    uploads_path: Seq<char>,
)
    ensures
        ({
            let path = chunk_location(uploads_path, file_id);
            let manifest = FileMetaView {
                file_id,
                file_name: name_after(fields, default_file_name()),
                chunks: handles(path, buffer_count(fields)),
            };
            upload(storage, fields, file_id, uploads_path) == Some(
                (manifest, stored_after(storage, path, fields).persist(manifest)),
            )
        }),
{
    let idle = UploadView::initial(file_id, uploads_path);
    let waiting = idle.in_phase(UploadPhase::AwaitingField);
    let path = chunk_location(uploads_path, file_id);
    let inbound = Inbound { buffers: Seq::empty(), fields };
    reveal_with_fuel(receive, 3);
    // Two steps lead to the first field.
    assert(receive(idle, storage, inbound, UploadEventView::Started, steps_for(fields) + 3)
        == resume(waiting, storage, inbound, UploadActionView::NextField, steps_for(fields) + 1));
    lemma_receive_fields(waiting, storage, fields, steps_for(fields) + 1);
    assert(waiting.chunks + handles(path, buffer_count(fields)) =~= handles(
        path,
        buffer_count(fields),
    ));
}

} // verus!
