use chunk_store::manifest::FileMeta;
use chunk_store::upload::{
    upload_response, UploadAction, UploadEvent, UploadPhase, UploadSession,
};

fn fresh_session() -> UploadSession {
    UploadSession::new("id-1".to_string(), "./uploads".to_string())
}

fn session_awaiting_field() -> UploadSession {
    let mut session = fresh_session();
    session.step(UploadEvent::Started);
    session.step(UploadEvent::DirectoryReady);
    session
}

fn session_awaiting_buffer() -> UploadSession {
    let mut session = session_awaiting_field();
    session.step(UploadEvent::Field { file_name: None });
    session.step(UploadEvent::ChunkFileCreated { ok: true });
    session
}

fn chunk_file() -> String {
    "./uploads/id-1_chunk".to_string()
}

#[test]
fn upload_starts_by_creating_the_directory() {
    let mut session = fresh_session();
    assert_eq!(session.phase(), UploadPhase::Idle);
    assert_eq!(session.file_id(), "id-1");
    assert_eq!(
        session.step(UploadEvent::Started),
        Some(UploadAction::CreateDirectory { path: "./uploads".to_string() })
    );
    assert_eq!(session.phase(), UploadPhase::Preparing);
    assert_eq!(session.step(UploadEvent::DirectoryReady), Some(UploadAction::NextField));
    assert_eq!(session.phase(), UploadPhase::AwaitingField);
}

#[test]
fn upload_of_nothing_has_default_name_and_no_chunks() {
    let mut session = session_awaiting_field();
    assert_eq!(session.step(UploadEvent::PayloadEnd), Some(UploadAction::Finish));
    assert_eq!(session.phase(), UploadPhase::Finished);
    assert_eq!(
        session.into_manifest(),
        FileMeta { file_id: "id-1".to_string(), file_name: "file".to_string(), chunks: vec![] }
    );
}

#[test]
fn field_names_the_chunk_file_after_the_identifier() {
    let mut session = session_awaiting_field();
    assert_eq!(
        session.step(UploadEvent::Field { file_name: Some("a.txt".to_string()) }),
        Some(UploadAction::CreateChunkFile { path: chunk_file() })
    );
    assert_eq!(session.phase(), UploadPhase::OpeningChunk);
    assert_eq!(session.step(UploadEvent::ChunkFileCreated { ok: true }), Some(UploadAction::NextBuffer));
    assert_eq!(session.phase(), UploadPhase::AwaitingBuffer);
}

#[test]
fn buffer_is_appended_and_recorded_once_written() {
    let mut session = session_awaiting_buffer();
    assert_eq!(
        session.step(UploadEvent::Buffer { data: vec![0x41, 0x42, 0x43] }),
        Some(UploadAction::AppendChunk { path: chunk_file(), data: vec![0x41, 0x42, 0x43] })
    );
    assert_eq!(session.phase(), UploadPhase::Writing);
    assert_eq!(session.step(UploadEvent::Written { ok: true }), Some(UploadAction::NextBuffer));
    assert_eq!(session.phase(), UploadPhase::AwaitingBuffer);
    assert_eq!(session.step(UploadEvent::FieldEnd), Some(UploadAction::NextField));
    assert_eq!(session.step(UploadEvent::PayloadEnd), Some(UploadAction::Finish));
    assert_eq!(session.into_manifest().chunks, vec![chunk_file()]);
}

#[test]
fn every_written_buffer_adds_a_handle_of_the_same_file() {
    let mut session = session_awaiting_buffer();
    for data in [vec![1u8, 2], vec![3, 4], vec![]] {
        session.step(UploadEvent::Buffer { data });
        session.step(UploadEvent::Written { ok: true });
    }
    session.step(UploadEvent::FieldEnd);
    session.step(UploadEvent::PayloadEnd);
    assert_eq!(session.into_manifest().chunks, vec![chunk_file(), chunk_file(), chunk_file()]);
}

#[test]
fn failed_field_is_skipped() {
    let mut session = session_awaiting_field();
    assert_eq!(session.step(UploadEvent::FieldFailed), Some(UploadAction::NextField));
    assert_eq!(session.phase(), UploadPhase::AwaitingField);
    assert_eq!(
        session.step(UploadEvent::Field { file_name: None }),
        Some(UploadAction::CreateChunkFile { path: chunk_file() })
    );
}

#[test]
fn field_whose_chunk_file_cannot_be_created_is_dropped() {
    let mut session = session_awaiting_field();
    session.step(UploadEvent::Field { file_name: Some("kept.txt".to_string()) });
    assert_eq!(session.step(UploadEvent::ChunkFileCreated { ok: false }), Some(UploadAction::NextField));
    assert_eq!(session.phase(), UploadPhase::AwaitingField);
    assert_eq!(session.step(UploadEvent::PayloadEnd), Some(UploadAction::Finish));
    let manifest = session.into_manifest();
    assert_eq!(manifest.file_name, "kept.txt");
    assert_eq!(manifest.chunks, Vec::<String>::new());
}

#[test]
fn failed_buffer_is_skipped() {
    let mut session = session_awaiting_buffer();
    assert_eq!(session.step(UploadEvent::BufferFailed), Some(UploadAction::NextBuffer));
    assert_eq!(session.phase(), UploadPhase::AwaitingBuffer);
    session.step(UploadEvent::Buffer { data: vec![5] });
    session.step(UploadEvent::Written { ok: true });
    session.step(UploadEvent::FieldEnd);
    session.step(UploadEvent::PayloadEnd);
    assert_eq!(session.into_manifest().chunks, vec![chunk_file()]);
}

#[test]
fn failed_write_records_no_handle_and_goes_on() {
    let mut session = session_awaiting_buffer();
    session.step(UploadEvent::Buffer { data: vec![1] });
    assert_eq!(session.step(UploadEvent::Written { ok: false }), Some(UploadAction::NextBuffer));
    assert_eq!(session.phase(), UploadPhase::AwaitingBuffer);
    session.step(UploadEvent::Buffer { data: vec![2] });
    assert_eq!(session.step(UploadEvent::Written { ok: true }), Some(UploadAction::NextBuffer));
    session.step(UploadEvent::FieldEnd);
    session.step(UploadEvent::PayloadEnd);
    assert_eq!(session.into_manifest().chunks, vec![chunk_file()]);
}

#[test]
fn last_file_name_wins() {
    let mut session = session_awaiting_field();
    for name in [Some("first.txt"), None, Some("last.txt"), None] {
        session.step(UploadEvent::Field { file_name: name.map(|n| n.to_string()) });
        session.step(UploadEvent::ChunkFileCreated { ok: true });
        session.step(UploadEvent::FieldEnd);
    }
    session.step(UploadEvent::PayloadEnd);
    assert_eq!(session.into_manifest().file_name, "last.txt");
}

#[test]
fn empty_file_name_is_kept() {
    let mut session = session_awaiting_field();
    session.step(UploadEvent::Field { file_name: Some(String::new()) });
    session.step(UploadEvent::ChunkFileCreated { ok: true });
    session.step(UploadEvent::FieldEnd);
    session.step(UploadEvent::PayloadEnd);
    assert_eq!(session.into_manifest().file_name, "");
}

#[test]
fn unexpected_event_changes_nothing() {
    let mut session = fresh_session();
    assert_eq!(session.step(UploadEvent::DirectoryReady), None);
    assert_eq!(session.step(UploadEvent::Buffer { data: vec![1] }), None);
    assert_eq!(session.phase(), UploadPhase::Idle);
    let mut session = session_awaiting_field();
    assert_eq!(session.step(UploadEvent::Written { ok: true }), None);
    assert_eq!(session.step(UploadEvent::FieldEnd), None);
    assert_eq!(session.step(UploadEvent::Started), None);
    assert_eq!(session.phase(), UploadPhase::AwaitingField);
    let mut session = session_awaiting_buffer();
    assert_eq!(session.step(UploadEvent::PayloadEnd), None);
    assert_eq!(session.step(UploadEvent::Field { file_name: Some("x".to_string()) }), None);
    assert_eq!(session.phase(), UploadPhase::AwaitingBuffer);
    session.step(UploadEvent::FieldEnd);
    session.step(UploadEvent::PayloadEnd);
    assert_eq!(session.step(UploadEvent::PayloadEnd), None);
    assert_eq!(session.phase(), UploadPhase::Finished);
    let manifest = session.into_manifest();
    assert_eq!(manifest.file_name, "file");
    assert_eq!(manifest.chunks, Vec::<String>::new());
}

#[test]
fn manifest_of_an_interrupted_upload_holds_what_was_written() {
    let mut session = session_awaiting_buffer();
    session.step(UploadEvent::Buffer { data: vec![1, 2] });
    session.step(UploadEvent::Written { ok: true });
    session.step(UploadEvent::Buffer { data: vec![3, 4] });
    assert_eq!(session.phase(), UploadPhase::Writing);
    assert_eq!(session.into_manifest().chunks, vec![chunk_file()]);
}

#[test]
fn upload_response_names_the_identifier() {
    assert_eq!(upload_response("id-1", true), "File uploaded successfully with id: id-1");
    assert_eq!(upload_response("id-1", false), "File uploaded successfully with id: id-1");
    assert_eq!(upload_response("", true), "File uploaded successfully with id: ");
}
