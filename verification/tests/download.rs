use chunk_store::download::{DownloadAction, DownloadEvent, DownloadPhase, DownloadResponse, DownloadSession};
use chunk_store::manifest::FileMeta;

fn download_of(id: &str) -> DownloadSession {
    DownloadSession::new(id.to_string(), "./uploads".to_string())
}

fn manifest_with_chunks(chunks: &[&str]) -> FileMeta {
    FileMeta {
        file_id: "id-1".to_string(),
        file_name: "a.txt".to_string(),
        chunks: chunks.iter().map(|c| c.to_string()).collect(),
    }
}

fn download_copying(chunks: &[&str]) -> (DownloadSession, Option<DownloadAction>) {
    let mut session = download_of("id-1");
    session.step(DownloadEvent::Started);
    session.step(DownloadEvent::Found { manifest: Some(manifest_with_chunks(chunks)) });
    let action = session.step(DownloadEvent::MergedCreated { ok: true });
    (session, action)
}

fn storage_failure() -> Option<DownloadAction> {
    Some(DownloadAction::Respond { response: DownloadResponse::StorageFailure })
}

fn merged_file() -> String {
    "./uploads/id-1_merged".to_string()
}

#[test]
fn download_starts_by_looking_the_manifest_up() {
    let mut session = download_of("does-not-exist");
    assert_eq!(session.phase(), DownloadPhase::Idle);
    assert_eq!(
        session.step(DownloadEvent::Started),
        Some(DownloadAction::FindManifest { file_id: "does-not-exist".to_string() })
    );
    assert_eq!(session.phase(), DownloadPhase::Looking);
}

#[test]
fn unknown_file_is_not_found_and_no_file_is_touched() {
    let mut session = download_of("does-not-exist");
    session.step(DownloadEvent::Started);
    assert_eq!(
        session.step(DownloadEvent::Found { manifest: None }),
        Some(DownloadAction::Respond {
            response: DownloadResponse::NotFound { message: "File not found".to_string() }
        })
    );
    assert_eq!(session.phase(), DownloadPhase::Done);
    assert_eq!(session.step(DownloadEvent::MergedCreated { ok: true }), None);
}

#[test]
fn found_file_gets_a_merged_file_named_after_the_request() {
    let mut session = download_of("id-1");
    session.step(DownloadEvent::Started);
    assert_eq!(
        session.step(DownloadEvent::Found { manifest: Some(manifest_with_chunks(&["c0"])) }),
        Some(DownloadAction::CreateMergedFile { path: merged_file() })
    );
    assert_eq!(session.phase(), DownloadPhase::CreatingMerged);
}

#[test]
fn chunks_are_copied_in_manifest_order() {
    let (mut session, action) = download_copying(&["c0", "c1", "c0"]);
    assert_eq!(action, Some(DownloadAction::ReadChunk { path: "c0".to_string() }));
    assert_eq!(session.phase(), DownloadPhase::ReadingChunk);
    assert_eq!(
        session.step(DownloadEvent::ChunkRead { data: Some(vec![1, 2]) }),
        Some(DownloadAction::AppendMerged { path: merged_file(), data: vec![1, 2] })
    );
    assert_eq!(session.phase(), DownloadPhase::Appending);
    assert_eq!(
        session.step(DownloadEvent::Appended { ok: true }),
        Some(DownloadAction::ReadChunk { path: "c1".to_string() })
    );
    assert_eq!(
        session.step(DownloadEvent::ChunkRead { data: Some(vec![]) }),
        Some(DownloadAction::AppendMerged { path: merged_file(), data: vec![] })
    );
    assert_eq!(
        session.step(DownloadEvent::Appended { ok: true }),
        Some(DownloadAction::ReadChunk { path: "c0".to_string() })
    );
    session.step(DownloadEvent::ChunkRead { data: Some(vec![1, 2]) });
    assert_eq!(
        session.step(DownloadEvent::Appended { ok: true }),
        Some(DownloadAction::ReadMerged { path: merged_file() })
    );
    assert_eq!(session.phase(), DownloadPhase::ReadingMerged);
    assert_eq!(
        session.step(DownloadEvent::MergedRead { data: Some(vec![1, 2, 1, 2]) }),
        Some(DownloadAction::Respond {
            response: DownloadResponse::File {
                content_type: "application/octet-stream".to_string(),
                content_disposition: "attachment; filename=\"a.txt\"".to_string(),
                body: vec![1, 2, 1, 2],
            }
        })
    );
    assert_eq!(session.phase(), DownloadPhase::Done);
}

#[test]
fn file_without_chunks_is_sent_empty() {
    let (mut session, action) = download_copying(&[]);
    assert_eq!(action, Some(DownloadAction::ReadMerged { path: merged_file() }));
    assert_eq!(
        session.step(DownloadEvent::MergedRead { data: Some(vec![]) }),
        Some(DownloadAction::Respond {
            response: DownloadResponse::File {
                content_type: "application/octet-stream".to_string(),
                content_disposition: "attachment; filename=\"a.txt\"".to_string(),
                body: vec![],
            }
        })
    );
}

#[test]
fn merged_file_that_cannot_be_created_fails_the_download() {
    let mut session = download_of("id-1");
    session.step(DownloadEvent::Started);
    session.step(DownloadEvent::Found { manifest: Some(manifest_with_chunks(&["c0"])) });
    assert_eq!(session.step(DownloadEvent::MergedCreated { ok: false }), storage_failure());
    assert_eq!(session.phase(), DownloadPhase::Done);
}

#[test]
fn chunk_that_cannot_be_read_fails_the_download() {
    let (mut session, _) = download_copying(&["c0", "c1"]);
    session.step(DownloadEvent::ChunkRead { data: Some(vec![1]) });
    session.step(DownloadEvent::Appended { ok: true });
    assert_eq!(session.step(DownloadEvent::ChunkRead { data: None }), storage_failure());
    assert_eq!(session.phase(), DownloadPhase::Done);
    assert_eq!(session.step(DownloadEvent::Appended { ok: true }), None);
}

#[test]
fn chunk_that_cannot_be_appended_fails_the_download() {
    let (mut session, _) = download_copying(&["c0", "c1"]);
    session.step(DownloadEvent::ChunkRead { data: Some(vec![1]) });
    assert_eq!(session.step(DownloadEvent::Appended { ok: false }), storage_failure());
    assert_eq!(session.phase(), DownloadPhase::Done);
}

#[test]
fn merged_file_that_cannot_be_read_fails_the_download() {
    let (mut session, _) = download_copying(&[]);
    assert_eq!(session.step(DownloadEvent::MergedRead { data: None }), storage_failure());
    assert_eq!(session.phase(), DownloadPhase::Done);
}

#[test]
fn unexpected_download_event_changes_nothing() {
    let mut session = download_of("id-1");
    assert_eq!(session.step(DownloadEvent::Found { manifest: None }), None);
    assert_eq!(session.step(DownloadEvent::MergedRead { data: Some(vec![1]) }), None);
    assert_eq!(session.phase(), DownloadPhase::Idle);
    session.step(DownloadEvent::Started);
    assert_eq!(session.step(DownloadEvent::Started), None);
    assert_eq!(session.step(DownloadEvent::ChunkRead { data: Some(vec![1]) }), None);
    assert_eq!(session.phase(), DownloadPhase::Looking);
    let (mut session, _) = download_copying(&["c0"]);
    assert_eq!(session.step(DownloadEvent::Appended { ok: true }), None);
    assert_eq!(session.step(DownloadEvent::MergedCreated { ok: true }), None);
    assert_eq!(session.phase(), DownloadPhase::ReadingChunk);
}

#[test]
fn file_name_is_quoted_as_it_is() {
    let mut session = download_of("id-1");
    session.step(DownloadEvent::Started);
    let manifest = FileMeta {
        file_id: "id-1".to_string(),
        file_name: "my \"file\".bin".to_string(),
        chunks: vec![],
    };
    session.step(DownloadEvent::Found { manifest: Some(manifest) });
    session.step(DownloadEvent::MergedCreated { ok: true });
    assert_eq!(
        session.step(DownloadEvent::MergedRead { data: Some(vec![9]) }),
        Some(DownloadAction::Respond {
            response: DownloadResponse::File {
                content_type: "application/octet-stream".to_string(),
                content_disposition: "attachment; filename=\"my \"file\".bin\"".to_string(),
                body: vec![9],
            }
        })
    );
}
