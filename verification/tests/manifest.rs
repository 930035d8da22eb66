use chunk_store::manifest::{listed_files, FileMeta};

fn manifest_named(id: &str, name: &str, chunks: &[&str]) -> FileMeta {
    FileMeta {
        file_id: id.to_string(),
        file_name: name.to_string(),
        chunks: chunks.iter().map(|c| c.to_string()).collect(),
    }
}

#[test]
fn listing_of_nothing_is_empty() {
    assert_eq!(listed_files(Vec::new()), Vec::<FileMeta>::new());
}

#[test]
fn listing_keeps_readable_records_in_order() {
    let first = manifest_named("1", "a.txt", &["./uploads/1_chunk"]);
    let second = manifest_named("2", "b.txt", &[]);
    let third = manifest_named("3", "file", &["./uploads/3_chunk", "./uploads/3_chunk"]);
    let listed = listed_files(vec![
        Some(first.clone()),
        None,
        Some(second.clone()),
        None,
        None,
        Some(third.clone()),
    ]);
    assert_eq!(listed, vec![first, second, third]);
}

#[test]
fn listing_of_unreadable_records_only_is_empty() {
    assert_eq!(listed_files(vec![None, None]), Vec::<FileMeta>::new());
}
