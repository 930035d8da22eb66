use chunk_store::layout::{chunk_path, merged_path};
use chunk_store::upload::start_upload;

#[test]
fn chunk_path_is_directory_identifier_and_suffix() {
    assert_eq!(chunk_path("./uploads", "abc"), "./uploads/abc_chunk");
    assert_eq!(chunk_path("", ""), "/_chunk");
}

#[test]
fn merged_path_is_directory_identifier_and_suffix() {
    assert_eq!(merged_path("./uploads", "abc"), "./uploads/abc_merged");
    assert_eq!(merged_path("/data", "does-not-exist"), "/data/does-not-exist_merged");
}

#[test]
fn distinct_identifiers_have_distinct_files() {
    let ids = ["a", "b", "ab", "a_chunk", "", "a/b"];
    for first in ids {
        for second in ids {
            if first != second {
                assert_ne!(chunk_path("./uploads", first), chunk_path("./uploads", second));
                assert_ne!(merged_path("./uploads", first), merged_path("./uploads", second));
            }
            assert_ne!(merged_path("./uploads", first), chunk_path("./uploads", second));
        }
    }
}

#[test]
fn generated_identifier_is_canonical() {
    let session = start_upload("./uploads");
    let id = session.file_id().clone();
    assert_eq!(id.len(), 36);
    for (i, c) in id.chars().enumerate() {
        if i == 8 || i == 13 || i == 18 || i == 23 {
            assert_eq!(c, '-');
        } else {
            assert!(c.is_ascii_digit() || ('a'..='f').contains(&c));
        }
    }
    assert_eq!(id.chars().nth(14), Some('4'));
    assert!(matches!(id.chars().nth(19), Some('8') | Some('9') | Some('a') | Some('b')));
    assert!(!id.contains('/'));
}

#[test]
fn generated_identifiers_differ() {
    let first = start_upload("./uploads");
    let second = start_upload("./uploads");
    assert_ne!(first.file_id(), second.file_id());
    assert_ne!(
        chunk_path("./uploads", first.file_id()),
        chunk_path("./uploads", second.file_id())
    );
}
