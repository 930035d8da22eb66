//! Where the files of an upload live.
//!
//! One directory holds, for each upload, a chunk file named after the file
//! identifier, and, for each download, a merged file named after it too. The
//! names are derived from the identifier alone, so distinct identifiers never
//! share a file.

use vstd::prelude::*;
use vstd::string::*;

verus! {

/// The location of the chunk file of `file_id` under `uploads_path`:
/// `{uploads_path}/{file_id}_chunk`.
pub open spec fn chunk_location(uploads_path: Seq<char>, file_id: Seq<char>) -> Seq<char> {
    uploads_path + "/"@ + file_id + "_chunk"@
}

/// The location of the merged file of `file_id` under `uploads_path`:
/// `{uploads_path}/{file_id}_merged`.
pub open spec fn merged_location(uploads_path: Seq<char>, file_id: Seq<char>) -> Seq<char> {
    uploads_path + "/"@ + file_id + "_merged"@
}

/// Builds the location of the chunk file of `file_id`.
pub fn chunk_path(uploads_path: &str, file_id: &str) -> (path: String)
    ensures
        path@ == chunk_location(uploads_path@, file_id@),
{
    let mut path = String::from_str(uploads_path);
    path.append("/");
    path.append(file_id);
    path.append("_chunk");
    path
}

/// Builds the location of the merged file of `file_id`.
pub fn merged_path(uploads_path: &str, file_id: &str) -> (path: String)
    ensures
        path@ == merged_location(uploads_path@, file_id@),
{
    let mut path = String::from_str(uploads_path);
    path.append("/");
    path.append(file_id);
    path.append("_merged");
    path
}

/// What stands between a fixed head and a fixed tail is determined by the
/// whole.
proof fn lemma_infix_determined(
    head: Seq<char>,
    first: Seq<char>,
    second: Seq<char>,
    tail: Seq<char>,
)
    requires
        head + first + tail == head + second + tail,
    ensures
        first == second,
{
    let whole_first = head + first + tail;
    let whole_second = head + second + tail;
    assert(whole_first.len() == head.len() + first.len() + tail.len());
    assert(whole_second.len() == head.len() + second.len() + tail.len());
    assert(whole_first.subrange(head.len() as int, (head.len() + first.len()) as int) =~= first);
    assert(whole_second.subrange(head.len() as int, (head.len() + second.len()) as int)
        =~= second);
}

/// Two uploads into the same directory with distinct identifiers never share
/// a chunk file.
pub proof fn lemma_chunk_locations_distinct(
    uploads_path: Seq<char>,
    first_id: Seq<char>,
    second_id: Seq<char>,
)
    requires
        first_id != second_id,
    ensures
        chunk_location(uploads_path, first_id) != chunk_location(uploads_path, second_id),
{
    if chunk_location(uploads_path, first_id) == chunk_location(uploads_path, second_id) {
        lemma_infix_determined(uploads_path + "/"@, first_id, second_id, "_chunk"@);
    }
}

/// Likewise for the merged files of two downloads.
pub proof fn lemma_merged_locations_distinct(
    uploads_path: Seq<char>,
    first_id: Seq<char>,
    second_id: Seq<char>,
)
    requires
        first_id != second_id,
    ensures
        merged_location(uploads_path, first_id) != merged_location(uploads_path, second_id),
{
    if merged_location(uploads_path, first_id) == merged_location(uploads_path, second_id) {
        lemma_infix_determined(uploads_path + "/"@, first_id, second_id, "_merged"@);
    }
}

/// No merged file is a chunk file, whichever identifiers they belong to: a
/// download never overwrites what an upload stored.
pub proof fn lemma_merged_is_no_chunk(
    uploads_path: Seq<char>,
    merged_id: Seq<char>,
    chunk_id: Seq<char>,
)
    ensures
        merged_location(uploads_path, merged_id) != chunk_location(uploads_path, chunk_id),
{
    reveal_strlit("_merged");
    reveal_strlit("_chunk");
    let merged = merged_location(uploads_path, merged_id);
    let chunk = chunk_location(uploads_path, chunk_id);
    assert(merged.last() == 'd');
    assert(chunk.last() == 'k');
}

} // verus!
