//! The size-bounded split and merge transforms.
//!
//! Splitting partitions a byte sequence into consecutive chunks of a fixed
//! size, the last chunk holding the remainder; merging concatenates chunks in
//! order. Merging what was split gives back the bytes as they were.

use vstd::prelude::*;
use vstd::slice::slice_to_vec;

verus! {

/// Makes `std::io::Error` known as an opaque type, so that [`split_file`]
/// can return an `std::io::Result`. Nothing is claimed of its values, and
/// no function of this library makes one.
#[verifier::external_type_specification]
#[verifier::external_body]
pub struct ExIoError(std::io::Error);

/// The chunk size that [`split_file`] uses: one mebibyte.
pub const CHUNK_SIZE: usize = 1024 * 1024;

/// How many chunks a sequence of `len` bytes is split into.
pub open spec fn chunk_count(len: nat, chunk_size: nat) -> nat {
    if len == 0 || chunk_size == 0 {
        0
    } else {
        ((len - 1) / (chunk_size as int) + 1) as nat
    }
}

/// Where chunk number `index` ends in a sequence of `len` bytes.
pub open spec fn chunk_end(len: nat, chunk_size: nat, index: int) -> int {
    if (index + 1) * chunk_size <= len {
        (index + 1) * chunk_size
    } else {
        len as int
    }
}

/// The chunks of `bytes`: chunk `i` holds the bytes from `i * chunk_size` up to
/// `(i + 1) * chunk_size`, or up to the end of `bytes` if that comes first.
pub open spec fn split(bytes: Seq<u8>, chunk_size: nat) -> Seq<Seq<u8>> {
    Seq::new(
        chunk_count(bytes.len(), chunk_size),
        |i: int| bytes.subrange(i * chunk_size, chunk_end(bytes.len(), chunk_size, i)),
    )
}

/// The concatenation of `chunks`, in order.
pub open spec fn merge(chunks: Seq<Seq<u8>>) -> Seq<u8> {
    chunks.flatten()
}

/// Concatenates `chunks` in order into one contiguous byte vector.
pub fn merge_file_chunks(chunks: Vec<Vec<u8>>) -> (merged: Vec<u8>)
    ensures
        merged@ == merge(chunks.deep_view()),
{
    let mut merged: Vec<u8> = Vec::new();
    let ghost all = chunks.deep_view();
    for i in 0..chunks.len()
        invariant
            all == chunks.deep_view(),
            merged@ == merge(all.take(i as int)),
    {
        let ghost before = merged@;
        merged.extend_from_slice(chunks[i].as_slice());
        proof {
            assert(merged@ =~= before + all[i as int]);
            assert(all.take(i + 1) =~= all.take(i as int).push(all[i as int]));
            all.take(i as int).lemma_flatten_push(all[i as int]);
        }
    }
    proof {
        assert(all.take(chunks.len() as int) =~= all);
    }
    merged
}

/// Splits `file` into chunks of `chunk_size` bytes, the last one holding the
/// remainder.
pub fn split_chunks(file: &[u8], chunk_size: usize) -> (chunks: Vec<Vec<u8>>)
    requires
        chunk_size > 0,
    ensures
        chunks.deep_view() == split(file@, chunk_size as nat),
{
    let ghost want = split(file@, chunk_size as nat);
    let ghost size: int = chunk_size as int;
    let len: usize = file.len();
    let mut chunks: Vec<Vec<u8>> = Vec::new();
    let mut cursor: usize = 0;
    let ghost mut done: int = 0;
    while cursor < len
        invariant
            chunk_size > 0,
            size == chunk_size,
            len == file@.len(),
            want == split(file@, chunk_size as nat),
            0 <= done <= want.len(),
            cursor <= len,
            cursor < len ==> cursor == done * size,
            cursor == len ==> done * size >= len,
            chunks.deep_view() == want.take(done),
        decreases len - cursor,
    {
        let end: usize = if len - cursor <= chunk_size {
            len
        } else {
            cursor + chunk_size
        };
        proof {
            assert(done < want.len()) by (nonlinear_arith)
                requires
                    done * size < len,
                    size > 0,
                    done >= 0,
                    want.len() == (len - 1) / size + 1,
            ;
            assert((done + 1) * size == done * size + size) by (nonlinear_arith);
            assert(end == chunk_end(len as nat, chunk_size as nat, done));
        }
        let chunk = slice_to_vec(&file[cursor..end]);
        let ghost before = chunks.deep_view();
        chunks.push(chunk);
        proof {
            assert(chunk.deep_view() =~= want[done]);
            assert(chunks.deep_view() =~= before.push(want[done]));
            assert(want.take(done + 1) =~= want.take(done).push(want[done]));
            done = done + 1;
        }
        cursor = end;
    }
    proof {
        if len > 0 {
            assert(done >= want.len()) by (nonlinear_arith)
                requires
                    done * size >= len,
                    len > 0,
                    size > 0,
                    want.len() == (len - 1) / size + 1,
            ;
        }
        assert(want.take(done) =~= want);
    }
    chunks
}

/// Splits `file` into chunks of [`CHUNK_SIZE`] bytes. It never fails.
pub fn split_file(file: &[u8]) -> (res: Result<Vec<Vec<u8>>, std::io::Error>)
    ensures
        res is Ok,
        res->Ok_0.deep_view() == split(file@, CHUNK_SIZE as nat),
{
    Ok(split_chunks(file, CHUNK_SIZE))
}

/// Chunk `index` starts where the chunks before it end, and the last chunk
/// ends where the bytes do.
proof fn lemma_chunk_bounds(len: nat, chunk_size: nat, index: int)
    requires
        chunk_size > 0,
        0 <= index < chunk_count(len, chunk_size),
    ensures
        index * chunk_size < len,
        index * chunk_size < chunk_end(len, chunk_size, index) <= len,
        chunk_end(len, chunk_size, index) <= index * chunk_size + chunk_size,
        index + 1 < chunk_count(len, chunk_size) ==> chunk_end(len, chunk_size, index) == index
            * chunk_size + chunk_size,
        index + 1 == chunk_count(len, chunk_size) ==> chunk_end(len, chunk_size, index) == len,
{
    let size = chunk_size as int;
    let count = chunk_count(len, chunk_size) as int;
    assert(count == (len - 1) / size + 1);
    assert(index * size < len) by (nonlinear_arith)
        requires
            size > 0,
            len > 0,
            0 <= index <= (len - 1) / size,
    ;
    assert((index + 1) * size == index * size + size) by (nonlinear_arith);
    if index + 1 < count {
        assert((index + 1) * size < len) by (nonlinear_arith)
            requires
                size > 0,
                len > 0,
                0 <= index + 1 <= (len - 1) / size,
        ;
    } else {
        assert((index + 1) * size >= len) by (nonlinear_arith)
            requires
                size > 0,
                len > 0,
                index == (len - 1) / size,
        ;
    }
}

/// Every chunk but the last holds exactly `chunk_size` bytes; the last one
/// holds the remainder, at least one byte and at most `chunk_size`.
pub proof fn lemma_split_chunk_sizes(bytes: Seq<u8>, chunk_size: nat)
    requires
        chunk_size > 0,
    ensures
        split(bytes, chunk_size).len() == chunk_count(bytes.len(), chunk_size),
        bytes.len() == 0 <==> split(bytes, chunk_size).len() == 0,
        forall|i: int|
            0 <= i < split(bytes, chunk_size).len() - 1 ==> (#[trigger] split(
                bytes,
                chunk_size,
            )[i]).len() == chunk_size,
        split(bytes, chunk_size).len() > 0 ==> 0 < split(bytes, chunk_size).last().len()
            <= chunk_size,
{
    let chunks = split(bytes, chunk_size);
    assert forall|i: int| 0 <= i < chunks.len() - 1 implies (#[trigger] chunks[i]).len()
        == chunk_size by {
        lemma_chunk_bounds(bytes.len(), chunk_size, i);
    }
    if chunks.len() > 0 {
        lemma_chunk_bounds(bytes.len(), chunk_size, chunks.len() - 1);
    }
}

/// The first `count` chunks of `bytes`, merged, are the bytes up to the end of
/// the last of them.
proof fn lemma_merge_prefix(bytes: Seq<u8>, chunk_size: nat, count: int)
    requires
        chunk_size > 0,
        0 <= count <= chunk_count(bytes.len(), chunk_size),
    ensures
        count == 0 ==> merge(split(bytes, chunk_size).take(count)) == Seq::<u8>::empty(),
        count > 0 ==> merge(split(bytes, chunk_size).take(count)) == bytes.subrange(
            0,
            chunk_end(bytes.len(), chunk_size, count - 1),
        ),
    decreases count,
{
    let chunks = split(bytes, chunk_size);
    if count == 0 {
        assert(chunks.take(0) =~= Seq::<Seq<u8>>::empty());
    } else {
        let index = count - 1;
        lemma_merge_prefix(bytes, chunk_size, index);
        lemma_chunk_bounds(bytes.len(), chunk_size, index);
        if index > 0 {
            lemma_chunk_bounds(bytes.len(), chunk_size, index - 1);
        }
        assert(chunks.take(count) =~= chunks.take(index).push(chunks[index]));
        chunks.take(index).lemma_flatten_push(chunks[index]);
        assert(merge(chunks.take(index)) + chunks[index] =~= bytes.subrange(
            0,
            chunk_end(bytes.len(), chunk_size, index),
        ));
    }
}

/// Merging the chunks that a sequence of bytes was split into gives back the
/// sequence, whatever the positive chunk size.
pub proof fn lemma_merge_split(bytes: Seq<u8>, chunk_size: nat)
    requires
        chunk_size > 0,
    ensures
        merge(split(bytes, chunk_size)) == bytes,
{
    let chunks = split(bytes, chunk_size);
    let count = chunks.len() as int;
    lemma_merge_prefix(bytes, chunk_size, count);
    assert(chunks.take(count) =~= chunks);
    if count > 0 {
        lemma_chunk_bounds(bytes.len(), chunk_size, count - 1);
        assert(bytes.subrange(0, bytes.len() as int) =~= bytes);
    } else {
        assert(bytes =~= Seq::<u8>::empty());
    }
}

} // verus!
