//! File identifiers.
//!
//! Every upload gets a fresh random identifier before its first chunk is
//! written, so that the names of its files can embed it.

use vstd::prelude::*;

verus! {

/// Whether `c` is a lower-case hexadecimal digit.
pub open spec fn is_lower_hex(c: char) -> bool {
    ('0' <= c && c <= '9') || ('a' <= c && c <= 'f')
}

/// Whether position `index` of a canonical identifier holds a hyphen.
pub open spec fn is_hyphen_position(index: int) -> bool {
    index == 8 || index == 13 || index == 18 || index == 23
}

/// The canonical string form of a random 128-bit identifier: 32 lower-case
/// hexadecimal digits in groups of 8, 4, 4, 4 and 12 with hyphens between
/// them, the third group starting with the version digit `4` and the fourth
/// with one of the variant digits `8`, `9`, `a`, `b`.
pub open spec fn is_canonical_id(id: Seq<char>) -> bool {
    &&& id.len() == 36
    &&& forall|i: int|
        0 <= i < 36 ==> if is_hyphen_position(i) {
            #[trigger] id[i] == '-'
        } else {
            is_lower_hex(id[i])
        }
    &&& id[14] == '4'
    &&& (id[19] == '8' || id[19] == '9' || id[19] == 'a' || id[19] == 'b')
}

/// Draws a fresh identifier by `uuid::Uuid::new_v4` and renders it by the
/// identifier's `to_string`.
///
/// Trusted: the result has the canonical form, whatever random bits were
/// drawn. Nothing is claimed of which identifier comes out, nor that two
/// calls differ. The call panics if the operating system cannot supply
/// random bytes; no argument has a part in that.
#[verifier::external_body]
pub(crate) fn random_file_id() -> (id: String)
    ensures
        is_canonical_id(id@),
{
    uuid::Uuid::new_v4().to_string()
}

/// A canonical identifier holds no path separator, so the files named after
/// it lie directly in the upload directory.
pub proof fn lemma_canonical_id_has_no_separator(id: Seq<char>)
    requires
        is_canonical_id(id),
    ensures
        !id.contains('/'),
{
    if id.contains('/') {
        let i = choose|i: int| 0 <= i < id.len() && id[i] == '/';
        assert(id[i] == '-' || is_lower_hex(id[i]));
    }
}

} // verus!
