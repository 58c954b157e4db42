//! Fresh identifiers for uploads.

use crate::path::is_name;
use vstd::prelude::*;

verus! {

/// Whether `c` is a decimal digit or one of the letters `a` to `f`.
pub open spec fn is_hex_digit(c: char) -> bool {
    c == '0' || c == '1' || c == '2' || c == '3' || c == '4' || c == '5' || c == '6' || c == '7'
        || c == '8' || c == '9' || c == 'a' || c == 'b' || c == 'c' || c == 'd' || c == 'e' || c
        == 'f'
}

/// Whether `id` has the shape of an upload identifier: 36 characters, four
/// of them hyphens in fixed places, the others lower-case hexadecimal
/// digits.
pub open spec fn is_upload_id(id: Seq<char>) -> bool {
    &&& id.len() == 36
    &&& forall|i: int|
        0 <= i < 36 ==> if i == 8 || i == 13 || i == 18 || i == 23 {
            #[trigger] id[i] == '-'
        } else {
            is_hex_digit(id[i])
        }
}

/// `uuid::Uuid::new_v4`, written out by `to_string`. Trusted: the string is
/// the hyphenated lower-case form of a UUID, whichever one was drawn. Which
/// one is drawn is left open: two calls need not agree, and nothing here
/// says that they differ. The call does not return where the system has no
/// random bytes to give.
#[verifier::external_body]
pub(crate) fn fresh_upload_id() -> (id: String)
    ensures
        is_upload_id(id@),
{
    uuid::Uuid::new_v4().to_string()
}

/// An upload identifier can stand as one name in a path.
pub proof fn lemma_upload_id_is_name(id: Seq<char>)
    requires
        is_upload_id(id),
    ensures
        is_name(id),
{
    assert(id != seq!['.']);
    assert(id != seq!['.', '.']);
    if id.contains('/') {
        let k = choose|k: int| 0 <= k < id.len() && id[k] == '/';
        assert(id[k] == '-' || is_hex_digit(id[k]));
    }
}

} // verus!
