//! Identifiers drawn at random: for uploads that bring none, for videos, and for
//! the scratch files of uploads.

use vstd::prelude::*;
use vstd::string::*;

verus! {

/// Whether `c` is a hexadecimal digit in lower case.
pub open spec fn lower_hex_digit(c: char) -> bool {
    (48 <= c as u32 <= 57) || (97 <= c as u32 <= 102)
}

/// `Uuid::new_v4` of the crate `uuid`, written as text by its `Display`: the
/// hyphenated form in lower case, which has the shape [`id_shape`]. The value is
/// drawn at random: nothing else is claimed of it.
#[verifier::external_body]
pub(crate) fn random_id() -> (id: String)
    ensures
        id_shape(id@),
{
    uuid::Uuid::new_v4().to_string()
}

/// A new id for a video: drawn at random, in the shape of every id, so that it
/// can stand in a path and in the key of an object as it is.
///
/// Two ids are never promised to differ: they are drawn independently.
pub fn new_video_id() -> (id: String)
    ensures
        id_shape(id@),
{
    random_id()
}

/// Whether `c` may stand at position `i` of an id: a hyphen at the positions 8,
/// 13, 18 and 23, a hexadecimal digit in lower case at the others.
pub open spec fn id_char(i: int, c: char) -> bool {
    if i == 8 || i == 13 || i == 18 || i == 23 {
        c == '-'
    } else {
        lower_hex_digit(c)
    }
}

/// The shape of an id: 36 characters, five groups of hexadecimal digits in lower
/// case, of 8, 4, 4, 4 and 12 digits, with a hyphen between each two.
pub open spec fn id_shape(id: Seq<char>) -> bool {
    &&& id.len() == 36
    &&& forall|i: int| 0 <= i < 36 ==> id_char(i, #[trigger] id[i])
}

/// The id of an upload: the one that the client sent in `X-Upload-ID`, or a new
/// one, drawn at random and in the shape of every id, where it sent none.
pub fn upload_id_or_new(header: Option<&str>) -> (id: String)
    ensures
        header matches Some(h) ==> id@ == h@,
        header is None ==> id_shape(id@),
{
    match header {
        Some(h) => String::from_str(h),
        None => random_id(),
    }
}

} // verus!
