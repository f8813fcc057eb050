//! Random identifiers in their textual form.

use vstd::prelude::*;

verus! {

/// `c` is one of `0-9a-f`.
pub open spec fn is_lower_hex_digit(c: char) -> bool {
    ||| (('0' as u32) <= (c as u32) && (c as u32) <= ('9' as u32))
    ||| (('a' as u32) <= (c as u32) && (c as u32) <= ('f' as u32))
}

/// The hyphenated lower-case text of a version-4 (random) UUID:
/// `xxxxxxxx-xxxx-4xxx-yxxx-xxxxxxxxxxxx` with `y` one of `8`, `9`, `a`, `b`.
pub open spec fn is_v4_uuid_text(t: Seq<char>) -> bool {
    &&& t.len() == 36
    &&& forall|i: int|
        0 <= i < 36 ==> if i == 8 || i == 13 || i == 18 || i == 23 {
            #[trigger] t[i] == '-'
        } else {
            is_lower_hex_digit(t[i])
        }
    &&& t[14] == '4'
    &&& (t[19] == '8' || t[19] == '9' || t[19] == 'a' || t[19] == 'b')
}

/// Calls `uuid::Uuid::new_v4` and formats it with `to_string`. The contract
/// claims only the shape of the text, which the `uuid` source fixes: the
/// hyphenated lower-case form, with the version nibble set to 4 and the
/// variant bits to `10`. Which UUID comes back is random and left open.
/// `uuid` panics when the operating system cannot supply random bytes;
/// no argument can rule that out, and the contract does not mention it.
#[verifier::external_body]
pub(crate) fn new_v4_uuid_text() -> (t: String)
    ensures
        is_v4_uuid_text(t@),
{
    uuid::Uuid::new_v4().to_string()
}

} // verus!
