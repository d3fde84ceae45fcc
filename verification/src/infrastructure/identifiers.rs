//! Identifiers and tickets drawn at random.

use rand::RngCore;
use vstd::prelude::*;

verus! {

/// `rand::random` for `NonZeroU64`: any number but zero.
#[verifier::external_body]
pub(crate) fn draw_nonzero() -> (value: u64)
    ensures
        value != 0,
{
    rand::random::<std::num::NonZeroU64>().get()
}

/// `OsRng::fill_bytes` overwrites every byte of the buffer and keeps its length.
#[verifier::external_body]
pub(crate) fn fill_random(buffer: &mut Vec<u8>)
    ensures
        final(buffer)@.len() == old(buffer)@.len(),
{
    rand::rngs::OsRng.fill_bytes(buffer)
}

/// Whether a character is a hexadecimal digit in lower case.
pub open spec fn lower_hex(character: char) -> bool {
    '0' <= character <= '9' || 'a' <= character <= 'f'
}

/// Whether a text is a random UUID in its hyphenated form: groups of eight,
/// four, four, four and twelve digits, with the version and the variant in their
/// places.
pub open spec fn uuid_text(text: Seq<char>) -> bool {
    &&& text.len() == 36
    &&& forall|place: int|
        #![trigger text[place]]
        0 <= place < 36 ==> if place == 8 || place == 13 || place == 18 || place == 23 {
            text[place] == '-'
        } else {
            lower_hex(text[place])
        }
    &&& text[14] == '4'
    &&& text[19] == '8' || text[19] == '9' || text[19] == 'a' || text[19] == 'b'
}

/// `Uuid::new_v4`, written out in its hyphenated form: which UUID it is rests on
/// chance.
#[verifier::external_body]
pub(crate) fn draw_uuid() -> (text: String)
    ensures
        uuid_text(text@),
{
    uuid::Uuid::new_v4().to_string()
}

/// A number for a transfer or a request on the wire, where zero means "none".
pub fn random_nonzero_u64() -> (value: u64)
    ensures
        value != 0,
{
    draw_nonzero()
}

} // verus!
