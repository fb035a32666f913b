//! Identifiers of servers and backups: 128-bit UUIDs, held as `u128` and
//! written in the hyphenated form `8-4-4-4-12`.

use vstd::prelude::*;
use crate::encode::{hex_digits, lemma_hex_digits_len, to_hex};

verus! {

/// The byte `-`.
pub const HYPHEN: u8 = 0x2d;

/// The hyphenated text of a UUID: its 32 lower-case hexadecimal digits in
/// groups of 8, 4, 4, 4 and 12.
pub open spec fn hyphenated(uuid: u128) -> Seq<u8> {
    let digits = hex_digits(uuid as nat, 32);
    digits.subrange(0, 8).push(HYPHEN) + digits.subrange(8, 12).push(HYPHEN) + digits.subrange(
        12,
        16,
    ).push(HYPHEN) + digits.subrange(16, 20).push(HYPHEN) + digits.subrange(20, 32)
}

/// The UUID that a text spells, as the `uuid` crate reads it; none where
/// the crate refuses the text.
pub uninterp spec fn uuid_of_text(text: Seq<u8>) -> Option<u128>;

/// Calls `uuid::Uuid::try_parse_ascii`, the parser behind
/// `Uuid::parse_str`, and hands out the value as a `u128`.
///
/// Trusted. The parser reads nothing but its argument, and the contract
/// gives the result its name. It says two things more of it: the parser
/// takes only texts of 32 bytes (plain digits), 36 (hyphenated), 38 (in
/// braces) and 45 (as a URN), and it reads the hyphenated text of a value
/// back as that value.
#[verifier::external_body]
pub(crate) fn parse_uuid_text(text: &[u8]) -> (r: Option<u128>)
    ensures
        r == uuid_of_text(text@),
        r is Some ==> text@.len() == 32 || text@.len() == 36 || text@.len() == 38 || text@.len()
            == 45,
        forall|u: u128| text@ == #[trigger] hyphenated(u) ==> r == Some(u),
{
    uuid::Uuid::try_parse_ascii(text).ok().map(|id| id.as_u128())
}

/// Writes a UUID in hyphenated form.
pub fn to_hyphenated(uuid: u128) -> (r: Vec<u8>)
    ensures
        r@ == hyphenated(uuid),
        r@.len() == 36,
{
    let digits = to_hex(uuid, 32);
    proof {
        lemma_hex_digits_len(uuid as nat, 32);
    }
    let mut out: Vec<u8> = Vec::with_capacity(36);
    out.extend_from_slice(&digits[0..8]);
    out.push(HYPHEN);
    out.extend_from_slice(&digits[8..12]);
    out.push(HYPHEN);
    out.extend_from_slice(&digits[12..16]);
    out.push(HYPHEN);
    out.extend_from_slice(&digits[16..20]);
    out.push(HYPHEN);
    out.extend_from_slice(&digits[20..32]);
    assert(out@ =~= hyphenated(uuid));
    out
}

} // verus!
