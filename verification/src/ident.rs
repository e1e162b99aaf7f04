//! Fresh identifiers for sessions and transfers.

use vstd::prelude::*;

verus! {

/// The number of characters of an identifier: 32 hexadecimal digits in
/// five groups, with a hyphen between two groups.
pub const IDENTIFIER_LENGTH: usize = 36;

/// `uuid::Uuid::new_v4`, rendered by `to_string`: a random identifier in
/// hyphenated form, which has 36 characters. Nothing else is claimed of
/// the text that comes back; whoever uses it checks that it has not been
/// issued before. The draw takes its bytes from the operating system and
/// does not return where that gives none.
#[verifier::external_body]
pub(crate) fn random_identifier() -> (id: String)
    ensures
        id@.len() == IDENTIFIER_LENGTH,
{
    uuid::Uuid::new_v4().to_string()
}

} // verus!
