//! What the registry takes from outside: fresh identifiers and the identity of
//! the caller. The contracts in this file are believed, not proved.

use vstd::prelude::*;

verus! {

/// `c` is a decimal digit or one of the letters `a` to `f`.
pub open spec fn is_lower_hex(c: char) -> bool {
    ('0' <= c && c <= '9') || ('a' <= c && c <= 'f')
}

/// `text` has the shape of a hyphenated lower-case UUID: 36 characters, a
/// hyphen after the 8th, 12th, 16th and 20th hexadecimal digit.
pub open spec fn is_uuid_text(text: Seq<char>) -> bool {
    &&& text.len() == 36
    &&& forall|i: int|
        0 <= i < 36 ==> if i == 8 || i == 13 || i == 18 || i == 23 {
            #[trigger] text[i] == '-'
        } else {
            is_lower_hex(text[i])
        }
}

/// A new random identifier, from `uuid::Uuid::new_v4` and the `Display` of the
/// value it returns.
///
/// Believed of it: the text is a version 4 UUID in hyphenated lower-case form.
/// Nothing is claimed about which identifier comes back; two calls may return
/// the same one. `new_v4` panics where the operating system cannot supply
/// random bytes.
#[verifier::external_body]
pub(crate) fn fresh_id() -> (id: String)
    ensures
        is_uuid_text(id@),
{
    uuid::Uuid::new_v4().to_string()
}

/// The account that called the current operation, from
/// `near_sdk::env::predecessor_account_id`, as text.
///
/// Believed of it: the text is between 2 and 64 characters long, the bounds
/// that the SDK checks before it returns an account identifier. Which account
/// it is depends on the host. The SDK aborts where the host hands it an
/// identifier that is not valid.
#[verifier::external_body]
pub(crate) fn caller_account() -> (account: String)
    ensures
        2 <= account@.len() <= 64,
{
    near_sdk::env::predecessor_account_id().into()
}

} // verus!
