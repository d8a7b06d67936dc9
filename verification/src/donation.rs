//! What a donation does: the three ways in which it can end.

use vstd::prelude::*;

verus! {

/// How an attempt to donate through a post ended.
#[derive(Debug, PartialEq, Eq)]
pub enum Donation {
    /// The post's total went up by `amount`, and `amount` is to be transferred
    /// to `recipient`, the author of the post. The registry records what was
    /// asked for; whether the transfer arrives is not its business.
    Recorded { recipient: String, amount: u128 },
    /// No post carries the identifier. Nothing was recorded, nothing is to be
    /// transferred.
    NotFound,
    /// The post's total would no longer fit in 128 bits. Nothing was recorded,
    /// nothing is to be transferred.
    Overflow,
}

} // verus!
