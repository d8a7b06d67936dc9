//! What becomes of an image payload: the outcome of handing it to the blob
//! store, and the image that a post gets from that outcome.

use vstd::prelude::*;
use crate::post::text_view;

verus! {

/// Outcome of resolving the image payload of a post that is about to be made.
#[derive(Debug, PartialEq, Eq)]
pub enum Resolution {
    /// The request carried no image payload.
    NoPayload,
    /// The blob store took the payload and returned its content address.
    Stored(String),
    /// The blob store could not be reached, or refused the payload. The text
    /// says why; it is kept for the log and decides nothing.
    Failed(String),
}

impl Resolution {
    /// The image of a post made after this outcome: the content address where
    /// the payload was stored, none otherwise.
    pub open spec fn spec_image(self) -> Option<Seq<char>> {
        match self {
            Resolution::Stored(address) => Some(address@),
            Resolution::NoPayload => None,
            Resolution::Failed(_) => None,
        }
    }

    /// The image to attach to the post. A failed resolution is no reason not to
    /// make the post: it is made without an image.
    pub fn image(self) -> (image: Option<String>)
        ensures
            text_view(image) == self.spec_image(),
    {
        match self {
            Resolution::Stored(address) => Some(address),
            Resolution::NoPayload => None,
            Resolution::Failed(_) => None,
        }
    }
}

} // verus!
