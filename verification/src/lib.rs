//! A registry of posts with a ledger of the donations made to their authors.

pub mod donation;
pub mod host;
pub mod image;
pub mod model;
pub mod post;
pub mod registry;
pub mod text;

pub use donation::Donation;
pub use image::Resolution;
pub use post::{Post, PostView};
pub use registry::Posts;
