//! The post record and its mathematical view.

use vstd::prelude::*;

verus! {

/// A post as contracts see it: texts are sequences of characters and the
/// donation total is a natural number.
pub struct PostView {
    pub id: Seq<char>,
    pub author: Seq<char>,
    pub title: Seq<char>,
    pub body: Seq<char>,
    pub image: Option<Seq<char>>,
    pub donation_total: nat,
}

/// One post of the registry.
///
/// `id`, `author`, `title`, `body` and `image` are set when the post is made and
/// stay as they are; `donation_total` starts at 0 and only ever grows.
#[derive(Debug, PartialEq, Eq)]
pub struct Post {
    /// Identifier of the post, unique in its registry.
    pub id: String,
    /// Account that made the post.
    pub author: String,
    pub title: String,
    pub body: String,
    /// Content address of the post's image, where it has one.
    pub image: Option<String>,
    /// Sum of all donations recorded for the author through this post.
    pub donation_total: u128,
}

/// The view of an optional text.
pub open spec fn text_view(text: Option<String>) -> Option<Seq<char>> {
    match text {
        Some(t) => Some(t@),
        None => None,
    }
}

impl View for Post {
    type V = PostView;

    open spec fn view(&self) -> PostView {
        PostView {
            id: self.id@,
            author: self.author@,
            title: self.title@,
            body: self.body@,
            image: text_view(self.image),
            donation_total: self.donation_total as nat,
        }
    }
}

/// The views of a sequence of posts, in the same order.
pub open spec fn views(posts: Seq<Post>) -> Seq<PostView> {
    posts.map_values(|p: Post| p@)
}

impl Post {
    /// A post that has received no donation yet.
    pub fn new(id: String, author: String, title: String, body: String, image: Option<String>) -> (post: Post)
        ensures
            post@ == (PostView {
                id: id@,
                author: author@,
                title: title@,
                body: body@,
                image: text_view(image),
                donation_total: 0,
            }),
    {
        Post { id, author, title, body, image, donation_total: 0 }
    }
}

impl Clone for Post {
    /// An independent copy with the same view.
    fn clone(&self) -> (copy: Post)
        ensures
            copy@ == self@,
    {
        Post {
            id: self.id.clone(),
            author: self.author.clone(),
            title: self.title.clone(),
            body: self.body.clone(),
            image: self.image.clone(),
            donation_total: self.donation_total,
        }
    }
}

} // verus!
