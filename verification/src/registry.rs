//! The registry: the posts in the order in which they were made, and the
//! operations on them.

use vstd::prelude::*;
use crate::donation::Donation;
use crate::host::{caller_account, fresh_id, is_uuid_text};
use crate::image::Resolution;
use crate::model::{
    credited, donations, find, find_from, has_id, ids_distinct, lemma_find, lemma_matching_step,
    lemma_with_donation, lemma_with_post, lemma_without_id, lemma_without_id_missing,
    lemma_without_id_present, lemma_without_id_step, matching, with_donation, with_post,
    without_id,
};
use crate::post::{text_view, views, Post, PostView};
use crate::text::contains;

verus! {

/// The registry of posts. `posts` holds them in the order of their making.
#[derive(Debug, PartialEq, Eq)]
pub struct Posts {
    pub posts: Vec<Post>,
}

impl View for Posts {
    type V = Seq<PostView>;

    open spec fn view(&self) -> Seq<PostView> {
        views(self.posts@)
    }
}

impl Clone for Posts {
    /// An independent registry with the same posts.
    fn clone(&self) -> (copy: Posts)
        ensures
            copy@ == self@,
    {
        let copy = Posts { posts: self.posts.clone() };
        assert(copy@ =~= self@);
        copy
    }
}

impl Posts {
    /// No two posts carry the same identifier. The operations of the registry
    /// establish this and keep it.
    pub open spec fn well_formed(&self) -> bool {
        ids_distinct(self@)
    }

    /// An empty registry.
    pub fn new() -> (registry: Posts)
        ensures
            registry@ == Seq::<PostView>::empty(),
            registry.well_formed(),
    {
        let registry = Posts { posts: Vec::new() };
        assert(registry@ =~= Seq::<PostView>::empty());
        registry
    }

    /// Where the first post that carries `id` stands.
    pub fn position(&self, id: &String) -> (at: Option<usize>)
        ensures
            match at {
                Some(i) => find(self@, id@) == Some(i as int),
                None => find(self@, id@) is None,
            },
    {
        let mut i: usize = 0;
        while i < self.posts.len()
            invariant
                i <= self.posts.len(),
                find(self@, id@) == find_from(self@, id@, i as int),
            decreases self.posts.len() - i,
        {
            if self.posts[i].id == *id {
                return Some(i);
            }
            i += 1;
        }
        None
    }

    /// Adds a post with the given identifier and author, and with no donations
    /// yet, at the end of the registry. Where a post already carries `id`, the
    /// registry stays as it is and the result is `false`.
    pub fn add_post(
        &mut self,
        id: String,
        author: String,
        title: String,
        body: String,
        image: Option<String>,
    ) -> (added: bool)
        ensures
            added == !has_id(old(self)@, id@),
            final(self)@ == with_post(
                old(self)@,
                PostView {
                    id: id@,
                    author: author@,
                    title: title@,
                    body: body@,
                    image: text_view(image),
                    donation_total: 0,
                },
            ),
            old(self).well_formed() ==> final(self).well_formed(),
    {
        proof {
            lemma_find(self@, id@);
            lemma_with_post(
                self@,
                PostView {
                    id: id@,
                    author: author@,
                    title: title@,
                    body: body@,
                    image: text_view(image),
                    donation_total: 0,
                },
            );
        }
        match self.position(&id) {
            Some(_) => false,
            None => {
                let post = Post::new(id, author, title, body, image);
                self.posts.push(post);
                assert(self@ =~= old(self)@.push(post@));
                true
            },
        }
    }

    /// Makes a post by the current caller, under a fresh random identifier,
    /// and returns a copy of it. `image` is the content address of the post's
    /// image, where it has one.
    ///
    /// The post goes to the end of the registry with a donation total of 0.
    /// Identifiers are drawn at random; in the event that the one drawn is
    /// already in use, no post is made and the result is `None`. That cannot
    /// happen in a registry that holds no post with an identifier of that
    /// kind, an empty one for instance.
    pub fn new_post(&mut self, title: String, body: String, image: Option<String>) -> (created:
        Option<Post>)
        ensures
            match created {
                Some(post) => {
                    &&& final(self)@ == old(self)@.push(post@)
                    &&& !has_id(old(self)@, post@.id)
                    &&& is_uuid_text(post@.id)
                    &&& 2 <= post@.author.len() <= 64
                    &&& post@.title == title@
                    &&& post@.body == body@
                    &&& post@.image == text_view(image)
                    &&& post@.donation_total == 0
                },
                None => {
                    &&& final(self)@ == old(self)@
                    &&& exists|i: int|
                        0 <= i < old(self)@.len() && is_uuid_text((#[trigger] old(self)@[i]).id)
                },
            },
            old(self).well_formed() ==> final(self).well_formed(),
    {
        let id = fresh_id();
        let author = caller_account();
        if self.add_post(id, author, title, body, image) {
            assert(self@.len() == old(self)@.len() + 1);
            assert(self@.len() == self.posts@.len());
            let last: usize = self.posts.len() - 1;
            let post = self.posts[last].clone();
            assert(post@ == self@[last as int]);
            assert(self@ =~= old(self)@.push(post@));
            Some(post)
        } else {
            proof {
                let i = choose|i: int| 0 <= i < old(self)@.len() && (#[trigger] old(self)@[i]).id == id@;
                assert(is_uuid_text(old(self)@[i].id));
            }
            None
        }
    }

    /// Makes a post whose image payload, if it had one, has been handed to the
    /// blob store with the outcome `resolution`.
    ///
    /// The post's image is the content address that the store returned. Where
    /// there was no payload, or the store failed, the post is made all the
    /// same, without an image. Otherwise as `new_post`.
    pub fn create_post(&mut self, title: String, body: String, resolution: Resolution) -> (created:
        Option<Post>)
        ensures
            match created {
                Some(post) => {
                    &&& final(self)@ == old(self)@.push(post@)
                    &&& !has_id(old(self)@, post@.id)
                    &&& is_uuid_text(post@.id)
                    &&& 2 <= post@.author.len() <= 64
                    &&& post@.title == title@
                    &&& post@.body == body@
                    &&& post@.image == resolution.spec_image()
                    &&& post@.donation_total == 0
                },
                None => {
                    &&& final(self)@ == old(self)@
                    &&& exists|i: int|
                        0 <= i < old(self)@.len() && is_uuid_text((#[trigger] old(self)@[i]).id)
                },
            },
            old(self).well_formed() ==> final(self).well_formed(),
    {
        self.new_post(title, body, resolution.image())
    }

    /// A copy of all posts, in registry order. The copy is the caller's own:
    /// changing it does not touch the registry.
    pub fn get_posts(&self) -> (all: Vec<Post>)
        ensures
            views(all@) == self@,
    {
        let all = self.posts.clone();
        assert(views(all@) =~= self@);
        all
    }

    /// Copies of the posts whose title contains `search_string`, in registry
    /// order. The match is case-sensitive and on the characters as they are;
    /// the empty text is contained in every title.
    pub fn search_posts(&self, search_string: String) -> (found: Vec<Post>)
        ensures
            views(found@) == matching(self@, search_string@),
    {
        let mut found: Vec<Post> = Vec::new();
        let mut i: usize = 0;
        assert(self@.take(0) =~= Seq::<PostView>::empty());
        assert(matching(Seq::<PostView>::empty(), search_string@) =~= Seq::<PostView>::empty()) by {
            reveal(Seq::filter);
        }
        while i < self.posts.len()
            invariant
                i <= self.posts.len(),
                views(found@) == matching(self@.take(i as int), search_string@),
            decreases self.posts.len() - i,
        {
            let post = &self.posts[i];
            proof {
                let upto = self@.take(i + 1);
                assert(upto.drop_last() =~= self@.take(i as int));
                assert(upto.last() == post@);
                lemma_matching_step(upto, search_string@);
            }
            if contains(post.title.as_str(), search_string.as_str()) {
                let copy = post.clone();
                found.push(copy);
                assert(views(found@) =~= matching(self@.take(i as int), search_string@).push(post@));
            }
            i += 1;
        }
        assert(self@.take(i as int) =~= self@);
        found
    }

    /// Removes the post `post_id`. Where no post carries that identifier,
    /// nothing changes.
    ///
    /// Every post with the identifier goes; in a well-formed registry that is
    /// at most one, so the registry gets shorter by one or not at all. The
    /// posts that stay keep their order.
    pub fn delete_post(&mut self, post_id: String)
        ensures
            final(self)@ == without_id(old(self)@, post_id@),
            !has_id(final(self)@, post_id@),
            !has_id(old(self)@, post_id@) ==> final(self)@ == old(self)@,
            old(self).well_formed() && has_id(old(self)@, post_id@) ==> final(self)@.len() == old(
                self,
            )@.len() - 1,
            old(self).well_formed() ==> final(self).well_formed(),
    {
        proof {
            lemma_without_id(self@, post_id@);
            if !has_id(self@, post_id@) {
                lemma_without_id_missing(self@, post_id@);
            } else if self.well_formed() {
                lemma_without_id_present(self@, post_id@);
            }
        }
        let mut kept: Vec<Post> = Vec::new();
        let mut all: Vec<Post> = Vec::new();
        std::mem::swap(&mut all, &mut self.posts);
        let ghost before = views(all@);
        assert(before.take(0) =~= Seq::<PostView>::empty());
        assert(without_id(Seq::<PostView>::empty(), post_id@) =~= Seq::<PostView>::empty()) by {
            reveal(Seq::filter);
        }
        for post in it: all
            invariant
                it.seq() == all@,
                before == views(all@),
                views(kept@) == without_id(before.take(it.index()), post_id@),
        {
            proof {
                let upto = before.take(it.index() + 1);
                assert(upto.drop_last() =~= before.take(it.index()));
                assert(upto.last() == post@);
                lemma_without_id_step(upto, post_id@);
            }
            if post.id != post_id {
                kept.push(post);
                assert(views(kept@) =~= without_id(before.take(it.index()), post_id@).push(post@));
            }
        }
        assert(before.take(all@.len() as int) =~= before);
        self.posts = kept;
    }

    /// Records a donation of `amount` to the author of the post `post_id`.
    ///
    /// The first post that carries `post_id` has `amount` added to its total,
    /// and the result names the author as the recipient of a transfer of
    /// `amount`; an amount of 0 is recorded and reported like any other. Where
    /// no post carries `post_id`, or the total would exceed `u128::MAX`, the
    /// registry stays as it is and the result says which of the two it was.
    pub fn donate_author(&mut self, post_id: String, amount: u128) -> (outcome: Donation)
        ensures
            final(self)@ == with_donation(old(self)@, post_id@, amount as nat),
            match outcome {
                Donation::Recorded { recipient, amount: sent } => {
                    &&& find(old(self)@, post_id@) matches Some(i)
                    &&& old(self)@[i].donation_total + amount <= u128::MAX
                    &&& recipient@ == old(self)@[i].author
                    &&& sent == amount
                    &&& final(self)@ == old(self)@.update(i, credited(old(self)@[i], amount as nat))
                },
                Donation::NotFound => {
                    &&& !has_id(old(self)@, post_id@)
                    &&& final(self)@ == old(self)@
                },
                Donation::Overflow => {
                    &&& find(old(self)@, post_id@) matches Some(i)
                    &&& old(self)@[i].donation_total + amount > u128::MAX
                    &&& final(self)@ == old(self)@
                },
            },
            forall|k: int|
                0 <= k < old(self)@.len() ==> (#[trigger] final(self)@[k]).donation_total >= old(
                    self,
                )@[k].donation_total,
            old(self).well_formed() ==> final(self).well_formed(),
    {
        proof {
            lemma_find(self@, post_id@);
            lemma_with_donation(self@, post_id@, amount as nat);
        }
        match self.position(&post_id) {
            None => Donation::NotFound,
            Some(i) => {
                match self.posts[i].donation_total.checked_add(amount) {
                    None => Donation::Overflow,
                    Some(total) => {
                        let recipient = self.posts[i].author.clone();
                        self.posts[i].donation_total = total;
                        assert(self@ =~= old(self)@.update(
                            i as int,
                            credited(old(self)@[i as int], amount as nat),
                        ));
                        Donation::Recorded { recipient, amount }
                    },
                }
            },
        }
    }

    /// The donation total of the post `post_id`, or `None` where no post
    /// carries that identifier.
    pub fn get_donations(&self, post_id: String) -> (total: Option<u128>)
        ensures
            match total {
                Some(t) => donations(self@, post_id@) == Some(t as nat),
                None => donations(self@, post_id@) is None,
            },
            total is Some <==> has_id(self@, post_id@),
    {
        proof {
            lemma_find(self@, post_id@);
        }
        match self.position(&post_id) {
            Some(i) => Some(self.posts[i].donation_total),
            None => None,
        }
    }
}

} // verus!
