//! The registry as mathematics: a sequence of post views in the order in which
//! the posts were made, and what each operation does to it.

use vstd::prelude::*;
use crate::post::PostView;
use crate::text::{is_substring, occurs_at};

verus! {

/// Some post of `posts` carries the identifier `id`.
pub open spec fn has_id(posts: Seq<PostView>, id: Seq<char>) -> bool {
    exists|i: int| 0 <= i < posts.len() && (#[trigger] posts[i]).id == id
}

/// No two posts of `posts` carry the same identifier.
pub open spec fn ids_distinct(posts: Seq<PostView>) -> bool {
    forall|i: int, j: int|
        0 <= i < j < posts.len() ==> (#[trigger] posts[i]).id != (#[trigger] posts[j]).id
}

/// Position of the first post at or after `start` that carries `id`.
pub open spec fn find_from(posts: Seq<PostView>, id: Seq<char>, start: int) -> Option<int>
    decreases posts.len() - start,
{
    if start < 0 || start >= posts.len() {
        None
    } else if posts[start].id == id {
        Some(start)
    } else {
        find_from(posts, id, start + 1)
    }
}

/// Position of the first post that carries `id`, if there is one.
pub open spec fn find(posts: Seq<PostView>, id: Seq<char>) -> Option<int> {
    find_from(posts, id, 0)
}

/// The registry after an attempt to add `post`: it goes to the end, unless its
/// identifier is already taken, in which case nothing changes.
pub open spec fn with_post(posts: Seq<PostView>, post: PostView) -> Seq<PostView> {
    if has_id(posts, post.id) {
        posts
    } else {
        posts.push(post)
    }
}

/// The registry without the posts that carry `id`; the others keep their order.
pub open spec fn without_id(posts: Seq<PostView>, id: Seq<char>) -> Seq<PostView> {
    posts.filter(|p: PostView| p.id != id)
}

/// The posts whose title contains `query`, in registry order.
pub open spec fn matching(posts: Seq<PostView>, query: Seq<char>) -> Seq<PostView> {
    posts.filter(|p: PostView| is_substring(query, p.title))
}

/// `post` with `amount` added to its donation total.
pub open spec fn credited(post: PostView, amount: nat) -> PostView {
    PostView { donation_total: post.donation_total + amount, ..post }
}

/// The registry after a donation of `amount` through the post `id`.
///
/// The first post that carries `id` is credited, provided its new total still
/// fits in 128 bits. With no such post, or a total that would not fit, nothing
/// changes.
pub open spec fn with_donation(posts: Seq<PostView>, id: Seq<char>, amount: nat) -> Seq<PostView> {
    match find(posts, id) {
        Some(i) => if posts[i].donation_total + amount <= u128::MAX {
            posts.update(i, credited(posts[i], amount))
        } else {
            posts
        },
        None => posts,
    }
}

/// The donation total of the post `id`, if the registry has it.
pub open spec fn donations(posts: Seq<PostView>, id: Seq<char>) -> Option<nat> {
    match find(posts, id) {
        Some(i) => Some(posts[i].donation_total),
        None => None,
    }
}

/// The registry that results from attempting to add the posts of `batch`, one
/// after the other, to an empty registry.
pub open spec fn with_all(batch: Seq<PostView>) -> Seq<PostView>
    decreases batch.len(),
{
    if batch.len() == 0 {
        Seq::empty()
    } else {
        with_post(with_all(batch.drop_last()), batch.last())
    }
}

/// What `find_from` returns is the first match at or after `start`, and it
/// returns `None` only where no post from `start` on matches.
pub proof fn lemma_find_from(posts: Seq<PostView>, id: Seq<char>, start: int)
    requires
        0 <= start,
    ensures
        match find_from(posts, id, start) {
            Some(i) => {
                &&& start <= i < posts.len()
                &&& posts[i].id == id
                &&& forall|j: int| start <= j < i ==> (#[trigger] posts[j]).id != id
            },
            None => forall|j: int| start <= j < posts.len() ==> (#[trigger] posts[j]).id != id,
        },
    decreases posts.len() - start,
{
    if start < posts.len() && posts[start].id != id {
        lemma_find_from(posts, id, start + 1);
    }
}

/// `find` returns the position of the first post that carries `id`, and `None`
/// exactly when no post carries it.
pub proof fn lemma_find(posts: Seq<PostView>, id: Seq<char>)
    ensures
        match find(posts, id) {
            Some(i) => {
                &&& 0 <= i < posts.len()
                &&& posts[i].id == id
                &&& forall|j: int| 0 <= j < i ==> (#[trigger] posts[j]).id != id
            },
            None => !has_id(posts, id),
        },
        find(posts, id) is Some <==> has_id(posts, id),
{
    lemma_find_from(posts, id, 0);
}

/// Where identifiers are distinct, the post that carries `id` is the one `find`
/// returns: there is no second.
pub proof fn lemma_find_unique(posts: Seq<PostView>, id: Seq<char>, i: int)
    requires
        ids_distinct(posts),
        0 <= i < posts.len(),
        posts[i].id == id,
    ensures
        find(posts, id) == Some(i),
{
    lemma_find(posts, id);
}

/// Adding a post keeps identifiers distinct, lengthens the registry by one
/// where the identifier is new, and leaves the posts already there as they were.
pub proof fn lemma_with_post(posts: Seq<PostView>, post: PostView)
    ensures
        ids_distinct(posts) ==> ids_distinct(with_post(posts, post)),
        !has_id(posts, post.id) ==> with_post(posts, post).len() == posts.len() + 1,
        has_id(with_post(posts, post), post.id),
        forall|i: int| 0 <= i < posts.len() ==> with_post(posts, post)[i] == #[trigger] posts[i],
{
    let after = with_post(posts, post);
    if !has_id(posts, post.id) {
        assert(after[posts.len() as int].id == post.id);
        if ids_distinct(posts) {
            assert forall|i: int, j: int| 0 <= i < j < after.len() implies (#[trigger] after[i]).id
                != (#[trigger] after[j]).id by {
                assert(after[i] == posts[i]);
                if j < posts.len() {
                    assert(after[j] == posts[j]);
                }
            }
        }
    }
}

/// However many posts are added to an empty registry, and whatever their
/// identifiers, the identifiers in the registry are distinct. Where the
/// identifiers of the added posts are distinct, every one of them is in the
/// registry, in the order of adding: `n` posts make a registry of size `n`.
pub proof fn lemma_with_all(batch: Seq<PostView>)
    ensures
        ids_distinct(with_all(batch)),
        with_all(batch).len() <= batch.len(),
        forall|id: Seq<char>| #[trigger] has_id(with_all(batch), id) ==> has_id(batch, id),
        ids_distinct(batch) ==> with_all(batch) == batch,
    decreases batch.len(),
{
    if batch.len() > 0 {
        let front = batch.drop_last();
        let last = batch.last();
        lemma_with_all(front);
        lemma_with_post(with_all(front), last);
        assert forall|id: Seq<char>| #[trigger] has_id(with_all(batch), id) implies has_id(
            batch,
            id,
        ) by {
            let i = choose|i: int| 0 <= i < with_all(batch).len() && (#[trigger] with_all(batch)[i]).id == id;
            if i < with_all(front).len() {
                assert(with_all(batch)[i] == with_all(front)[i]);
                assert(has_id(with_all(front), id));
                let k = choose|k: int| 0 <= k < front.len() && (#[trigger] front[k]).id == id;
                assert(batch[k].id == id);
            } else {
                assert(batch[batch.len() - 1].id == id);
            }
        }
        if ids_distinct(batch) {
            assert(ids_distinct(front)) by {
                assert forall|i: int, j: int| 0 <= i < j < front.len() implies (#[trigger] front[i]).id
                    != (#[trigger] front[j]).id by {
                    assert(batch[i] == front[i] && batch[j] == front[j]);
                }
            }
            assert(!has_id(front, last.id)) by {
                if has_id(front, last.id) {
                    let k = choose|k: int| 0 <= k < front.len() && (#[trigger] front[k]).id == last.id;
                    assert(batch[k] == front[k]);
                    assert(batch[batch.len() - 1] == last);
                }
            }
            assert(with_all(batch) =~= batch);
        }
    }
}

/// One step of `without_id`: what the last post of a registry contributes.
pub proof fn lemma_without_id_step(posts: Seq<PostView>, id: Seq<char>)
    requires
        posts.len() > 0,
    ensures
        without_id(posts, id) == if posts.last().id != id {
            without_id(posts.drop_last(), id).push(posts.last())
        } else {
            without_id(posts.drop_last(), id)
        },
{
    reveal(Seq::filter);
}

/// One step of `matching`: what the last post of a registry contributes.
pub proof fn lemma_matching_step(posts: Seq<PostView>, query: Seq<char>)
    requires
        posts.len() > 0,
    ensures
        matching(posts, query) == if is_substring(query, posts.last().title) {
            matching(posts.drop_last(), query).push(posts.last())
        } else {
            matching(posts.drop_last(), query)
        },
{
    reveal(Seq::filter);
}

/// Deleting by identifier: no post with that identifier remains, every post
/// that remains was there before, and distinct identifiers stay distinct.
pub proof fn lemma_without_id(posts: Seq<PostView>, id: Seq<char>)
    ensures
        !has_id(without_id(posts, id), id),
        without_id(posts, id).len() <= posts.len(),
        forall|k: int|
            0 <= k < without_id(posts, id).len() ==> posts.contains(
                #[trigger] without_id(posts, id)[k],
            ),
        ids_distinct(posts) ==> ids_distinct(without_id(posts, id)),
    decreases posts.len(),
{
    let keep = |p: PostView| p.id != id;
    let rest = without_id(posts, id);
    posts.lemma_filter_len(keep);
    assert forall|k: int| 0 <= k < rest.len() implies posts.contains(#[trigger] rest[k]) && rest[k].id
        != id by {
        posts.lemma_filter_contains_rev(keep, rest[k]);
    }
    if posts.len() > 0 && ids_distinct(posts) {
        let front = posts.drop_last();
        let last = posts.last();
        lemma_without_id(front, id);
        lemma_without_id_step(posts, id);
        assert(ids_distinct(front)) by {
            assert forall|i: int, j: int| 0 <= i < j < front.len() implies (#[trigger] front[i]).id
                != (#[trigger] front[j]).id by {
                assert(posts[i] == front[i] && posts[j] == front[j]);
            }
        }
        if last.id != id {
            let kept = without_id(front, id);
            assert forall|i: int, j: int| 0 <= i < j < rest.len() implies (#[trigger] rest[i]).id
                != (#[trigger] rest[j]).id by {
                assert(rest[i] == kept[i]);
                if j < kept.len() {
                    assert(rest[j] == kept[j]);
                } else {
                    assert(front.contains(kept[i]));
                    let k = choose|k: int| 0 <= k < front.len() && front[k] == kept[i];
                    assert(posts[k] == front[k]);
                    assert(posts[posts.len() - 1] == last);
                }
            }
        }
    }
}

/// Deleting an identifier that no post carries changes nothing.
pub proof fn lemma_without_id_missing(posts: Seq<PostView>, id: Seq<char>)
    requires
        !has_id(posts, id),
    ensures
        without_id(posts, id) == posts,
    decreases posts.len(),
{
    if posts.len() == 0 {
        reveal(Seq::filter);
        assert(without_id(posts, id) =~= posts);
    } else {
        let front = posts.drop_last();
        assert(!has_id(front, id)) by {
            if has_id(front, id) {
                let k = choose|k: int| 0 <= k < front.len() && (#[trigger] front[k]).id == id;
                assert(posts[k] == front[k]);
            }
        }
        assert(posts[posts.len() - 1].id != id);
        lemma_without_id_missing(front, id);
        lemma_without_id_step(posts, id);
        assert(without_id(posts, id) =~= posts);
    }
}

/// Where identifiers are distinct, deleting an identifier that some post
/// carries removes that one post: the registry gets shorter by exactly one.
pub proof fn lemma_without_id_present(posts: Seq<PostView>, id: Seq<char>)
    requires
        ids_distinct(posts),
        has_id(posts, id),
    ensures
        find(posts, id) is Some,
        without_id(posts, id) == posts.remove(find(posts, id)->0),
        without_id(posts, id).len() == posts.len() - 1,
    decreases posts.len(),
{
    lemma_find(posts, id);
    let at = find(posts, id)->0;
    let front = posts.drop_last();
    let last = posts.last();
    lemma_without_id_step(posts, id);
    if last.id == id {
        assert(at == posts.len() - 1) by {
            if at < posts.len() - 1 {
                assert(posts[at].id != posts[posts.len() - 1].id);
            }
        }
        assert(!has_id(front, id)) by {
            if has_id(front, id) {
                let k = choose|k: int| 0 <= k < front.len() && (#[trigger] front[k]).id == id;
                assert(posts[k] == front[k]);
                assert(posts[k].id != posts[posts.len() - 1].id);
            }
        }
        lemma_without_id_missing(front, id);
        assert(without_id(posts, id) =~= posts.remove(at));
    } else {
        assert(at < posts.len() - 1);
        assert(ids_distinct(front)) by {
            assert forall|i: int, j: int| 0 <= i < j < front.len() implies (#[trigger] front[i]).id
                != (#[trigger] front[j]).id by {
                assert(posts[i] == front[i] && posts[j] == front[j]);
            }
        }
        assert(front[at].id == id);
        lemma_without_id_present(front, id);
        lemma_find_unique(front, id, at);
        assert(without_id(posts, id) =~= posts.remove(at));
    }
}

/// The empty query matches every post: a search for it returns the whole
/// registry.
pub proof fn lemma_matching_empty_query(posts: Seq<PostView>)
    ensures
        matching(posts, Seq::<char>::empty()) == posts,
    decreases posts.len(),
{
    let query = Seq::<char>::empty();
    if posts.len() == 0 {
        reveal(Seq::filter);
        assert(matching(posts, query) =~= posts);
    } else {
        lemma_matching_empty_query(posts.drop_last());
        lemma_matching_step(posts, query);
        let title = posts.last().title;
        assert(occurs_at(title, query, 0)) by {
            assert(title.subrange(0, 0) =~= query);
        }
        assert(matching(posts, query) =~= posts);
    }
}

/// A search returns exactly the posts whose title contains the query: each
/// post it returns is in the registry and has such a title, and each post of
/// the registry with such a title is returned.
pub proof fn lemma_matching(posts: Seq<PostView>, query: Seq<char>)
    ensures
        matching(posts, query).len() <= posts.len(),
        forall|k: int|
            0 <= k < matching(posts, query).len() ==> {
                &&& posts.contains(#[trigger] matching(posts, query)[k])
                &&& is_substring(query, matching(posts, query)[k].title)
            },
        forall|i: int|
            0 <= i < posts.len() && is_substring(query, (#[trigger] posts[i]).title)
                ==> matching(posts, query).contains(posts[i]),
{
    let keep = |p: PostView| is_substring(query, p.title);
    let found = matching(posts, query);
    posts.lemma_filter_len(keep);
    assert forall|k: int| 0 <= k < found.len() implies posts.contains(#[trigger] found[k])
        && is_substring(query, found[k].title) by {
        posts.lemma_filter_contains_rev(keep, found[k]);
    }
    assert forall|i: int|
        0 <= i < posts.len() && is_substring(query, (#[trigger] posts[i]).title) implies found.contains(
        posts[i],
    ) by {
        posts.lemma_filter_contains(keep, i);
    }
}

/// A donation changes no post but the one it credits, and that one only in its
/// total, which does not get smaller. The registry keeps its length and its
/// identifiers.
pub proof fn lemma_with_donation(posts: Seq<PostView>, id: Seq<char>, amount: nat)
    ensures
        with_donation(posts, id, amount).len() == posts.len(),
        forall|k: int|
            0 <= k < posts.len() ==> {
                let before = #[trigger] posts[k];
                let after = with_donation(posts, id, amount)[k];
                &&& after.donation_total >= before.donation_total
                &&& after == PostView { donation_total: after.donation_total, ..before }
                &&& find(posts, id) != Some(k) ==> after == before
            },
        !has_id(posts, id) ==> with_donation(posts, id, amount) == posts,
        ids_distinct(posts) ==> ids_distinct(with_donation(posts, id, amount)),
        forall|other: Seq<char>| find(with_donation(posts, id, amount), other) == find(posts, other),
{
    lemma_find(posts, id);
    let after = with_donation(posts, id, amount);
    assert forall|other: Seq<char>| find(after, other) == find(posts, other) by {
        lemma_same_ids_same_find(posts, after, other, 0);
    }
    if ids_distinct(posts) {
        assert forall|i: int, j: int| 0 <= i < j < after.len() implies (#[trigger] after[i]).id != (
        #[trigger] after[j]).id by {
            assert(after[i].id == posts[i].id && after[j].id == posts[j].id);
        }
    }
}

/// Registries that agree on the identifiers, position by position, agree on
/// where each identifier is found.
pub proof fn lemma_same_ids_same_find(a: Seq<PostView>, b: Seq<PostView>, id: Seq<char>, start: int)
    requires
        a.len() == b.len(),
        forall|k: int| 0 <= k < a.len() ==> (#[trigger] a[k]).id == b[k].id,
    ensures
        find_from(a, id, start) == find_from(b, id, start),
    decreases a.len() - start,
{
    if 0 <= start < a.len() {
        assert(a[start].id == b[start].id);
        if a[start].id != id {
            lemma_same_ids_same_find(a, b, id, start + 1);
        }
    }
}

/// Two donations through the same post add up: where the post exists and its
/// total stays within 128 bits, donating `a` and then `b` leaves the total
/// that it had before plus `a + b`, which is what one donation of `a + b`
/// leaves. On a post that has received nothing yet, the total is `a + b`.
pub proof fn lemma_donations_add_up(posts: Seq<PostView>, id: Seq<char>, a: nat, b: nat)
    requires
        has_id(posts, id),
        donations(posts, id)->0 + a + b <= u128::MAX,
    ensures
        donations(with_donation(with_donation(posts, id, a), id, b), id) == Some(
            donations(posts, id)->0 + a + b,
        ),
        with_donation(with_donation(posts, id, a), id, b) == with_donation(posts, id, a + b),
{
    lemma_find(posts, id);
    let at = find(posts, id)->0;
    let once = with_donation(posts, id, a);
    lemma_with_donation(posts, id, a);
    assert(find(once, id) == Some(at));
    let twice = with_donation(once, id, b);
    lemma_with_donation(once, id, b);
    assert(find(twice, id) == Some(at));
    assert(twice =~= with_donation(posts, id, a + b));
}

/// The sum of `amounts`.
pub open spec fn total_of(amounts: Seq<nat>) -> nat
    decreases amounts.len(),
{
    if amounts.len() == 0 {
        0
    } else {
        total_of(amounts.drop_last()) + amounts.last()
    }
}

/// The registry after donations of `amounts`, one after the other, through
/// the post `id`.
pub open spec fn with_donations(posts: Seq<PostView>, id: Seq<char>, amounts: Seq<nat>) -> Seq<
    PostView,
>
    decreases amounts.len(),
{
    if amounts.len() == 0 {
        posts
    } else {
        with_donation(with_donations(posts, id, amounts.drop_last()), id, amounts.last())
    }
}

/// Over any series of donations through a post, its total never gets smaller
/// and never exceeds what it was plus the sum of the amounts donated. Where
/// that sum still fits in 128 bits, every donation is recorded and the total
/// is exactly what it was plus the sum.
pub proof fn lemma_with_donations(posts: Seq<PostView>, id: Seq<char>, amounts: Seq<nat>)
    requires
        has_id(posts, id),
    ensures
        with_donations(posts, id, amounts).len() == posts.len(),
        find(with_donations(posts, id, amounts), id) == find(posts, id),
        donations(with_donations(posts, id, amounts), id) is Some,
        donations(posts, id)->0 <= donations(with_donations(posts, id, amounts), id)->0,
        donations(with_donations(posts, id, amounts), id)->0 <= donations(posts, id)->0 + total_of(
            amounts,
        ),
        donations(posts, id)->0 + total_of(amounts) <= u128::MAX ==> donations(
            with_donations(posts, id, amounts),
            id,
        )->0 == donations(posts, id)->0 + total_of(amounts),
    decreases amounts.len(),
{
    lemma_find(posts, id);
    if amounts.len() > 0 {
        let earlier = with_donations(posts, id, amounts.drop_last());
        lemma_with_donations(posts, id, amounts.drop_last());
        lemma_find(earlier, id);
        lemma_with_donation(earlier, id, amounts.last());
    }
}

/// `picked` lists the posts that stand in `posts` at the positions `at`, and
/// these positions increase: `picked` is a selection from `posts` in the
/// order of `posts`.
pub open spec fn picks_in_order(posts: Seq<PostView>, picked: Seq<PostView>, at: Seq<int>) -> bool {
    &&& at.len() == picked.len()
    &&& forall|k: int|
        0 <= k < at.len() ==> 0 <= #[trigger] at[k] < posts.len() && posts[at[k]] == picked[k]
    &&& forall|k: int, l: int| 0 <= k < l < at.len() ==> #[trigger] at[k] < #[trigger] at[l]
}

/// Filtering keeps the order: the posts that pass stand in the result as they
/// stood in the registry. The result of the proof is the positions they came
/// from.
pub proof fn lemma_filter_in_order(posts: Seq<PostView>, keep: spec_fn(PostView) -> bool) -> (at:
    Seq<int>)
    ensures
        picks_in_order(posts, posts.filter(keep), at),
    decreases posts.len(),
{
    reveal(Seq::filter);
    if posts.len() == 0 {
        Seq::empty()
    } else {
        let front = posts.drop_last();
        let front_at = lemma_filter_in_order(front, keep);
        assert forall|k: int| 0 <= k < front_at.len() implies posts[#[trigger] front_at[k]]
            == front.filter(keep)[k] by {
            assert(front[front_at[k]] == posts[front_at[k]]);
        }
        if keep(posts.last()) {
            front_at.push(posts.len() - 1)
        } else {
            front_at
        }
    }
}

/// A search returns its posts in the order in which they stand in the
/// registry.
pub proof fn lemma_matching_in_order(posts: Seq<PostView>, query: Seq<char>)
    ensures
        exists|at: Seq<int>| picks_in_order(posts, matching(posts, query), at),
{
    let at = lemma_filter_in_order(posts, |p: PostView| is_substring(query, p.title));
    assert(picks_in_order(posts, matching(posts, query), at));
}

/// The posts that a deletion leaves stand in the order in which they stood
/// before.
pub proof fn lemma_without_id_in_order(posts: Seq<PostView>, id: Seq<char>)
    ensures
        exists|at: Seq<int>| picks_in_order(posts, without_id(posts, id), at),
{
    let at = lemma_filter_in_order(posts, |p: PostView| p.id != id);
    assert(picks_in_order(posts, without_id(posts, id), at));
}

} // verus!
