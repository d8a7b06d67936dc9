use post_registry::{Donation, Post, Posts, Resolution};

const IMAGE: &str =
    "https://assets-global.website-files.com/5f6b7190899f41fb70882d08/5f88764e3ed8f3d00b60aa32_team-hero-hex.webp";

fn two_posts() -> Posts {
    let mut post = Posts::new();
    post.new_post("title".to_string(), "body".to_string(), Some(IMAGE.to_string()));
    post.new_post("title 1".to_string(), "body 1".to_string(), Some(IMAGE.to_string()));
    post
}

#[test]
fn new_post_with_title() {
    let mut post = Posts::new();
    post.new_post("title".to_string(), "body".to_string(), Some(IMAGE.to_string()));
    post.new_post("title 1".to_string(), "body 1".to_string(), Some(IMAGE.to_string()));
    assert_eq!(post.posts.len(), 2);
}

#[test]
fn get_posts() {
    let mut post = Posts::new();
    post.new_post("title".to_string(), "body".to_string(), Some(IMAGE.to_string()));
    post.new_post("title 1".to_string(), "body 1".to_string(), Some(IMAGE.to_string()));
    let posts = post.get_posts();
    println!("Id: {}, Author: {}", posts[0].id, posts[0].author);
    assert_eq!(posts.len(), 2);
    assert_eq!(posts[0].body, "body".to_string());
}

#[test]
fn search_posts() {
    let mut post = Posts::new();
    post.new_post("title".to_string(), "body".to_string(), Some(IMAGE.to_string()));
    post.new_post("title 1".to_string(), "body 1".to_string(), Some(IMAGE.to_string()));
    let posts = post.search_posts("title".to_string());
    assert_eq!(posts.len(), 2);
    assert_eq!(posts[1].body, "body 1".to_string());
    println!("{:?}", posts);
}

#[test]
fn delete_post() {
    let mut post = Posts::new();
    post.new_post("title".to_string(), "body".to_string(), Some(IMAGE.to_string()));
    post.new_post("title 1".to_string(), "body 1".to_string(), Some(IMAGE.to_string()));
    post.delete_post(post.posts[0].id.to_string());
    let posts = post.get_posts();
    assert_eq!(posts.len(), 1);
    println!("{:?}", posts);
}

#[test]
fn sucess_donate_author() {
    let mut post = Posts::new();
    post.new_post("title".to_string(), "body".to_string(), Some(IMAGE.to_string()));
    post.new_post("title 1".to_string(), "body 1".to_string(), Some(IMAGE.to_string()));
    let _donate1 = post.donate_author(post.posts[0].id.to_string(), 100);
    let _donate2 = post.donate_author(post.posts[0].id.to_string(), 100);
    let _donate3 = post.donate_author(post.posts[0].id.to_string(), 100);
    assert_eq!(post.posts[0].donation_total, 300);
}

#[test]
fn fail_donate_author() {
    let mut post = Posts::new();
    post.new_post("title".to_string(), "body".to_string(), Some(IMAGE.to_string()));
    post.new_post("title 1".to_string(), "body 1".to_string(), Some(IMAGE.to_string()));
    let _donate1 = post.donate_author(post.posts[0].id.to_string(), 100);
    let _donate2 = post.donate_author(post.posts[0].id.to_string(), 100);
    let _donate3 = post.donate_author(post.posts[0].id.to_string(), 100);
    assert_ne!(post.posts[0].donation_total, 400);
}

#[test]
fn new_registry_is_empty() {
    let registry = Posts::new();
    assert!(registry.posts.is_empty());
    assert!(registry.get_posts().is_empty());
}

#[test]
fn new_post_returns_the_record_it_stored() {
    let mut registry = Posts::new();
    let made = registry
        .new_post("title".to_string(), "body".to_string(), Some("Qm123".to_string()))
        .unwrap();
    assert_eq!(registry.posts.len(), 1);
    assert_eq!(registry.posts[0], made);
    assert_eq!(made.title, "title");
    assert_eq!(made.body, "body");
    assert_eq!(made.image, Some("Qm123".to_string()));
    assert_eq!(made.donation_total, 0);
}

#[test]
fn new_post_identifier_is_a_hyphenated_uuid() {
    let mut registry = Posts::new();
    let made = registry.new_post("t".to_string(), "b".to_string(), None).unwrap();
    let id: Vec<char> = made.id.chars().collect();
    assert_eq!(id.len(), 36);
    for (i, c) in id.iter().enumerate() {
        if i == 8 || i == 13 || i == 18 || i == 23 {
            assert_eq!(*c, '-');
        } else {
            assert!(matches!(*c, '0'..='9' | 'a'..='f'));
        }
    }
    assert_eq!(id[14], '4');
}

#[test]
fn new_post_author_is_the_caller() {
    let mut registry = Posts::new();
    let made = registry.new_post("t".to_string(), "b".to_string(), None).unwrap();
    assert_eq!(made.author, "bob.near");
    assert!(made.author.len() >= 2 && made.author.len() <= 64);
}

#[test]
fn many_posts_get_distinct_identifiers() {
    let mut registry = Posts::new();
    for n in 0..50 {
        let made = registry.new_post(format!("title {}", n), "body".to_string(), None);
        assert!(made.is_some());
    }
    assert_eq!(registry.posts.len(), 50);
    for i in 0..50 {
        assert_eq!(registry.posts[i].title, format!("title {}", i));
        for j in (i + 1)..50 {
            assert_ne!(registry.posts[i].id, registry.posts[j].id);
        }
    }
}

#[test]
fn add_post_appends_in_order() {
    let mut registry = Posts::new();
    assert!(registry.add_post("a".to_string(), "ann".to_string(), "one".to_string(), "b1".to_string(), None));
    assert!(registry.add_post(
        "b".to_string(),
        "bea".to_string(),
        "two".to_string(),
        "b2".to_string(),
        Some("Qm".to_string()),
    ));
    assert_eq!(registry.posts.len(), 2);
    let expected = Post {
        id: "b".to_string(),
        author: "bea".to_string(),
        title: "two".to_string(),
        body: "b2".to_string(),
        image: Some("Qm".to_string()),
        donation_total: 0,
    };
    assert_eq!(registry.posts[1], expected);
    assert_eq!(registry.posts[0].id, "a");
}

#[test]
fn add_post_refuses_an_identifier_in_use() {
    let mut registry = Posts::new();
    assert!(registry.add_post("a".to_string(), "ann".to_string(), "one".to_string(), "b1".to_string(), None));
    assert!(!registry.add_post("a".to_string(), "bea".to_string(), "two".to_string(), "b2".to_string(), None));
    assert_eq!(registry.posts.len(), 1);
    assert_eq!(registry.posts[0].author, "ann");
    assert_eq!(registry.posts[0].title, "one");
}

#[test]
fn post_new_starts_without_donations() {
    let post = Post::new("i".to_string(), "a".to_string(), "t".to_string(), "b".to_string(), None);
    assert_eq!(post.id, "i");
    assert_eq!(post.author, "a");
    assert_eq!(post.title, "t");
    assert_eq!(post.body, "b");
    assert_eq!(post.image, None);
    assert_eq!(post.donation_total, 0);
}

#[test]
fn position_finds_the_first_match() {
    let mut registry = Posts::new();
    registry.add_post("a".to_string(), "x".to_string(), "t".to_string(), "b".to_string(), None);
    registry.add_post("b".to_string(), "x".to_string(), "t".to_string(), "b".to_string(), None);
    registry.posts.push(Post::new("a".to_string(), "y".to_string(), "t".to_string(), "b".to_string(), None));
    assert_eq!(registry.position(&"a".to_string()), Some(0));
    assert_eq!(registry.position(&"b".to_string()), Some(1));
    assert_eq!(registry.position(&"c".to_string()), None);
}

#[test]
fn get_posts_hands_out_an_independent_copy() {
    let mut registry = two_posts();
    let mut copy = registry.get_posts();
    copy[0].title = "changed".to_string();
    copy.pop();
    assert_eq!(registry.posts.len(), 2);
    assert_eq!(registry.posts[0].title, "title");
    registry.delete_post(copy[0].id.clone());
    assert_eq!(copy.len(), 1);
}

#[test]
fn search_with_empty_query_returns_all() {
    let registry = two_posts();
    let found = registry.search_posts(String::new());
    assert_eq!(found, registry.get_posts());
}

#[test]
fn search_returns_the_matching_subset_in_order() {
    let mut registry = Posts::new();
    for title in ["alpha", "beta", "alphabet", "gamma", "ALPHA"] {
        registry.new_post(title.to_string(), "body".to_string(), None);
    }
    let titles: Vec<String> =
        registry.search_posts("alpha".to_string()).into_iter().map(|p| p.title).collect();
    assert_eq!(titles, vec!["alpha".to_string(), "alphabet".to_string()]);
    let titles: Vec<String> = registry.search_posts("a".to_string()).into_iter().map(|p| p.title).collect();
    assert_eq!(
        titles,
        vec!["alpha".to_string(), "beta".to_string(), "alphabet".to_string(), "gamma".to_string()]
    );
    assert!(registry.search_posts("delta".to_string()).is_empty());
    assert!(registry.search_posts("alphabets".to_string()).is_empty());
}

#[test]
fn search_is_case_sensitive_and_looks_at_titles_only() {
    let registry = two_posts();
    assert!(registry.search_posts("Title".to_string()).is_empty());
    assert!(registry.search_posts("body".to_string()).is_empty());
    let found = registry.search_posts("1".to_string());
    assert_eq!(found.len(), 1);
    assert_eq!(found[0].title, "title 1");
}

#[test]
fn delete_removes_the_post_and_nothing_else() {
    let mut registry = two_posts();
    let gone = registry.posts[0].id.clone();
    let stays = registry.posts[1].clone();
    registry.delete_post(gone.clone());
    assert_eq!(registry.posts, vec![stays]);
    assert_eq!(registry.get_donations(gone), None);
}

#[test]
fn delete_of_unknown_identifier_changes_nothing() {
    let mut registry = two_posts();
    let before = registry.get_posts();
    registry.delete_post("no such post".to_string());
    assert_eq!(registry.posts, before);
}

#[test]
fn delete_removes_every_post_with_the_identifier() {
    let mut registry = Posts::new();
    for id in ["a", "b", "a", "c", "a"] {
        registry.posts.push(Post::new(id.to_string(), "x".to_string(), id.to_string(), "b".to_string(), None));
    }
    registry.delete_post("a".to_string());
    let ids: Vec<String> = registry.get_posts().into_iter().map(|p| p.id).collect();
    assert_eq!(ids, vec!["b".to_string(), "c".to_string()]);
}

#[test]
fn donation_is_recorded_and_names_the_author() {
    let mut registry = Posts::new();
    registry.add_post("a".to_string(), "ann.near".to_string(), "t".to_string(), "b".to_string(), None);
    registry.add_post("b".to_string(), "bea.near".to_string(), "t".to_string(), "b".to_string(), None);
    let outcome = registry.donate_author("b".to_string(), 7);
    assert_eq!(outcome, Donation::Recorded { recipient: "bea.near".to_string(), amount: 7 });
    assert_eq!(registry.posts[1].donation_total, 7);
    assert_eq!(registry.posts[0].donation_total, 0);
}

#[test]
fn two_donations_add_up() {
    let mut registry = Posts::new();
    registry.add_post("a".to_string(), "ann.near".to_string(), "t".to_string(), "b".to_string(), None);
    registry.donate_author("a".to_string(), 12);
    registry.donate_author("a".to_string(), 30);
    assert_eq!(registry.get_donations("a".to_string()), Some(42));
}

#[test]
fn donation_of_zero_is_recorded() {
    let mut registry = Posts::new();
    registry.add_post("a".to_string(), "ann.near".to_string(), "t".to_string(), "b".to_string(), None);
    registry.donate_author("a".to_string(), 5);
    let outcome = registry.donate_author("a".to_string(), 0);
    assert_eq!(outcome, Donation::Recorded { recipient: "ann.near".to_string(), amount: 0 });
    assert_eq!(registry.get_donations("a".to_string()), Some(5));
}

#[test]
fn donation_to_unknown_post_changes_no_total() {
    let mut registry = two_posts();
    let id = registry.posts[0].id.clone();
    registry.donate_author(id, 9);
    let before = registry.get_posts();
    let outcome = registry.donate_author("no such post".to_string(), 100);
    assert_eq!(outcome, Donation::NotFound);
    assert_eq!(registry.posts, before);
}

#[test]
fn donation_that_would_overflow_is_rejected() {
    let mut registry = Posts::new();
    registry.add_post("a".to_string(), "ann.near".to_string(), "t".to_string(), "b".to_string(), None);
    assert_eq!(
        registry.donate_author("a".to_string(), u128::MAX),
        Donation::Recorded { recipient: "ann.near".to_string(), amount: u128::MAX }
    );
    assert_eq!(registry.donate_author("a".to_string(), 1), Donation::Overflow);
    assert_eq!(registry.get_donations("a".to_string()), Some(u128::MAX));
}

#[test]
fn donation_goes_to_the_first_post_with_the_identifier() {
    let mut registry = Posts::new();
    registry.posts.push(Post::new("a".to_string(), "x".to_string(), "t".to_string(), "b".to_string(), None));
    registry.posts.push(Post::new("a".to_string(), "y".to_string(), "t".to_string(), "b".to_string(), None));
    let outcome = registry.donate_author("a".to_string(), 3);
    assert_eq!(outcome, Donation::Recorded { recipient: "x".to_string(), amount: 3 });
    assert_eq!(registry.posts[0].donation_total, 3);
    assert_eq!(registry.posts[1].donation_total, 0);
}

#[test]
fn get_donations_reads_the_current_total() {
    let mut registry = two_posts();
    let first = registry.posts[0].id.clone();
    let second = registry.posts[1].id.clone();
    assert_eq!(registry.get_donations(first.clone()), Some(0));
    registry.donate_author(second.clone(), 250);
    assert_eq!(registry.get_donations(first), Some(0));
    assert_eq!(registry.get_donations(second), Some(250));
    assert_eq!(registry.get_donations("no such post".to_string()), None);
}

#[test]
fn create_post_with_stored_image_carries_its_address() {
    let mut registry = Posts::new();
    let made = registry
        .create_post("t".to_string(), "b".to_string(), Resolution::Stored("QmHash".to_string()))
        .unwrap();
    assert_eq!(made.image, Some("QmHash".to_string()));
    assert_eq!(registry.posts[0].image, Some("QmHash".to_string()));
}

#[test]
fn create_post_after_failed_resolution_has_no_image() {
    let mut registry = Posts::new();
    let made = registry
        .create_post("t".to_string(), "b".to_string(), Resolution::Failed("connection refused".to_string()))
        .unwrap();
    assert_eq!(made.image, None);
    assert_eq!(registry.posts.len(), 1);
    assert_eq!(registry.posts[0].title, "t");
}

#[test]
fn create_post_without_payload_has_no_image() {
    let mut registry = Posts::new();
    let made = registry.create_post("t".to_string(), "b".to_string(), Resolution::NoPayload).unwrap();
    assert_eq!(made.image, None);
    assert_eq!(registry.posts.len(), 1);
}

#[test]
fn resolution_image_keeps_only_a_stored_address() {
    assert_eq!(Resolution::Stored("Qm".to_string()).image(), Some("Qm".to_string()));
    assert_eq!(Resolution::Failed("Qm".to_string()).image(), None);
    assert_eq!(Resolution::NoPayload.image(), None);
}

#[test]
fn clone_is_an_independent_registry() {
    let mut registry = two_posts();
    let copy = registry.clone();
    registry.delete_post(copy.posts[0].id.clone());
    assert_eq!(copy.posts.len(), 2);
    assert_eq!(registry.posts.len(), 1);
    assert_eq!(registry.posts[0], copy.posts[1]);
}

#[test]
fn a_series_of_donations_sums_up() {
    let mut registry = two_posts();
    let id = registry.posts[1].id.clone();
    let amounts: [u128; 5] = [1, 0, 250, 7, 1_000_000_000_000_000_000_000_000];
    let mut seen: u128 = 0;
    for amount in amounts {
        registry.donate_author(id.clone(), amount);
        let total = registry.get_donations(id.clone()).unwrap();
        assert!(total >= seen);
        seen = total;
    }
    assert_eq!(seen, 1_000_000_000_000_000_000_000_258);
    assert_eq!(registry.posts[0].donation_total, 0);
}

#[test]
fn first_post_of_an_empty_registry_is_always_made() {
    for _ in 0..20 {
        let mut registry = Posts::new();
        assert!(registry.new_post("t".to_string(), "b".to_string(), None).is_some());
        assert_eq!(registry.posts.len(), 1);
    }
}
