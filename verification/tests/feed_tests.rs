use social_feeds_backend::codec::{
    decode_comment, decode_post, decode_user, encode_comment, encode_post, encode_user,
};
use social_feeds_backend::feed::Feed;
use social_feeds_backend::types::{redact, Comment, Error, Post, User};

fn seeded_feed() -> Feed {
    let mut f = Feed::new();
    let u = f
        .add_user("alice".to_string(), "555-0100".to_string(), "pw1".to_string())
        .unwrap();
    assert_eq!(u.id, 0);
    let p = f
        .add_post("Hello World".to_string(), "Hi there!!".to_string(), 0)
        .unwrap();
    assert_eq!(p.id, 1);
    f
}

#[test]
fn create_read_edit_post_scenario() {
    let mut f = Feed::new();
    let u = f
        .add_user("alice".to_string(), "555-0100".to_string(), "pw1".to_string())
        .unwrap();
    assert_eq!(u.id, 0);
    assert_eq!(u.name, "alice");
    assert_eq!(u.phone, "555-0100");
    assert!(u.post_ids.is_empty());

    let p = f
        .add_post("Hello World".to_string(), "Hi there!!".to_string(), 0)
        .unwrap();
    assert_eq!(p.id, 1);
    assert_eq!(p.likes, 0);
    assert!(p.comments.is_empty());

    let got = f.get_post_by_id(1).unwrap();
    assert_eq!(got.id, 1);
    assert_eq!(got.title, "Hello World");
    assert_eq!(got.content, "Hi there!!");
    assert_eq!(got.user_id, 0);

    let edited = f
        .edit_post(1, 0, "Updated".to_string(), "pw1".to_string())
        .unwrap();
    assert_eq!(edited.content, "Updated");
    assert_eq!(edited.title, "Hello World");

    let denied = f.edit_post(1, 0, "x".to_string(), "wrong".to_string());
    assert!(matches!(denied, Err(Error::Unauthorized { .. })));
    let still = f.get_post_by_id(1).unwrap();
    assert_eq!(still.content, "Updated");
}

#[test]
fn add_post_for_missing_user_is_not_found() {
    let mut f = Feed::new();
    // Validation runs before the user lookup, so a two-character title is
    // rejected as an invalid payload even when the user is missing too.
    let invalid = f.add_post("Hi".to_string(), "hello!".to_string(), 999);
    assert!(matches!(invalid, Err(Error::InvalidPayload { .. })));
    // With a valid payload, the missing user is reported.
    let r = f.add_post("Hi!".to_string(), "hello!".to_string(), 999);
    assert!(matches!(r, Err(Error::NotFound { .. })));
}

#[test]
fn comment_then_read_comments() {
    let mut f = seeded_feed();
    let msg = f
        .comment_on_post(1, 0, "nice post!".to_string(), "pw1".to_string())
        .unwrap();
    assert_eq!(msg, "succesfully added comment");

    let comments = f.get_post_comments(1).unwrap();
    assert_eq!(comments.len(), 1);
    assert_eq!(comments[0].1.creator_id, 0);
    assert_eq!(comments[0].1.post_id, 1);
    assert_eq!(comments[0].1.content, "nice post!");
}

#[test]
fn search_is_case_insensitive() {
    let f = seeded_feed();
    let found = f.search_post_by_title("HELLO".to_string()).unwrap();
    assert_eq!(found.len(), 1);
    assert_eq!(found[0].title, "Hello World");

    let missing = f.search_post_by_title("goodbye".to_string());
    assert!(matches!(missing, Err(Error::NotFound { .. })));
}

#[test]
fn empty_store_reads_are_not_found() {
    let f = Feed::new();
    assert!(matches!(f.get_all_posts(), Err(Error::NotFound { .. })));
    assert!(matches!(f.get_all_users(), Err(Error::NotFound { .. })));
    assert!(matches!(f.get_post_by_id(0), Err(Error::NotFound { .. })));
    assert!(matches!(f.get_user_by_id(0), Err(Error::NotFound { .. })));
    assert!(matches!(
        f.search_post_by_title("a".to_string()),
        Err(Error::NotFound { .. })
    ));
    assert!(matches!(
        f.get_user_by_name("a".to_string()),
        Err(Error::NotFound { .. })
    ));
    assert!(matches!(f.get_post_comments(0), Err(Error::NotFound { .. })));
}

#[test]
fn read_paths_redact_passwords() {
    let mut f = seeded_feed();
    f.add_user("bob".to_string(), "555-0101".to_string(), "pw2".to_string())
        .unwrap();

    let all = f.get_all_users().unwrap();
    assert_eq!(all.len(), 2);
    for u in &all {
        assert_eq!(u.password, "-");
    }

    let one = f.get_user_by_id(0).unwrap();
    assert_eq!(one.password, "-");
    assert_eq!(one.name, "alice");

    let by_name = f.get_user_by_name("ALI".to_string()).unwrap();
    assert_eq!(by_name.len(), 1);
    assert_eq!(by_name[0].id, 0);
    assert_eq!(by_name[0].password, "-");
}

#[test]
fn edit_user_keeps_password_and_skips_redaction() {
    let mut f = seeded_feed();
    let r = f.edit_user(0, "alicia".to_string(), "pw1".to_string()).unwrap();
    assert_eq!(r.name, "alicia");
    assert_eq!(r.password, "pw1");
    assert_eq!(r.phone, "555-0100");

    let denied = f.edit_user(0, "eve".to_string(), "bad".to_string());
    assert!(matches!(denied, Err(Error::Unauthorized { .. })));
    let still = f.get_user_by_id(0).unwrap();
    assert_eq!(still.name, "alicia");

    let missing = f.edit_user(77, "x".to_string(), "pw1".to_string());
    assert!(matches!(missing, Err(Error::NotFound { .. })));
}

#[test]
fn invalid_payloads_are_rejected_with_all_violations() {
    let mut f = Feed::new();
    let r = f.add_user("al".to_string(), "1".to_string(), "pw".to_string());
    match r {
        Err(Error::InvalidPayload { msg }) => {
            assert!(msg.contains("name"));
            assert!(msg.contains("phone"));
        }
        _ => panic!("expected an invalid payload error"),
    }

    let r2 = f.add_post("Hi".to_string(), "short".to_string(), 0);
    match r2 {
        Err(Error::InvalidPayload { msg }) => {
            assert!(msg.contains("title"));
            assert!(msg.contains("content"));
        }
        _ => panic!("expected an invalid payload error"),
    }
}

#[test]
fn unauthorized_comment_leaves_stores_untouched() {
    let mut f = seeded_feed();
    let r = f.comment_on_post(1, 0, "hey".to_string(), "bad".to_string());
    assert!(matches!(r, Err(Error::Unauthorized { .. })));
    assert!(matches!(f.get_post_comments(1), Err(Error::NotFound { .. })));
}

#[test]
fn identifiers_are_unique_and_strictly_increase() {
    let mut f = seeded_feed();
    // A comment on a missing post still consumes an identifier.
    let r = f.comment_on_post(999, 0, "hey".to_string(), "pw1".to_string());
    assert!(matches!(r, Err(Error::NotFound { .. })));

    let p = f
        .add_post("Second".to_string(), "More text".to_string(), 0)
        .unwrap();
    assert_eq!(p.id, 3);

    let u = f
        .add_user("carol".to_string(), "555-0102".to_string(), "pw3".to_string())
        .unwrap();
    assert_eq!(u.id, 4);

    f.comment_on_post(1, 0, "first!".to_string(), "pw1".to_string())
        .unwrap();
    let comments = f.get_post_comments(1).unwrap();
    assert_eq!(comments[0].0, 5);

    let mut seen = vec![0u64, 1, 3, 4, 5];
    seen.dedup();
    assert_eq!(seen.len(), 5);
}

#[test]
fn user_record_round_trips_through_bytes() {
    let u = User {
        id: 7,
        name: "dora".to_string(),
        phone: "555-0199".to_string(),
        password: "secret".to_string(),
        post_ids: vec![1, 2, 9],
    };
    let bytes = encode_user(&u);
    let back = decode_user(&bytes).unwrap();
    assert_eq!(back.id, 7);
    assert_eq!(back.name, "dora");
    assert_eq!(back.phone, "555-0199");
    assert_eq!(back.password, "secret");
    assert_eq!(back.post_ids, vec![1, 2, 9]);
}

#[test]
fn post_record_round_trips_through_bytes() {
    let p = Post {
        id: 3,
        title: "Tïtle ✓".to_string(),
        content: "content!".to_string(),
        user_id: 0,
        comments: vec![
            (
                4,
                Comment { creator_id: 0, post_id: 3, content: "yes".to_string() },
            ),
            (
                6,
                Comment { creator_id: 0, post_id: 3, content: "indeed".to_string() },
            ),
        ],
        likes: 11,
    };
    let bytes = encode_post(&p);
    let back = decode_post(&bytes).unwrap();
    assert_eq!(back.id, 3);
    assert_eq!(back.title, "Tïtle ✓");
    assert_eq!(back.content, "content!");
    assert_eq!(back.user_id, 0);
    assert_eq!(back.likes, 11);
    assert_eq!(back.comments.len(), 2);
    assert_eq!(back.comments[0].0, 4);
    assert_eq!(back.comments[0].1.content, "yes");
    assert_eq!(back.comments[1].0, 6);
    assert_eq!(back.comments[1].1.content, "indeed");
}

#[test]
fn comment_record_round_trips_through_bytes() {
    let c = Comment { creator_id: 1, post_id: 2, content: "ok then".to_string() };
    let bytes = encode_comment(&c);
    let back = decode_comment(&bytes).unwrap();
    assert_eq!(back.creator_id, 1);
    assert_eq!(back.post_id, 2);
    assert_eq!(back.content, "ok then");
}

#[test]
fn decoding_rejects_corrupt_bytes() {
    let u = User {
        id: 1,
        name: "abc".to_string(),
        phone: "123".to_string(),
        password: "p".to_string(),
        post_ids: vec![],
    };
    let mut bytes = encode_user(&u);
    bytes.pop();
    assert!(decode_user(&bytes).is_none());
    assert!(decode_user(&Vec::new()).is_none());
}

#[test]
fn redaction_is_idempotent() {
    let u = User {
        id: 5,
        name: "erin".to_string(),
        phone: "555-0177".to_string(),
        password: "hunter2".to_string(),
        post_ids: vec![8],
    };
    let once = redact(u);
    assert_eq!(once.password, "-");
    let name_before = once.name.clone();
    let twice = redact(once);
    assert_eq!(twice.password, "-");
    assert_eq!(twice.name, name_before);
    assert_eq!(twice.id, 5);
    assert_eq!(twice.post_ids, vec![8]);
}
