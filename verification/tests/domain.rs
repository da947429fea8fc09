use microblog::errors::{ApiError, AuthError, FollowError, ValidationError};
use microblog::errors::{error_message, status_code};
use microblog::graph::Graph;
use microblog::timeline::timeline;
use microblog::tweets::TweetStore;
use microblog::users::UserStore;
use microblog::validate::{validate_tweet_text, validate_username, MAX_TWEET_LENGTH};

#[test]
fn tweet_text_boundaries() {
    let at_max = "a".repeat(MAX_TWEET_LENGTH);
    let over_max = "a".repeat(MAX_TWEET_LENGTH + 1);
    assert_eq!(validate_tweet_text(&at_max), Ok(()));
    assert_eq!(validate_tweet_text(&over_max), Err(ValidationError::TooLong));
    assert_eq!(validate_tweet_text("x"), Ok(()));
    assert_eq!(validate_tweet_text(""), Err(ValidationError::Empty));
}

#[test]
fn tweet_length_counts_scalar_values_not_bytes() {
    // 280 two-byte characters: 560 bytes, but exactly at the scalar limit.
    let text = "é".repeat(MAX_TWEET_LENGTH);
    assert!(text.len() > MAX_TWEET_LENGTH);
    assert_eq!(validate_tweet_text(&text), Ok(()));
    let over = "é".repeat(MAX_TWEET_LENGTH + 1);
    assert_eq!(validate_tweet_text(&over), Err(ValidationError::TooLong));
}

#[test]
fn username_must_not_be_empty() {
    assert_eq!(validate_username(""), Err(ValidationError::Empty));
    assert_eq!(validate_username("bob"), Ok(()));
}

#[test]
fn created_tweet_keeps_text_exactly() {
    let mut store = TweetStore::new();
    let tweet = store.create_tweet(1, "Hello, World!".to_string(), 42).unwrap();
    assert_eq!(tweet.text, "Hello, World!");
    assert_eq!(tweet.id, 1);
    assert_eq!(tweet.author_id, 1);
    assert_eq!(tweet.created_at, 42);
    assert_eq!(store.tweets.len(), 1);
}

#[test]
fn rejected_tweet_is_not_persisted() {
    let mut store = TweetStore::new();
    let text = "a".repeat(1000);
    assert_eq!(store.create_tweet(1, text, 0).err(), Some(ValidationError::TooLong));
    assert_eq!(store.create_tweet(1, String::new(), 0).err(), Some(ValidationError::Empty));
    assert_eq!(store.tweets.len(), 0);
}

#[test]
fn timestamps_never_go_backwards() {
    let mut store = TweetStore::new();
    let first = store.create_tweet(1, "one".to_string(), 50).unwrap();
    let second = store.create_tweet(1, "two".to_string(), 10).unwrap();
    assert_eq!(first.created_at, 50);
    assert_eq!(second.created_at, 50);
    assert!(second.id > first.id);
}

#[test]
fn get_tweets_by_authors_filters() {
    let mut store = TweetStore::new();
    store.create_tweet(1, "from one".to_string(), 1).unwrap();
    store.create_tweet(2, "from two".to_string(), 2).unwrap();
    store.create_tweet(1, "again one".to_string(), 3).unwrap();
    let picked = store.get_tweets_by_authors(&vec![1]);
    assert_eq!(picked.len(), 2);
    assert_eq!(picked[0].text, "from one");
    assert_eq!(picked[1].text, "again one");
    let none = store.get_tweets_by_authors(&vec![9]);
    assert_eq!(none.len(), 0);
}

#[test]
fn follow_then_listing_contains_then_unfollow_removes() {
    let mut graph = Graph::new();
    assert_eq!(graph.follow(1, 2), Ok(()));
    let following = graph.list_following(1);
    assert!(following.contains(&2));
    assert_eq!(graph.unfollow(1, 2), Ok(()));
    let following = graph.list_following(1);
    assert!(!following.contains(&2));
}

#[test]
fn self_follow_fails() {
    let mut graph = Graph::new();
    assert_eq!(graph.follow(3, 3), Err(FollowError::SelfFollow));
    assert_eq!(graph.edges.len(), 0);
}

#[test]
fn duplicate_follow_fails_and_unfollow_without_edge_fails() {
    let mut graph = Graph::new();
    assert_eq!(graph.follow(1, 2), Ok(()));
    assert_eq!(graph.follow(1, 2), Err(FollowError::AlreadyFollowing));
    assert_eq!(graph.edges.len(), 1);
    assert_eq!(graph.unfollow(2, 1), Err(FollowError::NotFollowing));
}

#[test]
fn followers_lists_the_other_direction() {
    let mut graph = Graph::new();
    graph.follow(1, 3).unwrap();
    graph.follow(2, 3).unwrap();
    let followers = graph.list_followers(3);
    assert_eq!(followers, vec![1, 2]);
    assert_eq!(graph.list_following(3).len(), 0);
}

#[test]
fn timeline_is_filtered_and_newest_first() {
    let mut graph = Graph::new();
    let mut store = TweetStore::new();
    store.create_tweet(1, "old tweet by me".to_string(), 5).unwrap();
    store.create_tweet(2, "tweet by followed".to_string(), 10).unwrap();
    store.create_tweet(3, "tweet by stranger".to_string(), 15).unwrap();
    graph.follow(1, 2).unwrap();

    let feed = timeline(&graph, &store, 1);
    assert_eq!(feed.len(), 2);
    assert_eq!(feed[0].text, "tweet by followed");
    assert_eq!(feed[1].text, "old tweet by me");
    assert!(feed[0].created_at >= feed[1].created_at);
}

#[test]
fn timeline_breaks_timestamp_ties_by_id_descending() {
    let graph = Graph::new();
    let mut store = TweetStore::new();
    store.create_tweet(1, "first".to_string(), 7).unwrap();
    store.create_tweet(1, "second".to_string(), 7).unwrap();
    let feed = timeline(&graph, &store, 1);
    assert_eq!(feed.len(), 2);
    assert_eq!(feed[0].id, 2);
    assert_eq!(feed[1].id, 1);
    assert_eq!(feed[0].created_at, feed[1].created_at);
}

#[test]
fn username_uniqueness_is_enforced() {
    let mut users = UserStore::new();
    assert_eq!(users.create_user("alice".to_string(), "h1".to_string()), Ok(1));
    assert_eq!(
        users.create_user("alice".to_string(), "h2".to_string()),
        Err(ApiError::Conflict)
    );
    assert_eq!(users.create_user("bob".to_string(), "h3".to_string()), Ok(2));
    assert_eq!(users.users.len(), 2);
}

#[test]
fn credentials_are_checked() {
    let mut users = UserStore::new();
    users.create_user("alice".to_string(), "right".to_string()).unwrap();
    assert_eq!(users.check_credentials("alice", "right"), Ok(1));
    assert_eq!(
        users.check_credentials("alice", "wrong"),
        Err(ApiError::Auth(AuthError::BadCredentials))
    );
    assert_eq!(users.check_credentials("nobody", "right"), Err(ApiError::NotFound));
}

#[test]
fn every_error_maps_to_its_status_and_message() {
    let cases: Vec<(ApiError, u16, &str)> = vec![
        (ApiError::MalformedRequest, 400, "Malformed request"),
        (ApiError::Validation(ValidationError::TooLong), 422, "Tweet is too long. Max then is 280"),
        (ApiError::Validation(ValidationError::Empty), 422, "Text must not be empty"),
        (ApiError::Auth(AuthError::InvalidToken), 401, "Invalid token"),
        (ApiError::Auth(AuthError::BadCredentials), 401, "Invalid credentials"),
        (ApiError::Follow(FollowError::SelfFollow), 422, "Cannot follow yourself"),
        (ApiError::Follow(FollowError::AlreadyFollowing), 409, "Already following"),
        (ApiError::Follow(FollowError::NotFollowing), 409, "Not following"),
        (ApiError::NotFound, 404, "User not found"),
        (ApiError::Conflict, 409, "Username is taken"),
    ];
    for (err, code, msg) in cases {
        assert_eq!(status_code(&err), code);
        assert_eq!(error_message(&err), msg);
    }
}
