use microblog::api::App;
use microblog::registry::{CreateTweetPayload, CreateUserPayload};
use microblog::session::Token;
use microblog::validate::MAX_TWEET_LENGTH;

fn setup_user(app: &mut App, name: &str) -> Token {
    let entropy: u64 = 7;
    let seq = app.sessions.next_seq;
    let payload = CreateUserPayload {
        username: name.to_string(),
        password: "secret-hash".to_string(),
    };
    let (status, _body) = app.handle_create_user(payload, entropy);
    assert_eq!(status, 201);
    Token { seq, entropy }
}

#[test]
fn posting_a_valid_tweet() {
    let mut app = App::new();
    let token = setup_user(&mut app, "alice");

    let (status, body) = app.handle_post_tweet(Some(token), CreateTweetPayload { text: "Hello, World!".to_string() }, 0);
    assert_eq!(status, 201);

    assert_eq!(
        body,
        "{\"data\":{\"id\":1,\"author_id\":1,\"text\":\"Hello, World!\",\"created_at\":0}}"
    );
}

#[test]
fn posting_a_tweet_that_is_too_long() {
    let mut app = App::new();
    let token = setup_user(&mut app, "alice");

    let text = std::iter::repeat('a').take(1000).collect::<String>();
    let (status, body) = app.handle_post_tweet(Some(token), CreateTweetPayload { text }, 0);
    assert_eq!(status, 422);

    assert_eq!(
        body,
        format!(
            "{{\"error\":{{\"message\":\"Tweet is too long. Max then is {}\"}}}}",
            MAX_TWEET_LENGTH
        )
    );
}

#[test]
fn posting_a_tweet_that_is_exactly_the_max_length() {
    let mut app = App::new();
    let token = setup_user(&mut app, "alice");

    let text = std::iter::repeat('a').take(MAX_TWEET_LENGTH).collect::<String>();
    let (status, body) = app.handle_post_tweet(Some(token), CreateTweetPayload { text: text.clone() }, 0);
    assert_eq!(status, 201);

    assert!(body.starts_with("{\"data\":"));
    assert!(body.contains(&text));
}
