use microblog::api::App;
use microblog::registry::{CreateTweetPayload, CreateUserPayload, LoginPayload};
use microblog::session::Token;

fn signed_up(app: &mut App, name: &str, entropy: u64) -> Token {
    let seq = app.sessions.next_seq;
    let payload = CreateUserPayload { username: name.to_string(), password: "pw-hash".to_string() };
    let (status, _) = app.handle_create_user(payload, entropy);
    assert_eq!(status, 201);
    Token { seq, entropy }
}

#[test]
fn create_user_grants_a_token() {
    let mut app = App::new();
    let (status, body) = app.handle_create_user(CreateUserPayload { username: "alice".to_string(), password: "pw-hash".to_string() }, 99);
    assert_eq!(status, 201);
    assert_eq!(body, "{\"data\":{\"token\":\"0-99\"}}");
}

#[test]
fn create_user_rejects_empty_and_taken_names() {
    let mut app = App::new();
    let (status, body) = app.handle_create_user(CreateUserPayload { username: String::new(), password: "pw-hash".to_string() }, 1);
    assert_eq!(status, 422);
    assert_eq!(body, "{\"error\":{\"message\":\"Text must not be empty\"}}");

    signed_up(&mut app, "alice", 1);
    let (status, body) = app.handle_create_user(CreateUserPayload { username: "alice".to_string(), password: "other".to_string() }, 2);
    assert_eq!(status, 409);
    assert_eq!(body, "{\"error\":{\"message\":\"Username is taken\"}}");
}

#[test]
fn login_checks_credentials() {
    let mut app = App::new();
    signed_up(&mut app, "alice", 1);

    let (status, body) = app.handle_login("alice", LoginPayload { password: "pw-hash".to_string() }, 55);
    assert_eq!(status, 200);
    assert_eq!(body, "{\"data\":{\"token\":\"1-55\"}}");

    let (status, body) = app.handle_login("alice", LoginPayload { password: "wrong".to_string() }, 56);
    assert_eq!(status, 401);
    assert_eq!(body, "{\"error\":{\"message\":\"Invalid credentials\"}}");

    let (status, body) = app.handle_login("nobody", LoginPayload { password: "pw-hash".to_string() }, 57);
    assert_eq!(status, 404);
    assert_eq!(body, "{\"error\":{\"message\":\"User not found\"}}");
}

#[test]
fn revoked_token_fails_later_authentication() {
    let mut app = App::new();
    let token = signed_up(&mut app, "alice", 1);

    let (status, body) = app.handle_logout(Some(token));
    assert_eq!(status, 200);
    assert_eq!(body, "{\"data\":null}");

    // The revoked token fails every later authenticated call.
    let (status, _) = app.handle_post_tweet(Some(token), CreateTweetPayload { text: "hi".to_string() }, 0);
    assert_eq!(status, 401);
    let (status, _) = app.handle_me(Some(token));
    assert_eq!(status, 401);

    // Even after new sessions open, the spent token stays invalid.
    let (status, _) = app.handle_login("alice", LoginPayload { password: "pw-hash".to_string() }, 1);
    assert_eq!(status, 200);
    let (status, body) = app.handle_me(Some(token));
    assert_eq!(status, 401);
    assert_eq!(body, "{\"error\":{\"message\":\"Invalid token\"}}");
}

#[test]
fn logout_is_idempotent_on_state() {
    let mut app = App::new();
    let token = signed_up(&mut app, "alice", 1);
    let (status, _) = app.handle_logout(Some(token));
    assert_eq!(status, 200);
    let sessions_after_first = app.sessions.sessions.len();
    // A second logout of the same token is rejected as unauthenticated and
    // changes nothing.
    let (status, _) = app.handle_logout(Some(token));
    assert_eq!(status, 401);
    assert_eq!(app.sessions.sessions.len(), sessions_after_first);
}

#[test]
fn missing_token_is_rejected() {
    let mut app = App::new();
    signed_up(&mut app, "alice", 1);
    let (status, _) = app.handle_post_tweet(None, CreateTweetPayload { text: "hi".to_string() }, 0);
    assert_eq!(status, 401);
    let (status, _) = app.handle_timeline(None);
    assert_eq!(status, 401);
    let forged = Token { seq: 400, entropy: 0 };
    let (status, _) = app.handle_me(Some(forged));
    assert_eq!(status, 401);
}

#[test]
fn get_user_and_me_answer_summaries() {
    let mut app = App::new();
    let token = signed_up(&mut app, "alice", 1);

    let (status, body) = app.handle_get_user("alice");
    assert_eq!(status, 200);
    assert_eq!(body, "{\"data\":{\"id\":1,\"username\":\"alice\"}}");

    let (status, body) = app.handle_get_user("nobody");
    assert_eq!(status, 404);
    assert_eq!(body, "{\"error\":{\"message\":\"User not found\"}}");

    let (status, body) = app.handle_me(Some(token));
    assert_eq!(status, 200);
    assert_eq!(body, "{\"data\":{\"id\":1,\"username\":\"alice\"}}");
}

#[test]
fn follow_endpoint_enforces_the_rules() {
    let mut app = App::new();
    let alice = signed_up(&mut app, "alice", 1);
    signed_up(&mut app, "bob", 2);

    let (status, body) = app.handle_follow(Some(alice), "alice");
    assert_eq!(status, 422);
    assert_eq!(body, "{\"error\":{\"message\":\"Cannot follow yourself\"}}");

    let (status, body) = app.handle_follow(Some(alice), "bob");
    assert_eq!(status, 200);
    assert_eq!(body, "{\"data\":null}");

    let (status, body) = app.handle_follow(Some(alice), "bob");
    assert_eq!(status, 409);
    assert_eq!(body, "{\"error\":{\"message\":\"Already following\"}}");

    let (status, _) = app.handle_follow(Some(alice), "nobody");
    assert_eq!(status, 404);
}

#[test]
fn following_and_followers_answer_summaries() {
    let mut app = App::new();
    let alice = signed_up(&mut app, "alice", 1);
    let bob = signed_up(&mut app, "bob", 2);
    app.handle_follow(Some(alice), "bob");

    let (status, body) = app.handle_following(Some(alice), "alice");
    assert_eq!(status, 200);
    assert_eq!(body, "{\"data\":[{\"id\":2,\"username\":\"bob\"}]}");

    let (status, body) = app.handle_followers(Some(bob), "bob");
    assert_eq!(status, 200);
    assert_eq!(body, "{\"data\":[{\"id\":1,\"username\":\"alice\"}]}");

    let (status, body) = app.handle_followers(Some(bob), "alice");
    assert_eq!(status, 200);
    assert_eq!(body, "{\"data\":[]}");
}

#[test]
fn followed_users_tweet_appears_first_in_timeline() {
    let mut app = App::new();
    let alice = signed_up(&mut app, "alice", 1);
    let bob = signed_up(&mut app, "bob", 2);

    // An older tweet by alice herself, then alice follows bob, then bob
    // posts: alice's timeline holds bob's tweet before the older one.
    let (status, _) = app.handle_post_tweet(Some(alice), CreateTweetPayload { text: "older".to_string() }, 10);
    assert_eq!(status, 201);
    let (status, _) = app.handle_follow(Some(alice), "bob");
    assert_eq!(status, 200);
    let (status, _) = app.handle_post_tweet(Some(bob), CreateTweetPayload { text: "fresh from bob".to_string() }, 20);
    assert_eq!(status, 201);

    let (status, body) = app.handle_timeline(Some(alice));
    assert_eq!(status, 200);
    assert_eq!(
        body,
        "{\"data\":[\
         {\"id\":2,\"author_id\":2,\"text\":\"fresh from bob\",\"created_at\":20},\
         {\"id\":1,\"author_id\":1,\"text\":\"older\",\"created_at\":10}]}"
    );
}

#[test]
fn timeline_hides_strangers() {
    let mut app = App::new();
    let alice = signed_up(&mut app, "alice", 1);
    let carol = signed_up(&mut app, "carol", 3);
    let (status, _) = app.handle_post_tweet(Some(carol), CreateTweetPayload { text: "from a stranger".to_string() }, 5);
    assert_eq!(status, 201);
    let (status, body) = app.handle_timeline(Some(alice));
    assert_eq!(status, 200);
    assert_eq!(body, "{\"data\":[]}");
}
