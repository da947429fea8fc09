use microblog::json::{data_envelope, error_envelope, json_string, u64_to_string};
use microblog::registry::{
    auth_required, method_of, payload_shape, response_shape, url_template, ApiEndpoint,
    CreateUser, CreateUserUrl, EndpointId, GetUser, GetUserUrl, Login, LoginUrl, Me, MeUrl,
    Method, PayloadShape, PostTweet, PostTweetUrl, ResponseShape, Url,
};
use microblog::render::{token_text, tweet_json, user_json};
use microblog::session::Token;
use microblog::tweets::TweetStore;
use microblog::users::UserStore;

#[test]
fn registry_binds_each_endpoint_to_its_facets() {
    let cases: Vec<(EndpointId, Method, &str, PayloadShape, ResponseShape, bool)> = vec![
        (
            EndpointId::CreateUser,
            Method::Post,
            "/users",
            PayloadShape::CreateUserPayload,
            ResponseShape::TokenGrant,
            false,
        ),
        (
            EndpointId::Login,
            Method::Post,
            "/users/:username/session",
            PayloadShape::LoginPayload,
            ResponseShape::TokenGrant,
            false,
        ),
        (
            EndpointId::Logout,
            Method::Delete,
            "/users/:username/session",
            PayloadShape::NoPayload,
            ResponseShape::NoContent,
            true,
        ),
        (
            EndpointId::Follow,
            Method::Post,
            "/users/:username/follow",
            PayloadShape::NoPayload,
            ResponseShape::NoContent,
            true,
        ),
        (
            EndpointId::ListFollowing,
            Method::Get,
            "/users/:username/following",
            PayloadShape::NoPayload,
            ResponseShape::UserSummaryList,
            true,
        ),
        (
            EndpointId::ListFollowers,
            Method::Get,
            "/users/:username/followers",
            PayloadShape::NoPayload,
            ResponseShape::UserSummaryList,
            true,
        ),
        (
            EndpointId::GetUser,
            Method::Get,
            "/users/:username",
            PayloadShape::NoPayload,
            ResponseShape::UserSummary,
            false,
        ),
        (
            EndpointId::Me,
            Method::Get,
            "/me",
            PayloadShape::NoPayload,
            ResponseShape::UserSummary,
            true,
        ),
        (
            EndpointId::Timeline,
            Method::Get,
            "/me/timeline",
            PayloadShape::NoPayload,
            ResponseShape::TweetList,
            true,
        ),
        (
            EndpointId::PostTweet,
            Method::Post,
            "/tweets",
            PayloadShape::CreateTweetPayload,
            ResponseShape::TweetBody,
            true,
        ),
    ];
    for (endpoint, method, template, payload, response, needs_auth) in cases {
        assert_eq!(method_of(&endpoint), method);
        assert_eq!(url_template(&endpoint), template);
        assert_eq!(payload_shape(&endpoint), payload);
        assert_eq!(response_shape(&endpoint), response);
        assert_eq!(auth_required(&endpoint), needs_auth);
    }
}

#[test]
fn no_two_endpoints_share_method_and_template() {
    let all = vec![
        EndpointId::CreateUser,
        EndpointId::Login,
        EndpointId::Logout,
        EndpointId::Follow,
        EndpointId::ListFollowing,
        EndpointId::ListFollowers,
        EndpointId::GetUser,
        EndpointId::Me,
        EndpointId::Timeline,
        EndpointId::PostTweet,
    ];
    for a in &all {
        for b in &all {
            if a != b {
                let same_route =
                    method_of(a) == method_of(b) && url_template(a) == url_template(b);
                assert!(!same_route);
            }
        }
    }
}

#[test]
fn url_values_render_their_templates() {
    let get_user = GetUserUrl { username: "bob".to_string() };
    assert_eq!(get_user.url(), "/users/bob");
    assert_eq!(PostTweetUrl.url(), "/tweets");
    assert_eq!(CreateUserUrl.url(), "/users");
    assert_eq!(MeUrl.url(), "/me");
    let login = LoginUrl { username: "ann".to_string() };
    assert_eq!(login.url(), "/users/ann/session");
}

#[test]
fn endpoint_types_bind_their_registry_identity() {
    assert_eq!(<CreateUser as ApiEndpoint>::endpoint_id(), EndpointId::CreateUser);
    assert_eq!(<Login as ApiEndpoint>::endpoint_id(), EndpointId::Login);
    assert_eq!(<Me as ApiEndpoint>::endpoint_id(), EndpointId::Me);
    assert_eq!(<GetUser as ApiEndpoint>::endpoint_id(), EndpointId::GetUser);
    assert_eq!(<PostTweet as ApiEndpoint>::endpoint_id(), EndpointId::PostTweet);
}

#[test]
fn decimal_rendering_is_exact() {
    assert_eq!(u64_to_string(0), "0");
    assert_eq!(u64_to_string(9), "9");
    assert_eq!(u64_to_string(10), "10");
    assert_eq!(u64_to_string(1234567890), "1234567890");
    assert_eq!(u64_to_string(u64::MAX), "18446744073709551615");
}

#[test]
fn json_strings_are_escaped() {
    assert_eq!(json_string("plain"), "\"plain\"");
    assert_eq!(json_string(""), "\"\"");
    assert_eq!(json_string("a\"b"), "\"a\\\"b\"");
    assert_eq!(json_string("back\\slash"), "\"back\\\\slash\"");
    assert_eq!(json_string("line\nbreak\ttab\rreturn"), "\"line\\nbreak\\ttab\\rreturn\"");
}

#[test]
fn envelopes_wrap_payloads() {
    assert_eq!(data_envelope("{\"x\":1}"), "{\"data\":{\"x\":1}}");
    assert_eq!(error_envelope("oh \"no\""), "{\"error\":{\"message\":\"oh \\\"no\\\"\"}}");
}

#[test]
fn token_and_payload_rendering_is_exact() {
    let token = Token { seq: 3, entropy: 9 };
    assert_eq!(token_text(&token), "3-9");

    let mut users = UserStore::new();
    users.create_user("alice".to_string(), "h".to_string()).unwrap();
    assert_eq!(user_json(&users.users[0]), "{\"id\":1,\"username\":\"alice\"}");

    let mut store = TweetStore::new();
    let tweet = store.create_tweet(1, "say \"hi\"".to_string(), 4).unwrap();
    assert_eq!(
        tweet_json(&tweet),
        "{\"id\":1,\"author_id\":1,\"text\":\"say \\\"hi\\\"\",\"created_at\":4}"
    );
}
