//! The contract registry: one entry per endpoint, binding its HTTP method,
//! URL template, payload shape, response shape and whether it requires a
//! bearer token. Both the request-building side and the request-handling
//! side read the same entry, so the two cannot drift apart; the registry is
//! proved unambiguous (no two endpoints share method and template).

use vstd::prelude::*;
use vstd::string::*;

verus! {

/// An HTTP method.
#[derive(Clone, Copy, Debug, PartialEq, Eq, Structural)]
pub enum Method {
    /// GET
    Get,
    /// POST
    Post,
    /// PUT
    Put,
    /// PATCH
    Patch,
    /// DELETE
    Delete,
    /// OPTIONS
    Options,
    /// HEAD
    Head,
    /// CONNECT
    Connect,
    /// TRACE
    Trace,
}

/// The logical identity of an endpoint; the registry functions map it to the
/// endpoint's facets.
#[derive(Clone, Copy, Debug, PartialEq, Eq, Structural)]
pub enum EndpointId {
    /// Sign a user up.
    CreateUser,
    /// Open a session.
    Login,
    /// End a session.
    Logout,
    /// Follow the named user.
    Follow,
    /// List whom the named user follows.
    ListFollowing,
    /// List who follows the named user.
    ListFollowers,
    /// Fetch the named user's summary.
    GetUser,
    /// Fetch the authenticated user's summary.
    Me,
    /// Fetch the authenticated user's timeline.
    Timeline,
    /// Post a tweet.
    PostTweet,
}

/// The shape of an endpoint's request payload.
#[derive(Clone, Copy, Debug, PartialEq, Eq, Structural)]
pub enum PayloadShape {
    /// The request carries no payload.
    NoPayload,
    /// `{username, password}`.
    CreateUserPayload,
    /// `{password}`.
    LoginPayload,
    /// `{text}`.
    CreateTweetPayload,
}

/// The shape of an endpoint's success response, inside the data envelope.
#[derive(Clone, Copy, Debug, PartialEq, Eq, Structural)]
pub enum ResponseShape {
    /// A token grant.
    TokenGrant,
    /// No content (`null`).
    NoContent,
    /// One user summary.
    UserSummary,
    /// A list of user summaries.
    UserSummaryList,
    /// One tweet.
    TweetBody,
    /// A list of tweets.
    TweetList,
}

/// The HTTP method of each endpoint.
pub open spec fn spec_method_of(e: EndpointId) -> Method {
    match e {
        EndpointId::CreateUser => Method::Post,
        EndpointId::Login => Method::Post,
        EndpointId::Logout => Method::Delete,
        EndpointId::Follow => Method::Post,
        EndpointId::ListFollowing => Method::Get,
        EndpointId::ListFollowers => Method::Get,
        EndpointId::GetUser => Method::Get,
        EndpointId::Me => Method::Get,
        EndpointId::Timeline => Method::Get,
        EndpointId::PostTweet => Method::Post,
    }
}

/// The HTTP method of `e`; [`spec_method_of`] says which.
pub fn method_of(e: &EndpointId) -> (m: Method)
    ensures
        m == spec_method_of(*e),
{
    match e {
        EndpointId::CreateUser => Method::Post,
        EndpointId::Login => Method::Post,
        EndpointId::Logout => Method::Delete,
        EndpointId::Follow => Method::Post,
        EndpointId::ListFollowing => Method::Get,
        EndpointId::ListFollowers => Method::Get,
        EndpointId::GetUser => Method::Get,
        EndpointId::Me => Method::Get,
        EndpointId::Timeline => Method::Get,
        EndpointId::PostTweet => Method::Post,
    }
}

/// The URL template of each endpoint; `:username` stands for a path
/// parameter.
pub open spec fn spec_url_template(e: EndpointId) -> Seq<char> {
    match e {
        EndpointId::CreateUser => "/users"@,
        EndpointId::Login => "/users/:username/session"@,
        EndpointId::Logout => "/users/:username/session"@,
        EndpointId::Follow => "/users/:username/follow"@,
        EndpointId::ListFollowing => "/users/:username/following"@,
        EndpointId::ListFollowers => "/users/:username/followers"@,
        EndpointId::GetUser => "/users/:username"@,
        EndpointId::Me => "/me"@,
        EndpointId::Timeline => "/me/timeline"@,
        EndpointId::PostTweet => "/tweets"@,
    }
}

/// The URL template of `e`; [`spec_url_template`] says which.
pub fn url_template(e: &EndpointId) -> (r: String)
    ensures
        r@ == spec_url_template(*e),
{
    match e {
        EndpointId::CreateUser => String::from_str("/users"),
        EndpointId::Login => String::from_str("/users/:username/session"),
        EndpointId::Logout => String::from_str("/users/:username/session"),
        EndpointId::Follow => String::from_str("/users/:username/follow"),
        EndpointId::ListFollowing => String::from_str("/users/:username/following"),
        EndpointId::ListFollowers => String::from_str("/users/:username/followers"),
        EndpointId::GetUser => String::from_str("/users/:username"),
        EndpointId::Me => String::from_str("/me"),
        EndpointId::Timeline => String::from_str("/me/timeline"),
        EndpointId::PostTweet => String::from_str("/tweets"),
    }
}

/// The payload shape of each endpoint.
pub open spec fn spec_payload_shape(e: EndpointId) -> PayloadShape {
    match e {
        EndpointId::CreateUser => PayloadShape::CreateUserPayload,
        EndpointId::Login => PayloadShape::LoginPayload,
        EndpointId::PostTweet => PayloadShape::CreateTweetPayload,
        _ => PayloadShape::NoPayload,
    }
}

/// The payload shape of `e`; [`spec_payload_shape`] says which.
pub fn payload_shape(e: &EndpointId) -> (p: PayloadShape)
    ensures
        p == spec_payload_shape(*e),
{
    match e {
        EndpointId::CreateUser => PayloadShape::CreateUserPayload,
        EndpointId::Login => PayloadShape::LoginPayload,
        EndpointId::PostTweet => PayloadShape::CreateTweetPayload,
        _ => PayloadShape::NoPayload,
    }
}

/// The success response shape of each endpoint.
pub open spec fn spec_response_shape(e: EndpointId) -> ResponseShape {
    match e {
        EndpointId::CreateUser => ResponseShape::TokenGrant,
        EndpointId::Login => ResponseShape::TokenGrant,
        EndpointId::Logout => ResponseShape::NoContent,
        EndpointId::Follow => ResponseShape::NoContent,
        EndpointId::ListFollowing => ResponseShape::UserSummaryList,
        EndpointId::ListFollowers => ResponseShape::UserSummaryList,
        EndpointId::GetUser => ResponseShape::UserSummary,
        EndpointId::Me => ResponseShape::UserSummary,
        EndpointId::Timeline => ResponseShape::TweetList,
        EndpointId::PostTweet => ResponseShape::TweetBody,
    }
}

/// The success response shape of `e`; [`spec_response_shape`] says which.
pub fn response_shape(e: &EndpointId) -> (s: ResponseShape)
    ensures
        s == spec_response_shape(*e),
{
    match e {
        EndpointId::CreateUser => ResponseShape::TokenGrant,
        EndpointId::Login => ResponseShape::TokenGrant,
        EndpointId::Logout => ResponseShape::NoContent,
        EndpointId::Follow => ResponseShape::NoContent,
        EndpointId::ListFollowing => ResponseShape::UserSummaryList,
        EndpointId::ListFollowers => ResponseShape::UserSummaryList,
        EndpointId::GetUser => ResponseShape::UserSummary,
        EndpointId::Me => ResponseShape::UserSummary,
        EndpointId::Timeline => ResponseShape::TweetList,
        EndpointId::PostTweet => ResponseShape::TweetBody,
    }
}

/// Whether each endpoint demands a bearer token.
pub open spec fn spec_auth_required(e: EndpointId) -> bool {
    match e {
        EndpointId::CreateUser => false,
        EndpointId::Login => false,
        EndpointId::GetUser => false,
        _ => true,
    }
}

/// Whether `e` demands a bearer token; [`spec_auth_required`] says so.
pub fn auth_required(e: &EndpointId) -> (b: bool)
    ensures
        b == spec_auth_required(*e),
{
    match e {
        EndpointId::CreateUser => false,
        EndpointId::Login => false,
        EndpointId::GetUser => false,
        _ => true,
    }
}

/// The registry routes unambiguously: two endpoints that agree on both the
/// HTTP method and the URL template are the same endpoint.
pub proof fn lemma_registry_unambiguous(a: EndpointId, b: EndpointId)
    requires
        spec_method_of(a) == spec_method_of(b),
        spec_url_template(a) == spec_url_template(b),
    ensures
        a == b,
{
    reveal_strlit("/users");
    reveal_strlit("/users/:username/session");
    reveal_strlit("/users/:username/follow");
    reveal_strlit("/users/:username/following");
    reveal_strlit("/users/:username/followers");
    reveal_strlit("/users/:username");
    reveal_strlit("/me");
    reveal_strlit("/me/timeline");
    reveal_strlit("/tweets");
    assert(("/users")@.len() == 6);
    assert(("/users/:username/session")@.len() == 24);
    assert(("/users/:username/follow")@.len() == 23);
    assert(("/users/:username/following")@.len() == 26);
    assert(("/users/:username/followers")@.len() == 26);
    assert(("/users/:username")@.len() == 16);
    assert(("/me")@.len() == 3);
    assert(("/me/timeline")@.len() == 12);
    assert(("/tweets")@.len() == 7);
    assert(("/users/:username/following")@[23] != ("/users/:username/followers")@[23]);
}

/// A request payload for an endpoint that takes none.
pub struct NoPayLoad;

/// A URL a request can be sent to: a value that renders the endpoint's
/// template with its path parameters filled in.
pub trait Url {
    /// The rendered path.
    spec fn spec_url(&self) -> Seq<char>;

    /// Renders the path; [`Self::spec_url`] says what it is.
    fn url(&self) -> (r: String)
        ensures
            r@ == self.spec_url(),
    ;
}

/// One endpoint as a type: its URL type, payload type and response type
/// travel together, so the request-building side and the handling side
/// cannot combine facets of different endpoints.
pub trait ApiEndpoint {
    /// The URL type of the endpoint.
    type Url: Url;

    /// The request payload type.
    type Payload;

    /// The success response type.
    type Response;

    /// The registry identity whose facets this endpoint binds.
    fn endpoint_id() -> EndpointId;
}

/// `{username, password}`: the sign-up payload.
pub struct CreateUserPayload {
    /// The requested username.
    pub username: String,
    /// The password (an opaque credential hash by the time it reaches the
    /// core).
    pub password: String,
}

/// `{password}`: the login payload.
pub struct LoginPayload {
    /// The password (an opaque credential hash by the time it reaches the
    /// core).
    pub password: String,
}

/// `{text}`: the tweet submission payload.
pub struct CreateTweetPayload {
    /// The tweet text.
    pub text: String,
}

/// `{token}`: a token grant.
pub struct TokenResponse {
    /// The granted bearer token, as text.
    pub token: String,
}

/// A user summary.
pub struct UserResponse {
    /// The user's identifier.
    pub id: u64,
    /// The user's name.
    pub username: String,
}

/// A tweet, as an endpoint answers with it.
pub struct TweetResponse {
    /// The tweet's identifier.
    pub id: u64,
    /// Who posted it.
    pub author_id: u64,
    /// Its text.
    pub text: String,
    /// When it was created.
    pub created_at: u64,
}

/// Sign a user up.
pub struct CreateUser;

/// The URL of [`CreateUser`]: the fixed path `/users`.
pub struct CreateUserUrl;

impl Url for CreateUserUrl {
    open spec fn spec_url(&self) -> Seq<char> {
        "/users"@
    }

    fn url(&self) -> (r: String) {
        String::from_str("/users")
    }
}

impl ApiEndpoint for CreateUser {
    type Url = CreateUserUrl;

    type Payload = CreateUserPayload;

    type Response = TokenResponse;

    fn endpoint_id() -> EndpointId {
        EndpointId::CreateUser
    }
}

/// Open a session.
pub struct Login;

/// The URL of [`Login`]: the template `/users/:username/session` with the
/// username filled in.
pub struct LoginUrl {
    /// The username path parameter.
    pub username: String,
}

impl Url for LoginUrl {
    open spec fn spec_url(&self) -> Seq<char> {
        "/users/"@ + self.username@ + "/session"@
    }

    fn url(&self) -> (r: String) {
        let mut out = String::from_str("/users/");
        out.append(self.username.as_str());
        out.append("/session");
        out
    }
}

impl ApiEndpoint for Login {
    type Url = LoginUrl;

    type Payload = LoginPayload;

    type Response = TokenResponse;

    fn endpoint_id() -> EndpointId {
        EndpointId::Login
    }
}

/// Fetch the authenticated user's summary.
pub struct Me;

/// The URL of [`Me`]: the fixed path `/me`.
pub struct MeUrl;

impl Url for MeUrl {
    open spec fn spec_url(&self) -> Seq<char> {
        "/me"@
    }

    fn url(&self) -> (r: String) {
        String::from_str("/me")
    }
}

impl ApiEndpoint for Me {
    type Url = MeUrl;

    type Payload = NoPayLoad;

    type Response = UserResponse;

    fn endpoint_id() -> EndpointId {
        EndpointId::Me
    }
}

/// Fetch one user's summary.
pub struct GetUser;

/// The URL of [`GetUser`]: the template `/users/:username` with the
/// username filled in.
pub struct GetUserUrl {
    /// The username path parameter.
    pub username: String,
}

impl Url for GetUserUrl {
    open spec fn spec_url(&self) -> Seq<char> {
        "/users/"@ + self.username@
    }

    fn url(&self) -> (r: String) {
        let mut out = String::from_str("/users/");
        out.append(self.username.as_str());
        out
    }
}

impl ApiEndpoint for GetUser {
    type Url = GetUserUrl;

    type Payload = NoPayLoad;

    type Response = UserResponse;

    fn endpoint_id() -> EndpointId {
        EndpointId::GetUser
    }
}

/// Post a tweet.
pub struct PostTweet;

/// The URL of [`PostTweet`]: the fixed path `/tweets`.
pub struct PostTweetUrl;

impl Url for PostTweetUrl {
    open spec fn spec_url(&self) -> Seq<char> {
        "/tweets"@
    }

    fn url(&self) -> (r: String) {
        String::from_str("/tweets")
    }
}

impl ApiEndpoint for PostTweet {
    type Url = PostTweetUrl;

    type Payload = CreateTweetPayload;

    type Response = TweetResponse;

    fn endpoint_id() -> EndpointId {
        EndpointId::PostTweet
    }
}

} // verus!
