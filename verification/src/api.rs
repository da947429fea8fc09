//! The endpoint execution layer: one handler per registry entry.
//!
//! A handler takes the application state and the request's plain values
//! (already decoded at the transport boundary) and answers with an HTTP
//! status code and the exact response body: a success envelope around the
//! rendered payload, or an error envelope around the error's message, as the
//! contract registry's response shape says.

use vstd::prelude::*;

use crate::errors::{
    spec_error_message, spec_status_code, status_code, error_message, ApiError, AuthError,
};
use crate::graph::Graph;
use crate::registry::{CreateTweetPayload, CreateUserPayload, LoginPayload};
use crate::json::{
    spec_data_envelope, spec_error_envelope, data_envelope, error_envelope,
};
use crate::render::{
    spec_token_json, spec_tweet_json, spec_tweet_list_json, spec_user_json,
    spec_user_list_json, token_json, tweet_json, tweet_list_json, user_json, user_list_json,
};
use crate::seq_facts::lemma_filter_members;
use crate::session::{Session, Sessions, Token};
use crate::timeline::{spec_visible, timeline};
use crate::tweets::{spec_stamp, tweets_view, SpecTweet, TweetStore};
use crate::users::{users_view, SpecUser, UserStore};
use crate::validate::{valid_tweet_text, valid_username, MAX_TWEET_LENGTH};

verus! {

/// The whole application state, threaded explicitly through every handler.
#[derive(Debug)]
pub struct App {
    /// The accounts.
    pub users: UserStore,
    /// The live sessions.
    pub sessions: Sessions,
    /// The follow graph.
    pub graph: Graph,
    /// The tweets.
    pub tweets: TweetStore,
}

/// Whether two application states hold the same data.
pub open spec fn same_state(a: App, b: App) -> bool {
    &&& a.users.users@ == b.users.users@
    &&& a.sessions.sessions@ == b.sessions.sessions@
    &&& a.sessions.next_seq == b.sessions.next_seq
    &&& a.graph.edges@ == b.graph.edges@
    &&& a.tweets.tweets@ == b.tweets.tweets@
    &&& a.tweets.next_id == b.tweets.next_id
    &&& a.tweets.last_time == b.tweets.last_time
}

/// The error response for `e`: its status code and its message inside the
/// error envelope.
pub open spec fn spec_error_response(e: ApiError) -> (u16, Seq<char>) {
    (spec_status_code(e), spec_error_envelope(spec_error_message(e)))
}

/// Renders the error response for `e`, as [`spec_error_response`] says.
pub fn error_response(e: &ApiError) -> (r: (u16, String))
    ensures
        r.0 == spec_error_response(*e).0,
        r.1@ == spec_error_response(*e).1,
{
    let msg = error_message(e);
    (status_code(e), error_envelope(msg.as_str()))
}

/// Whether `token` authenticates against the sessions of `a`.
pub open spec fn spec_authed(a: App, token: Option<Token>) -> bool {
    token matches Some(t) && a.sessions.spec_has_token(t)
}

/// The user an authenticated request acts as.
pub open spec fn spec_auth_user(a: App, token: Option<Token>) -> u64
    recommends
        spec_authed(a, token),
{
    a.sessions.spec_user_of(token->Some_0)
}

impl App {
    /// Well-formedness: every component is well-formed, and every user
    /// identifier a session, an edge or a tweet mentions names an existing
    /// user.
    pub open spec fn wf(self) -> bool {
        &&& self.users.wf()
        &&& self.sessions.wf()
        &&& self.graph.wf()
        &&& self.tweets.wf()
        &&& forall|i: int|
            0 <= i < self.sessions.sessions@.len() ==> self.users.spec_valid_id(
                (#[trigger] self.sessions.sessions@[i]).user_id,
            )
        &&& forall|i: int|
            0 <= i < self.graph.edges@.len() ==> self.users.spec_valid_id(
                (#[trigger] self.graph.edges@[i]).0,
            ) && self.users.spec_valid_id(self.graph.edges@[i].1)
        &&& forall|i: int|
            0 <= i < self.tweets.tweets@.len() ==> self.users.spec_valid_id(
                (#[trigger] self.tweets.tweets@[i])@.author_id,
            )
    }

    /// A fresh application with no users, sessions, edges or tweets.
    pub fn new() -> (a: App)
        ensures
            a.wf(),
            a.users.users@.len() == 0,
            a.sessions.sessions@.len() == 0,
            a.graph.edges@.len() == 0,
            a.tweets.tweets@.len() == 0,
            a.sessions.next_seq == 0,
            a.tweets.next_id == 1,
    {
        App {
            users: UserStore::new(),
            sessions: Sessions::new(),
            graph: Graph::new(),
            tweets: TweetStore::new(),
        }
    }

    /// Resolves the bearer token of a request, if any, to the user it
    /// authenticates as.
    pub fn auth(&self, token: &Option<Token>) -> (r: Result<u64, AuthError>)
        requires
            self.wf(),
        ensures
            r is Ok <==> spec_authed(*self, *token),
            r matches Ok(u) ==> u == spec_auth_user(*self, *token) && self.users.spec_valid_id(
                u,
            ),
            r matches Err(e) ==> e == AuthError::InvalidToken,
    {
        match token {
            None => Err(AuthError::InvalidToken),
            Some(t) => {
                let r = self.sessions.authenticate(*t);
                proof {
                    if r is Ok {
                        let i = choose|i: int|
                            0 <= i < self.sessions.sessions@.len()
                                && #[trigger] self.sessions.sessions@[i] == (
                            crate::session::Session { token: *t, user_id: r->Ok_0 });
                        assert(self.users.spec_valid_id(self.sessions.sessions@[i].user_id));
                    }
                }
                r
            },
        }
    }

    /// Answers `POST /tweets`: authenticates, validates the text, persists
    /// the tweet stamped with the caller's clock reading `now`, and answers
    /// 201 with the tweet in the data envelope. A missing or revoked token
    /// answers 401, text that fails the length rule answers 422 with the
    /// matching message; in every failure nothing changes.
    pub fn handle_post_tweet(&mut self, token: Option<Token>, payload: CreateTweetPayload, now: u64)
        -> (r: (u16, String))
        requires
            old(self).wf(),
            old(self).tweets.next_id < u64::MAX,
        ensures
            final(self).wf(),
            !spec_authed(*old(self), token) ==> r.0 == 401 && r.1@ == spec_error_envelope(
                spec_error_message(ApiError::Auth(AuthError::InvalidToken)),
            ) && same_state(*final(self), *old(self)),
            spec_authed(*old(self), token) && payload.text@.len() > MAX_TWEET_LENGTH ==> r.0 == 422
                && r.1@ == spec_error_envelope("Tweet is too long. Max then is 280"@)
                && same_state(*final(self), *old(self)),
            spec_authed(*old(self), token) && payload.text@.len() == 0 ==> r.0 == 422 && r.1@
                == spec_error_envelope("Text must not be empty"@) && same_state(
                *final(self),
                *old(self),
            ),
            spec_authed(*old(self), token) && valid_tweet_text(payload.text@) ==> r.0 == 201 && r.1@
                == spec_data_envelope(
                spec_tweet_json(
                    SpecTweet {
                        id: old(self).tweets.next_id,
                        author_id: spec_auth_user(*old(self), token),
                        text: payload.text@,
                        created_at: spec_stamp(now, old(self).tweets.last_time),
                    },
                ),
            ) && tweets_view(final(self).tweets.tweets@) =~= tweets_view(
                old(self).tweets.tweets@,
            ).push(
                SpecTweet {
                    id: old(self).tweets.next_id,
                    author_id: spec_auth_user(*old(self), token),
                    text: payload.text@,
                    created_at: spec_stamp(now, old(self).tweets.last_time),
                },
            ) && final(self).tweets.next_id == old(self).tweets.next_id + 1 && final(self).users.users@ == old(self).users.users@ && final(self).sessions.sessions@ == old(self).sessions.sessions@ && final(self).graph.edges@ == old(self).graph.edges@,
    {
        let author = match self.auth(&token) {
            Ok(u) => u,
            Err(e) => {
                return error_response(&ApiError::Auth(e));
            },
        };
        match self.tweets.create_tweet(author, payload.text, now) {
            Ok(t) => {
                proof {
                    assert forall|i: int| 0 <= i < self.tweets.tweets@.len() implies self
                        .users.spec_valid_id(
                        (#[trigger] self.tweets.tweets@[i])@.author_id,
                    ) by {
                        assert(tweets_view(self.tweets.tweets@)[i] == self.tweets.tweets@[i]@);
                        if i < old(self).tweets.tweets@.len() {
                            assert(tweets_view(old(self).tweets.tweets@)[i] == old(self).tweets.tweets@[i]@);
                        }
                    }
                }
                let body = tweet_json(&t);
                (201, data_envelope(body.as_str()))
            },
            Err(e) => error_response(&ApiError::Validation(e)),
        }
    }

    /// Answers `POST /users`: validates the username, signs the user up and
    /// opens a session, answering 201 with a token grant. An empty username
    /// answers 422 and a taken one 409; then nothing changes. The caller
    /// hands in the entropy it drew for the token.
    pub fn handle_create_user(&mut self, payload: CreateUserPayload, entropy: u64) -> (r: (
        u16,
        String,
    ))
        requires
            old(self).wf(),
            old(self).users.users@.len() < u64::MAX,
            old(self).sessions.next_seq < u64::MAX,
        ensures
            final(self).wf(),
            !valid_username(payload.username@) ==> r.0 == 422 && r.1@ == spec_error_envelope(
                "Text must not be empty"@,
            ) && same_state(*final(self), *old(self)),
            valid_username(payload.username@) && old(self).users.spec_has_username(
                payload.username@,
            ) ==> r.0 == 409 && r.1@ == spec_error_envelope("Username is taken"@) && same_state(
                *final(self),
                *old(self),
            ),
            valid_username(payload.username@) && !old(self).users.spec_has_username(
                payload.username@,
            ) ==> r.0 == 201 && r.1@ == spec_data_envelope(
                spec_token_json(Token { seq: old(self).sessions.next_seq, entropy: entropy }),
            ) && users_view(final(self).users.users@) =~= users_view(old(self).users.users@).push(
                SpecUser {
                    id: (old(self).users.users@.len() + 1) as u64,
                    username: payload.username@,
                    password_hash: payload.password@,
                },
            ) && final(self).sessions.sessions@ =~= old(self).sessions.sessions@.push(
                Session {
                    token: Token { seq: old(self).sessions.next_seq, entropy: entropy },
                    user_id: (old(self).users.users@.len() + 1) as u64,
                },
            ) && final(self).graph.edges@ == old(self).graph.edges@ && final(self).tweets.tweets@
                == old(self).tweets.tweets@,
    {
        let id = match self.users.create_user(payload.username, payload.password) {
            Ok(id) => id,
            Err(e) => {
                return error_response(&e);
            },
        };
        let t = self.sessions.issue_token(id, entropy);
        proof {
            let olds = old(self);
            assert(self.users.users@.len() == olds.users.users@.len() + 1);
            assert forall|i: int| 0 <= i < self.sessions.sessions@.len() implies self
                .users.spec_valid_id((#[trigger] self.sessions.sessions@[i]).user_id) by {
                if i < olds.sessions.sessions@.len() {
                    assert(olds.sessions.sessions@[i] == self.sessions.sessions@[i]);
                }
            }
            assert forall|i: int| 0 <= i < self.tweets.tweets@.len() implies self
                .users.spec_valid_id((#[trigger] self.tweets.tweets@[i])@.author_id) by {}
            assert forall|i: int| 0 <= i < self.graph.edges@.len() implies self
                .users.spec_valid_id((#[trigger] self.graph.edges@[i]).0)
                && self.users.spec_valid_id(self.graph.edges@[i].1) by {}
        }
        let body = token_json(&t);
        (201, data_envelope(body.as_str()))
    }

    /// Answers `POST /users/:username/session`: checks the credentials and
    /// opens a session, answering 200 with a token grant. An unknown
    /// username answers 404 and a wrong credential 401; then nothing
    /// changes. The caller hands in the entropy it drew for the token.
    pub fn handle_login(&mut self, username: &str, payload: LoginPayload, entropy: u64) -> (r: (
        u16,
        String,
    ))
        requires
            old(self).wf(),
            old(self).sessions.next_seq < u64::MAX,
        ensures
            final(self).wf(),
            !old(self).users.spec_has_username(username@) ==> r.0 == 404 && r.1@
                == spec_error_envelope("User not found"@) && same_state(*final(self), *old(self)),
            old(self).users.spec_has_username(username@) && old(self).users.users@[old(self).users.spec_id_of(username@) - 1]@.password_hash != payload.password@ ==> r.0 == 401
                && r.1@ == spec_error_envelope("Invalid credentials"@) && same_state(
                *final(self),
                *old(self),
            ),
            old(self).users.spec_has_username(username@) && old(self).users.users@[old(self).users.spec_id_of(username@) - 1]@.password_hash == payload.password@ ==> r.0 == 200
                && r.1@ == spec_data_envelope(
                spec_token_json(Token { seq: old(self).sessions.next_seq, entropy: entropy }),
            ) && final(self).sessions.sessions@ =~= old(self).sessions.sessions@.push(
                Session {
                    token: Token { seq: old(self).sessions.next_seq, entropy: entropy },
                    user_id: old(self).users.spec_id_of(username@),
                },
            ) && final(self).users.users@ == old(self).users.users@ && final(self).graph.edges@
                == old(self).graph.edges@ && final(self).tweets.tweets@ == old(self).tweets.tweets@,
    {
        let id = match self.users.check_credentials(username, payload.password.as_str()) {
            Ok(id) => id,
            Err(e) => {
                return error_response(&e);
            },
        };
        let t = self.sessions.issue_token(id, entropy);
        proof {
            let olds = old(self);
            assert forall|i: int| 0 <= i < self.sessions.sessions@.len() implies self
                .users.spec_valid_id((#[trigger] self.sessions.sessions@[i]).user_id) by {
                if i < olds.sessions.sessions@.len() {
                    assert(olds.sessions.sessions@[i] == self.sessions.sessions@[i]);
                }
            }
        }
        let body = token_json(&t);
        (200, data_envelope(body.as_str()))
    }

    /// Answers `DELETE /users/:username/session`: authenticates and revokes
    /// the presented token, answering 200 with an empty payload. A missing
    /// or revoked token answers 401. Revoking is what ends a session; a
    /// revoked token never authenticates again.
    pub fn handle_logout(&mut self, token: Option<Token>) -> (r: (u16, String))
        requires
            old(self).wf(),
        ensures
            final(self).wf(),
            !spec_authed(*old(self), token) ==> r.0 == 401 && r.1@ == spec_error_envelope(
                "Invalid token"@,
            ) && same_state(*final(self), *old(self)),
            spec_authed(*old(self), token) ==> r.0 == 200 && r.1@ == spec_data_envelope(
                "null"@,
            ) && final(self).sessions.sessions@ =~= old(self).sessions.sessions@.filter(
                |sess: Session| sess.token != token->Some_0,
            ) && !final(self).sessions.spec_has_token(token->Some_0) && final(self).users.users@
                == old(self).users.users@ && final(self).graph.edges@ == old(self).graph.edges@
                && final(self).tweets.tweets@ == old(self).tweets.tweets@,
    {
        let t = match token {
            None => {
                return error_response(&ApiError::Auth(AuthError::InvalidToken));
            },
            Some(t) => t,
        };
        match self.sessions.authenticate(t) {
            Ok(_) => {},
            Err(e) => {
                return error_response(&ApiError::Auth(e));
            },
        }
        self.sessions.revoke(t);
        proof {
            let olds = old(self);
            let pred = |sess: Session| sess.token != t;
            lemma_filter_members(olds.sessions.sessions@, pred);
            assert forall|i: int| 0 <= i < self.sessions.sessions@.len() implies self
                .users.spec_valid_id((#[trigger] self.sessions.sessions@[i]).user_id) by {
                assert(olds.sessions.sessions@.contains(self.sessions.sessions@[i]));
                let j = choose|j: int|
                    0 <= j < olds.sessions.sessions@.len() && olds.sessions.sessions@[j]
                        == self.sessions.sessions@[i];
            }
        }
        (200, data_envelope("null"))
    }

    /// Answers `POST /users/:username/follow`: authenticates and creates the
    /// follow edge from the caller to the named user, answering 200 with an
    /// empty payload. A missing or revoked token answers 401, an unknown
    /// username 404, a self-follow 422 and an existing edge 409; in every
    /// failure nothing changes.
    pub fn handle_follow(&mut self, token: Option<Token>, username: &str) -> (r: (u16, String))
        requires
            old(self).wf(),
        ensures
            final(self).wf(),
            !spec_authed(*old(self), token) ==> r.0 == 401 && r.1@ == spec_error_envelope(
                "Invalid token"@,
            ) && same_state(*final(self), *old(self)),
            spec_authed(*old(self), token) && !old(self).users.spec_has_username(username@)
                ==> r.0 == 404 && r.1@ == spec_error_envelope("User not found"@) && same_state(
                *final(self),
                *old(self),
            ),
            spec_authed(*old(self), token) && old(self).users.spec_has_username(username@)
                && spec_auth_user(*old(self), token) == old(self).users.spec_id_of(username@)
                ==> r.0 == 422 && r.1@ == spec_error_envelope("Cannot follow yourself"@)
                && same_state(*final(self), *old(self)),
            spec_authed(*old(self), token) && old(self).users.spec_has_username(username@)
                && spec_auth_user(*old(self), token) != old(self).users.spec_id_of(username@)
                && old(self).graph.spec_follows(
                spec_auth_user(*old(self), token),
                old(self).users.spec_id_of(username@),
            ) ==> r.0 == 409 && r.1@ == spec_error_envelope("Already following"@) && same_state(
                *final(self),
                *old(self),
            ),
            spec_authed(*old(self), token) && old(self).users.spec_has_username(username@)
                && spec_auth_user(*old(self), token) != old(self).users.spec_id_of(username@)
                && !old(self).graph.spec_follows(
                spec_auth_user(*old(self), token),
                old(self).users.spec_id_of(username@),
            ) ==> r.0 == 200 && r.1@ == spec_data_envelope("null"@) && final(self).graph.edges@
                =~= old(self).graph.edges@.push(
                (spec_auth_user(*old(self), token), old(self).users.spec_id_of(username@)),
            ) && final(self).users.users@ == old(self).users.users@ && final(self).sessions.sessions@ == old(self).sessions.sessions@ && final(self).tweets.tweets@
                == old(self).tweets.tweets@,
    {
        let me = match self.auth(&token) {
            Ok(u) => u,
            Err(e) => {
                return error_response(&ApiError::Auth(e));
            },
        };
        let target = match self.users.find_by_username(username) {
            Some(id) => id,
            None => {
                return error_response(&ApiError::NotFound);
            },
        };
        match self.graph.follow(me, target) {
            Ok(_) => {
                proof {
                    let olds = old(self);
                    assert forall|i: int| 0 <= i < self.graph.edges@.len() implies self
                        .users.spec_valid_id((#[trigger] self.graph.edges@[i]).0)
                        && self.users.spec_valid_id(self.graph.edges@[i].1) by {
                        if i < olds.graph.edges@.len() {
                            assert(olds.graph.edges@[i] == self.graph.edges@[i]);
                        } else {
                            assert(self.graph.edges@[i] == (me, target));
                        }
                    }
                }
                (200, data_envelope("null"))
            },
            Err(e) => error_response(&ApiError::Follow(e)),
        }
    }

    /// Answers `GET /users/:username`: answers 200 with the named user's
    /// summary, or 404 when the username is unknown. No token is required.
    pub fn handle_get_user(&self, username: &str) -> (r: (u16, String))
        requires
            self.wf(),
        ensures
            !self.users.spec_has_username(username@) ==> r.0 == 404 && r.1@
                == spec_error_envelope("User not found"@),
            self.users.spec_has_username(username@) ==> r.0 == 200 && r.1@
                == spec_data_envelope(
                spec_user_json(self.users.users@[self.users.spec_id_of(username@) - 1]@),
            ),
    {
        let id = match self.users.find_by_username(username) {
            Some(id) => id,
            None => {
                return error_response(&ApiError::NotFound);
            },
        };
        let u = match self.users.get_user(id) {
            Some(u) => u,
            None => vstd::pervasive::unreached(),
        };
        let body = user_json(u);
        (200, data_envelope(body.as_str()))
    }

    /// Answers `GET /me`: authenticates and answers 200 with the caller's
    /// own summary. A missing or revoked token answers 401.
    pub fn handle_me(&self, token: Option<Token>) -> (r: (u16, String))
        requires
            self.wf(),
        ensures
            !spec_authed(*self, token) ==> r.0 == 401 && r.1@ == spec_error_envelope(
                "Invalid token"@,
            ),
            spec_authed(*self, token) ==> r.0 == 200 && r.1@ == spec_data_envelope(
                spec_user_json(self.users.users@[spec_auth_user(*self, token) - 1]@),
            ),
    {
        let me = match self.auth(&token) {
            Ok(u) => u,
            Err(e) => {
                return error_response(&ApiError::Auth(e));
            },
        };
        let u = match self.users.get_user(me) {
            Some(u) => u,
            None => vstd::pervasive::unreached(),
        };
        let body = user_json(u);
        (200, data_envelope(body.as_str()))
    }

    /// Answers `GET /users/:username/following`: authenticates and answers
    /// 200 with the summaries of exactly the users the named user follows,
    /// without duplicates (their order reflects edge creation). A missing or
    /// revoked token answers 401, an unknown username 404.
    pub fn handle_following(&self, token: Option<Token>, username: &str) -> (r: (u16, String))
        requires
            self.wf(),
        ensures
            !spec_authed(*self, token) ==> r.0 == 401 && r.1@ == spec_error_envelope(
                "Invalid token"@,
            ),
            spec_authed(*self, token) && !self.users.spec_has_username(username@) ==> r.0 == 404
                && r.1@ == spec_error_envelope("User not found"@),
            spec_authed(*self, token) && self.users.spec_has_username(username@) ==> r.0 == 200
                && exists|ids: Seq<u64>|
                {
                    &&& r.1@ == spec_data_envelope(
                        #[trigger] spec_user_list_json(users_view(self.users.users@), ids),
                    )
                    &&& forall|b: u64|
                        ids.contains(b) <==> self.graph.spec_follows(
                            self.users.spec_id_of(username@),
                            b,
                        )
                    &&& forall|p: int, q: int| 0 <= p < q < ids.len() ==> ids[p] != ids[q]
                },
    {
        match self.auth(&token) {
            Ok(_) => {},
            Err(e) => {
                return error_response(&ApiError::Auth(e));
            },
        }
        let target = match self.users.find_by_username(username) {
            Some(id) => id,
            None => {
                return error_response(&ApiError::NotFound);
            },
        };
        let ids = self.graph.list_following(target);
        proof {
            assert forall|k: int| 0 <= k < ids@.len() implies self.users.spec_valid_id(
                #[trigger] ids@[k],
            ) by {
                assert(ids@.contains(ids@[k]));
                let j = choose|j: int|
                    0 <= j < self.graph.edges@.len() && #[trigger] self.graph.edges@[j] == (
                        target,
                        ids@[k],
                    );
                assert(self.users.spec_valid_id(self.graph.edges@[j].1));
            }
        }
        let body = user_list_json(&self.users, &ids);
        proof {
            assert(body@ =~= spec_user_list_json(users_view(self.users.users@), ids@));
        }
        (200, data_envelope(body.as_str()))
    }

    /// Answers `GET /users/:username/followers`: authenticates and answers
    /// 200 with the summaries of exactly the users that follow the named
    /// user, without duplicates (their order reflects edge creation). A
    /// missing or revoked token answers 401, an unknown username 404.
    pub fn handle_followers(&self, token: Option<Token>, username: &str) -> (r: (u16, String))
        requires
            self.wf(),
        ensures
            !spec_authed(*self, token) ==> r.0 == 401 && r.1@ == spec_error_envelope(
                "Invalid token"@,
            ),
            spec_authed(*self, token) && !self.users.spec_has_username(username@) ==> r.0 == 404
                && r.1@ == spec_error_envelope("User not found"@),
            spec_authed(*self, token) && self.users.spec_has_username(username@) ==> r.0 == 200
                && exists|ids: Seq<u64>|
                {
                    &&& r.1@ == spec_data_envelope(
                        #[trigger] spec_user_list_json(users_view(self.users.users@), ids),
                    )
                    &&& forall|a: u64|
                        ids.contains(a) <==> self.graph.spec_follows(
                            a,
                            self.users.spec_id_of(username@),
                        )
                    &&& forall|p: int, q: int| 0 <= p < q < ids.len() ==> ids[p] != ids[q]
                },
    {
        match self.auth(&token) {
            Ok(_) => {},
            Err(e) => {
                return error_response(&ApiError::Auth(e));
            },
        }
        let target = match self.users.find_by_username(username) {
            Some(id) => id,
            None => {
                return error_response(&ApiError::NotFound);
            },
        };
        let ids = self.graph.list_followers(target);
        proof {
            assert forall|k: int| 0 <= k < ids@.len() implies self.users.spec_valid_id(
                #[trigger] ids@[k],
            ) by {
                assert(ids@.contains(ids@[k]));
                let j = choose|j: int|
                    0 <= j < self.graph.edges@.len() && #[trigger] self.graph.edges@[j] == (
                        ids@[k],
                        target,
                    );
                assert(self.users.spec_valid_id(self.graph.edges@[j].0));
            }
        }
        let body = user_list_json(&self.users, &ids);
        proof {
            assert(body@ =~= spec_user_list_json(users_view(self.users.users@), ids@));
        }
        (200, data_envelope(body.as_str()))
    }

    /// Answers `GET /me/timeline`: authenticates and answers 200 with the
    /// user's timeline — every tweet authored by the user or by someone the
    /// user follows, newest first — in the data envelope. A missing or
    /// revoked token answers 401. Nothing changes either way.
    pub fn handle_timeline(&self, token: Option<Token>) -> (r: (u16, String))
        requires
            self.wf(),
        ensures
            !spec_authed(*self, token) ==> r.0 == 401 && r.1@ == spec_error_envelope(
                spec_error_message(ApiError::Auth(AuthError::InvalidToken)),
            ),
            spec_authed(*self, token) ==> r.0 == 200 && r.1@ == spec_data_envelope(
                spec_tweet_list_json(
                    tweets_view(self.tweets.tweets@).reverse().filter(
                        |t: SpecTweet| spec_visible(self.graph, spec_auth_user(*self, token), t),
                    ),
                ),
            ),
    {
        let user = match self.auth(&token) {
            Ok(u) => u,
            Err(e) => {
                return error_response(&ApiError::Auth(e));
            },
        };
        let feed = timeline(&self.graph, &self.tweets, user);
        let body = tweet_list_json(&feed);
        (200, data_envelope(body.as_str()))
    }
}

} // verus!
