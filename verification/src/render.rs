//! Rendering of the payloads each endpoint answers with: token grants, user
//! summaries, tweets, and lists of both, each pinned character by character.

use vstd::prelude::*;
use vstd::string::*;

use crate::json::{spec_dec, spec_json_string, json_string, u64_to_string};
use crate::session::Token;
use crate::tweets::{tweets_view, SpecTweet, Tweet};
use crate::users::{SpecUser, User, UserStore};

verus! {

/// The textual form of a token: issuance number, a dash, entropy word.
pub open spec fn spec_token_text(t: Token) -> Seq<char> {
    spec_dec(t.seq as nat) + "-"@ + spec_dec(t.entropy as nat)
}

/// Renders a token as text, as [`spec_token_text`] says.
pub fn token_text(t: &Token) -> (r: String)
    ensures
        r@ =~= spec_token_text(*t),
{
    let mut out = u64_to_string(t.seq);
    out.append("-");
    let e = u64_to_string(t.entropy);
    out.append(e.as_str());
    out
}

/// The JSON body granting a token.
pub open spec fn spec_token_json(t: Token) -> Seq<char> {
    "{\"token\":"@ + spec_json_string(spec_token_text(t)) + "}"@
}

/// Renders the token grant, as [`spec_token_json`] says.
pub fn token_json(t: &Token) -> (r: String)
    ensures
        r@ =~= spec_token_json(*t),
{
    let mut out = String::from_str("{\"token\":");
    let text = token_text(t);
    let quoted = json_string(text.as_str());
    out.append(quoted.as_str());
    out.append("}");
    out
}

/// The JSON summary of a user: identifier and username.
pub open spec fn spec_user_json(u: SpecUser) -> Seq<char> {
    "{\"id\":"@ + spec_dec(u.id as nat) + ",\"username\":"@ + spec_json_string(u.username) + "}"@
}

/// Renders a user summary, as [`spec_user_json`] says.
pub fn user_json(u: &User) -> (r: String)
    ensures
        r@ =~= spec_user_json(u@),
{
    let mut out = String::from_str("{\"id\":");
    let id = u64_to_string(u.id);
    out.append(id.as_str());
    out.append(",\"username\":");
    let name = json_string(u.username.as_str());
    out.append(name.as_str());
    out.append("}");
    out
}

/// The JSON form of a tweet: identifier, author, text and creation time.
pub open spec fn spec_tweet_json(t: SpecTweet) -> Seq<char> {
    "{\"id\":"@ + spec_dec(t.id as nat) + ",\"author_id\":"@ + spec_dec(t.author_id as nat)
        + ",\"text\":"@ + spec_json_string(t.text) + ",\"created_at\":"@ + spec_dec(
        t.created_at as nat,
    ) + "}"@
}

/// Renders a tweet, as [`spec_tweet_json`] says.
pub fn tweet_json(t: &Tweet) -> (r: String)
    ensures
        r@ =~= spec_tweet_json(t@),
{
    let mut out = String::from_str("{\"id\":");
    let id = u64_to_string(t.id);
    out.append(id.as_str());
    out.append(",\"author_id\":");
    let author = u64_to_string(t.author_id);
    out.append(author.as_str());
    out.append(",\"text\":");
    let text = json_string(t.text.as_str());
    out.append(text.as_str());
    out.append(",\"created_at\":");
    let at = u64_to_string(t.created_at);
    out.append(at.as_str());
    out.append("}");
    out
}

/// The comma-separated renderings of the tweets, in order.
pub open spec fn spec_tweet_items(ts: Seq<SpecTweet>) -> Seq<char>
    decreases ts.len(),
{
    if ts.len() == 0 {
        Seq::empty()
    } else if ts.len() == 1 {
        spec_tweet_json(ts[0])
    } else {
        spec_tweet_items(ts.drop_last()) + ","@ + spec_tweet_json(ts.last())
    }
}

/// The JSON array of the tweets, in order.
pub open spec fn spec_tweet_list_json(ts: Seq<SpecTweet>) -> Seq<char> {
    "["@ + spec_tweet_items(ts) + "]"@
}

/// Renders a list of tweets, as [`spec_tweet_list_json`] says.
#[verifier::loop_isolation(false)]
pub fn tweet_list_json(ts: &Vec<Tweet>) -> (r: String)
    ensures
        r@ =~= spec_tweet_list_json(tweets_view(ts@)),
{
    let ghost whole = tweets_view(ts@);
    let mut out = String::from_str("[");
    let n = ts.len();
    let mut i: usize = 0;
    while i < n
        invariant
            0 <= i <= n,
            out@ =~= "["@ + spec_tweet_items(whole.take(i as int)),
        decreases n - i,
    {
        proof {
            assert(whole.take(i as int + 1).drop_last() =~= whole.take(i as int));
            assert(whole.take(i as int + 1).last() == ts@[i as int]@);
        }
        if i > 0 {
            out.append(",");
            let tj = tweet_json(&ts[i]);
            out.append(tj.as_str());
            proof {
                vstd::seq_lib::lemma_concat_associative(
                    "["@,
                    spec_tweet_items(whole.take(i as int)),
                    ","@,
                );
                vstd::seq_lib::lemma_concat_associative(
                    "["@ + spec_tweet_items(whole.take(i as int)),
                    ","@,
                    spec_tweet_json(whole.take(i as int + 1).last()),
                );
                vstd::seq_lib::lemma_concat_associative(
                    "["@,
                    spec_tweet_items(whole.take(i as int)) + ","@,
                    spec_tweet_json(whole.take(i as int + 1).last()),
                );
                vstd::seq_lib::lemma_concat_associative(
                    spec_tweet_items(whole.take(i as int)),
                    ","@,
                    spec_tweet_json(whole.take(i as int + 1).last()),
                );
                assert(out@ =~= "["@ + spec_tweet_items(whole.take(i as int + 1)));
            }
        } else {
            let tj = tweet_json(&ts[i]);
            out.append(tj.as_str());
            proof {
                assert(whole.take(1).len() == 1);
                assert(spec_tweet_items(whole.take(1)) == spec_tweet_json(whole.take(1)[0]));
                assert(whole.take(1)[0] == ts@[0]@);
            }
        }
        i = i + 1;
    }
    out.append("]");
    proof {
        assert(whole.take(n as int) =~= whole);
    }
    out
}

/// The comma-separated summaries of the users `ids` name, in order.
pub open spec fn spec_user_items(users: Seq<SpecUser>, ids: Seq<u64>) -> Seq<char>
    decreases ids.len(),
{
    if ids.len() == 0 {
        Seq::empty()
    } else if ids.len() == 1 {
        spec_user_json(users[ids[0] - 1])
    } else {
        spec_user_items(users, ids.drop_last()) + ","@ + spec_user_json(
            users[ids.last() - 1],
        )
    }
}

/// The JSON array of the summaries of the users `ids` name, in order.
pub open spec fn spec_user_list_json(users: Seq<SpecUser>, ids: Seq<u64>) -> Seq<char> {
    "["@ + spec_user_items(users, ids) + "]"@
}

/// Renders the summaries of the users `ids` name, as
/// [`spec_user_list_json`] says. Every identifier must name a user.
#[verifier::loop_isolation(false)]
pub fn user_list_json(store: &UserStore, ids: &Vec<u64>) -> (r: String)
    requires
        store.wf(),
        forall|k: int| 0 <= k < ids@.len() ==> store.spec_valid_id(#[trigger] ids@[k]),
    ensures
        r@ =~= spec_user_list_json(store.users@.map_values(|u: User| u@), ids@),
{
    let ghost users = store.users@.map_values(|u: User| u@);
    let mut out = String::from_str("[");
    let n = ids.len();
    let mut i: usize = 0;
    while i < n
        invariant
            0 <= i <= n,
            out@ =~= "["@ + spec_user_items(users, ids@.take(i as int)),
        decreases n - i,
    {
        proof {
            assert(ids@.take(i as int + 1).drop_last() =~= ids@.take(i as int));
            assert(ids@.take(i as int + 1).last() == ids@[i as int]);
        }
        let u = match store.get_user(ids[i]) {
            Some(u) => u,
            None => vstd::pervasive::unreached(),
        };
        if i > 0 {
            out.append(",");
            let uj = user_json(u);
            out.append(uj.as_str());
            proof {
                vstd::seq_lib::lemma_concat_associative(
                    "["@,
                    spec_user_items(users, ids@.take(i as int)),
                    ","@,
                );
                vstd::seq_lib::lemma_concat_associative(
                    "["@ + spec_user_items(users, ids@.take(i as int)),
                    ","@,
                    spec_user_json(users[ids@[i as int] - 1]),
                );
                vstd::seq_lib::lemma_concat_associative(
                    "["@,
                    spec_user_items(users, ids@.take(i as int)) + ","@,
                    spec_user_json(users[ids@[i as int] - 1]),
                );
                vstd::seq_lib::lemma_concat_associative(
                    spec_user_items(users, ids@.take(i as int)),
                    ","@,
                    spec_user_json(users[ids@[i as int] - 1]),
                );
                assert(u@ == users[ids@[i as int] - 1]);
                assert(out@ =~= "["@ + spec_user_items(users, ids@.take(i as int + 1)));
            }
        } else {
            let uj = user_json(u);
            out.append(uj.as_str());
            proof {
                assert(ids@.take(1).len() == 1);
                assert(spec_user_items(users, ids@.take(1)) == spec_user_json(
                    users[ids@.take(1)[0] - 1],
                ));
                assert(u@ == users[ids@[0] - 1]);
            }
        }
        i = i + 1;
    }
    out.append("]");
    proof {
        assert(ids@.take(n as int) =~= ids@);
    }
    out
}

} // verus!
