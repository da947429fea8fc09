//! The timeline aggregator: a user's feed.
//!
//! The feed holds every tweet authored by the user themselves or by someone
//! the user follows at call time (a user's own tweets do appear in their own
//! timeline), ordered by creation time descending with ties broken by tweet
//! identifier descending — a total order, so any storage strategy must
//! produce this exact sequence.

use vstd::prelude::*;

use crate::graph::Graph;
use crate::seq_facts::lemma_filter_keeps_order;
use crate::tweets::{clone_tweet, tweets_view, SpecTweet, Tweet, TweetStore};

verus! {

/// Whether `t` belongs in the timeline of `u`: authored by `u` or by someone
/// `u` follows.
pub open spec fn spec_visible(g: Graph, u: u64, t: SpecTweet) -> bool {
    t.author_id == u || g.spec_follows(u, t.author_id)
}

/// The timeline of `user_id`: copies of exactly the tweets visible to the
/// user, newest first (creation time descending, ties broken by identifier
/// descending).
#[verifier::loop_isolation(false)]
pub fn timeline(graph: &Graph, store: &TweetStore, user_id: u64) -> (r: Vec<Tweet>)
    requires
        graph.wf(),
        store.wf(),
    ensures
        tweets_view(r@) =~= tweets_view(store.tweets@).reverse().filter(
            |t: SpecTweet| spec_visible(*graph, user_id, t),
        ),
        forall|k: int|
            0 <= k < r@.len() ==> (#[trigger] r@[k])@.author_id == user_id || graph.spec_follows(
                user_id,
                r@[k]@.author_id,
            ),
        forall|i: int, j: int|
            0 <= i < j < r@.len() ==> (#[trigger] r@[j])@.created_at < (
            #[trigger] r@[i])@.created_at || (r@[j]@.created_at == r@[i]@.created_at && r@[j]@.id
                < r@[i]@.id),
{
    broadcast use Seq::lemma_filter_push;
    broadcast use vstd::seq_lib::group_filter_ensures;

    let ghost pred = |t: SpecTweet| spec_visible(*graph, user_id, t);
    let ghost rev = tweets_view(store.tweets@).reverse();
    let n = store.tweets.len();
    let mut r: Vec<Tweet> = Vec::new();
    let mut k: usize = 0;
    while k < n
        invariant
            0 <= k <= n,
            tweets_view(r@) =~= rev.take(k as int).filter(pred),
        decreases n - k,
    {
        let t = &store.tweets[n - 1 - k];
        proof {
            assert(rev[k as int] == tweets_view(store.tweets@)[n - 1 - k as int]);
            assert(rev.take(k as int).push(rev[k as int]) =~= rev.take(k as int + 1));
            broadcast use Seq::lemma_push_map_commute;
        }
        if t.author_id == user_id || graph.follows(user_id, t.author_id) {
            let copy = clone_tweet(t);
            proof {
                assert(pred(rev[k as int]));
                assert(tweets_view(r@.push(copy)) =~= tweets_view(r@).push(copy@));
            }
            r.push(copy);
        } else {
            proof {
                assert(!pred(rev[k as int]));
            }
        }
        k = k + 1;
    }
    proof {
        assert(rev.take(n as int) =~= rev);
        let out = tweets_view(r@);
        assert forall|k: int| 0 <= k < r@.len() implies (#[trigger] r@[k])@.author_id == user_id
            || graph.spec_follows(user_id, r@[k]@.author_id) by {
            assert(out[k] == r@[k]@);
            assert(pred(out[k]));
        }
        let lt = |a: SpecTweet, b: SpecTweet|
            b.created_at < a.created_at || (b.created_at == a.created_at && b.id < a.id);
        assert forall|i: int, j: int| 0 <= i < j < rev.len() implies #[trigger] lt(
            rev[i],
            rev[j],
        ) by {
            let all = store.tweets@;
            let p = all.len() - 1 - j;
            let q = all.len() - 1 - i;
            assert(rev[i] == tweets_view(all)[q]);
            assert(rev[j] == tweets_view(all)[p]);
            assert(all[p]@.id < all[q]@.id);
            assert(all[p]@.created_at <= all[q]@.created_at);
        }
        lemma_filter_keeps_order(rev, pred, lt);
        assert forall|i: int, j: int| 0 <= i < j < r@.len() implies (
        #[trigger] r@[j])@.created_at < (#[trigger] r@[i])@.created_at || (r@[j]@.created_at
            == r@[i]@.created_at && r@[j]@.id < r@[i]@.id) by {
            assert(out[i] == r@[i]@);
            assert(out[j] == r@[j]@);
            assert(lt(out[i], out[j]));
        }
    }
    r
}

} // verus!
