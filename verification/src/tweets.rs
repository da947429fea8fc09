//! The tweet store: validated creation and reads of immutable tweets.
//!
//! Every stored tweet passed the length rule. Identifiers grow strictly and
//! timestamps never go backwards: the caller hands in its clock reading, and
//! the store clamps it up to the last stamp it gave out, so creation order,
//! identifier order and timestamp order all agree.

use vstd::prelude::*;
use vstd::string::*;

use crate::errors::ValidationError;
use crate::validate::{valid_tweet_text, validate_tweet_text, MAX_TWEET_LENGTH};

verus! {

/// A short text post. Immutable once created; never deleted.
#[derive(Debug)]
pub struct Tweet {
    /// Unique identifier, starting at 1, in creation order.
    pub id: u64,
    /// The user who posted the tweet.
    pub author_id: u64,
    /// The text, 1 to [`MAX_TWEET_LENGTH`] Unicode scalar values.
    pub text: String,
    /// The (clamped) clock reading at creation; never decreases along the store.
    pub created_at: u64,
}

/// The mathematical image of a [`Tweet`]: the text as a sequence of scalar
/// values, the rest as it is.
pub struct SpecTweet {
    /// Unique identifier.
    pub id: u64,
    /// The user who posted the tweet.
    pub author_id: u64,
    /// The text as scalar values.
    pub text: Seq<char>,
    /// The timestamp.
    pub created_at: u64,
}

impl View for Tweet {
    type V = SpecTweet;

    open spec fn view(&self) -> SpecTweet {
        SpecTweet {
            id: self.id,
            author_id: self.author_id,
            text: self.text@,
            created_at: self.created_at,
        }
    }
}

/// The image of a sequence of tweets.
pub open spec fn tweets_view(tweets: Seq<Tweet>) -> Seq<SpecTweet> {
    tweets.map_values(|t: Tweet| t@)
}

/// An owned copy of a string, character for character.
pub fn clone_string(s: &String) -> (r: String)
    ensures
        r@ == s@,
{
    String::from_str(s.as_str())
}

/// An owned copy of a tweet, field for field.
pub fn clone_tweet(t: &Tweet) -> (r: Tweet)
    ensures
        r@ == t@,
{
    Tweet { id: t.id, author_id: t.author_id, text: clone_string(&t.text), created_at: t.created_at }
}

/// The timestamp a tweet gets: the clock reading, clamped up to the last
/// stamp given out so that timestamps never go backwards.
pub open spec fn spec_stamp(now: u64, last_time: u64) -> u64 {
    if now > last_time {
        now
    } else {
        last_time
    }
}

/// The tweet store.
#[derive(Debug)]
pub struct TweetStore {
    /// All tweets, in creation order.
    pub tweets: Vec<Tweet>,
    /// The identifier the next tweet will get; grows by one per tweet.
    pub next_id: u64,
    /// The timestamp of the newest tweet, or 0 if there is none.
    pub last_time: u64,
}

impl TweetStore {
    /// Well-formedness: identifiers are nonzero, grow strictly in creation
    /// order and stay below `next_id`; timestamps never decrease and stay at
    /// or below `last_time`; every stored text passed the length rule.
    pub open spec fn wf(self) -> bool {
        &&& self.next_id >= 1
        &&& forall|i: int|
            0 <= i < self.tweets@.len() ==> 1 <= (#[trigger] self.tweets@[i])@.id < self.next_id
        &&& forall|i: int, j: int|
            0 <= i < j < self.tweets@.len() ==> (#[trigger] self.tweets@[i])@.id < (
            #[trigger] self.tweets@[j])@.id
        &&& forall|i: int, j: int|
            0 <= i < j < self.tweets@.len() ==> (#[trigger] self.tweets@[i])@.created_at <= (
            #[trigger] self.tweets@[j])@.created_at
        &&& forall|i: int|
            0 <= i < self.tweets@.len() ==> (#[trigger] self.tweets@[i])@.created_at
                <= self.last_time
        &&& forall|i: int|
            0 <= i < self.tweets@.len() ==> valid_tweet_text((#[trigger] self.tweets@[i])@.text)
    }

    /// An empty store.
    pub fn new() -> (s: TweetStore)
        ensures
            s.wf(),
            s.tweets@ =~= Seq::<Tweet>::empty(),
            s.next_id == 1,
            s.last_time == 0,
    {
        TweetStore { tweets: Vec::new(), next_id: 1, last_time: 0 }
    }

    /// Validates `text` and, if it passes, persists a tweet carrying it,
    /// stamped with the clamped clock reading `now`, and returns a copy of the
    /// persisted tweet. Rejected text (empty, or longer than
    /// [`MAX_TWEET_LENGTH`] scalar values) surfaces as the matching error and
    /// persists nothing.
    pub fn create_tweet(&mut self, author_id: u64, text: String, now: u64) -> (r: Result<
        Tweet,
        ValidationError,
    >)
        requires
            old(self).wf(),
            old(self).next_id < u64::MAX,
        ensures
            final(self).wf(),
            r is Ok <==> valid_tweet_text(text@),
            r == Err::<Tweet, ValidationError>(ValidationError::Empty) <==> text@.len() == 0,
            r == Err::<Tweet, ValidationError>(ValidationError::TooLong) <==> text@.len()
                > MAX_TWEET_LENGTH,
            r matches Ok(t) ==> t@ == (SpecTweet {
                id: old(self).next_id,
                author_id: author_id,
                text: text@,
                created_at: spec_stamp(now, old(self).last_time),
            }),
            r matches Ok(t) ==> tweets_view(final(self).tweets@) =~= tweets_view(
                old(self).tweets@,
            ).push(t@) && final(self).next_id == old(self).next_id + 1 && final(self).last_time
                == t@.created_at,
            r is Err ==> final(self).tweets@ =~= old(self).tweets@ && final(self).next_id == old(
                self,
            ).next_id && final(self).last_time == old(self).last_time,
    {
        broadcast use Seq::lemma_push_map_commute;

        if let Err(e) = validate_tweet_text(text.as_str()) {
            return Err(e);
        }
        let created_at = if now > self.last_time {
            now
        } else {
            self.last_time
        };
        let stored = Tweet {
            id: self.next_id,
            author_id,
            text: clone_string(&text),
            created_at,
        };
        let returned = Tweet { id: self.next_id, author_id, text, created_at };
        self.tweets.push(stored);
        self.next_id = self.next_id + 1;
        self.last_time = created_at;
        Ok(returned)
    }

    /// Copies of all tweets whose author is in `authors`, in creation order.
    #[verifier::loop_isolation(false)]
    pub fn get_tweets_by_authors(&self, authors: &Vec<u64>) -> (r: Vec<Tweet>)
        requires
            self.wf(),
        ensures
            tweets_view(r@) =~= tweets_view(self.tweets@).filter(
                |t: SpecTweet| authors@.contains(t.author_id),
            ),
    {
        broadcast use Seq::lemma_filter_push;
        broadcast use Seq::lemma_push_map_commute;

        let ghost pred = |t: SpecTweet| authors@.contains(t.author_id);
        let n = self.tweets.len();
        let mut r: Vec<Tweet> = Vec::new();
        let mut i: usize = 0;
        while i < n
            invariant
                0 <= i <= n,
                tweets_view(r@) =~= tweets_view(self.tweets@.take(i as int)).filter(pred),
            decreases n - i,
        {
            let t = &self.tweets[i];
            proof {
                assert(self.tweets@.take(i as int).push(self.tweets@[i as int]) =~= self.tweets@
                    .take(i as int + 1));
            }
            if contains_u64(authors, t.author_id) {
                r.push(clone_tweet(t));
            }
            i = i + 1;
        }
        proof {
            assert(self.tweets@.take(n as int) =~= self.tweets@);
        }
        r
    }
}

/// Whether `v` holds `x`, decided by scanning.
#[verifier::loop_isolation(false)]
pub fn contains_u64(v: &Vec<u64>, x: u64) -> (r: bool)
    ensures
        r == v@.contains(x),
{
    let n = v.len();
    let mut i: usize = 0;
    while i < n
        invariant
            0 <= i <= n,
            forall|k: int| 0 <= k < i ==> v@[k] != x,
        decreases n - i,
    {
        if v[i] == x {
            return true;
        }
        i = i + 1;
    }
    false
}

} // verus!
