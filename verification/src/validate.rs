//! Pure validation rules for request payloads: tweet text length and
//! username non-emptiness. Lengths are counted in Unicode scalar values.

use vstd::prelude::*;
use vstd::string::*;

use crate::errors::ValidationError;

verus! {

/// The maximum tweet length, in Unicode scalar values, inclusive.
pub const MAX_TWEET_LENGTH: usize = 280;

/// Whether a tweet text is acceptable: non-empty and at most
/// [`MAX_TWEET_LENGTH`] scalar values long.
pub open spec fn valid_tweet_text(text: Seq<char>) -> bool {
    1 <= text.len() <= MAX_TWEET_LENGTH
}

/// Checks a tweet text against the length rule: empty text is rejected with
/// `Empty`, text longer than [`MAX_TWEET_LENGTH`] scalar values with
/// `TooLong`, and everything in between is accepted.
pub fn validate_tweet_text(text: &str) -> (r: Result<(), ValidationError>)
    ensures
        r is Ok <==> valid_tweet_text(text@),
        r == Err::<(), ValidationError>(ValidationError::Empty) <==> text@.len() == 0,
        r == Err::<(), ValidationError>(ValidationError::TooLong) <==> text@.len()
            > MAX_TWEET_LENGTH,
{
    let n = text.unicode_len();
    if n == 0 {
        Err(ValidationError::Empty)
    } else if n > MAX_TWEET_LENGTH {
        Err(ValidationError::TooLong)
    } else {
        Ok(())
    }
}

/// Whether a username is acceptable: non-empty.
pub open spec fn valid_username(name: Seq<char>) -> bool {
    name.len() >= 1
}

/// Checks a username: empty names are rejected with `Empty`.
pub fn validate_username(name: &str) -> (r: Result<(), ValidationError>)
    ensures
        r is Ok <==> valid_username(name@),
        r == Err::<(), ValidationError>(ValidationError::Empty) <==> name@.len() == 0,
{
    let n = name.unicode_len();
    if n == 0 {
        Err(ValidationError::Empty)
    } else {
        Ok(())
    }
}

} // verus!
