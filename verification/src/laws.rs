//! Laws that relate the contracts of several operations.
//!
//! Each law is stated over the spec functions the operations' own contracts
//! speak of, so together with those contracts it covers every run of the
//! executable code.

use vstd::prelude::*;

use crate::graph::Graph;
use crate::session::{seq_has_token, Session, Sessions, Token};

verus! {

/// Following is reflected by listing, and unfollowing by its absence: any
/// duplicate-free listing that reflects the edge set (as `list_following`
/// answers for `a`) contains `b` exactly when the edge from `a` to `b` is
/// live — so right after a successful `follow(a, b)` it contains `b`, and
/// right after a successful `unfollow(a, b)` it does not.
pub proof fn lemma_follow_listing(g: Graph, a: u64, b: u64, listing: Seq<u64>)
    requires
        forall|x: u64| #[trigger] listing.contains(x) <==> g.spec_follows(a, x),
    ensures
        listing.contains(b) <==> g.spec_follows(a, b),
{
}

/// A revoked token stays invalid: issuing, the only operation that adds a
/// session, always hands out the next issuance number, so a token whose
/// number is already spent — any token that was ever live, in particular a
/// revoked one — can never come back. Together with the contracts of
/// `revoke` (the token is no longer live afterwards) and `authenticate`
/// (only live tokens resolve), every later `authenticate` of the revoked
/// token fails, whatever operations run in between.
pub proof fn lemma_spent_token_stays_invalid(
    before: Sessions,
    after: Sessions,
    t: Token,
    user_id: u64,
    entropy: u64,
)
    requires
        before.wf(),
        !before.spec_has_token(t),
        t.seq < before.next_seq,
        after.sessions@ == before.sessions@.push(
            Session { token: Token { seq: before.next_seq, entropy: entropy }, user_id: user_id },
        ),
        after.next_seq == before.next_seq + 1,
    ensures
        !after.spec_has_token(t),
        t.seq < after.next_seq,
{
    if seq_has_token(after.sessions@, t) {
        let i = choose|i: int|
            0 <= i < after.sessions@.len() && (#[trigger] after.sessions@[i]).token == t;
        if i < after.sessions@.len() - 1 {
            assert(before.sessions@[i].token == t);
        }
    }
}

/// Revoking also never revives anything: a token distinct from the revoked
/// one is live afterwards exactly when it was live before. This is the
/// `revoke` contract restated for a third token, so chains of revocations
/// keep a spent token spent.
pub proof fn lemma_revoke_only_removes(before: Sessions, after: Sessions, revoked: Token, t: Token)
    requires
        forall|x: Token|
            #[trigger] after.spec_has_token(x) <==> before.spec_has_token(x) && x != revoked,
        !before.spec_has_token(t),
    ensures
        !after.spec_has_token(t),
{
}

} // verus!
