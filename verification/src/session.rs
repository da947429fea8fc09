//! Bearer-token sessions: issuing, authenticating and revoking tokens.
//!
//! A token is a pair of an issuance number and an entropy word. The issuance
//! number grows with every issued token, so a token can never be issued
//! twice: once revoked, a token stays invalid forever. The entropy word is
//! whatever unguessable value the caller drew; nothing here depends on it.
//! Tokens do not expire on their own; only revocation (logout) ends a
//! session.

use vstd::prelude::*;

use crate::errors::AuthError;
use crate::seq_facts::{lemma_filter_keeps_order, lemma_filter_members};

verus! {

/// An opaque bearer credential identifying an authenticated session.
#[derive(Clone, Copy, Debug, PartialEq, Eq, Hash, Structural)]
pub struct Token {
    /// Issuance number: unique over the lifetime of one [`Sessions`] value.
    pub seq: u64,
    /// Caller-supplied unguessable value; not interpreted here.
    pub entropy: u64,
}

/// A live association of a token with a user.
#[derive(Clone, Copy, Debug, PartialEq, Eq, Structural)]
pub struct Session {
    /// The token the session is addressed by.
    pub token: Token,
    /// The user the token authenticates as.
    pub user_id: u64,
}

/// Whether some session in `sessions` carries the token `t`.
pub open spec fn seq_has_token(sessions: Seq<Session>, t: Token) -> bool {
    exists|i: int| 0 <= i < sessions.len() && (#[trigger] sessions[i]).token == t
}

/// The session store: every live token, each resolving to exactly one user.
#[derive(Debug)]
pub struct Sessions {
    /// The live sessions, in order of issuance.
    pub sessions: Vec<Session>,
    /// The issuance number the next token will carry.
    pub next_seq: u64,
}

impl Sessions {
    /// Well-formedness: issuance numbers grow along the store and stay below
    /// `next_seq`, so no two live sessions share a token.
    pub open spec fn wf(self) -> bool {
        &&& forall|i: int, j: int|
            0 <= i < j < self.sessions@.len() ==> (#[trigger] self.sessions@[i]).token.seq < (
            #[trigger] self.sessions@[j]).token.seq
        &&& forall|i: int|
            0 <= i < self.sessions@.len() ==> (#[trigger] self.sessions@[i]).token.seq
                < self.next_seq
    }

    /// Whether `t` is a live token.
    pub open spec fn spec_has_token(self, t: Token) -> bool {
        seq_has_token(self.sessions@, t)
    }

    /// The user a live token resolves to. Well-formedness makes the choice
    /// unique.
    pub open spec fn spec_user_of(self, t: Token) -> u64
        recommends
            self.spec_has_token(t),
    {
        (self.sessions@[choose|i: int|
            0 <= i < self.sessions@.len() && (#[trigger] self.sessions@[i]).token == t]).user_id
    }

    /// An empty session store.
    pub fn new() -> (s: Sessions)
        ensures
            s.wf(),
            s.sessions@ =~= Seq::<Session>::empty(),
            s.next_seq == 0,
    {
        Sessions { sessions: Vec::new(), next_seq: 0 }
    }

    /// Issues a fresh token for `user_id` and records the session. The
    /// caller passes the entropy it drew; freshness does not depend on it.
    /// The returned token was not live before the call.
    pub fn issue_token(&mut self, user_id: u64, entropy: u64) -> (t: Token)
        requires
            old(self).wf(),
            old(self).next_seq < u64::MAX,
        ensures
            final(self).wf(),
            t.seq == old(self).next_seq,
            t.entropy == entropy,
            !old(self).spec_has_token(t),
            final(self).sessions@ =~= old(self).sessions@.push(
                Session { token: t, user_id: user_id },
            ),
            final(self).next_seq == old(self).next_seq + 1,
    {
        let t = Token { seq: self.next_seq, entropy };
        self.sessions.push(Session { token: t, user_id });
        self.next_seq = self.next_seq + 1;
        t
    }

    /// Resolves a token to the user it authenticates as, or rejects it as
    /// invalid. A token resolves if and only if it is live, and then to the
    /// one user its session names.
    #[verifier::loop_isolation(false)]
    pub fn authenticate(&self, t: Token) -> (r: Result<u64, AuthError>)
        requires
            self.wf(),
        ensures
            r is Ok <==> self.spec_has_token(t),
            r matches Ok(u) ==> exists|i: int|
                0 <= i < self.sessions@.len() && #[trigger] self.sessions@[i] == (Session {
                    token: t,
                    user_id: u,
                }),
            r matches Ok(u) ==> u == self.spec_user_of(t),
            r matches Err(e) ==> e == AuthError::InvalidToken,
    {
        let n = self.sessions.len();
        let mut i: usize = 0;
        while i < n
            invariant
                0 <= i <= n,
                forall|k: int| 0 <= k < i ==> (#[trigger] self.sessions@[k]).token != t,
            decreases n - i,
        {
            let s = self.sessions[i];
            if s.token.seq == t.seq && s.token.entropy == t.entropy {
                proof {
                    let j = choose|j: int|
                        0 <= j < self.sessions@.len() && (#[trigger] self.sessions@[j]).token
                            == t;
                    if j < (i as int) {
                        assert(self.sessions@[j].token != t);
                    }
                    if (i as int) < j {
                        assert(self.sessions@[i as int].token.seq < self.sessions@[j].token.seq);
                    }
                    assert(j == i as int);
                }
                return Ok(s.user_id);
            }
            i = i + 1;
        }
        Err(AuthError::InvalidToken)
    }

    /// Ends the session of `t`, if any. Revoking is idempotent: revoking a
    /// token that is not live leaves the store unchanged. Every other
    /// session survives untouched, in order.
    #[verifier::loop_isolation(false)]
    pub fn revoke(&mut self, t: Token)
        requires
            old(self).wf(),
        ensures
            final(self).wf(),
            final(self).sessions@ =~= old(self).sessions@.filter(
                |sess: Session| sess.token != t,
            ),
            final(self).next_seq == old(self).next_seq,
            forall|x: Token|
                #[trigger] final(self).spec_has_token(x) <==> old(self).spec_has_token(x) && x
                    != t,
    {
        broadcast use Seq::lemma_filter_push;
        broadcast use vstd::seq_lib::group_filter_ensures;

        let ghost pred = |sess: Session| sess.token != t;
        let n = self.sessions.len();
        let mut kept: Vec<Session> = Vec::new();
        let mut i: usize = 0;
        while i < n
            invariant
                0 <= i <= n,
                kept@ =~= self.sessions@.take(i as int).filter(pred),
            decreases n - i,
        {
            let s = self.sessions[i];
            proof {
                assert(self.sessions@.take(i as int).push(self.sessions@[i as int]) =~= self
                    .sessions@.take(i as int + 1));
            }
            if !(s.token.seq == t.seq && s.token.entropy == t.entropy) {
                kept.push(s);
            }
            i = i + 1;
        }
        proof {
            assert(self.sessions@.take(n as int) =~= self.sessions@);
            let all = self.sessions@;
            let remaining = all.filter(pred);
            lemma_filter_members(all, pred);
            let lt = |a: Session, b: Session| a.token.seq < b.token.seq;
            lemma_filter_keeps_order(all, pred, lt);
            assert forall|i: int, j: int| 0 <= i < j < remaining.len() implies (
            #[trigger] remaining[i]).token.seq < (#[trigger] remaining[j]).token.seq by {
                assert(lt(remaining[i], remaining[j]));
            }
            assert forall|x: Token| #[trigger]
                seq_has_token(remaining, x) <==> (seq_has_token(all, x) && x != t) by {
                if seq_has_token(remaining, x) {
                    let k = choose|k: int|
                        0 <= k < remaining.len() && (#[trigger] remaining[k]).token == x;
                    assert(all.contains(remaining[k]));
                    let j = choose|j: int| 0 <= j < all.len() && all[j] == remaining[k];
                    assert(pred(remaining[k]));
                }
                if seq_has_token(all, x) && x != t {
                    let j = choose|j: int| 0 <= j < all.len() && (#[trigger] all[j]).token == x;
                    assert(pred(all[j]));
                    assert(remaining.contains(all[j]));
                    let k = choose|k: int| 0 <= k < remaining.len() && remaining[k] == all[j];
                    assert(remaining[k].token == x);
                }
            }
            assert forall|k: int| 0 <= k < remaining.len() implies (
            #[trigger] remaining[k]).token.seq < self.next_seq by {
                assert(all.contains(remaining[k]));
                let j = choose|j: int| 0 <= j < all.len() && all[j] == remaining[k];
            }
        }
        self.sessions = kept;
    }
}

} // verus!
