//! The social graph: directed follow edges between users.
//!
//! An edge `(a, b)` means "`a` follows `b`": `b`'s tweets appear in `a`'s
//! timeline. Edges are unique pairs and never loop back to their origin;
//! following an already-followed user is an error, not a silent success.

use vstd::prelude::*;

use crate::errors::FollowError;
use crate::seq_facts::{lemma_filter_all, lemma_filter_keeps_order, lemma_filter_members};

verus! {

/// Whether `edges` holds the follow edge from `a` to `b`.
pub open spec fn seq_has_edge(edges: Seq<(u64, u64)>, a: u64, b: u64) -> bool {
    exists|i: int| 0 <= i < edges.len() && #[trigger] edges[i] == (a, b)
}

/// The follow graph: one directed edge per live follow relationship.
#[derive(Debug)]
pub struct Graph {
    /// The live edges `(follower, followee)`, in order of creation.
    pub edges: Vec<(u64, u64)>,
}

impl Graph {
    /// Well-formedness: no duplicate edge, and no edge from a user to
    /// themselves.
    pub open spec fn wf(self) -> bool {
        &&& forall|i: int, j: int|
            0 <= i < j < self.edges@.len() ==> #[trigger] self.edges@[i] != #[trigger] self.edges@[j]
        &&& forall|i: int|
            0 <= i < self.edges@.len() ==> (#[trigger] self.edges@[i]).0 != self.edges@[i].1
    }

    /// Whether `a` follows `b`.
    pub open spec fn spec_follows(self, a: u64, b: u64) -> bool {
        seq_has_edge(self.edges@, a, b)
    }

    /// An empty graph.
    pub fn new() -> (g: Graph)
        ensures
            g.wf(),
            g.edges@ =~= Seq::<(u64, u64)>::empty(),
    {
        Graph { edges: Vec::new() }
    }

    /// Whether `a` follows `b`, decided by scanning the edges.
    #[verifier::loop_isolation(false)]
    pub fn follows(&self, a: u64, b: u64) -> (r: bool)
        ensures
            r == self.spec_follows(a, b),
    {
        let n = self.edges.len();
        let mut i: usize = 0;
        while i < n
            invariant
                0 <= i <= n,
                forall|k: int| 0 <= k < i ==> #[trigger] self.edges@[k] != (a, b),
            decreases n - i,
        {
            let e = self.edges[i];
            if e.0 == a && e.1 == b {
                return true;
            }
            i = i + 1;
        }
        false
    }

    /// Creates the edge from `a` to `b`. Fails with `SelfFollow` when the two
    /// are equal and with `AlreadyFollowing` when the edge exists; in both
    /// cases the graph is unchanged. Otherwise the one new edge is appended.
    pub fn follow(&mut self, a: u64, b: u64) -> (r: Result<(), FollowError>)
        requires
            old(self).wf(),
        ensures
            final(self).wf(),
            a == b ==> r == Err::<(), FollowError>(FollowError::SelfFollow),
            a != b && old(self).spec_follows(a, b) ==> r == Err::<(), FollowError>(
                FollowError::AlreadyFollowing,
            ),
            a != b && !old(self).spec_follows(a, b) ==> r == Ok::<(), FollowError>(())
                && final(self).edges@ =~= old(self).edges@.push((a, b)),
            !(r is Ok) ==> final(self).edges@ =~= old(self).edges@,
            forall|x: u64, y: u64|
                #[trigger] final(self).spec_follows(x, y) <==> old(self).spec_follows(x, y) || (
                r is Ok && x == a && y == b),
    {
        if a == b {
            return Err(FollowError::SelfFollow);
        }
        if self.follows(a, b) {
            return Err(FollowError::AlreadyFollowing);
        }
        let ghost orig = self.edges@;
        self.edges.push((a, b));
        proof {
            let all = self.edges@;
            assert(all.drop_last() =~= orig);
            assert forall|x: u64, y: u64| #[trigger]
                seq_has_edge(all, x, y) <==> (seq_has_edge(orig, x, y) || (x == a && y == b)) by {
                if seq_has_edge(all, x, y) {
                    let i = choose|i: int| 0 <= i < all.len() && #[trigger] all[i] == (x, y);
                    if i < all.len() - 1 {
                        assert(orig[i] == (x, y));
                    }
                }
                if seq_has_edge(orig, x, y) {
                    let i = choose|i: int| 0 <= i < orig.len() && #[trigger] orig[i] == (x, y);
                    assert(all[i] == (x, y));
                }
                assert(all[all.len() - 1] == (a, b));
            }
            assert forall|i: int, j: int| 0 <= i < j < all.len() implies #[trigger] all[i]
                != #[trigger] all[j] by {
                if j == all.len() - 1 {
                    if all[i] == (a, b) {
                        assert(orig[i] == (a, b));
                        assert(seq_has_edge(orig, a, b));
                    }
                }
            }
        }
        Ok(())
    }

    /// Removes the edge from `a` to `b`. Fails with `NotFollowing`, leaving
    /// the graph unchanged, when there is no such edge; otherwise exactly
    /// that edge goes, and every other edge survives in order.
    #[verifier::loop_isolation(false)]
    pub fn unfollow(&mut self, a: u64, b: u64) -> (r: Result<(), FollowError>)
        requires
            old(self).wf(),
        ensures
            final(self).wf(),
            r is Ok <==> old(self).spec_follows(a, b),
            r matches Err(e) ==> e == FollowError::NotFollowing && final(self).edges@ =~= old(
                self,
            ).edges@,
            final(self).edges@ =~= old(self).edges@.filter(|e: (u64, u64)| e != (a, b)),
            forall|x: u64, y: u64|
                #[trigger] final(self).spec_follows(x, y) <==> old(self).spec_follows(x, y) && !(
                x == a && y == b),
    {
        broadcast use Seq::lemma_filter_push;
        broadcast use vstd::seq_lib::group_filter_ensures;

        let ghost pred = |e: (u64, u64)| e != (a, b);
        let was_following = self.follows(a, b);
        let n = self.edges.len();
        let mut kept: Vec<(u64, u64)> = Vec::new();
        let mut i: usize = 0;
        while i < n
            invariant
                0 <= i <= n,
                kept@ =~= self.edges@.take(i as int).filter(pred),
            decreases n - i,
        {
            let e = self.edges[i];
            proof {
                assert(self.edges@.take(i as int).push(self.edges@[i as int]) =~= self.edges@.take(
                    i as int + 1,
                ));
            }
            if !(e.0 == a && e.1 == b) {
                kept.push(e);
            }
            i = i + 1;
        }
        proof {
            assert(self.edges@.take(n as int) =~= self.edges@);
            let all = self.edges@;
            let remaining = all.filter(pred);
            lemma_filter_members(all, pred);
            let ne = |x: (u64, u64), y: (u64, u64)| x != y;
            lemma_filter_keeps_order(all, pred, ne);
            assert forall|i: int, j: int| 0 <= i < j < remaining.len() implies #[trigger]
                remaining[i] != #[trigger] remaining[j] by {
                assert(ne(remaining[i], remaining[j]));
            }
            assert forall|k: int| 0 <= k < remaining.len() implies (#[trigger] remaining[k]).0
                != remaining[k].1 by {
                assert(all.contains(remaining[k]));
                let j = choose|j: int| 0 <= j < all.len() && all[j] == remaining[k];
            }
            assert forall|x: u64, y: u64| #[trigger]
                seq_has_edge(remaining, x, y) <==> (seq_has_edge(all, x, y) && !(x == a && y
                    == b)) by {
                if seq_has_edge(remaining, x, y) {
                    let k = choose|k: int|
                        0 <= k < remaining.len() && #[trigger] remaining[k] == (x, y);
                    assert(all.contains(remaining[k]));
                    let j = choose|j: int| 0 <= j < all.len() && all[j] == remaining[k];
                    assert(all[j] == (x, y));
                    assert(pred(remaining[k]));
                }
                if seq_has_edge(all, x, y) && !(x == a && y == b) {
                    let j = choose|j: int| 0 <= j < all.len() && #[trigger] all[j] == (x, y);
                    assert(pred(all[j]));
                    assert(remaining.contains(all[j]));
                    let k = choose|k: int| 0 <= k < remaining.len() && remaining[k] == all[j];
                    assert(remaining[k] == (x, y));
                }
            }
            if !was_following {
                assert forall|k: int| 0 <= k < all.len() implies pred(#[trigger] all[k]) by {
                    if all[k] == (a, b) {
                        assert(seq_has_edge(all, a, b));
                    }
                }
                lemma_filter_all(all, pred);
            }
        }
        self.edges = kept;
        if was_following {
            Ok(())
        } else {
            Err(FollowError::NotFollowing)
        }
    }

    /// Every user `a` follows, without duplicates; the order reflects edge
    /// creation order.
    #[verifier::loop_isolation(false)]
    pub fn list_following(&self, a: u64) -> (r: Vec<u64>)
        requires
            self.wf(),
        ensures
            forall|b: u64| #[trigger] r@.contains(b) <==> self.spec_follows(a, b),
            forall|i: int, j: int| 0 <= i < j < r@.len() ==> r@[i] != r@[j],
    {
        let n = self.edges.len();
        let mut r: Vec<u64> = Vec::new();
        let mut i: usize = 0;
        while i < n
            invariant
                0 <= i <= n,
                forall|b: u64|
                    #[trigger] r@.contains(b) <==> seq_has_edge(
                        self.edges@.take(i as int),
                        a,
                        b,
                    ),
                forall|p: int, q: int| 0 <= p < q < r@.len() ==> r@[p] != r@[q],
            decreases n - i,
        {
            let e = self.edges[i];
            proof {
                assert forall|b: u64| #[trigger]
                    seq_has_edge(self.edges@.take(i as int + 1), a, b) <==> (seq_has_edge(
                        self.edges@.take(i as int),
                        a,
                        b,
                    ) || self.edges@[i as int] == (a, b)) by {
                    let upto = self.edges@.take(i as int + 1);
                    if seq_has_edge(upto, a, b) {
                        let k = choose|k: int| 0 <= k < upto.len() && #[trigger] upto[k] == (a, b);
                        if k < i {
                            assert(self.edges@.take(i as int)[k] == (a, b));
                        }
                    }
                    if seq_has_edge(self.edges@.take(i as int), a, b) {
                        let k = choose|k: int|
                            0 <= k < i && #[trigger] self.edges@.take(i as int)[k] == (a, b);
                        assert(upto[k] == (a, b));
                    }
                    assert(upto[i as int] == self.edges@[i as int]);
                }
            }
            if e.0 == a {
                proof {
                    if r@.contains(e.1) {
                        let k = choose|k: int|
                            0 <= k < i && #[trigger] self.edges@.take(i as int)[k] == (a, e.1);
                        assert(self.edges@[k] == self.edges@[i as int]);
                    }
                }
                let ghost r0 = r@;
                r.push(e.1);
                proof {
                    assert forall|b: u64| #[trigger]
                        r@.contains(b) <==> (r0.contains(b) || b == e.1) by {
                        if r@.contains(b) {
                            let k = choose|k: int| 0 <= k < r@.len() && r@[k] == b;
                            if k < r0.len() {
                                assert(r0[k] == b);
                            }
                        }
                        if r0.contains(b) {
                            let k = choose|k: int| 0 <= k < r0.len() && r0[k] == b;
                            assert(r@[k] == b);
                        }
                        assert(r@[r@.len() - 1] == e.1);
                    }
                }
            }
            i = i + 1;
        }
        proof {
            assert(self.edges@.take(n as int) =~= self.edges@);
        }
        r
    }

    /// Every user that follows `b`, without duplicates; the order reflects
    /// edge creation order.
    #[verifier::loop_isolation(false)]
    pub fn list_followers(&self, b: u64) -> (r: Vec<u64>)
        requires
            self.wf(),
        ensures
            forall|a: u64| #[trigger] r@.contains(a) <==> self.spec_follows(a, b),
            forall|i: int, j: int| 0 <= i < j < r@.len() ==> r@[i] != r@[j],
    {
        let n = self.edges.len();
        let mut r: Vec<u64> = Vec::new();
        let mut i: usize = 0;
        while i < n
            invariant
                0 <= i <= n,
                forall|a: u64|
                    #[trigger] r@.contains(a) <==> seq_has_edge(
                        self.edges@.take(i as int),
                        a,
                        b,
                    ),
                forall|p: int, q: int| 0 <= p < q < r@.len() ==> r@[p] != r@[q],
            decreases n - i,
        {
            let e = self.edges[i];
            proof {
                assert forall|a: u64| #[trigger]
                    seq_has_edge(self.edges@.take(i as int + 1), a, b) <==> (seq_has_edge(
                        self.edges@.take(i as int),
                        a,
                        b,
                    ) || self.edges@[i as int] == (a, b)) by {
                    let upto = self.edges@.take(i as int + 1);
                    if seq_has_edge(upto, a, b) {
                        let k = choose|k: int| 0 <= k < upto.len() && #[trigger] upto[k] == (a, b);
                        if k < i {
                            assert(self.edges@.take(i as int)[k] == (a, b));
                        }
                    }
                    if seq_has_edge(self.edges@.take(i as int), a, b) {
                        let k = choose|k: int|
                            0 <= k < i && #[trigger] self.edges@.take(i as int)[k] == (a, b);
                        assert(upto[k] == (a, b));
                    }
                    assert(upto[i as int] == self.edges@[i as int]);
                }
            }
            if e.1 == b {
                proof {
                    if r@.contains(e.0) {
                        let k = choose|k: int|
                            0 <= k < i && #[trigger] self.edges@.take(i as int)[k] == (e.0, b);
                        assert(self.edges@[k] == self.edges@[i as int]);
                    }
                }
                let ghost r0 = r@;
                r.push(e.0);
                proof {
                    assert forall|a: u64| #[trigger]
                        r@.contains(a) <==> (r0.contains(a) || a == e.0) by {
                        if r@.contains(a) {
                            let k = choose|k: int| 0 <= k < r@.len() && r@[k] == a;
                            if k < r0.len() {
                                assert(r0[k] == a);
                            }
                        }
                        if r0.contains(a) {
                            let k = choose|k: int| 0 <= k < r0.len() && r0[k] == a;
                            assert(r@[k] == a);
                        }
                        assert(r@[r@.len() - 1] == e.0);
                    }
                }
            }
            i = i + 1;
        }
        proof {
            assert(self.edges@.take(n as int) =~= self.edges@);
        }
        r
    }
}

} // verus!
