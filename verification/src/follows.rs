//! Follow graph: directed follower-to-followee edges with at most one edge
//! per ordered pair. Inserts are strict (a duplicate is an error), deletes
//! are idempotent; self-follow is permitted, as the data model allows.

use crate::errors::AppError;
use crate::credentials::now_seconds;
use vstd::prelude::*;

verus! {

/// No ordered pair occurs twice.
pub open spec fn pairs_unique(s: Seq<(u128, u128)>) -> bool {
    forall|i: int, j: int| 0 <= i < j < s.len() ==> s[i] != s[j]
}

/// One directed relationship row.
pub struct FollowEdge {
    pub follower_id: u128,
    pub followee_id: u128,
    pub created_at: i64,
}

/// The owner of follow edges.
pub struct FollowGraph {
    pub edges: Vec<FollowEdge>,
}

impl View for FollowGraph {
    type V = Seq<(u128, u128)>;

    open spec fn view(&self) -> Seq<(u128, u128)> {
        Seq::new(self.edges@.len(), |i: int| (self.edges@[i].follower_id, self.edges@[i].followee_id))
    }
}

impl FollowGraph {
    /// At most one edge per (follower, followee) pair: the uniqueness
    /// constraint the storage layer enforces.
    pub open spec fn wf(&self) -> bool {
        pairs_unique(self@)
    }

    /// An empty graph, well formed by construction.
    pub fn new() -> (g: FollowGraph)
        ensures
            g@.len() == 0,
            g.wf(),
    {
        let g = FollowGraph { edges: Vec::new() };
        proof {
            assert(g@.len() == 0);
        }
        g
    }

    /// Index of the edge for this pair, if present.
    fn edge_index(&self, follower_id: u128, followee_id: u128) -> (r: Option<usize>)
        ensures
            match r {
                Some(i) => 0 <= i < self@.len() && self@[i as int] == (follower_id, followee_id),
                None => !self@.contains((follower_id, followee_id)),
            },
    {
        let n = self.edges.len();
        let mut i: usize = 0;
        while i < n
            invariant
                i <= n,
                n == self.edges@.len(),
                forall|j: int| 0 <= j < i ==> (#[trigger] self@[j]) != (follower_id, followee_id),
            decreases n - i,
        {
            let e = &self.edges[i];
            if e.follower_id == follower_id && e.followee_id == followee_id {
                return Some(i);
            }
            i = i + 1;
        }
        proof {
            assert(!self@.contains((follower_id, followee_id)));
        }
        None
    }

    /// Pure existence check; never fails.
    pub fn is_following(&self, follower_id: u128, followee_id: u128) -> (b: bool)
        ensures
            b == self@.contains((follower_id, followee_id)),
    {
        self.edge_index(follower_id, followee_id).is_some()
    }

    /// Inserts the edge; strict on duplicates: `AlreadyFollowing` when the
    /// edge exists, and the graph is untouched then.
    pub fn follow(&mut self, follower_id: u128, followee_id: u128) -> (r: Result<(), AppError>)
        requires
            old(self).wf(),
        ensures
            final(self).wf(),
            match r {
                Ok(()) => !old(self)@.contains((follower_id, followee_id)) && final(self)@ == old(
                    self,
                )@.push((follower_id, followee_id)),
                Err(e) => e == AppError::AlreadyFollowing && old(self)@.contains(
                    (follower_id, followee_id),
                ) && final(self)@ == old(self)@,
            },
    {
        if self.edge_index(follower_id, followee_id).is_some() {
            return Err(AppError::AlreadyFollowing);
        }
        let now = now_seconds();
        self.edges.push(FollowEdge { follower_id, followee_id, created_at: now });
        proof {
            assert(self@ =~= old(self)@.push((follower_id, followee_id)));
        }
        Ok(())
    }

    /// Deletes the edge if present; deleting a missing edge is a no-op,
    /// never an error. Afterwards the pair is not in the graph.
    pub fn unfollow(&mut self, follower_id: u128, followee_id: u128)
        requires
            old(self).wf(),
        ensures
            final(self).wf(),
            !final(self)@.contains((follower_id, followee_id)),
            old(self)@.contains((follower_id, followee_id)) ==> exists|i: int|
                0 <= i < old(self)@.len() && old(self)@[i] == (follower_id, followee_id)
                    && final(self)@ == old(self)@.remove(i),
            !old(self)@.contains((follower_id, followee_id)) ==> final(self)@ == old(self)@,
    {
        let idx = match self.edge_index(follower_id, followee_id) {
            Some(i) => i,
            None => {
                return ;
            },
        };
        self.edges.remove(idx);
        proof {
            assert(self@ =~= old(self)@.remove(idx as int));
            assert forall|j: int| 0 <= j < self@.len() implies (#[trigger] self@[j]) != (
            follower_id,
            followee_id,
            ) by {
                if j < idx as int {
                    assert(self@[j] == old(self)@[j]);
                } else {
                    assert(self@[j] == old(self)@[j + 1]);
                }
            }
        }
    }
}

/// Following then asking is affirmative; unfollowing then asking is
/// negative; and an unfollow with no matching edge leaves the graph as it
/// was. Stated over the graph's view, which `follow` and `unfollow` pin.
pub proof fn lemma_follow_unfollow_visibility(s: Seq<(u128, u128)>, a: u128, b: u128, i: int)
    requires
        pairs_unique(s),
    ensures
        s.push((a, b)).contains((a, b)),
        0 <= i < s.len() && s[i] == (a, b) ==> !s.remove(i).contains((a, b)),
{
    let s2 = s.push((a, b));
    assert(s2[s.len() as int] == (a, b));
    if 0 <= i < s.len() && s[i] == (a, b) {
        let r = s.remove(i);
        assert forall|j: int| 0 <= j < r.len() implies (#[trigger] r[j]) != (a, b) by {
            if j < i {
                assert(r[j] == s[j]);
            } else {
                assert(r[j] == s[j + 1]);
            }
        }
    }
}

} // verus!
