//! Favorite graph: user-to-article edges with at most one edge per pair,
//! under the same conventions as the follow graph: strict inserts,
//! idempotent deletes. Counting favorites of an article therefore never
//! counts one user twice.

use crate::credentials::now_seconds;
use crate::errors::AppError;
use crate::follows::pairs_unique;
use crate::users::User;
use vstd::prelude::*;

verus! {

/// One favorite row.
pub struct FavoriteEdge {
    pub user_id: u128,
    pub article_id: u128,
    pub created_at: i64,
}

/// Favorite state of one article relative to a viewer.
#[derive(Clone, Copy, PartialEq, Eq, Structural, Debug)]
pub struct FavoriteInfo {
    pub is_favorited: bool,
    pub favorites_count: usize,
}

/// The owner of favorite edges.
pub struct FavoriteGraph {
    pub edges: Vec<FavoriteEdge>,
}

impl View for FavoriteGraph {
    type V = Seq<(u128, u128)>;

    open spec fn view(&self) -> Seq<(u128, u128)> {
        Seq::new(self.edges@.len(), |i: int| (self.edges@[i].user_id, self.edges@[i].article_id))
    }
}

/// How many edges of `s` point at article `a`.
pub open spec fn count_favs(s: Seq<(u128, u128)>, a: u128) -> int
    decreases s.len(),
{
    if s.len() == 0 {
        0
    } else {
        count_favs(s.drop_last(), a) + if s.last().1 == a {
            1int
        } else {
            0int
        }
    }
}

/// The article ids user `u` favorited, in insertion order.
pub open spec fn favs_of(s: Seq<(u128, u128)>, u: u128) -> Seq<u128>
    decreases s.len(),
{
    if s.len() == 0 {
        Seq::empty()
    } else {
        favs_of(s.drop_last(), u) + if s.last().0 == u {
            seq![s.last().1]
        } else {
            Seq::empty()
        }
    }
}

/// The user ids that favorited article `a`, in insertion order.
pub open spec fn users_of(s: Seq<(u128, u128)>, a: u128) -> Seq<u128>
    decreases s.len(),
{
    if s.len() == 0 {
        Seq::empty()
    } else {
        users_of(s.drop_last(), a) + if s.last().1 == a {
            seq![s.last().0]
        } else {
            Seq::empty()
        }
    }
}

impl FavoriteGraph {
    /// At most one edge per (user, article) pair.
    pub open spec fn wf(&self) -> bool {
        pairs_unique(self@)
    }

    /// An empty graph, well formed by construction.
    pub fn new() -> (g: FavoriteGraph)
        ensures
            g@.len() == 0,
            g.wf(),
    {
        let g = FavoriteGraph { edges: Vec::new() };
        proof {
            assert(g@.len() == 0);
        }
        g
    }

    /// Index of the edge for this pair, if present.
    fn edge_index(&self, user_id: u128, article_id: u128) -> (r: Option<usize>)
        ensures
            match r {
                Some(i) => 0 <= i < self@.len() && self@[i as int] == (user_id, article_id),
                None => !self@.contains((user_id, article_id)),
            },
    {
        let n = self.edges.len();
        let mut i: usize = 0;
        while i < n
            invariant
                i <= n,
                n == self.edges@.len(),
                forall|j: int| 0 <= j < i ==> (#[trigger] self@[j]) != (user_id, article_id),
            decreases n - i,
        {
            let e = &self.edges[i];
            if e.user_id == user_id && e.article_id == article_id {
                return Some(i);
            }
            i = i + 1;
        }
        proof {
            assert(!self@.contains((user_id, article_id)));
        }
        None
    }

    /// Pure existence check; never fails.
    pub fn is_favorited(&self, user_id: u128, article_id: u128) -> (b: bool)
        ensures
            b == self@.contains((user_id, article_id)),
    {
        self.edge_index(user_id, article_id).is_some()
    }

    /// Inserts the edge; strict on duplicates: `AlreadyFavorited` when the
    /// edge exists, and the graph is untouched then.
    pub fn favorite(&mut self, user_id: u128, article_id: u128) -> (r: Result<(), AppError>)
        requires
            old(self).wf(),
        ensures
            final(self).wf(),
            match r {
                Ok(()) => !old(self)@.contains((user_id, article_id)) && final(self)@ == old(
                    self,
                )@.push((user_id, article_id)),
                Err(e) => e == AppError::AlreadyFavorited && old(self)@.contains(
                    (user_id, article_id),
                ) && final(self)@ == old(self)@,
            },
    {
        if self.edge_index(user_id, article_id).is_some() {
            return Err(AppError::AlreadyFavorited);
        }
        let now = now_seconds();
        self.edges.push(FavoriteEdge { user_id, article_id, created_at: now });
        proof {
            assert(self@ =~= old(self)@.push((user_id, article_id)));
        }
        Ok(())
    }

    /// Deletes the edge if present; deleting a missing edge is a no-op,
    /// never an error. Afterwards the pair is not in the graph.
    pub fn unfavorite(&mut self, user_id: u128, article_id: u128)
        requires
            old(self).wf(),
        ensures
            final(self).wf(),
            !final(self)@.contains((user_id, article_id)),
            old(self)@.contains((user_id, article_id)) ==> exists|i: int|
                0 <= i < old(self)@.len() && old(self)@[i] == (user_id, article_id)
                    && final(self)@ == old(self)@.remove(i),
            !old(self)@.contains((user_id, article_id)) ==> final(self)@ == old(self)@,
    {
        let idx = match self.edge_index(user_id, article_id) {
            Some(i) => i,
            None => {
                return ;
            },
        };
        self.edges.remove(idx);
        proof {
            assert(self@ =~= old(self)@.remove(idx as int));
            assert forall|j: int| 0 <= j < self@.len() implies (#[trigger] self@[j]) != (
            user_id,
            article_id,
            ) by {
                if j < idx as int {
                    assert(self@[j] == old(self)@[j]);
                } else {
                    assert(self@[j] == old(self)@[j + 1]);
                }
            }
        }
    }

    /// How many users favorited `article_id`.
    pub fn count_favorites(&self, article_id: u128) -> (r: usize)
        ensures
            r as int == count_favs(self@, article_id),
    {
        let n = self.edges.len();
        let mut i: usize = 0;
        let mut cnt: usize = 0;
        proof {
            assert(self@.take(0) =~= Seq::<(u128, u128)>::empty());
        }
        while i < n
            invariant
                i <= n,
                n == self.edges@.len(),
                cnt <= i,
                cnt as int == count_favs(self@.take(i as int), article_id),
            decreases n - i,
        {
            proof {
                let pre = self@.take(i as int);
                let nxt = self@.take(i as int + 1);
                assert(nxt.drop_last() =~= pre);
                assert(nxt.last() == self@[i as int]);
            }
            if self.edges[i].article_id == article_id {
                cnt = cnt + 1;
            }
            i = i + 1;
        }
        proof {
            assert(self@.take(n as int) =~= self@);
        }
        cnt
    }

    /// The article ids `user_id` favorited, in insertion order.
    pub fn list_favorited_article_ids(&self, user_id: u128) -> (r: Vec<u128>)
        ensures
            r@ == favs_of(self@, user_id),
    {
        let n = self.edges.len();
        let mut i: usize = 0;
        let mut out: Vec<u128> = Vec::new();
        proof {
            assert(self@.take(0) =~= Seq::<(u128, u128)>::empty());
            assert(out@ =~= favs_of(self@.take(0), user_id));
        }
        while i < n
            invariant
                i <= n,
                n == self.edges@.len(),
                out@ == favs_of(self@.take(i as int), user_id),
            decreases n - i,
        {
            proof {
                let pre = self@.take(i as int);
                let nxt = self@.take(i as int + 1);
                assert(nxt.drop_last() =~= pre);
                assert(nxt.last() == self@[i as int]);
            }
            if self.edges[i].user_id == user_id {
                out.push(self.edges[i].article_id);
                proof {
                    assert(out@ =~= favs_of(self@.take(i as int + 1), user_id));
                }
            } else {
                proof {
                    assert(out@ =~= favs_of(self@.take(i as int + 1), user_id));
                }
            }
            i = i + 1;
        }
        proof {
            assert(self@.take(n as int) =~= self@);
        }
        out
    }
}

impl User {
    /// The article ids this user favorited, in insertion order.
    pub fn fetch_favorited_article_ids(&self, graph: &FavoriteGraph) -> (r: Result<
        Vec<u128>,
        AppError,
    >)
        ensures
            match r {
                Ok(v) => v@ == favs_of(graph@, self.id),
                Err(_) => false,
            },
    {
        Ok(graph.list_favorited_article_ids(self.id))
    }
}

/// A fresh favorite raises the article's count by exactly one, and the
/// pair is then present, so favoriting the same article again is the
/// strict duplicate error rather than a second count.
pub proof fn lemma_favorite_counts_once(s: Seq<(u128, u128)>, u: u128, a: u128)
    requires
        !s.contains((u, a)),
    ensures
        s.push((u, a)).contains((u, a)),
        count_favs(s.push((u, a)), a) == count_favs(s, a) + 1,
{
    let s2 = s.push((u, a));
    assert(s2[s.len() as int] == (u, a));
    assert(s2.drop_last() =~= s);
    assert(s2.last() == (u, a));
}

/// Every entry of `users_of` is backed by an edge.
proof fn lemma_users_of_member(s: Seq<(u128, u128)>, a: u128)
    ensures
        forall|k: int|
            0 <= k < users_of(s, a).len() ==> s.contains(((#[trigger] users_of(s, a)[k]), a)),
    decreases s.len(),
{
    if s.len() > 0 {
        let pre = s.drop_last();
        lemma_users_of_member(pre, a);
        assert forall|k: int| 0 <= k < users_of(s, a).len() implies s.contains(
            ((#[trigger] users_of(s, a)[k]), a),
        ) by {
            if k < users_of(pre, a).len() {
                assert(users_of(s, a)[k] == users_of(pre, a)[k]);
                assert(pre.contains((users_of(pre, a)[k], a)));
                let w = choose|w: int| 0 <= w < pre.len() && pre[w] == (users_of(pre, a)[k], a);
                assert(s[w] == (users_of(s, a)[k], a));
            } else {
                assert(s.last().1 == a);
                assert(users_of(s, a)[k] == s.last().0);
                assert(s[s.len() - 1] == (users_of(s, a)[k], a));
            }
        }
    }
}

/// With unique pairs, no user appears twice among an article's
/// favoriters, and the favorite count equals the number of distinct
/// favoriters: a single user's favorite is never double-counted.
pub proof fn lemma_count_favorites_distinct(s: Seq<(u128, u128)>, a: u128)
    requires
        pairs_unique(s),
    ensures
        users_of(s, a).len() == count_favs(s, a),
        forall|i: int, j: int|
            0 <= i < j < users_of(s, a).len() ==> users_of(s, a)[i] != users_of(s, a)[j],
    decreases s.len(),
{
    if s.len() > 0 {
        let pre = s.drop_last();
        assert(pairs_unique(pre)) by {
            assert(forall|i: int| 0 <= i < pre.len() ==> pre[i] == #[trigger] s[i]);
        }
        lemma_count_favorites_distinct(pre, a);
        lemma_users_of_member(pre, a);
        if s.last().1 == a {
            let us = users_of(s, a);
            let up = users_of(pre, a);
            assert(us == up + seq![s.last().0]);
            assert forall|i: int, j: int| 0 <= i < j < us.len() implies us[i] != us[j] by {
                if j < up.len() {
                    assert(us[i] == up[i] && us[j] == up[j]);
                } else {
                    assert(us[j] == s.last().0);
                    assert(us[i] == up[i]);
                    if up[i] == s.last().0 {
                        assert(pre.contains((s.last().0, a)));
                        let w = choose|w: int|
                            0 <= w < pre.len() && pre[w] == (s.last().0, a);
                        assert(s[w] == s[s.len() - 1]);
                        assert(false);
                    }
                }
            }
        }
    }
}

} // verus!
