//! Minimal article records: what the aggregation layer reads of an
//! article — its id, slug, title and author — modeled as plain values.

use crate::errors::AppError;
use crate::hex::str_eq;
use vstd::prelude::*;

verus! {

/// Mathematical image of one article row.
pub ghost struct ArticleV {
    pub id: u128,
    pub slug: Seq<char>,
    pub title: Seq<char>,
    pub author_id: u128,
}

/// One article row.
#[derive(Debug)]
pub struct Article {
    pub id: u128,
    pub slug: String,
    pub title: String,
    pub author_id: u128,
}

impl View for Article {
    type V = ArticleV;

    open spec fn view(&self) -> ArticleV {
        ArticleV { id: self.id, slug: self.slug@, title: self.title@, author_id: self.author_id }
    }
}

impl Article {
    /// A copy whose view equals this row's view.
    pub fn duplicate(&self) -> (a: Article)
        ensures
            a@ == self@,
    {
        Article {
            id: self.id,
            slug: self.slug.clone(),
            title: self.title.clone(),
            author_id: self.author_id,
        }
    }
}

/// Some row of `s` carries slug `g`.
pub open spec fn has_slug(s: Seq<ArticleV>, g: Seq<char>) -> bool {
    exists|i: int| 0 <= i < s.len() && (#[trigger] s[i]).slug == g
}

/// The owner of article rows.
pub struct ArticleStore {
    pub rows: Vec<Article>,
}

impl View for ArticleStore {
    type V = Seq<ArticleV>;

    open spec fn view(&self) -> Seq<ArticleV> {
        Seq::new(self.rows@.len(), |i: int| self.rows@[i]@)
    }
}

impl ArticleStore {
    /// Slugs are globally unique: the constraint the storage layer
    /// enforces, and what makes a lookup by slug unambiguous.
    pub open spec fn wf(&self) -> bool {
        forall|i: int, j: int|
            0 <= i < j < self@.len() ==> (#[trigger] self@[i]).slug != (#[trigger] self@[j]).slug
    }

    /// An empty store, well formed by construction.
    pub fn new() -> (s: ArticleStore)
        ensures
            s@.len() == 0,
            s.wf(),
    {
        let s = ArticleStore { rows: Vec::new() };
        proof {
            assert(s@.len() == 0);
        }
        s
    }

    /// Appends an article row under a slug no other row carries.
    pub fn add(&mut self, article: Article)
        requires
            old(self).wf(),
            !has_slug(old(self)@, article@.slug),
        ensures
            final(self).wf(),
            final(self)@ == old(self)@.push(article@),
    {
        let ghost prev = self@;
        let ghost a_v = article@;
        self.rows.push(article);
        proof {
            assert(self@ =~= prev.push(a_v));
            assert forall|i: int, j: int| 0 <= i < j < self@.len() implies (#[trigger] self@[i]).slug
                != (#[trigger] self@[j]).slug by {
                if j < prev.len() {
                    assert(self@[i] == prev[i] && self@[j] == prev[j]);
                } else {
                    assert(self@[i] == prev[i]);
                }
            }
        }
    }

    /// Point lookup by slug; `NotFound` exactly when no row carries it.
    pub fn find_by_slug(&self, slug: &str) -> (r: Result<Article, AppError>)
        ensures
            match r {
                Ok(a) => exists|i: int|
                    0 <= i < self@.len() && a@ == (#[trigger] self@[i]) && self@[i].slug == slug@,
                Err(e) => e == AppError::NotFound && !has_slug(self@, slug@),
            },
    {
        let n = self.rows.len();
        let mut i: usize = 0;
        while i < n
            invariant
                i <= n,
                n == self.rows@.len(),
                forall|j: int| 0 <= j < i ==> (#[trigger] self@[j]).slug != slug@,
            decreases n - i,
        {
            if str_eq(self.rows[i].slug.as_str(), slug) {
                let a = self.rows[i].duplicate();
                proof {
                    assert(a@ == self@[i as int]);
                    assert(self@[i as int].slug == slug@);
                }
                return Ok(a);
            }
            i = i + 1;
        }
        Err(AppError::NotFound)
    }
}

} // verus!
