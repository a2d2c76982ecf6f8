//! Article aggregation: hydrating an article into its fully composed read
//! model — the article, its author's viewer-relative profile, favorite
//! state, and tags — and the favorite repository that mutates the favorite
//! graph and returns the hydrated result, as the feature layer exposes it.

use crate::articles::{has_slug, Article, ArticleStore};
use crate::errors::AppError;
use crate::favorites::{count_favs, FavoriteGraph, FavoriteInfo};
use crate::follows::FollowGraph;
use crate::profiles::{compose, Profile};
use crate::tags::{tags_of, tags_view, Tag, TagStore};
use crate::users::{User, UserDirectory};
use vstd::prelude::*;

verus! {

/// The whole relational state one process works against: the in-memory
/// stand-in for the pooled storage collaborator.
pub struct Store {
    pub users: UserDirectory,
    pub articles: ArticleStore,
    pub follows: FollowGraph,
    pub favorites: FavoriteGraph,
    pub tags: TagStore,
}

impl Store {
    /// Every component store satisfies its own invariant.
    pub open spec fn wf(&self) -> bool {
        &&& self.users.wf()
        &&& self.articles.wf()
        &&& self.follows.wf()
        &&& self.favorites.wf()
        &&& self.tags.wf()
    }

    /// An empty state, well formed by construction.
    pub fn new() -> (s: Store)
        ensures
            s.wf(),
            s.users@.len() == 0,
            s.articles@.len() == 0,
            s.follows@.len() == 0,
            s.favorites@.len() == 0,
            s.tags@.len() == 0,
    {
        Store {
            users: UserDirectory::new(),
            articles: ArticleStore::new(),
            follows: FollowGraph::new(),
            favorites: FavoriteGraph::new(),
            tags: TagStore::new(),
        }
    }
}

/// Assembles the fully hydrated view of `article` for `viewer_id`: the
/// article itself, its author's profile relative to the viewer, the
/// viewer's favorite flag with the article's favorite count, and the
/// article's tags in insertion order. The reads are independent; any
/// failing one (here: an absent author) aborts the whole hydration, so the
/// caller sees a complete tuple or an error, never a partial result.
pub fn hydrate(
    article: &Article,
    viewer_id: Option<u128>,
    users: &UserDirectory,
    follows: &FollowGraph,
    favorites: &FavoriteGraph,
    tags: &TagStore,
) -> (r: Result<(Article, Profile, FavoriteInfo, Vec<Tag>), AppError>)
    requires
        users.wf(),
    ensures
        match r {
            Ok((a, p, fi, ts)) => {
                &&& a@ == article@
                &&& (article.author_id as int) < users@.len()
                &&& p@.username == users@[article.author_id as int].username
                &&& p@.bio == users@[article.author_id as int].bio
                &&& p@.image == users@[article.author_id as int].image
                &&& p@.following == (viewer_id is Some && follows@.contains(
                    (viewer_id->0, article.author_id),
                ))
                &&& fi.is_favorited == (viewer_id is Some && favorites@.contains(
                    (viewer_id->0, article.id),
                ))
                &&& fi.favorites_count as int == count_favs(favorites@, article.id)
                &&& tags_view(ts@) == tags_of(tags@, article.id)
            },
            Err(e) => e == AppError::NotFound && (article.author_id as int) >= users@.len(),
        },
{
    let author = match User::find(users, article.author_id) {
        Ok(u) => u,
        Err(_) => {
            return Err(AppError::NotFound);
        },
    };
    let profile = compose(&author, viewer_id, follows);
    let is_favorited = match viewer_id {
        Some(v) => favorites.is_favorited(v, article.id),
        None => false,
    };
    let favorites_count = favorites.count_favorites(article.id);
    let tag_list = Tag::list_tags(tags, article.id);
    let info = FavoriteInfo { is_favorited, favorites_count };
    Ok((article.duplicate(), profile, info, tag_list))
}

/// The favorite feature's repository: owns the state it works against and
/// serves the favorite-then-hydrate flow.
pub struct FavoriteRepository {
    pub store: Store,
}

impl FavoriteRepository {
    pub fn new(store: Store) -> (r: FavoriteRepository)
        ensures
            r.store == store,
    {
        FavoriteRepository { store }
    }

    /// Favorites the article named by `article_title_slug` on behalf of
    /// `user`, then returns its hydrated view. `NotFound` for an unknown
    /// slug or absent author, `AlreadyFavorited` for a repeated favorite;
    /// the favorite graph is untouched on every failure.
    pub fn favorite(&mut self, user: &User, article_title_slug: &str) -> (r: Result<
        (Article, Profile, FavoriteInfo, Vec<Tag>),
        AppError,
    >)
        requires
            old(self).store.wf(),
        ensures
            final(self).store.wf(),
            final(self).store.users@ == old(self).store.users@,
            final(self).store.articles@ == old(self).store.articles@,
            final(self).store.follows@ == old(self).store.follows@,
            final(self).store.tags@ == old(self).store.tags@,
            match r {
                Ok((a, p, fi, ts)) => {
                    &&& exists|i: int|
                        0 <= i < old(self).store.articles@.len() && a@ == (#[trigger] old(
                            self,
                        ).store.articles@[i]) && old(self).store.articles@[i].slug
                            == article_title_slug@
                    &&& !old(self).store.favorites@.contains((user.id, a.id))
                    &&& final(self).store.favorites@ == old(self).store.favorites@.push(
                        (user.id, a.id),
                    )
                    &&& (a.author_id as int) < old(self).store.users@.len()
                    &&& p@.username == old(self).store.users@[a.author_id as int].username
                    &&& p@.bio == old(self).store.users@[a.author_id as int].bio
                    &&& p@.image == old(self).store.users@[a.author_id as int].image
                    &&& p@.following == old(self).store.follows@.contains((user.id, a.author_id))
                    &&& fi.is_favorited == true
                    &&& fi.favorites_count as int == count_favs(
                        final(self).store.favorites@,
                        a.id,
                    )
                    &&& tags_view(ts@) == tags_of(old(self).store.tags@, a.id)
                },
                Err(e) => {
                    &&& final(self).store.favorites@ == old(self).store.favorites@
                    &&& (e == AppError::NotFound <==> (!has_slug(
                        old(self).store.articles@,
                        article_title_slug@,
                    ) || exists|i: int|
                        0 <= i < old(self).store.articles@.len() && (#[trigger] old(
                            self,
                        ).store.articles@[i]).slug == article_title_slug@ && (old(
                            self,
                        ).store.articles@[i].author_id as int) >= old(self).store.users@.len()))
                    &&& (e == AppError::AlreadyFavorited <==> exists|i: int|
                        0 <= i < old(self).store.articles@.len() && (#[trigger] old(
                            self,
                        ).store.articles@[i]).slug == article_title_slug@ && (old(
                            self,
                        ).store.articles@[i].author_id as int) < old(self).store.users@.len()
                            && old(self).store.favorites@.contains(
                            (user.id, old(self).store.articles@[i].id),
                        ))
                    &&& (e == AppError::NotFound || e == AppError::AlreadyFavorited)
                },
            },
    {
        let article = match self.store.articles.find_by_slug(article_title_slug) {
            Ok(a) => a,
            Err(e) => {
                return Err(e);
            },
        };
        let ghost arts = self.store.articles@;
        let ghost widx = choose|i: int|
            0 <= i < arts.len() && article@ == arts[i] && arts[i].slug == article_title_slug@;
        proof {
            assert forall|j: int|
                0 <= j < arts.len() && (#[trigger] arts[j]).slug
                    == article_title_slug@ implies arts[j] == article@ by {
                if j != widx {
                    assert(arts[j].slug != arts[widx].slug);
                }
            }
        }
        match User::find(&self.store.users, article.author_id) {
            Ok(_) => (),
            Err(e) => {
                return Err(e);
            },
        }
        match self.store.favorites.favorite(user.id, article.id) {
            Ok(()) => (),
            Err(e) => {
                return Err(e);
            },
        }
        let result = hydrate(
            &article,
            Some(user.id),
            &self.store.users,
            &self.store.follows,
            &self.store.favorites,
            &self.store.tags,
        );
        match result {
            Ok((a, p, fi, ts)) => {
                proof {
                    let favs = self.store.favorites@;
                    assert(favs[favs.len() - 1] == (user.id, article.id));
                    assert(favs.contains((user.id, article.id)));
                }
                Ok((a, p, fi, ts))
            },
            Err(_) => {
                proof {
                    assert(false);
                }
                Err(AppError::NotFound)
            },
        }
    }
}

} // verus!
