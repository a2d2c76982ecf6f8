//! Follow and favorite graph behavior, profile composition, tags, and the
//! hydrated article view.

use conduit_core::articles::{Article, ArticleStore};
use conduit_core::di::DiContainer;
use conduit_core::errors::AppError;
use conduit_core::favorites::FavoriteGraph;
use conduit_core::follows::FollowGraph;
use conduit_core::profiles::compose;
use conduit_core::repositories::{hydrate, Store};
use conduit_core::tags::{NewTag, Tag, TagStore};
use conduit_core::users::{User, UserDirectory};

fn two_users() -> (UserDirectory, User, User) {
    let mut d = UserDirectory::new();
    let (a, _) = User::signup(&mut d, "a@x.io", "alice", "pw-a").unwrap();
    let (b, _) = User::signup(&mut d, "b@x.io", "bob", "pw-b").unwrap();
    (d, a, b)
}

#[test]
fn follow_then_is_following_then_unfollow() {
    let (d, alice, bob) = two_users();
    let mut g = FollowGraph::new();
    assert!(!alice.is_following(&g, bob.id));
    let p = alice.follow(&d, &mut g, "bob").unwrap();
    assert!(p.following);
    assert!(alice.is_following(&g, bob.id));
    let p = alice.unfollow(&d, &mut g, "bob").unwrap();
    assert!(!p.following);
    assert!(!alice.is_following(&g, bob.id));
}

#[test]
fn unfollow_without_edge_is_a_noop() {
    let (d, alice, bob) = two_users();
    let mut g = FollowGraph::new();
    let r = alice.unfollow(&d, &mut g, "bob");
    assert!(r.is_ok());
    assert!(!alice.is_following(&g, bob.id));
}

#[test]
fn follow_twice_is_strict_and_unknown_username_is_not_found() {
    let (d, alice, _) = two_users();
    let mut g = FollowGraph::new();
    alice.follow(&d, &mut g, "bob").unwrap();
    let again = alice.follow(&d, &mut g, "bob");
    assert_eq!(again.unwrap_err(), AppError::AlreadyFollowing);
    let nobody = alice.follow(&d, &mut g, "carol");
    assert_eq!(nobody.unwrap_err(), AppError::NotFound);
}

#[test]
fn compose_anonymous_viewer_never_follows() {
    let (d, alice, bob) = two_users();
    let mut g = FollowGraph::new();
    alice.follow(&d, &mut g, "bob").unwrap();
    let p = compose(&bob, None, &g);
    assert!(!p.following);
    let p = compose(&bob, Some(alice.id), &g);
    assert!(p.following);
}

#[test]
fn fetch_profile_returns_subject_fields() {
    let (d, alice, bob) = two_users();
    let mut g = FollowGraph::new();
    let p = alice.fetch_profile(&d, &g, bob.id).unwrap();
    assert_eq!(p.username, "bob");
    assert!(!p.following);
    alice.follow(&d, &mut g, "bob").unwrap();
    let p = alice.fetch_profile(&d, &g, bob.id).unwrap();
    assert_eq!(p.username, "bob");
    assert!(p.following);
    let missing = alice.fetch_profile(&d, &g, 42).unwrap_err();
    assert_eq!(missing, AppError::NotFound);
}

#[test]
fn favorite_twice_errors_and_count_stays_one() {
    let mut g = FavoriteGraph::new();
    g.favorite(1, 10).unwrap();
    assert_eq!(g.count_favorites(10), 1);
    let again = g.favorite(1, 10);
    assert_eq!(again.unwrap_err(), AppError::AlreadyFavorited);
    assert_eq!(g.count_favorites(10), 1);
    g.favorite(2, 10).unwrap();
    assert_eq!(g.count_favorites(10), 2);
}

#[test]
fn unfavorite_is_idempotent() {
    let mut g = FavoriteGraph::new();
    g.favorite(1, 10).unwrap();
    assert!(g.is_favorited(1, 10));
    g.unfavorite(1, 10);
    assert!(!g.is_favorited(1, 10));
    g.unfavorite(1, 10);
    assert!(!g.is_favorited(1, 10));
    assert_eq!(g.count_favorites(10), 0);
}

#[test]
fn favorited_article_ids_keep_insertion_order() {
    let (_, alice, _) = two_users();
    let mut g = FavoriteGraph::new();
    g.favorite(alice.id, 30).unwrap();
    g.favorite(99, 11).unwrap();
    g.favorite(alice.id, 10).unwrap();
    g.favorite(alice.id, 20).unwrap();
    let ids = alice.fetch_favorited_article_ids(&g).unwrap();
    assert_eq!(ids, vec![30, 10, 20]);
}

#[test]
fn create_tags_then_list_tags_round_trips() {
    let mut store = TagStore::new();
    let created = Tag::create(
        &mut store,
        vec![
            NewTag { name: "a".to_string(), article_id: 7 },
            NewTag { name: "b".to_string(), article_id: 7 },
        ],
    );
    assert_eq!(created.len(), 2);
    let listed = Tag::list_tags(&store, 7);
    let names: Vec<&str> = listed.iter().map(|t| t.name.as_str()).collect();
    assert_eq!(names, vec!["a", "b"]);
}

#[test]
fn create_tags_empty_input_and_global_list_cap() {
    let mut store = TagStore::new();
    let created = Tag::create(&mut store, vec![]);
    assert!(created.is_empty());
    let mut records = Vec::new();
    for k in 0..7u32 {
        records.push(NewTag { name: format!("t{}", k), article_id: 1 });
    }
    Tag::create(&mut store, records);
    let listed = Tag::list(&store).unwrap();
    assert_eq!(listed.len(), 5);
    assert_eq!(listed[0].name, "t0");
    assert_eq!(listed[4].name, "t4");
}

#[test]
fn hydrate_composes_tags_favorites_and_profile() {
    let mut store = Store::new();
    let (author, _) = User::signup(&mut store.users, "a@x.io", "alice", "pw-a").unwrap();
    let (viewer, _) = User::signup(&mut store.users, "b@x.io", "bob", "pw-b").unwrap();
    let article = Article {
        id: 50,
        slug: "intro".to_string(),
        title: "Intro".to_string(),
        author_id: author.id,
    };
    store.articles.add(article.duplicate());
    Tag::create(
        &mut store.tags,
        vec![
            NewTag { name: "rust".to_string(), article_id: 50 },
            NewTag { name: "web".to_string(), article_id: 50 },
        ],
    );
    store.favorites.favorite(viewer.id, 50).unwrap();
    let (a, p, fi, ts) = hydrate(
        &article,
        Some(viewer.id),
        &store.users,
        &store.follows,
        &store.favorites,
        &store.tags,
    )
    .unwrap();
    assert_eq!(a.slug, "intro");
    assert_eq!(p.username, "alice");
    assert!(!p.following);
    assert!(fi.is_favorited);
    assert_eq!(fi.favorites_count, 1);
    let names: Vec<&str> = ts.iter().map(|t| t.name.as_str()).collect();
    assert_eq!(names, vec!["rust", "web"]);
}

#[test]
fn hydrate_anonymous_viewer_and_missing_author() {
    let mut store = Store::new();
    let (author, _) = User::signup(&mut store.users, "a@x.io", "alice", "pw-a").unwrap();
    let article = Article {
        id: 50,
        slug: "intro".to_string(),
        title: "Intro".to_string(),
        author_id: author.id,
    };
    let (_, _, fi, _) = hydrate(
        &article,
        None,
        &store.users,
        &store.follows,
        &store.favorites,
        &store.tags,
    )
    .unwrap();
    assert!(!fi.is_favorited);
    assert_eq!(fi.favorites_count, 0);
    let orphan = Article {
        id: 51,
        slug: "lost".to_string(),
        title: "Lost".to_string(),
        author_id: 9,
    };
    let r = hydrate(&orphan, None, &store.users, &store.follows, &store.favorites, &store.tags);
    assert_eq!(r.unwrap_err(), AppError::NotFound);
}

#[test]
fn favorite_repository_favorites_then_hydrates() {
    let mut store = Store::new();
    let (author, _) = User::signup(&mut store.users, "a@x.io", "alice", "pw-a").unwrap();
    let (viewer, _) = User::signup(&mut store.users, "b@x.io", "bob", "pw-b").unwrap();
    store.articles.add(Article {
        id: 50,
        slug: "intro".to_string(),
        title: "Intro".to_string(),
        author_id: author.id,
    });
    Tag::create(&mut store.tags, vec![NewTag { name: "rust".to_string(), article_id: 50 }]);
    let mut container = DiContainer::new(store);
    let repo = &mut container.favorite_repository;
    let (a, p, fi, ts) = repo.favorite(&viewer, "intro").unwrap();
    assert_eq!(a.id, 50);
    assert_eq!(p.username, "alice");
    assert!(fi.is_favorited);
    assert_eq!(fi.favorites_count, 1);
    assert_eq!(ts.len(), 1);
    let again = repo.favorite(&viewer, "intro");
    assert_eq!(again.unwrap_err(), AppError::AlreadyFavorited);
    let missing = repo.favorite(&viewer, "no-such-slug");
    assert_eq!(missing.unwrap_err(), AppError::NotFound);
}

#[test]
fn article_store_find_by_slug() {
    let mut s = ArticleStore::new();
    s.add(Article { id: 1, slug: "x".to_string(), title: "X".to_string(), author_id: 0 });
    assert_eq!(s.find_by_slug("x").unwrap().id, 1);
    assert_eq!(s.find_by_slug("y").unwrap_err(), AppError::NotFound);
}
