//! Viewer-relative profiles. `following` is never stored: it is recomputed
//! from the follow graph for the viewer at hand, so it is a pure function
//! of (viewer, subject, graph state).

use crate::errors::AppError;
use crate::follows::FollowGraph;
use crate::users::{has_username, User, UserDirectory};
use vstd::prelude::*;

verus! {

/// Mathematical image of a profile.
pub ghost struct ProfileV {
    pub username: Seq<char>,
    pub bio: Option<Seq<char>>,
    pub image: Option<Seq<char>>,
    pub following: bool,
}

/// A derived, never persisted view of a user relative to a viewer.
#[derive(Debug)]
pub struct Profile {
    pub username: String,
    pub bio: Option<String>,
    pub image: Option<String>,
    pub following: bool,
}

impl View for Profile {
    type V = ProfileV;

    open spec fn view(&self) -> ProfileV {
        ProfileV {
            username: self.username@,
            bio: match self.bio {
                Some(b) => Some(b@),
                None => None,
            },
            image: match self.image {
                Some(m) => Some(m@),
                None => None,
            },
            following: self.following,
        }
    }
}

/// Composes the profile of `subject` as seen by `viewer_id`: an anonymous
/// viewer is never following anyone, whatever the graph holds.
pub fn compose(subject: &User, viewer_id: Option<u128>, graph: &FollowGraph) -> (p: Profile)
    ensures
        p@.username == subject@.username,
        p@.bio == subject@.bio,
        p@.image == subject@.image,
        p@.following == (viewer_id is Some && graph@.contains((viewer_id->0, subject.id))),
{
    let following = match viewer_id {
        Some(v) => graph.is_following(v, subject.id),
        None => false,
    };
    let s = subject.duplicate();
    Profile { username: s.username, bio: s.bio, image: s.image, following }
}

impl User {
    /// Whether this user follows `followee_id`; never fails.
    pub fn is_following(&self, graph: &FollowGraph, followee_id: u128) -> (b: bool)
        ensures
            b == graph@.contains((self.id, followee_id)),
    {
        graph.is_following(self.id, followee_id)
    }

    /// The profile of the user identified by `followee_id`, relative to
    /// this user as the viewer: a profile describes the subject, so it
    /// carries the subject's own fields, with `following` recomputed
    /// viewer-to-subject. `NotFound` exactly when no such user exists.
    /// An anonymous caller has no `User` to call this on; that path is
    /// `compose` with no viewer, whose `following` is always false.
    pub fn fetch_profile(&self, d: &UserDirectory, graph: &FollowGraph, followee_id: u128) -> (r:
        Result<Profile, AppError>)
        requires
            d.wf(),
        ensures
            match r {
                Ok(p) => {
                    &&& (followee_id as int) < d@.len()
                    &&& p@.username == d@[followee_id as int].username
                    &&& p@.bio == d@[followee_id as int].bio
                    &&& p@.image == d@[followee_id as int].image
                    &&& p@.following == graph@.contains((self.id, followee_id))
                },
                Err(e) => e == AppError::NotFound && (followee_id as int) >= d@.len(),
            },
    {
        let subject = match User::find(d, followee_id) {
            Ok(u) => u,
            Err(e) => {
                return Err(e);
            },
        };
        proof {
            assert(subject@.id == followee_id);
        }
        Ok(compose(&subject, Some(self.id), graph))
    }

    /// Looks the followee up by username and inserts the follow edge;
    /// `NotFound` for an unknown username, `AlreadyFollowing` for an
    /// existing edge. The returned profile carries this user's own fields
    /// with `following` set.
    pub fn follow(&self, d: &UserDirectory, graph: &mut FollowGraph, username: &str) -> (r: Result<
        Profile,
        AppError,
    >)
        requires
            d.wf(),
            old(graph).wf(),
        ensures
            final(graph).wf(),
            match r {
                Ok(p) => {
                    &&& exists|i: int|
                        0 <= i < d@.len() && (#[trigger] d@[i]).username == username@ && !old(
                            graph,
                        )@.contains((self.id, d@[i].id)) && final(graph)@ == old(graph)@.push(
                            (self.id, d@[i].id),
                        )
                    &&& p@.username == self@.username
                    &&& p@.bio == self@.bio
                    &&& p@.image == self@.image
                    &&& p@.following == true
                },
                Err(e) => {
                    &&& final(graph)@ == old(graph)@
                    &&& (e == AppError::NotFound ==> !has_username(d@, username@))
                    &&& (e == AppError::AlreadyFollowing ==> exists|i: int|
                        0 <= i < d@.len() && (#[trigger] d@[i]).username == username@ && old(
                            graph,
                        )@.contains((self.id, d@[i].id)))
                    &&& (e == AppError::NotFound || e == AppError::AlreadyFollowing)
                },
            },
    {
        let followee = match User::find_by_username(d, username) {
            Ok(u) => u,
            Err(_) => {
                return Err(AppError::NotFound);
            },
        };
        match graph.follow(self.id, followee.id) {
            Ok(()) => (),
            Err(e) => {
                return Err(e);
            },
        }
        let s = self.duplicate();
        Ok(Profile { username: s.username, bio: s.bio, image: s.image, following: true })
    }

    /// Looks the followee up by username and deletes the follow edge if
    /// present; a missing edge is a no-op. `NotFound` only for an unknown
    /// username.
    pub fn unfollow(&self, d: &UserDirectory, graph: &mut FollowGraph, username: &str) -> (r:
        Result<Profile, AppError>)
        requires
            d.wf(),
            old(graph).wf(),
        ensures
            final(graph).wf(),
            match r {
                Ok(p) => {
                    &&& exists|i: int|
                        {
                            &&& 0 <= i < d@.len()
                            &&& (#[trigger] d@[i]).username == username@
                            &&& !final(graph)@.contains((self.id, d@[i].id))
                            &&& (old(graph)@.contains((self.id, d@[i].id)) ==> exists|k: int|
                                0 <= k < old(graph)@.len() && old(graph)@[k] == (
                                self.id,
                                d@[i].id,
                                ) && final(graph)@ == old(graph)@.remove(k))
                            &&& (!old(graph)@.contains((self.id, d@[i].id)) ==> final(graph)@
                                == old(graph)@)
                        }
                    &&& p@.username == self@.username
                    &&& p@.bio == self@.bio
                    &&& p@.image == self@.image
                    &&& p@.following == false
                },
                Err(e) => {
                    &&& final(graph)@ == old(graph)@
                    &&& e == AppError::NotFound
                    &&& !has_username(d@, username@)
                },
            },
    {
        let followee = match User::find_by_username(d, username) {
            Ok(u) => u,
            Err(_) => {
                return Err(AppError::NotFound);
            },
        };
        let ghost widx = choose|i: int|
            0 <= i < d@.len() && followee@ == d@[i] && d@[i].username == username@;
        graph.unfollow(self.id, followee.id);
        proof {
            assert(d@[widx].id == followee.id);
        }
        let s = self.duplicate();
        Ok(Profile { username: s.username, bio: s.bio, image: s.image, following: false })
    }
}

} // verus!
