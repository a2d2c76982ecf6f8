//! Process-start wiring: the dependency graph is static and small, so the
//! container is built once by a plain factory function and handed to the
//! transport layer; no runtime service locator exists.

use crate::repositories::{FavoriteRepository, Store};
use vstd::prelude::*;

verus! {

/// Everything the transport layer needs, wired once at startup.
pub struct DiContainer {
    pub favorite_repository: FavoriteRepository,
}

impl DiContainer {
    /// Wires every repository around the one state value.
    pub fn new(store: Store) -> (c: DiContainer)
        ensures
            c.favorite_repository.store == store,
    {
        let favorite_repository = FavoriteRepository::new(store);
        DiContainer { favorite_repository }
    }
}

} // verus!
