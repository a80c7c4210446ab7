use vstd::prelude::*;

use crate::models::episode::Episode;
use crate::store::error::StoreError;
use crate::models::message::views_of;
use crate::models::episode::EpisodeView;
use crate::store::memory::{by_recency, is_walk, page, stamped, InMemoryStore};

verus! {

/// A place where episodes are kept, found by id, replaced, deleted and listed newest first.
pub trait StateStore {
    /// Stores a new episode and returns it as stored.
    fn create_episode(&mut self, episode: Episode) -> Result<Episode, StoreError>;

    /// The episode with id `id`, if there is one.
    fn get_episode(&mut self, id: &str) -> Result<Option<Episode>, StoreError>;

    /// Replaces the stored episode with the same id and returns it as stored.
    fn update_episode(&mut self, episode: Episode) -> Result<Episode, StoreError>;

    /// Deletes the episode with id `id`; returns whether there was one.
    fn delete_episode(&mut self, id: &str) -> Result<bool, StoreError>;

    /// Up to `limit` episodes after skipping `offset`, newest first.
    fn list_episodes(&mut self, limit: usize, offset: usize) -> Result<Vec<Episode>, StoreError>;
}

impl StateStore for InMemoryStore {
    fn create_episode(&mut self, episode: Episode) -> (res: Result<Episode, StoreError>)
        ensures
            res matches Ok(e) && e@ == episode@,
            old(self)@.creates(final(self)@, episode@),
    {
        Ok(self.store_episode(episode))
    }

    fn get_episode(&mut self, id: &str) -> (res: Result<Option<Episode>, StoreError>)
        ensures
            (exists|now: i64| final(self)@ == old(self)@.after_cleanup(now)),
            res matches Ok(found) && match found {
                Some(e) => final(self)@.lookup(id@) == Some(e@),
                None => final(self)@.lookup(id@) is None,
            },
    {
        Ok(self.find_episode(id))
    }

    fn update_episode(&mut self, episode: Episode) -> (res: Result<Episode, StoreError>)
        ensures
            old(self)@.lookup(episode@.id) is None ==> (res matches Err(StoreError::NotFound(id))
                && id@ == episode@.id),
            old(self)@.lookup(episode@.id) is None ==> final(self)@ == old(self)@,
            old(self)@.lookup(episode@.id) is Some ==> (exists|now: i64|
                res matches Ok(e) && e@ == #[trigger] stamped(episode@, now) && final(self)@ == old(self)@.with_episodes(
                    old(self)@.episodes.insert(episode@.id, stamped(episode@, now)))),
    {
        self.replace_episode(episode)
    }

    fn delete_episode(&mut self, id: &str) -> (res: Result<bool, StoreError>)
        ensures
            res == Ok::<bool, StoreError>(old(self)@.lookup(id@) is Some),
            final(self)@ == old(self)@.with_episodes(old(self)@.episodes.remove(id@)),
    {
        Ok(self.remove_episode(id))
    }

    fn list_episodes(&mut self, limit: usize, offset: usize) -> (res: Result<Vec<Episode>, StoreError>)
        ensures
            (exists|now: i64| final(self)@ == old(self)@.after_cleanup(now)),
            res matches Ok(v) && exists|w: Seq<EpisodeView>| #[trigger] is_walk(final(self)@.episodes, w)
                && views_of(v@) == page(by_recency(w), limit, offset),
    {
        Ok(self.recent_episodes(limit, offset))
    }
}

} // verus!
