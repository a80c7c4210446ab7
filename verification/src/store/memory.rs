use vstd::prelude::*;

use dashmap::DashMap;

use crate::ident::current_time_millis;
use crate::models::episode::{Episode, EpisodeView};
use crate::models::message::{lemma_views_push, views_of};
use crate::store::error::StoreError;

verus! {

/// The concurrent hash map `dashmap::DashMap` that holds the stored episodes.
#[verifier::external_type_specification]
#[verifier::external_body]
#[verifier::reject_recursive_types(K)]
#[verifier::reject_recursive_types(V)]
#[verifier::reject_recursive_types(S)]
pub struct ExDashMap<K, V, S>(DashMap<K, V, S>);

/// What an episode map holds: each key with the episode stored under it.
pub uninterp spec fn stored_episodes(m: DashMap<String, Episode>) -> Map<Seq<char>, EpisodeView>;

/// `DashMap::new`: a map holding nothing.
#[verifier::external_body]
fn new_episode_map() -> (r: DashMap<String, Episode>)
    ensures
        stored_episodes(r).dom() == Set::<Seq<char>>::empty(),
{
    DashMap::new()
}

/// `DashMap::len`: the number of entries.
#[verifier::external_body]
fn episode_count(m: &DashMap<String, Episode>) -> (n: usize)
    ensures
        n == stored_episodes(*m).len(),
{
    m.len()
}

/// `DashMap::get`, with the found episode copied out: the episode stored under `id`, if any.
#[verifier::external_body]
fn stored_episode(m: &DashMap<String, Episode>, id: &str) -> (r: Option<Episode>)
    ensures
        match r {
            Some(e) => stored_episodes(*m).dom().contains(id@) && e@ == stored_episodes(*m)[id@],
            None => !stored_episodes(*m).dom().contains(id@),
        },
{
    m.get(id).map(|entry| entry.value().clone())
}

/// `DashMap::contains_key`: whether an episode is stored under `id`.
#[verifier::external_body]
fn holds_episode(m: &DashMap<String, Episode>, id: &str) -> (r: bool)
    ensures
        r == stored_episodes(*m).dom().contains(id@),
{
    m.contains_key(id)
}

/// `DashMap::insert`: stores `e` under `id`, in place of what was stored there.
#[verifier::external_body]
fn put_episode(m: &mut DashMap<String, Episode>, id: String, e: Episode)
    ensures
        stored_episodes(*final(m)) == stored_episodes(*old(m)).insert(id@, e@),
{
    m.insert(id, e);
}

/// `DashMap::remove`: takes out the episode stored under `id`, if any.
#[verifier::external_body]
fn take_episode(m: &mut DashMap<String, Episode>, id: &str) -> (r: Option<Episode>)
    ensures
        stored_episodes(*final(m)) == stored_episodes(*old(m)).remove(id@),
        match r {
            Some(e) => stored_episodes(*old(m)).dom().contains(id@) && e@ == stored_episodes(*old(m))[id@],
            None => !stored_episodes(*old(m)).dom().contains(id@),
        },
{
    m.remove(id).map(|(_, e)| e)
}

/// `DashMap::retain`, keeping the entries for which `is_fresh` holds: drops the episodes
/// updated before `threshold`.
#[verifier::external_body]
fn keep_fresh(m: &mut DashMap<String, Episode>, threshold: i64)
    ensures
        stored_episodes(*final(m)) == fresh_only(stored_episodes(*old(m)), threshold),
{
    m.retain(|_, e| is_fresh(e, threshold));
}

/// `DashMap::iter`, with each entry copied out: every entry exactly once, in an order that the
/// map's hashing decides (so it is left open here).
#[verifier::external_body]
fn episode_entries(m: &DashMap<String, Episode>) -> (r: Vec<(String, Episode)>)
    ensures
        r@.len() == stored_episodes(*m).len(),
        forall|i: int| 0 <= i < r@.len() ==> stored_episodes(*m).dom().contains(#[trigger] r@[i].0@)
            && r@[i].1@ == stored_episodes(*m)[r@[i].0@],
        forall|i: int, j: int| 0 <= i < j < r@.len() ==> #[trigger] r@[i].0@ != #[trigger] r@[j].0@,
{
    m.iter().map(|entry| (entry.key().clone(), entry.value().clone())).collect()
}

/// Whether `e` was updated at or after `threshold`.
fn is_fresh(e: &Episode, threshold: i64) -> (r: bool)
    ensures
        r == (e@.updated_at >= threshold),
{
    e.updated_at >= threshold
}

/// The entries whose episode was updated at or after `threshold`.
pub open spec fn fresh_only(m: Map<Seq<char>, EpisodeView>, threshold: i64) -> Map<Seq<char>, EpisodeView> {
    Map::new(|k: Seq<char>| m.dom().contains(k) && m[k].updated_at >= threshold, |k: Seq<char>| m[k])
}

/// The episode under `k` was updated no later than any other stored episode.
pub open spec fn is_least_recent(m: Map<Seq<char>, EpisodeView>, k: Seq<char>) -> bool {
    &&& m.dom().contains(k)
    &&& forall|j: Seq<char>| m.dom().contains(j) ==> m[k].updated_at <= #[trigger] m[j].updated_at
}

/// `w` lists each stored episode exactly once, in some order.
pub open spec fn is_walk(m: Map<Seq<char>, EpisodeView>, w: Seq<EpisodeView>) -> bool {
    &&& w.len() == m.len()
    &&& forall|i: int| 0 <= i < w.len() ==> m.dom().contains(#[trigger] w[i].id) && m[w[i].id] == w[i]
    &&& forall|i: int, j: int| 0 <= i < j < w.len() ==> #[trigger] w[i].id != #[trigger] w[j].id
}

/// `e` placed into a list sorted newest first, after every episode updated no earlier.
pub open spec fn insert_by_recency(sorted: Seq<EpisodeView>, e: EpisodeView) -> Seq<EpisodeView>
    decreases sorted.len(),
{
    if sorted.len() == 0 {
        seq![e]
    } else if sorted.last().updated_at >= e.updated_at {
        sorted.push(e)
    } else {
        insert_by_recency(sorted.drop_last(), e).push(sorted.last())
    }
}

/// The episodes ordered newest first; episodes updated at the same time keep their order.
pub open spec fn by_recency(s: Seq<EpisodeView>) -> Seq<EpisodeView>
    decreases s.len(),
{
    if s.len() == 0 {
        s
    } else {
        insert_by_recency(by_recency(s.drop_last()), s.last())
    }
}

/// `limit` items starting at `offset` (as `skip(offset).take(limit)`).
pub open spec fn page(s: Seq<EpisodeView>, limit: usize, offset: usize) -> Seq<EpisodeView> {
    let a: int = if offset <= s.len() { offset as int } else { s.len() as int };
    let b: int = if limit <= s.len() - a { a + limit } else { s.len() as int };
    s.subrange(a, b)
}


/// The mathematical content of an in-memory store.
pub struct MemoryStoreView {
    pub episodes: Map<Seq<char>, EpisodeView>,
    pub max_episodes: usize,
    pub ttl_millis: Option<i64>,
}

impl MemoryStoreView {
    /// The store once the episodes not updated within the time-to-live before `now` are
    /// dropped.
    pub open spec fn after_cleanup(self, now: i64) -> MemoryStoreView {
        match self.ttl_millis {
            Some(ttl) => MemoryStoreView {
                episodes: fresh_only(self.episodes, expiry_threshold(now, ttl)),
                ..self
            },
            None => self,
        }
    }

    /// `kept` is what remains once room is made for one more episode: at capacity, one least
    /// recently updated episode is evicted.
    pub open spec fn makes_room(self, kept: Map<Seq<char>, EpisodeView>) -> bool {
        if self.episodes.len() >= self.max_episodes {
            exists|k: Seq<char>| #[trigger] is_least_recent(self.episodes, k) && kept == self.episodes.remove(k)
        } else {
            kept == self.episodes
        }
    }

    /// `after` is the store once `e` is created: room is made, then `e` is stored under its id.
    pub open spec fn creates(self, after: MemoryStoreView, e: EpisodeView) -> bool {
        &&& after.max_episodes == self.max_episodes
        &&& after.ttl_millis == self.ttl_millis
        &&& exists|kept: Map<Seq<char>, EpisodeView>| #[trigger] self.makes_room(kept)
            && after.episodes == kept.insert(e.id, e)
    }

    /// Finitely many episodes, each stored under its own id; the capacity is at least 10 and
    /// never exceeded.
    pub open spec fn well_formed(self) -> bool {
        &&& self.episodes.dom().finite()
        &&& forall|k: Seq<char>| self.episodes.dom().contains(k) ==> (#[trigger] self.episodes[k]).id == k
        &&& self.max_episodes >= 10
        &&& self.episodes.len() <= self.max_episodes
    }

    /// The same store holding `episodes`.
    pub open spec fn with_episodes(self, episodes: Map<Seq<char>, EpisodeView>) -> MemoryStoreView {
        MemoryStoreView { episodes, ..self }
    }

    /// The stored episode with id `id`, if any.
    pub open spec fn lookup(self, id: Seq<char>) -> Option<EpisodeView> {
        if self.episodes.dom().contains(id) {
            Some(self.episodes[id])
        } else {
            None
        }
    }
}

/// `e` stamped as updated at `now`.
pub open spec fn stamped(e: EpisodeView, now: i64) -> EpisodeView {
    EpisodeView { updated_at: now, ..e }
}

/// The oldest time an episode may have been updated at and still be kept: `now - ttl`,
/// or the earliest representable time when that is out of range.
pub open spec fn expiry_threshold(now: i64, ttl: i64) -> i64 {
    if i64::MIN <= now - ttl <= i64::MAX {
        (now - ttl) as i64
    } else if ttl > 0 {
        i64::MIN
    } else {
        i64::MAX
    }
}

/// A bounded in-memory episode store with least-recently-updated eviction and expiry.
pub struct InMemoryStore {
    episodes: DashMap<String, Episode>,
    max_episodes: usize,
    ttl_millis: Option<i64>,
}

impl View for InMemoryStore {
    type V = MemoryStoreView;

    closed spec fn view(&self) -> MemoryStoreView {
        MemoryStoreView {
            episodes: stored_episodes(self.episodes),
            max_episodes: self.max_episodes,
            ttl_millis: self.ttl_millis,
        }
    }
}

/// The capacity in force: the requested one, at least 10.
pub open spec fn effective_capacity(max_episodes: usize) -> usize {
    if max_episodes >= 10 { max_episodes } else { 10 }
}

/// The time-to-live in milliseconds for a time-to-live in seconds.
pub open spec fn ttl_millis_for(ttl_secs: Option<u64>) -> Option<i64> {
    match ttl_secs {
        Some(s) => Some(((s as i64) * 1000) as i64),
        None => None,
    }
}

/// The conversion of a time-to-live to milliseconds stays within `i64`.
pub open spec fn ttl_in_range(ttl_secs: Option<u64>) -> bool {
    match ttl_secs {
        Some(s) => i64::MIN <= (s as i64) * 1000 <= i64::MAX,
        None => true,
    }
}

/// The keys of copied-out entries.
pub open spec fn entry_keys(s: Seq<(String, Episode)>) -> Seq<Seq<char>> {
    s.map_values(|p: (String, Episode)| p.0@)
}

/// The episodes of copied-out entries.
pub open spec fn entry_episodes(s: Seq<(String, Episode)>) -> Seq<EpisodeView> {
    s.map_values(|p: (String, Episode)| p.1@)
}

/// As many distinct stored keys as there are entries name every stored key.
proof fn lemma_keys_cover(m: Map<Seq<char>, EpisodeView>, ks: Seq<Seq<char>>)
    requires
        m.dom().finite(),
        ks.len() == m.len(),
        forall|i: int| 0 <= i < ks.len() ==> m.dom().contains(#[trigger] ks[i]),
        forall|i: int, j: int| 0 <= i < j < ks.len() ==> #[trigger] ks[i] != #[trigger] ks[j],
    ensures
        forall|k: Seq<char>| m.dom().contains(k) ==> #[trigger] ks.contains(k),
{
    assert forall|i: int, j: int| 0 <= i < ks.len() && 0 <= j < ks.len() && i != j implies ks[i] != ks[j] by {
        if i < j {
            assert(ks[i] != ks[j]);
        } else {
            assert(ks[j] != ks[i]);
        }
    }
    assert(ks.no_duplicates());
    ks.unique_seq_to_set();
    vstd::seq_lib::seq_to_set_is_finite(ks);
    assert forall|k: Seq<char>| ks.to_set().contains(k) implies m.dom().contains(k) by {
        assert(ks.contains(k));
        let i = choose|i: int| 0 <= i < ks.len() && ks[i] == k;
        assert(m.dom().contains(ks[i]));
    }
    vstd::set_lib::lemma_subset_equality(ks.to_set(), m.dom());
    assert forall|k: Seq<char>| m.dom().contains(k) implies #[trigger] ks.contains(k) by {
        assert(ks.to_set().contains(k));
    }
}

/// Entries copied out of a well-formed store list each stored episode exactly once, and
/// their keys name every stored episode.
proof fn lemma_entries_walk(v: MemoryStoreView, s: Seq<(String, Episode)>)
    requires
        v.well_formed(),
        s.len() == v.episodes.len(),
        forall|i: int| 0 <= i < s.len() ==> v.episodes.dom().contains(#[trigger] s[i].0@)
            && s[i].1@ == v.episodes[s[i].0@],
        forall|i: int, j: int| 0 <= i < j < s.len() ==> #[trigger] s[i].0@ != #[trigger] s[j].0@,
    ensures
        is_walk(v.episodes, entry_episodes(s)),
        forall|k: Seq<char>| v.episodes.dom().contains(k) ==> #[trigger] entry_keys(s).contains(k),
        forall|i: int| 0 <= i < s.len() ==> (#[trigger] entry_episodes(s)[i]).id == s[i].0@,
{
    let m = v.episodes;
    let ks = entry_keys(s);
    let w = entry_episodes(s);
    assert forall|i: int| 0 <= i < s.len() implies (#[trigger] w[i]).id == s[i].0@ by {
        assert(m.dom().contains(s[i].0@));
        assert(m[s[i].0@].id == s[i].0@);
    }
    assert forall|i: int| 0 <= i < ks.len() implies m.dom().contains(#[trigger] ks[i]) by {
        assert(ks[i] == s[i].0@);
    }
    assert forall|i: int, j: int| 0 <= i < j < ks.len() implies #[trigger] ks[i] != #[trigger] ks[j] by {
        assert(ks[i] == s[i].0@ && ks[j] == s[j].0@);
    }
    lemma_keys_cover(m, ks);
    assert forall|i: int| 0 <= i < w.len() implies m.dom().contains(#[trigger] w[i].id) && m[w[i].id] == w[i] by {
        assert(w[i].id == s[i].0@);
    }
    assert forall|i: int, j: int| 0 <= i < j < w.len() implies #[trigger] w[i].id != #[trigger] w[j].id by {
        assert(w[i].id == s[i].0@ && w[j].id == s[j].0@);
    }
}

/// Keeping the fresh episodes keeps a well-formed store well-formed.
proof fn lemma_fresh_only(v: MemoryStoreView, threshold: i64)
    requires
        v.well_formed(),
    ensures
        v.with_episodes(fresh_only(v.episodes, threshold)).well_formed(),
{
    let m = v.episodes;
    let f = fresh_only(m, threshold);
    assert(f.dom().subset_of(m.dom()));
    vstd::set_lib::lemma_len_subset(f.dom(), m.dom());
}

impl InMemoryStore {
    /// Finitely many episodes, each stored under its own id; the capacity is at least 10 and
    /// never exceeded.
    #[verifier::type_invariant]
    closed spec fn inv(&self) -> bool {
        self@.well_formed()
    }

    /// Finitely many episodes, each stored under its own id; the capacity is at least 10 and
    /// never exceeded.
    pub fn check_invariant(&self)
        ensures
            self@.well_formed(),
    {
        proof {
            use_type_invariant(self);
        }
    }

    /// An empty store holding at most `max(max_episodes, 10)` episodes, dropping episodes
    /// not updated for `ttl_secs` seconds (never, for `None`).
    pub fn with_options(max_episodes: usize, ttl_secs: Option<u64>) -> (r: Self)
        requires
            ttl_in_range(ttl_secs),
        ensures
            r@.episodes == Map::<Seq<char>, EpisodeView>::empty(),
            r@.max_episodes == effective_capacity(max_episodes),
            r@.ttl_millis == ttl_millis_for(ttl_secs),
    {
        let ttl_millis = match ttl_secs {
            Some(s) => Some((s as i64) * 1000),
            None => None,
        };
        let episodes = new_episode_map();
        InMemoryStore {
            episodes,
            max_episodes: if max_episodes >= 10 { max_episodes } else { 10 },
            ttl_millis,
        }
    }

    /// An empty store for 50,000 episodes, dropping episodes idle for seven days.
    pub fn new() -> (r: Self)
        ensures
            r@.episodes == Map::<Seq<char>, EpisodeView>::empty(),
            r@.max_episodes == 50_000,
            r@.ttl_millis == Some(604_800_000i64),
    {
        Self::with_options(50_000, Some(604_800))
    }

    /// The number of stored episodes.
    pub fn len(&self) -> (r: usize)
        ensures
            r == self@.episodes.len(),
    {
        episode_count(&self.episodes)
    }

    /// Moves the episode map out, leaving an empty one in its place: the store's invariant
    /// then holds while the map is changed.
    fn take_map(&mut self) -> (r: DashMap<String, Episode>)
        ensures
            stored_episodes(r) == old(self)@.episodes,
            final(self)@.episodes.dom() == Set::<Seq<char>>::empty(),
            final(self)@.max_episodes == old(self)@.max_episodes,
            final(self)@.ttl_millis == old(self)@.ttl_millis,
    {
        proof {
            use_type_invariant(&*self);
        }
        let mut map = new_episode_map();
        std::mem::swap(&mut map, &mut self.episodes);
        map
    }

    /// At capacity, evicts a least recently updated episode.
    fn enforce_capacity(&mut self)
        ensures
            old(self)@.makes_room(final(self)@.episodes),
            final(self)@.max_episodes == old(self)@.max_episodes,
            final(self)@.ttl_millis == old(self)@.ttl_millis,
    {
        proof {
            use_type_invariant(&*self);
        }
        if episode_count(&self.episodes) >= self.max_episodes {
            let entries = episode_entries(&self.episodes);
            let ghost m = self@.episodes;
            proof {
                lemma_entries_walk(self@, entries@);
            }
            let mut best: usize = 0;
            let mut i: usize = 1;
            while i < entries.len()
                invariant
                    best < i <= entries.len(),
                    forall|j: int| 0 <= j < i ==> entries@[best as int].1@.updated_at
                        <= #[trigger] entries@[j].1@.updated_at,
                decreases entries.len() - i,
            {
                if entries[i].1.updated_at < entries[best].1.updated_at {
                    best = i;
                }
                i = i + 1;
            }
            let ghost k = entries@[best as int].0@;
            proof {
                assert forall|j: Seq<char>| m.dom().contains(j) implies m[k].updated_at
                    <= #[trigger] m[j].updated_at by {
                    let ks = entry_keys(entries@);
                    assert(ks.contains(j));
                    let idx = choose|idx: int| 0 <= idx < ks.len() && ks[idx] == j;
                    assert(entries@[idx].0@ == j);
                }
                assert(is_least_recent(m, k));
            }
            let mut map = self.take_map();
            let _ = take_episode(&mut map, entries[best].0.as_str());
            self.episodes = map;
        }
    }

    /// Drops the episodes not updated within the time-to-live before `now`.
    pub fn cleanup_expired_at(&mut self, now: i64)
        ensures
            final(self)@ == old(self)@.after_cleanup(now),
    {
        proof {
            use_type_invariant(&*self);
        }
        if let Some(ttl) = self.ttl_millis {
            let threshold: i64 = if ttl >= 0 {
                if now >= i64::MIN + ttl { now - ttl } else { i64::MIN }
            } else {
                if now <= i64::MAX + ttl { now - ttl } else { i64::MAX }
            };
            assert(threshold == expiry_threshold(now, ttl));
            proof {
                lemma_fresh_only(self@, threshold);
            }
            let mut map = self.take_map();
            keep_fresh(&mut map, threshold);
            self.episodes = map;
        }
    }

    /// Drops expired episodes, as of now.
    pub fn cleanup_expired(&mut self)
        ensures
            (exists|now: i64| final(self)@ == old(self)@.after_cleanup(now)),
    {
        let now = current_time_millis();
        self.cleanup_expired_at(now);
    }

    /// Stores a new episode (at capacity, a least recently updated one is evicted first; an
    /// episode with the same id is replaced) and returns it.
    pub fn store_episode(&mut self, episode: Episode) -> (r: Episode)
        ensures
            r@ == episode@,
            old(self)@.creates(final(self)@, episode@),
    {
        proof {
            use_type_invariant(&*self);
        }
        let ghost before = self@;
        self.enforce_capacity();
        proof {
            use_type_invariant(&*self);
            let m = before.episodes;
            if m.len() >= before.max_episodes {
                let k = choose|k: Seq<char>| #[trigger] is_least_recent(m, k) && self@.episodes == m.remove(k);
                assert(self@.episodes.len() == m.len() - 1);
            }
            assert(self@.episodes.len() < self@.max_episodes);
        }
        let copy = episode.clone();
        let id = episode.id.clone();
        let mut map = self.take_map();
        put_episode(&mut map, id, copy);
        self.episodes = map;
        episode
    }

    /// The stored episode with id `id`, once expired episodes are dropped as of `now`.
    pub fn find_episode_at(&mut self, id: &str, now: i64) -> (r: Option<Episode>)
        ensures
            final(self)@ == old(self)@.after_cleanup(now),
            match r {
                Some(e) => final(self)@.lookup(id@) == Some(e@),
                None => final(self)@.lookup(id@) is None,
            },
    {
        self.cleanup_expired_at(now);
        stored_episode(&self.episodes, id)
    }

    /// The stored episode with id `id`, once expired episodes are dropped.
    pub fn find_episode(&mut self, id: &str) -> (r: Option<Episode>)
        ensures
            (exists|now: i64| final(self)@ == old(self)@.after_cleanup(now)),
            match r {
                Some(e) => final(self)@.lookup(id@) == Some(e@),
                None => final(self)@.lookup(id@) is None,
            },
    {
        let now = current_time_millis();
        self.find_episode_at(id, now)
    }

    /// Replaces a stored episode, stamping it updated at `now`; fails with `NotFound` when no
    /// episode has its id.
    pub fn replace_episode_at(&mut self, episode: Episode, now: i64) -> (r: Result<Episode, StoreError>)
        ensures
            old(self)@.lookup(episode@.id) is None ==> (r matches Err(StoreError::NotFound(id))
                && id@ == episode@.id),
            old(self)@.lookup(episode@.id) is None ==> final(self)@ == old(self)@,
            old(self)@.lookup(episode@.id) is Some ==> (r matches Ok(e) && e@ == stamped(episode@, now)),
            old(self)@.lookup(episode@.id) is Some ==> final(self)@ == old(self)@.with_episodes(
                old(self)@.episodes.insert(episode@.id, stamped(episode@, now))),
    {
        proof {
            use_type_invariant(&*self);
        }
        if !holds_episode(&self.episodes, episode.id.as_str()) {
            return Err(StoreError::NotFound(episode.id.clone()));
        }
        let mut episode = episode;
        episode.updated_at = now;
        let copy = episode.clone();
        let id = episode.id.clone();
        proof {
            assert(self@.episodes.insert(id@, copy@).dom() =~= self@.episodes.dom());
        }
        let mut map = self.take_map();
        put_episode(&mut map, id, copy);
        self.episodes = map;
        Ok(episode)
    }

    /// Replaces a stored episode, stamping it updated now.
    pub fn replace_episode(&mut self, episode: Episode) -> (r: Result<Episode, StoreError>)
        ensures
            old(self)@.lookup(episode@.id) is None ==> (r matches Err(StoreError::NotFound(id))
                && id@ == episode@.id),
            old(self)@.lookup(episode@.id) is None ==> final(self)@ == old(self)@,
            old(self)@.lookup(episode@.id) is Some ==> (exists|now: i64|
                r matches Ok(e) && e@ == #[trigger] stamped(episode@, now) && final(self)@ == old(self)@.with_episodes(
                    old(self)@.episodes.insert(episode@.id, stamped(episode@, now)))),
    {
        let now = current_time_millis();
        self.replace_episode_at(episode, now)
    }

    /// Deletes the episode with id `id`; returns whether there was one.
    pub fn remove_episode(&mut self, id: &str) -> (r: bool)
        ensures
            r == (old(self)@.lookup(id@) is Some),
            final(self)@ == old(self)@.with_episodes(old(self)@.episodes.remove(id@)),
    {
        proof {
            use_type_invariant(&*self);
        }
        let mut map = self.take_map();
        let r = take_episode(&mut map, id);
        self.episodes = map;
        r.is_some()
    }

    /// Up to `limit` episodes after skipping `offset`, newest first, once expired episodes
    /// are dropped as of `now`.
    pub fn recent_episodes_at(&mut self, limit: usize, offset: usize, now: i64) -> (r: Vec<Episode>)
        ensures
            final(self)@ == old(self)@.after_cleanup(now),
            exists|w: Seq<EpisodeView>| #[trigger] is_walk(final(self)@.episodes, w)
                && views_of(r@) == page(by_recency(w), limit, offset),
    {
        self.cleanup_expired_at(now);
        proof {
            use_type_invariant(&*self);
        }
        let entries = episode_entries(&self.episodes);
        let ghost w = entry_episodes(entries@);
        proof {
            lemma_entries_walk(self@, entries@);
        }
        let mut sorted: Vec<Episode> = Vec::new();
        let mut i: usize = 0;
        assert(w.take(0) =~= Seq::<EpisodeView>::empty());
        while i < entries.len()
            invariant
                i <= entries.len(),
                w == entry_episodes(entries@),
                views_of(sorted@) == by_recency(w.take(i as int)),
            decreases entries.len() - i,
        {
            let e = entries[i].1.clone();
            assert(w.take(i + 1).drop_last() =~= w.take(i as int));
            assert(w.take(i + 1).last() == e@);
            insert_by_recency_exec(&mut sorted, e);
            i = i + 1;
        }
        assert(w.take(entries@.len() as int) =~= w);
        let n = sorted.len();
        let a = if offset <= n { offset } else { n };
        let b = if limit <= n - a { a + limit } else { n };
        let mut out: Vec<Episode> = Vec::new();
        let mut j = a;
        while j < b
            invariant
                a <= j <= b,
                b <= n,
                n == sorted.len(),
                views_of(out@) == views_of(sorted@).subrange(a as int, j as int),
            decreases b - j,
        {
            let e = sorted[j].clone();
            proof {
                lemma_views_push(out@, e);
                assert(views_of(sorted@).subrange(a as int, j + 1) =~= views_of(sorted@).subrange(a as int, j as int).push(e@));
            }
            out.push(e);
            j = j + 1;
        }
        out
    }

    /// Up to `limit` episodes after skipping `offset`, newest first, once expired episodes
    /// are dropped.
    pub fn recent_episodes(&mut self, limit: usize, offset: usize) -> (r: Vec<Episode>)
        ensures
            (exists|now: i64| final(self)@ == old(self)@.after_cleanup(now)),
            exists|w: Seq<EpisodeView>| #[trigger] is_walk(final(self)@.episodes, w)
                && views_of(r@) == page(by_recency(w), limit, offset),
    {
        let now = current_time_millis();
        self.recent_episodes_at(limit, offset, now)
    }
}

impl Default for InMemoryStore {
    /// The store of `new`: 50,000 episodes, dropping episodes idle for seven days.
    fn default() -> (r: Self)
        ensures
            r@.episodes.dom() == Set::<Seq<char>>::empty(),
            r@.max_episodes == 50_000,
            r@.ttl_millis == Some(604_800_000i64),
    {
        Self::new()
    }
}

/// Inserts `e` into a list kept newest first, after the episodes updated no earlier.
fn insert_by_recency_exec(sorted: &mut Vec<Episode>, e: Episode)
    ensures
        views_of(final(sorted)@) == insert_by_recency(views_of(old(sorted)@), e@),
{
    let ghost s = views_of(sorted@);
    let mut pos = sorted.len();
    assert(s.take(pos as int) =~= s);
    assert(s.subrange(pos as int, s.len() as int) =~= Seq::<EpisodeView>::empty());
    assert(insert_by_recency(s, e@) + Seq::<EpisodeView>::empty() =~= insert_by_recency(s, e@));
    while pos > 0 && sorted[pos - 1].updated_at < e.updated_at
        invariant
            pos <= sorted.len(),
            s == views_of(sorted@),
            insert_by_recency(s, e@) == insert_by_recency(s.take(pos as int), e@) + s.subrange(pos as int, s.len() as int),
        decreases pos,
    {
        let ghost t = s.take(pos as int);
        assert(t.drop_last() =~= s.take(pos - 1));
        assert(t.last() == s[pos - 1]);
        assert(s.subrange(pos - 1, s.len() as int) =~= seq![s[pos - 1]] + s.subrange(pos as int, s.len() as int));
        assert(insert_by_recency(t, e@) == insert_by_recency(s.take(pos - 1), e@).push(s[pos - 1]));
        assert(insert_by_recency(s.take(pos - 1), e@).push(s[pos - 1]) + s.subrange(pos as int, s.len() as int)
            =~= insert_by_recency(s.take(pos - 1), e@) + s.subrange(pos - 1, s.len() as int));
        pos = pos - 1;
    }
    proof {
        let t = s.take(pos as int);
        if pos > 0 {
            assert(t.last() == s[pos - 1]);
            assert(insert_by_recency(t, e@) == t.push(e@));
        } else {
            assert(t =~= Seq::<EpisodeView>::empty());
            assert(insert_by_recency(t, e@) == seq![e@]);
        }
    }
    let ghost before = sorted@;
    sorted.insert(pos, e);
    proof {
        assert(views_of(sorted@) =~= views_of(before).insert(pos as int, e@));
        assert(s.take(pos as int).push(e@) + s.subrange(pos as int, s.len() as int) =~= s.insert(pos as int, e@));
    }
}

/// No episode is listed before one updated later.
pub open spec fn newest_first(s: Seq<EpisodeView>) -> bool {
    forall|i: int, j: int| #![trigger s[i], s[j]] 0 <= i < j < s.len() ==> s[i].updated_at >= s[j].updated_at
}

/// Placing `e` into a list ordered newest first keeps it so, adding exactly `e`.
proof fn lemma_insert_by_recency(t: Seq<EpisodeView>, e: EpisodeView)
    requires
        newest_first(t),
    ensures
        newest_first(insert_by_recency(t, e)),
        insert_by_recency(t, e).to_multiset() =~= t.to_multiset().insert(e),
        insert_by_recency(t, e).len() == t.len() + 1,
    decreases t.len(),
{
    broadcast use vstd::seq_lib::group_to_multiset_ensures;
    let r = insert_by_recency(t, e);
    if t.len() == 0 {
        assert(t =~= Seq::<EpisodeView>::empty());
        assert(r =~= t.push(e));
    } else if t.last().updated_at >= e.updated_at {
        assert forall|i: int, j: int| #![trigger r[i], r[j]] 0 <= i < j < r.len() implies r[i].updated_at
            >= r[j].updated_at by {
            if j == t.len() {
                assert(r[i] == t[i]);
                assert(t[i].updated_at >= t[t.len() - 1].updated_at);
            } else {
                assert(r[i] == t[i] && r[j] == t[j]);
            }
        }
    } else {
        let p = t.drop_last();
        let last = t.last();
        assert(newest_first(p)) by {
            assert forall|i: int, j: int| #![trigger p[i], p[j]] 0 <= i < j < p.len() implies p[i].updated_at
                >= p[j].updated_at by {
                assert(p[i] == t[i] && p[j] == t[j]);
            }
        }
        lemma_insert_by_recency(p, e);
        let q = insert_by_recency(p, e);
        assert(r == q.push(last));
        assert(t =~= p.push(last));
        assert forall|i: int, j: int| #![trigger r[i], r[j]] 0 <= i < j < r.len() implies r[i].updated_at
            >= r[j].updated_at by {
            if j == q.len() {
                assert(r[i] == q[i]);
                assert(q.contains(q[i]));
                assert(q.to_multiset().count(q[i]) > 0);
                if q[i] != e {
                    assert(p.to_multiset().count(q[i]) > 0);
                    assert(p.contains(q[i]));
                    let k = choose|k: int| 0 <= k < p.len() && p[k] == q[i];
                    assert(t[k] == p[k]);
                    assert(t[k].updated_at >= t[t.len() - 1].updated_at);
                }
            } else {
                assert(r[i] == q[i] && r[j] == q[j]);
            }
        }
    }
}

/// Ordering by recency keeps every episode and orders them newest first.
proof fn lemma_by_recency(s: Seq<EpisodeView>)
    ensures
        newest_first(by_recency(s)),
        by_recency(s).to_multiset() =~= s.to_multiset(),
    decreases s.len(),
{
    broadcast use vstd::seq_lib::group_to_multiset_ensures;
    if s.len() > 0 {
        lemma_by_recency(s.drop_last());
        lemma_insert_by_recency(by_recency(s.drop_last()), s.last());
        assert(s =~= s.drop_last().push(s.last()));
    }
}


/// Listing returns every stored episode exactly once, newest first.
pub proof fn law_listing_is_newest_first(m: Map<Seq<char>, EpisodeView>, w: Seq<EpisodeView>)
    requires
        m.dom().finite(),
        is_walk(m, w),
    ensures
        by_recency(w).len() == m.len(),
        forall|k: Seq<char>| m.dom().contains(k) ==> #[trigger] by_recency(w).contains(m[k]),
        forall|i: int| 0 <= i < by_recency(w).len() ==> m.dom().contains(#[trigger] by_recency(w)[i].id)
            && m[by_recency(w)[i].id] == by_recency(w)[i],
        forall|i: int, j: int| #![trigger by_recency(w)[i], by_recency(w)[j]]
            0 <= i < j < w.len() ==> by_recency(w)[i].updated_at >= by_recency(w)[j].updated_at,
{
    broadcast use vstd::seq_lib::group_to_multiset_ensures;
    lemma_by_recency(w);
    let r = by_recency(w);
    assert(r.len() == r.to_multiset().len());
    let ks = w.map_values(|e: EpisodeView| e.id);
    assert forall|i: int| 0 <= i < ks.len() implies m.dom().contains(#[trigger] ks[i]) by {
        assert(ks[i] == w[i].id);
    }
    assert forall|i: int, j: int| 0 <= i < j < ks.len() implies #[trigger] ks[i] != #[trigger] ks[j] by {
        assert(ks[i] == w[i].id && ks[j] == w[j].id);
    }
    lemma_keys_cover(m, ks);
    assert forall|k: Seq<char>| m.dom().contains(k) implies #[trigger] r.contains(m[k]) by {
        assert(ks.contains(k));
        let i = choose|i: int| 0 <= i < ks.len() && ks[i] == k;
        assert(w[i].id == k);
        assert(w.contains(w[i]));
        assert(w.to_multiset().count(w[i]) > 0);
        assert(r.to_multiset().count(w[i]) > 0);
    }
    assert forall|i: int| 0 <= i < r.len() implies m.dom().contains(#[trigger] r[i].id) && m[r[i].id] == r[i] by {
        assert(r.contains(r[i]));
        assert(r.to_multiset().count(r[i]) > 0);
        assert(w.to_multiset().count(r[i]) > 0);
        assert(w.contains(r[i]));
        let j = choose|j: int| 0 <= j < w.len() && w[j] == r[i];
        assert(m.dom().contains(w[j].id));
    }
}

/// A created episode is then found under its id.
pub proof fn law_created_episode_is_found(v: MemoryStoreView, after: MemoryStoreView, e: EpisodeView)
    requires
        v.creates(after, e),
    ensures
        after.lookup(e.id) == Some(e),
{
}

/// Creating an episode keeps every episode under its own id and the store within its
/// capacity.
pub proof fn law_create_stays_within_capacity(v: MemoryStoreView, after: MemoryStoreView, e: EpisodeView)
    requires
        v.well_formed(),
        v.creates(after, e),
    ensures
        after.well_formed(),
        after.episodes.len() <= v.max_episodes,
{
    let m = v.episodes;
    let kept = choose|kept: Map<Seq<char>, EpisodeView>| #[trigger] v.makes_room(kept)
        && after.episodes == kept.insert(e.id, e);
    if m.len() >= v.max_episodes {
        let k = choose|k: Seq<char>| #[trigger] is_least_recent(m, k) && kept == m.remove(k);
        assert(kept.len() == m.len() - 1);
    }
    assert(kept.len() < v.max_episodes);
}

/// At capacity, making room evicts exactly one episode and keeps the others as they were;
/// none of those kept was updated before the evicted one.
pub proof fn law_eviction_drops_least_recent(v: MemoryStoreView, kept: Map<Seq<char>, EpisodeView>)
    requires
        v.well_formed(),
        v.episodes.len() >= v.max_episodes,
        v.makes_room(kept),
    ensures
        kept.len() == v.episodes.len() - 1,
        kept.dom().subset_of(v.episodes.dom()),
        forall|j: Seq<char>| kept.dom().contains(j) ==> #[trigger] kept[j] == v.episodes[j],
        exists|k: Seq<char>| v.episodes.dom().contains(k) && !kept.dom().contains(k)
            && forall|j: Seq<char>| kept.dom().contains(j) ==> v.episodes[k].updated_at <= #[trigger] kept[j].updated_at,
{
    let k = choose|k: Seq<char>| #[trigger] is_least_recent(v.episodes, k) && kept == v.episodes.remove(k);
    assert forall|j: Seq<char>| kept.dom().contains(j) implies v.episodes[k].updated_at <= #[trigger] kept[j].updated_at by {
        assert(v.episodes.dom().contains(j));
        assert(v.episodes[k].updated_at <= v.episodes[j].updated_at);
    }
}

/// After a delete, no episode has the deleted id.
pub proof fn law_deleted_episode_is_gone(v: MemoryStoreView, id: Seq<char>)
    ensures
        v.with_episodes(v.episodes.remove(id)).lookup(id) is None,
{
}

/// Expiry keeps exactly the episodes updated at or after the threshold, unchanged.
pub proof fn law_cleanup_keeps_exactly_fresh(m: Map<Seq<char>, EpisodeView>, threshold: i64, k: Seq<char>)
    ensures
        fresh_only(m, threshold).dom().contains(k) <==> (m.dom().contains(k) && m[k].updated_at >= threshold),
        fresh_only(m, threshold).dom().contains(k) ==> fresh_only(m, threshold)[k] == m[k],
{
}

/// Paging counts items: with `n` items, a page skips exactly the first `min(offset, n)` of
/// them and then takes the next `min(limit, n - min(offset, n))`, in order; and two pages
/// back to back give the same items as one page as long as both.
pub proof fn law_page_skips_offset_items(s: Seq<EpisodeView>, limit: usize, offset: usize, more: usize)
    ensures
        ({
            let n: int = s.len() as int;
            let a: int = if (offset as int) < n { offset as int } else { n };
            let p = page(s, limit, offset);
            &&& p.len() == if (limit as int) < n - a { limit as int } else { n - a }
            &&& forall|i: int| 0 <= i < p.len() ==> #[trigger] p[i] == s[a + i]
        }),
        offset + limit <= usize::MAX && limit + more <= usize::MAX ==> page(s, limit, offset) + page(
            s,
            more,
            (offset + limit) as usize,
        ) == page(s, (limit + more) as usize, offset),
{
    let n: int = s.len() as int;
    if offset + limit <= usize::MAX && limit + more <= usize::MAX {
        let p1 = page(s, limit, offset);
        let p2 = page(s, more, (offset + limit) as usize);
        let p3 = page(s, (limit + more) as usize, offset);
        assert(p1 + p2 =~= p3);
    }
}

} // verus!
