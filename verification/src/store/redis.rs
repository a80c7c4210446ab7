use vstd::prelude::*;

use crate::text::concat;

verus! {

/// The key layout and retention of the Redis episode store: each episode under
/// `<prefix><id>`, and an index of ids by update time under `<prefix>index`.
#[derive(Debug)]
pub struct RedisStore {
    pub key_prefix: String,
    pub ttl_seconds: u64,
}

impl RedisStore {
    /// Keys under `episod:episodes:`, kept for seven days.
    pub fn new() -> (r: Self)
        ensures
            r.key_prefix@ == "episod:episodes:"@,
            r.ttl_seconds == 604_800,
    {
        RedisStore { key_prefix: "episod:episodes:".to_owned(), ttl_seconds: 604_800 }
    }

    /// The same store, keeping episodes for `ttl_seconds` (forever for 0).
    pub fn with_ttl(self, ttl_seconds: u64) -> (r: Self)
        ensures
            r.key_prefix@ == self.key_prefix@,
            r.ttl_seconds == ttl_seconds,
    {
        let mut s = self;
        s.ttl_seconds = ttl_seconds;
        s
    }

    /// The key of episode `id`.
    pub fn episode_key(&self, id: &str) -> (r: String)
        ensures
            r@ == self.key_prefix@ + id@,
    {
        concat(self.key_prefix.as_str(), id)
    }

    /// The key of the index of episodes by update time.
    pub fn index_key(&self) -> (r: String)
        ensures
            r@ == self.key_prefix@ + "index"@,
    {
        concat(self.key_prefix.as_str(), "index")
    }

    /// Whether stored episodes expire.
    pub fn expires(&self) -> (r: bool)
        ensures
            r == (self.ttl_seconds > 0),
    {
        self.ttl_seconds > 0
    }

    /// The inclusive range of index ranks (newest first) that a listing of `limit` episodes
    /// after `offset` reads: from `offset` to `offset + limit - 1` (to `-1`, past the end, for
    /// a limit of 0 at offset 0), as signed ranks.
    pub fn list_range(limit: usize, offset: usize) -> (r: (isize, isize))
        requires
            offset + limit <= usize::MAX,
        ensures
            r.0 == offset as isize,
            r.1 == (if offset + limit >= 1 { (offset + limit - 1) as usize } else { 0usize }) as isize,
    {
        let start = offset as isize;
        let sum = offset + limit;
        let last = if sum >= 1 { sum - 1 } else { 0 };
        (start, last as isize)
    }
}

} // verus!
