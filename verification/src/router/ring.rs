use vstd::prelude::*;

use crate::duplicate::{duplicate_vec, Duplicate};
use crate::keyed::{find_by_key, key_index, lemma_key_index, upsert_by_key, upserted, Keyed};
use crate::models::message::{lemma_views_update, views_of};
use crate::text::{concat, concat3, decimal, decimal_string};

verus! {

/// An upstream inference replica.
#[derive(Debug)]
pub struct BackendReplica {
    pub id: String,
    pub url: String,
    pub weight: u32,
    pub healthy: bool,
    pub failure_count: u32,
}

/// The mathematical content of a replica.
pub struct ReplicaView {
    pub id: Seq<char>,
    pub url: Seq<char>,
    pub weight: u32,
    pub healthy: bool,
    pub failure_count: u32,
}

impl View for BackendReplica {
    type V = ReplicaView;

    open spec fn view(&self) -> ReplicaView {
        ReplicaView {
            id: self.id@,
            url: self.url@,
            weight: self.weight,
            healthy: self.healthy,
            failure_count: self.failure_count,
        }
    }
}

impl Clone for BackendReplica {
    fn clone(&self) -> (r: Self)
        ensures
            r@ == self@,
    {
        BackendReplica {
            id: self.id.clone(),
            url: self.url.clone(),
            weight: self.weight,
            healthy: self.healthy,
            failure_count: self.failure_count,
        }
    }
}

impl Duplicate for BackendReplica {
    fn duplicate(&self) -> (r: Self) {
        self.clone()
    }
}

impl Keyed for BackendReplica {
    open spec fn key_view(v: ReplicaView) -> Seq<char> {
        v.id
    }

    fn key(&self) -> (k: &str) {
        self.id.as_str()
    }
}

impl BackendReplica {
    /// A healthy replica with no recorded failures; a weight of 0 counts as 1.
    pub fn new(id: &str, url: &str, weight: u32) -> (r: Self)
        ensures
            r@ == (ReplicaView {
                id: id@,
                url: url@,
                weight: if weight >= 1 { weight } else { 1 },
                healthy: true,
                failure_count: 0,
            }),
    {
        BackendReplica {
            id: id.to_owned(),
            url: url.to_owned(),
            weight: if weight >= 1 { weight } else { 1 },
            healthy: true,
            failure_count: 0,
        }
    }
}

/// The 64-bit FNV-1a hash that the `fnv` crate's `FnvHasher` computes for a string key
/// hashed with `Hash::hash`.
pub uninterp spec fn fnv1a_str_hash(key: Seq<char>) -> u64;

/// Hashes `data` with `fnv::FnvHasher` through `std::hash::Hash` and returns `finish()`.
/// The result is a function of the key alone, named `fnv1a_str_hash`.
#[verifier::external_body]
fn fnv1a_hash(data: &str) -> (h: u64)
    ensures
        h == fnv1a_str_hash(data@),
{
    let mut hasher = fnv::FnvHasher::default();
    std::hash::Hash::hash(data, &mut hasher);
    std::hash::Hasher::finish(&hasher)
}

/// The key hashed for virtual node `vnode` of replica `id`.
pub open spec fn vnode_key(id: Seq<char>, vnode: nat) -> Seq<char> {
    "replica:"@ + id + ":vnode:"@ + decimal(vnode)
}

/// The ring position of virtual node `vnode` of replica `id`.
pub open spec fn vnode_hash(id: Seq<char>, vnode: nat) -> u64 {
    fnv1a_str_hash(vnode_key(id, vnode))
}

/// One virtual node on the ring: a position and the replica it belongs to.
#[derive(Debug)]
pub struct RingEntry {
    pub hash: u64,
    pub replica_id: String,
}

impl View for RingEntry {
    type V = (u64, Seq<char>);

    open spec fn view(&self) -> (u64, Seq<char>) {
        (self.hash, self.replica_id@)
    }
}

impl Clone for RingEntry {
    fn clone(&self) -> (r: Self)
        ensures
            r@ == self@,
    {
        RingEntry { hash: self.hash, replica_id: self.replica_id.clone() }
    }
}

/// Ring positions strictly increase along the ring.
pub open spec fn ring_sorted(ring: Seq<(u64, Seq<char>)>) -> bool {
    forall|i: int, j: int| 0 <= i < j < ring.len() ==> ring[i].0 < ring[j].0
}

/// The index of the first ring position at or after `h`, or the ring's length when there is none.
pub open spec fn lower_bound(ring: Seq<(u64, Seq<char>)>, h: u64) -> int
    decreases ring.len(),
{
    if ring.len() == 0 {
        0
    } else if ring[0].0 >= h {
        0
    } else {
        1 + lower_bound(ring.drop_first(), h)
    }
}

/// The ring with position `h` owned by `id` (replacing an earlier owner of `h`).
pub open spec fn ring_insert(ring: Seq<(u64, Seq<char>)>, h: u64, id: Seq<char>) -> Seq<(u64, Seq<char>)> {
    let i = lower_bound(ring, h);
    if i < ring.len() && ring[i].0 == h {
        ring.update(i, (h, id))
    } else {
        ring.insert(i, (h, id))
    }
}

/// The ring without position `h`.
pub open spec fn ring_remove(ring: Seq<(u64, Seq<char>)>, h: u64) -> Seq<(u64, Seq<char>)> {
    let i = lower_bound(ring, h);
    if i < ring.len() && ring[i].0 == h {
        ring.remove(i)
    } else {
        ring
    }
}

/// The ring after the first `count` virtual nodes of `id` are placed, in order.
pub open spec fn ring_with_vnodes(ring: Seq<(u64, Seq<char>)>, id: Seq<char>, count: nat) -> Seq<(u64, Seq<char>)>
    decreases count,
{
    if count == 0 {
        ring
    } else {
        ring_insert(ring_with_vnodes(ring, id, (count - 1) as nat), vnode_hash(id, (count - 1) as nat), id)
    }
}

/// The ring after the positions of the first `count` virtual nodes of `id` are removed.
pub open spec fn ring_without_vnodes(ring: Seq<(u64, Seq<char>)>, id: Seq<char>, count: nat) -> Seq<(u64, Seq<char>)>
    decreases count,
{
    if count == 0 {
        ring
    } else {
        ring_remove(ring_without_vnodes(ring, id, (count - 1) as nat), vnode_hash(id, (count - 1) as nat))
    }
}

/// What `lower_bound` finds: every earlier position is before `h`, the one found is not.
pub proof fn lemma_lower_bound(ring: Seq<(u64, Seq<char>)>, h: u64)
    ensures
        0 <= lower_bound(ring, h) <= ring.len(),
        forall|j: int| 0 <= j < lower_bound(ring, h) ==> ring[j].0 < h,
        lower_bound(ring, h) < ring.len() ==> ring[lower_bound(ring, h)].0 >= h,
    decreases ring.len(),
{
    if ring.len() > 0 && ring[0].0 < h {
        let d = ring.drop_first();
        lemma_lower_bound(d, h);
        assert forall|j: int| 0 <= j < lower_bound(ring, h) implies ring[j].0 < h by {
            if j > 0 {
                assert(ring[j] == d[j - 1]);
            }
        }
    }
}

/// Inserting and removing positions keep the ring sorted.
pub proof fn lemma_ring_ops_sorted(ring: Seq<(u64, Seq<char>)>, h: u64, id: Seq<char>)
    requires
        ring_sorted(ring),
    ensures
        ring_sorted(ring_insert(ring, h, id)),
        ring_sorted(ring_remove(ring, h)),
{
    lemma_lower_bound(ring, h);
    let i = lower_bound(ring, h);
    let t = ring_insert(ring, h, id);
    if !(i < ring.len() && ring[i].0 == h) {
        assert forall|a: int, b: int| 0 <= a < b < t.len() implies t[a].0 < t[b].0 by {
            if b < i {
                assert(t[a] == ring[a] && t[b] == ring[b]);
            } else if b == i {
                assert(t[a] == ring[a]);
            } else if a < i {
                assert(t[a] == ring[a] && t[b] == ring[b - 1]);
            } else if a == i {
                assert(t[b] == ring[b - 1]);
            } else {
                assert(t[a] == ring[a - 1] && t[b] == ring[b - 1]);
            }
        }
    }
    let u = ring_remove(ring, h);
    if i < ring.len() && ring[i].0 == h {
        assert forall|a: int, b: int| 0 <= a < b < u.len() implies u[a].0 < u[b].0 by {
            let a2 = if a < i { a } else { a + 1 };
            let b2 = if b < i { b } else { b + 1 };
            assert(u[a] == ring[a2] && u[b] == ring[b2]);
        }
    }
}

/// The view of an optional replica.
pub open spec fn opt_replica_view(r: Option<BackendReplica>) -> Option<ReplicaView> {
    match r {
        Some(x) => Some(x@),
        None => None,
    }
}

/// The mathematical content of a router.
pub struct RouterView {
    pub replicas: Seq<ReplicaView>,
    pub ring: Seq<(u64, Seq<char>)>,
    pub vnodes_per_weight: u32,
}

/// The index of replica `id`, or -1.
pub open spec fn replica_index(replicas: Seq<ReplicaView>, id: Seq<char>) -> int {
    key_index::<BackendReplica>(replicas, id)
}

/// The first healthy replica at ring position `from` or after it.
pub open spec fn scan_healthy(rv: RouterView, from: int) -> Option<ReplicaView>
    decreases rv.ring.len() - from,
{
    if from < 0 || from >= rv.ring.len() {
        None
    } else {
        let r = replica_index(rv.replicas, rv.ring[from].1);
        if r >= 0 && rv.replicas[r].healthy {
            Some(rv.replicas[r])
        } else {
            scan_healthy(rv, from + 1)
        }
    }
}

/// The ring position that owns hash `h`: the first at or after it, wrapping to the start.
pub open spec fn primary_position(ring: Seq<(u64, Seq<char>)>, h: u64) -> int {
    if lower_bound(ring, h) < ring.len() {
        lower_bound(ring, h)
    } else {
        0
    }
}

/// The replica for hash `h`: the owner of its ring position when that replica is healthy;
/// otherwise the first healthy replica clockwise from `h`, wrapping once around the ring.
/// No replica when the ring is empty or the owner is not a known replica.
pub open spec fn route_hash(rv: RouterView, h: u64) -> Option<ReplicaView> {
    if rv.ring.len() == 0 {
        None
    } else {
        let owner = rv.ring[primary_position(rv.ring, h)].1;
        let r = replica_index(rv.replicas, owner);
        if r < 0 {
            None
        } else if rv.replicas[r].healthy {
            Some(rv.replicas[r])
        } else {
            match scan_healthy(rv, lower_bound(rv.ring, h)) {
                Some(x) => Some(x),
                None => scan_healthy(rv, 0),
            }
        }
    }
}

/// The replica for a routing key (a session id or a prompt prefix).
pub open spec fn route_key(rv: RouterView, key: Seq<char>) -> Option<ReplicaView> {
    route_hash(rv, fnv1a_str_hash(key))
}

/// The router with replica `id` changed by `f`, when it exists.
pub open spec fn update_replica(rv: RouterView, id: Seq<char>, f: spec_fn(ReplicaView) -> ReplicaView) -> RouterView {
    let i = replica_index(rv.replicas, id);
    if i >= 0 {
        RouterView { replicas: rv.replicas.update(i, f(rv.replicas[i])), ..rv }
    } else {
        rv
    }
}

/// The router after a successful check of replica `id`: healthy, no failures.
pub open spec fn after_success(rv: RouterView, id: Seq<char>) -> RouterView {
    update_replica(rv, id, |r: ReplicaView| ReplicaView { healthy: true, failure_count: 0, ..r })
}

/// The router after replica `id` is marked healthy or unhealthy; marking it healthy also
/// clears its failures.
pub open spec fn after_set_health(rv: RouterView, id: Seq<char>, healthy: bool) -> RouterView {
    update_replica(
        rv,
        id,
        |r: ReplicaView| ReplicaView {
            healthy,
            failure_count: if healthy { 0 } else { r.failure_count },
            ..r
        },
    )
}

/// A failure count incremented, saturating at the largest value.
pub open spec fn bumped(n: u32) -> u32 {
    if n == u32::MAX {
        n
    } else {
        (n + 1) as u32
    }
}

/// Consecutive failures after which a replica is taken out of rotation.
pub open spec fn failure_threshold() -> u32 {
    3
}

/// The router after a failed check of replica `id`: one more failure, and unhealthy once the
/// failures reach the threshold.
pub open spec fn after_failure(rv: RouterView, id: Seq<char>) -> RouterView {
    update_replica(
        rv,
        id,
        |r: ReplicaView| ReplicaView {
            failure_count: bumped(r.failure_count),
            healthy: if bumped(r.failure_count) >= failure_threshold() { false } else { r.healthy },
            ..r
        },
    )
}

/// Whether a failed check of replica `id` trips its circuit breaker.
pub open spec fn failure_trips(rv: RouterView, id: Seq<char>) -> bool {
    let i = replica_index(rv.replicas, id);
    i >= 0 && bumped(rv.replicas[i].failure_count) >= failure_threshold()
}

/// What a scan finds: a healthy replica, present whenever a known healthy replica sits at
/// or after the start position.
pub proof fn lemma_scan_healthy(rv: RouterView, from: int)
    ensures
        scan_healthy(rv, from) matches Some(x) ==> x.healthy,
        scan_healthy(rv, from) matches Some(x) ==> exists|j: int| from <= j < rv.ring.len()
            && 0 <= replica_index(rv.replicas, #[trigger] rv.ring[j].1) < rv.replicas.len()
            && rv.replicas[replica_index(rv.replicas, rv.ring[j].1)] == x,
        (exists|j: int| from <= j < rv.ring.len() && 0 <= from && replica_index(rv.replicas, #[trigger] rv.ring[j].1) >= 0
            && rv.replicas[replica_index(rv.replicas, rv.ring[j].1)].healthy) ==> scan_healthy(rv, from) is Some,
    decreases rv.ring.len() - from,
{
    if 0 <= from < rv.ring.len() {
        lemma_scan_healthy(rv, from + 1);
        lemma_key_index::<BackendReplica>(rv.replicas, rv.ring[from].1);
    }
}

/// Changing replica `id` in a way that keeps its id leaves every replica lookup in place.
pub proof fn lemma_update_replica_keeps_index(rv: RouterView, id: Seq<char>, f: spec_fn(ReplicaView) -> ReplicaView, x: Seq<char>)
    requires
        replica_index(rv.replicas, id) >= 0 ==> f(rv.replicas[replica_index(rv.replicas, id)]).id == id,
    ensures
        replica_index(update_replica(rv, id, f).replicas, x) == replica_index(rv.replicas, x),
        update_replica(rv, id, f).ring == rv.ring,
        update_replica(rv, id, f).replicas.len() == rv.replicas.len(),
{
    let i = replica_index(rv.replicas, id);
    if i >= 0 {
        lemma_key_index::<BackendReplica>(rv.replicas, id);
        crate::keyed::lemma_key_index_update::<BackendReplica>(rv.replicas, i, f(rv.replicas[i]), x);
    }
}

/// Every position on the ring belongs to a known replica.
pub open spec fn ring_known(rv: RouterView) -> bool {
    forall|j: int| 0 <= j < rv.ring.len() ==> replica_index(rv.replicas, #[trigger] rv.ring[j].1) >= 0
}

/// Routing as a whole: a key is routed exactly when some replica on the ring is healthy; what
/// it is routed to is a known, healthy replica; and when the replica owning the key's ring
/// position is healthy, the key goes to it. The route is a function of the key and the
/// router alone, so repeated calls with no change in between agree.
pub proof fn law_route_whole(rv: RouterView, h: u64)
    requires
        ring_known(rv),
    ensures
        route_hash(rv, h) is Some <==> exists|j: int| 0 <= j < rv.ring.len()
            && (#[trigger] rv.replicas[replica_index(rv.replicas, rv.ring[j].1)]).healthy,
        route_hash(rv, h) matches Some(x) ==> x.healthy && exists|i: int| 0 <= i < rv.replicas.len()
            && #[trigger] rv.replicas[i] == x,
        rv.ring.len() > 0 && rv.replicas[replica_index(rv.replicas, rv.ring[primary_position(rv.ring, h)].1)].healthy
            ==> route_hash(rv, h) == Some(rv.replicas[replica_index(rv.replicas, rv.ring[primary_position(rv.ring, h)].1)]),
{
    lemma_lower_bound(rv.ring, h);
    lemma_scan_healthy(rv, lower_bound(rv.ring, h));
    lemma_scan_healthy(rv, 0);
    if rv.ring.len() > 0 {
        let p = primary_position(rv.ring, h);
        let owner = rv.ring[p].1;
        lemma_key_index::<BackendReplica>(rv.replicas, owner);
        assert(replica_index(rv.replicas, rv.ring[p].1) >= 0);
        let r = replica_index(rv.replicas, owner);
        if rv.replicas[r].healthy {
            assert(rv.replicas[replica_index(rv.replicas, rv.ring[p].1)].healthy);
            assert(0 <= r < rv.replicas.len() && rv.replicas[r] == rv.replicas[r]);
        } else {
            if exists|j: int| 0 <= j < rv.ring.len()
                && (#[trigger] rv.replicas[replica_index(rv.replicas, rv.ring[j].1)]).healthy {
                let j = choose|j: int| 0 <= j < rv.ring.len()
                    && (#[trigger] rv.replicas[replica_index(rv.replicas, rv.ring[j].1)]).healthy;
                assert(replica_index(rv.replicas, rv.ring[j].1) >= 0);
                law_route_fails_over(rv, h, j);
            }
            match route_hash(rv, h) {
                Some(x) => {
                    let from = if scan_healthy(rv, lower_bound(rv.ring, h)) is Some { lower_bound(rv.ring, h) } else { 0 };
                    let j = choose|j: int| from <= j < rv.ring.len()
                        && 0 <= replica_index(rv.replicas, #[trigger] rv.ring[j].1) < rv.replicas.len()
                        && rv.replicas[replica_index(rv.replicas, rv.ring[j].1)] == x;
                    assert(rv.replicas[replica_index(rv.replicas, rv.ring[j].1)].healthy);
                    let i = replica_index(rv.replicas, rv.ring[j].1);
                    assert(0 <= i < rv.replicas.len() && rv.replicas[i] == x);
                },
                None => {},
            }
        }
    }
}

/// Placing a position keeps every other position and adds `(h, id)`.
proof fn lemma_ring_insert_entries(ring: Seq<(u64, Seq<char>)>, h: u64, id: Seq<char>)
    ensures
        forall|j: int| 0 <= j < ring_insert(ring, h, id).len() ==>
            (#[trigger] ring_insert(ring, h, id)[j]).1 == id
            || exists|k: int| 0 <= k < ring.len() && ring[k] == ring_insert(ring, h, id)[j],
        exists|j: int| 0 <= j < ring_insert(ring, h, id).len() && ring_insert(ring, h, id)[j] == (h, id),
{
    lemma_lower_bound(ring, h);
    let i = lower_bound(ring, h);
    let t = ring_insert(ring, h, id);
    assert forall|j: int| 0 <= j < t.len() implies (#[trigger] t[j]).1 == id
        || exists|k: int| 0 <= k < ring.len() && ring[k] == t[j] by {
        if i < ring.len() && ring[i].0 == h {
            if j != i {
                assert(ring[j] == t[j]);
            }
        } else if j < i {
            assert(ring[j] == t[j]);
        } else if j > i {
            assert(ring[j - 1] == t[j]);
        }
    }
    assert(t[i] == (h, id));
}

/// Placing the virtual nodes of `id` adds only positions of `id`, and at least one when
/// there is one to place.
proof fn lemma_vnodes_entries(ring: Seq<(u64, Seq<char>)>, id: Seq<char>, count: nat, known: spec_fn(Seq<char>) -> bool)
    requires
        forall|j: int| 0 <= j < ring.len() ==> known(#[trigger] ring[j].1),
        known(id),
    ensures
        forall|j: int| 0 <= j < ring_with_vnodes(ring, id, count).len() ==> known(#[trigger] ring_with_vnodes(ring, id, count)[j].1),
        count > 0 ==> exists|j: int| 0 <= j < ring_with_vnodes(ring, id, count).len()
            && #[trigger] ring_with_vnodes(ring, id, count)[j].1 == id,
    decreases count,
{
    if count > 0 {
        let prev = ring_with_vnodes(ring, id, (count - 1) as nat);
        lemma_vnodes_entries(ring, id, (count - 1) as nat, known);
        lemma_ring_insert_entries(prev, vnode_hash(id, (count - 1) as nat), id);
        let t = ring_with_vnodes(ring, id, count);
        assert forall|j: int| 0 <= j < t.len() implies known(#[trigger] t[j].1) by {
            if t[j].1 != id {
                let k = choose|k: int| 0 <= k < prev.len() && prev[k] == t[j];
                assert(known(prev[k].1));
            }
        }
        let j = choose|j: int| 0 <= j < t.len() && t[j] == (vnode_hash(id, (count - 1) as nat), id);
        assert(t[j].1 == id);
    }
}

/// Routers built by adding replicas and changing their health keep every ring position
/// owned by a known replica (a new router has no positions): adding a replica with at least
/// one virtual node puts it on the ring, and health changes leave the ring and the replicas'
/// ids alone.
pub proof fn law_built_router_ring_known(rv: RouterView, r: ReplicaView, count: nat, id: Seq<char>, healthy: bool)
    requires
        ring_known(rv),
    ensures
        ({
            let added = RouterView {
                replicas: upserted::<BackendReplica>(rv.replicas, r),
                ring: ring_with_vnodes(rv.ring, r.id, count),
                ..rv
            };
            &&& ring_known(added)
            &&& count > 0 ==> exists|j: int| 0 <= j < added.ring.len() && #[trigger] added.ring[j].1 == r.id
        }),
        ring_known(after_set_health(rv, id, healthy)),
        ring_known(after_success(rv, id)),
        ring_known(after_failure(rv, id)),
{
    let reps = upserted::<BackendReplica>(rv.replicas, r);
    let known = |x: Seq<char>| replica_index(reps, x) >= 0;
    crate::keyed::lemma_upserted::<BackendReplica>(rv.replicas, r);
    assert forall|j: int| 0 <= j < rv.ring.len() implies known(#[trigger] rv.ring[j].1) by {
        let x = rv.ring[j].1;
        if x != r.id {
            crate::keyed::lemma_upserted_other::<BackendReplica>(rv.replicas, r, x);
        }
    }
    lemma_vnodes_entries(rv.ring, r.id, count, known);
    let f1 = |x: ReplicaView| ReplicaView { healthy, failure_count: if healthy { 0 } else { x.failure_count }, ..x };
    let f2 = |x: ReplicaView| ReplicaView {
        failure_count: bumped(x.failure_count),
        healthy: if bumped(x.failure_count) >= failure_threshold() { false } else { x.healthy },
        ..x
    };
    let f3 = |x: ReplicaView| ReplicaView { healthy: true, failure_count: 0, ..x };
    lemma_key_index::<BackendReplica>(rv.replicas, id);
    assert forall|j: int| 0 <= j < rv.ring.len() implies replica_index(after_set_health(rv, id, healthy).replicas, #[trigger] rv.ring[j].1) >= 0
        && replica_index(after_success(rv, id).replicas, rv.ring[j].1) >= 0
        && replica_index(after_failure(rv, id).replicas, rv.ring[j].1) >= 0 by {
        lemma_update_replica_keeps_index(rv, id, f1, rv.ring[j].1);
        lemma_update_replica_keeps_index(rv, id, f2, rv.ring[j].1);
        lemma_update_replica_keeps_index(rv, id, f3, rv.ring[j].1);
    }
}

/// The router never hands out a replica that is marked unhealthy.
pub proof fn law_route_only_healthy(rv: RouterView, h: u64)
    ensures
        route_hash(rv, h) matches Some(r) ==> r.healthy,
{
    lemma_lower_bound(rv.ring, h);
    lemma_scan_healthy(rv, lower_bound(rv.ring, h));
    lemma_scan_healthy(rv, 0);
}

/// When the owner of a key is unhealthy, the key fails over to another healthy replica as
/// long as any known healthy replica is on the ring.
pub proof fn law_route_fails_over(rv: RouterView, h: u64, j: int)
    requires
        0 <= j < rv.ring.len(),
        replica_index(rv.replicas, rv.ring[j].1) >= 0,
        rv.replicas[replica_index(rv.replicas, rv.ring[j].1)].healthy,
        replica_index(rv.replicas, rv.ring[primary_position(rv.ring, h)].1) >= 0,
    ensures
        route_hash(rv, h) is Some,
{
    lemma_lower_bound(rv.ring, h);
    lemma_scan_healthy(rv, 0);
    assert(0 <= j < rv.ring.len() && 0 <= 0int);
}

/// Health changes of other replicas never move a key whose owner is healthy: the session
/// keeps its replica and its prefix cache.
pub proof fn law_route_keeps_healthy_owner(rv: RouterView, h: u64, id: Seq<char>, healthy: bool)
    requires
        rv.ring.len() > 0,
        replica_index(rv.replicas, rv.ring[primary_position(rv.ring, h)].1) >= 0,
        rv.replicas[replica_index(rv.replicas, rv.ring[primary_position(rv.ring, h)].1)].healthy,
        rv.ring[primary_position(rv.ring, h)].1 != id,
    ensures
        route_hash(after_set_health(rv, id, healthy), h) == route_hash(rv, h),
        route_hash(after_failure(rv, id), h) == route_hash(rv, h),
        route_hash(after_success(rv, id), h) == route_hash(rv, h),
{
    let owner = rv.ring[primary_position(rv.ring, h)].1;
    let r = replica_index(rv.replicas, owner);
    let i = replica_index(rv.replicas, id);
    lemma_key_index::<BackendReplica>(rv.replicas, id);
    lemma_key_index::<BackendReplica>(rv.replicas, owner);
    let f1 = |x: ReplicaView| ReplicaView { healthy, failure_count: if healthy { 0 } else { x.failure_count }, ..x };
    let f2 = |x: ReplicaView| ReplicaView {
        failure_count: bumped(x.failure_count),
        healthy: if bumped(x.failure_count) >= failure_threshold() { false } else { x.healthy },
        ..x
    };
    let f3 = |x: ReplicaView| ReplicaView { healthy: true, failure_count: 0, ..x };
    lemma_update_replica_keeps_index(rv, id, f1, owner);
    lemma_update_replica_keeps_index(rv, id, f2, owner);
    lemma_update_replica_keeps_index(rv, id, f3, owner);
    if i >= 0 {
        assert(i != r);
    }
}

/// A replica that recovers (a successful check) takes back the keys it owns.
pub proof fn law_route_recovers_owner(rv: RouterView, h: u64)
    requires
        rv.ring.len() > 0,
        replica_index(rv.replicas, rv.ring[primary_position(rv.ring, h)].1) >= 0,
    ensures
        route_hash(after_success(rv, rv.ring[primary_position(rv.ring, h)].1), h) == Some(
            ReplicaView {
                healthy: true,
                failure_count: 0,
                ..rv.replicas[replica_index(rv.replicas, rv.ring[primary_position(rv.ring, h)].1)]
            },
        ),
{
    let owner = rv.ring[primary_position(rv.ring, h)].1;
    let f3 = |x: ReplicaView| ReplicaView { healthy: true, failure_count: 0, ..x };
    lemma_key_index::<BackendReplica>(rv.replicas, owner);
    lemma_update_replica_keeps_index(rv, owner, f3, owner);
}

/// The circuit breaker: starting from no failures, the first two failed checks of a replica
/// leave it in rotation and the third takes it out.
pub proof fn law_circuit_breaker_trips_on_third_failure(rv: RouterView, id: Seq<char>)
    requires
        replica_index(rv.replicas, id) >= 0,
        rv.replicas[replica_index(rv.replicas, id)].failure_count == 0,
        rv.replicas[replica_index(rv.replicas, id)].healthy,
    ensures
        !failure_trips(rv, id),
        !failure_trips(after_failure(rv, id), id),
        failure_trips(after_failure(after_failure(rv, id), id), id),
        after_failure(rv, id).replicas[replica_index(rv.replicas, id)].healthy,
        after_failure(after_failure(rv, id), id).replicas[replica_index(rv.replicas, id)].healthy,
        !after_failure(after_failure(after_failure(rv, id), id), id).replicas[replica_index(rv.replicas, id)].healthy,
{
    let i = replica_index(rv.replicas, id);
    lemma_key_index::<BackendReplica>(rv.replicas, id);
    let f2 = |x: ReplicaView| ReplicaView {
        failure_count: bumped(x.failure_count),
        healthy: if bumped(x.failure_count) >= failure_threshold() { false } else { x.healthy },
        ..x
    };
    let rv1 = after_failure(rv, id);
    lemma_update_replica_keeps_index(rv, id, f2, id);
    let rv2 = after_failure(rv1, id);
    lemma_update_replica_keeps_index(rv1, id, f2, id);
    lemma_update_replica_keeps_index(rv2, id, f2, id);
    assert(rv1.replicas[i].failure_count == 1);
    assert(rv2.replicas[i].failure_count == 2);
}

/// A consistent hash ring of replicas with health tracking, routing each key to a stable
/// replica so that consecutive turns of a session reuse one prefix cache.
pub struct ConsistentHashRouter {
    replicas: Vec<BackendReplica>,
    ring: Vec<RingEntry>,
    vnodes_per_weight: u32,
}

impl View for ConsistentHashRouter {
    type V = RouterView;

    closed spec fn view(&self) -> RouterView {
        RouterView {
            replicas: views_of(self.replicas@),
            ring: views_of(self.ring@),
            vnodes_per_weight: self.vnodes_per_weight,
        }
    }
}

impl ConsistentHashRouter {
    /// The ring stays sorted by position, and every replica's virtual node count fits a `u32`.
    #[verifier::type_invariant]
    closed spec fn inv(&self) -> bool {
        &&& ring_sorted(views_of(self.ring@))
        &&& forall|i: int|
            0 <= i < self.replicas@.len() ==> #[trigger] self.replicas@[i].weight * self.vnodes_per_weight <= u32::MAX
    }

    /// Adds replica `replica` with `weight * vnodes_per_weight` virtual nodes (a replica with
    /// the same id is replaced).
    pub fn add_replica(&mut self, replica: BackendReplica)
        requires
            replica.weight * old(self)@.vnodes_per_weight <= u32::MAX,
        ensures
            final(self)@ == (RouterView {
                replicas: upserted::<BackendReplica>(old(self)@.replicas, replica@),
                ring: ring_with_vnodes(
                    old(self)@.ring,
                    replica@.id,
                    (replica.weight * old(self)@.vnodes_per_weight) as nat,
                ),
                ..old(self)@
            }),
    {
        proof {
            use_type_invariant(&*self);
        }
        let total = replica.weight * self.vnodes_per_weight;
        let mut ring: Vec<RingEntry> = Vec::new();
        std::mem::swap(&mut ring, &mut self.ring);
        let ghost start = views_of(ring@);
        let mut v: u32 = 0;
        while v < total
            invariant
                v <= total,
                views_of(ring@) == ring_with_vnodes(start, replica@.id, v as nat),
                ring_sorted(views_of(ring@)),
            decreases total - v,
        {
            let key = vnode_key_string(replica.id.as_str(), v);
            let h = fnv1a_hash(key.as_str());
            proof {
                lemma_ring_ops_sorted(views_of(ring@), h, replica@.id);
            }
            ring_insert_exec(&mut ring, h, replica.id.clone());
            v = v + 1;
        }
        self.ring = ring;
        let ghost old_reps = self.replicas@;
        let ghost ov = views_of(old_reps);
        let ghost rid = replica@.id;
        let ghost rv = replica@;
        let mut reps: Vec<BackendReplica> = Vec::new();
        std::mem::swap(&mut reps, &mut self.replicas);
        upsert_by_key(&mut reps, replica);
        proof {
            lemma_key_index::<BackendReplica>(ov, rid);
            let k = key_index::<BackendReplica>(ov, rid);
            assert forall|i: int| 0 <= i < reps@.len() implies #[trigger] reps@[i].weight
                * self.vnodes_per_weight <= u32::MAX by {
                assert(reps@[i].weight == views_of(reps@)[i].weight);
                assert(views_of(reps@).len() == reps@.len());
                assert(ov.len() == old_reps.len());
                if k >= 0 {
                    assert(views_of(reps@) == ov.update(k, rv));
                    if i != k {
                        assert(views_of(reps@)[i] == ov[i]);
                        assert(ov[i] == old_reps[i]@);
                    }
                } else {
                    assert(views_of(reps@) == ov.push(rv));
                    if i < ov.len() {
                        assert(views_of(reps@)[i] == ov[i]);
                        assert(ov[i] == old_reps[i]@);
                    }
                }
            }
        }
        self.replicas = reps;
    }

    /// Removes replica `id` and the positions of its virtual nodes; nothing happens when it
    /// is unknown.
    pub fn remove_replica(&mut self, id: &str)
        ensures
            replica_index(old(self)@.replicas, id@) >= 0 ==> final(self)@ == (RouterView {
                replicas: crate::keyed::removed::<BackendReplica>(old(self)@.replicas, id@),
                ring: ring_without_vnodes(
                    old(self)@.ring,
                    id@,
                    (old(self)@.replicas[replica_index(old(self)@.replicas, id@)].weight
                        * old(self)@.vnodes_per_weight) as nat,
                ),
                ..old(self)@
            }),
            replica_index(old(self)@.replicas, id@) < 0 ==> final(self)@ == old(self)@,
    {
        proof {
            use_type_invariant(&*self);
        }
        let ghost old_reps = self.replicas@;
        match crate::keyed::find_by_key(&self.replicas, id) {
            None => {},
            Some(idx) => {
                let weight = self.replicas[idx].weight;
                let total = weight * self.vnodes_per_weight;
                let mut reps: Vec<BackendReplica> = Vec::new();
                std::mem::swap(&mut reps, &mut self.replicas);
                let _ = crate::keyed::remove_by_key(&mut reps, id);
                proof {
                    let ov = views_of(old_reps);
                    assert(views_of(reps@) == ov.remove(idx as int));
                    assert forall|i: int| 0 <= i < reps@.len() implies #[trigger] reps@[i].weight
                        * self.vnodes_per_weight <= u32::MAX by {
                        assert(reps@[i].weight == views_of(reps@)[i].weight);
                        if i < idx {
                            assert(ov[i].weight == old_reps[i].weight);
                        } else {
                            assert(ov[i + 1].weight == old_reps[i + 1].weight);
                        }
                    }
                }
                self.replicas = reps;
                let mut ring: Vec<RingEntry> = Vec::new();
                std::mem::swap(&mut ring, &mut self.ring);
                let ghost start = views_of(ring@);
                let mut v: u32 = 0;
                while v < total
                    invariant
                        v <= total,
                        views_of(ring@) == ring_without_vnodes(start, id@, v as nat),
                        ring_sorted(views_of(ring@)),
                    decreases total - v,
                {
                    let key = vnode_key_string(id, v);
                    let h = fnv1a_hash(key.as_str());
                    proof {
                        lemma_ring_ops_sorted(views_of(ring@), h, id@);
                    }
                    ring_remove_exec(&mut ring, h);
                    v = v + 1;
                }
                self.ring = ring;
            },
        }
    }

    /// Replaces replica `i` by `r`, which has the same id and weight.
    fn replace_replica(&mut self, i: usize, r: BackendReplica)
        requires
            i < old(self)@.replicas.len(),
            r@.id == old(self)@.replicas[i as int].id,
            r@.weight == old(self)@.replicas[i as int].weight,
        ensures
            final(self)@ == (RouterView { replicas: old(self)@.replicas.update(i as int, r@), ..old(self)@ }),
    {
        proof {
            use_type_invariant(&*self);
            lemma_views_update(self.replicas@, i as int, r);
        }
        let ghost old_reps = self.replicas@;
        let mut reps: Vec<BackendReplica> = Vec::new();
        std::mem::swap(&mut reps, &mut self.replicas);
        reps.set(i, r);
        self.replicas = reps;
        proof {
            assert forall|j: int| 0 <= j < self.replicas@.len() implies #[trigger] self.replicas@[j].weight
                * self.vnodes_per_weight <= u32::MAX by {
                if j != i {
                    assert(self.replicas@[j] == old_reps[j]);
                }
            }
        }
    }

    /// Marks replica `id` healthy or unhealthy; marking it healthy clears its failures.
    pub fn set_health(&mut self, id: &str, healthy: bool)
        ensures
            final(self)@ == after_set_health(old(self)@, id@, healthy),
    {
        if let Some(i) = find_by_key(&self.replicas, id) {
            let mut r = self.replicas[i].duplicate();
            r.healthy = healthy;
            if healthy {
                r.failure_count = 0;
            }
            self.replace_replica(i, r);
        }
    }

    /// Records a successful check of replica `id`: healthy, no failures.
    pub fn record_success(&mut self, id: &str)
        ensures
            final(self)@ == after_success(old(self)@, id@),
    {
        if let Some(i) = find_by_key(&self.replicas, id) {
            let mut r = self.replicas[i].duplicate();
            r.healthy = true;
            r.failure_count = 0;
            self.replace_replica(i, r);
        }
    }

    /// Records a failed check of replica `id`. Once its consecutive failures reach three, it
    /// is marked unhealthy and `true` (tripped) is returned.
    pub fn record_failure(&mut self, id: &str) -> (tripped: bool)
        ensures
            final(self)@ == after_failure(old(self)@, id@),
            tripped == failure_trips(old(self)@, id@),
    {
        if let Some(i) = find_by_key(&self.replicas, id) {
            let mut r = self.replicas[i].duplicate();
            r.failure_count = r.failure_count.saturating_add(1);
            let tripped = r.failure_count >= 3;
            if tripped {
                r.healthy = false;
            }
            self.replace_replica(i, r);
            tripped
        } else {
            false
        }
    }

    /// The first healthy replica at ring position `from` or after it.
    fn scan_healthy_from(&self, from: usize) -> (r: Option<BackendReplica>)
        ensures
            opt_replica_view(r) == scan_healthy(self@, from as int),
    {
        let mut i = from;
        while i < self.ring.len()
            invariant
                from <= i,
                scan_healthy(self@, from as int) == scan_healthy(self@, i as int),
            decreases self.ring.len() - i,
        {
            if let Some(k) = find_by_key(&self.replicas, self.ring[i].replica_id.as_str()) {
                if self.replicas[k].healthy {
                    return Some(self.replicas[k].clone());
                }
            }
            i = i + 1;
        }
        None
    }

    /// Routes `key` around the ring (see `route_key`).
    fn route_by_key(&self, key: &str) -> (r: Option<BackendReplica>)
        ensures
            opt_replica_view(r) == route_key(self@, key@),
    {
        if self.ring.len() == 0 {
            return None;
        }
        let h = fnv1a_hash(key);
        let lb = ring_lower_bound(&self.ring, h);
        proof {
            lemma_lower_bound(self@.ring, h);
        }
        let p = if lb < self.ring.len() { lb } else { 0 };
        match find_by_key(&self.replicas, self.ring[p].replica_id.as_str()) {
            None => None,
            Some(k) => {
                if self.replicas[k].healthy {
                    Some(self.replicas[k].clone())
                } else {
                    match self.scan_healthy_from(lb) {
                        Some(x) => Some(x),
                        None => self.scan_healthy_from(0),
                    }
                }
            },
        }
    }

    /// Routes by session id, so that every turn of a session reaches the same replica.
    pub fn route_by_session(&self, session_id: &str) -> (r: Option<BackendReplica>)
        ensures
            opt_replica_view(r) == route_key(self@, session_id@),
    {
        self.route_by_key(session_id)
    }

    /// Routes by prompt prefix.
    pub fn route_by_prefix(&self, prefix: &str) -> (r: Option<BackendReplica>)
        ensures
            opt_replica_view(r) == route_key(self@, prefix@),
    {
        self.route_by_key(prefix)
    }

    /// All replicas.
    pub fn list_replicas(&self) -> (r: Vec<BackendReplica>)
        ensures
            views_of(r@) == self@.replicas,
    {
        duplicate_vec(&self.replicas)
    }

    /// An empty router; at least 10 virtual nodes per unit of weight.
    pub fn new(vnodes_per_weight: u32) -> (r: Self)
        ensures
            r@.replicas.len() == 0,
            r@.ring.len() == 0,
            r@.vnodes_per_weight == if vnodes_per_weight >= 10 { vnodes_per_weight } else { 10 },
    {
        let replicas: Vec<BackendReplica> = Vec::new();
        let ring: Vec<RingEntry> = Vec::new();
        let r = ConsistentHashRouter {
            replicas,
            ring,
            vnodes_per_weight: if vnodes_per_weight >= 10 { vnodes_per_weight } else { 10 },
        };
        assert(r@.ring =~= Seq::<(u64, Seq<char>)>::empty());
        r
    }

    /// The ring with its invariant.
    pub fn ring_positions(&self) -> (r: Vec<(u64, String)>)
        ensures
            r@.len() == self@.ring.len(),
            forall|i: int| 0 <= i < r@.len() ==> r@[i].0 == self@.ring[i].0 && r@[i].1@ == self@.ring[i].1,
            ring_sorted(self@.ring),
    {
        proof {
            use_type_invariant(self);
        }
        let mut out: Vec<(u64, String)> = Vec::new();
        let mut i: usize = 0;
        while i < self.ring.len()
            invariant
                i <= self.ring.len(),
                out@.len() == i,
                forall|j: int| 0 <= j < i ==> out@[j].0 == self@.ring[j].0 && out@[j].1@ == self@.ring[j].1,
            decreases self.ring.len() - i,
        {
            out.push((self.ring[i].hash, self.ring[i].replica_id.clone()));
            i = i + 1;
        }
        out
    }
}

/// The first position of `ring` at or after `h`.
fn ring_lower_bound(ring: &Vec<RingEntry>, h: u64) -> (r: usize)
    ensures
        r as int == lower_bound(views_of(ring@), h),
{
    let ghost s = views_of(ring@);
    let mut i: usize = 0;
    assert(s.subrange(0, s.len() as int) =~= s);
    while i < ring.len() && ring[i].hash < h
        invariant
            i <= ring.len(),
            s == views_of(ring@),
            lower_bound(s, h) == i + lower_bound(s.subrange(i as int, s.len() as int), h),
        decreases ring.len() - i,
    {
        let ghost sub = s.subrange(i as int, s.len() as int);
        assert(sub.drop_first() =~= s.subrange(i + 1, s.len() as int));
        i = i + 1;
    }
    if i < ring.len() {
        assert(s.subrange(i as int, s.len() as int)[0] == s[i as int]);
    }
    i
}

/// Places position `h` for replica `id` on the ring.
fn ring_insert_exec(ring: &mut Vec<RingEntry>, h: u64, id: String)
    ensures
        views_of(final(ring)@) == ring_insert(views_of(old(ring)@), h, id@),
{
    let i = ring_lower_bound(ring, h);
    proof {
        lemma_lower_bound(views_of(ring@), h);
    }
    let e = RingEntry { hash: h, replica_id: id };
    if i < ring.len() && ring[i].hash == h {
        proof {
            lemma_views_update(ring@, i as int, e);
        }
        ring.set(i, e);
    } else {
        let ghost before = ring@;
        ring.insert(i, e);
        assert(views_of(ring@) =~= views_of(before).insert(i as int, e@));
    }
}

/// Removes position `h` from the ring.
fn ring_remove_exec(ring: &mut Vec<RingEntry>, h: u64)
    ensures
        views_of(final(ring)@) == ring_remove(views_of(old(ring)@), h),
{
    let i = ring_lower_bound(ring, h);
    if i < ring.len() && ring[i].hash == h {
        let ghost before = ring@;
        ring.remove(i);
        assert(views_of(ring@) =~= views_of(before).remove(i as int));
    }
}

/// The key hashed for virtual node `vnode` of replica `id`: `replica:{id}:vnode:{vnode}`.
pub fn vnode_key_string(id: &str, vnode: u32) -> (r: String)
    ensures
        r@ == vnode_key(id@, vnode as nat),
{
    let a = concat3("replica:", id, ":vnode:");
    concat(a.as_str(), decimal_string(vnode as u64).as_str())
}

} // verus!
