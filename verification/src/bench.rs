use vstd::prelude::*;

use crate::keyed::str_eq;
use crate::models::message::views_of;
use crate::text::chars_of;

verus! {

/// How a benchmark runs.
#[derive(Debug)]
pub struct BenchmarkConfig {
    pub target: Option<String>,
    pub turns: usize,
    pub sessions: usize,
    pub model: Option<String>,
    pub simulated: bool,
}

impl Default for BenchmarkConfig {
    /// Five turns in each of four sessions, against the local gateway, live when it answers.
    fn default() -> (r: Self)
        ensures
            r.target is None,
            r.turns == 5,
            r.sessions == 4,
            r.model is None,
            !r.simulated,
    {
        BenchmarkConfig { target: None, turns: 5, sessions: 4, model: None, simulated: false }
    }
}

/// What was measured of one benchmark turn.
#[derive(Debug, Clone, Copy, PartialEq, Eq, Structural)]
pub struct TurnResult {
    pub turn_idx: usize,
    pub client_ttft_ms: u64,
    pub server_ttft_ms: Option<u64>,
    pub total_ms: u64,
    pub cache_hit: bool,
    pub cached_tokens: Option<usize>,
}

/// The gateway benchmarked unless one is given.
pub fn benchmark_target(target: &Option<String>) -> (r: String)
    ensures
        match target {
            Some(t) => r@ == t@,
            None => r@ == "http://localhost:8080"@,
        },
{
    match target {
        Some(t) => t.clone(),
        None => "http://localhost:8080".to_owned(),
    }
}

/// `part` occurs in `s`.
pub open spec fn has_infix(s: Seq<char>, part: Seq<char>) -> bool {
    exists|i: int| 0 <= i && i + part.len() <= s.len() && #[trigger] s.subrange(i, i + part.len()) == part
}

/// Whether `part` occurs in `s`.
pub fn contains_str(s: &str, part: &str) -> (r: bool)
    ensures
        r == has_infix(s@, part@),
{
    let cs = chars_of(s);
    let ps = chars_of(part);
    if ps.len() > cs.len() {
        return false;
    }
    let mut i: usize = 0;
    while i <= cs.len() - ps.len()
        invariant
            cs@ == s@,
            ps@ == part@,
            ps.len() <= cs.len(),
            i <= cs.len() - ps.len() + 1,
            forall|j: int| 0 <= j < i ==> #[trigger] s@.subrange(j, j + part@.len()) != part@,
        decreases cs.len() - i,
    {
        let mut k: usize = 0;
        let mut same = true;
        while k < ps.len()
            invariant
                k <= ps.len(),
                i + ps.len() <= cs.len(),
                cs@ == s@,
                ps@ == part@,
                same == (forall|m: int| 0 <= m < k ==> cs@[i + m] == ps@[m]),
            decreases ps.len() - k,
        {
            if cs[i + k] != ps[k] {
                same = false;
            }
            k = k + 1;
        }
        if same {
            assert(s@.subrange(i as int, i + part@.len()) =~= part@);
            return true;
        }
        assert(s@.subrange(i as int, i + part@.len()) != part@) by {
            let m = choose|m: int| 0 <= m < ps.len() && cs@[i + m] != ps@[m];
            assert(s@.subrange(i as int, i + part@.len())[m] == cs@[i + m]);
        }
        i = i + 1;
    }
    assert forall|j: int| 0 <= j && j + part@.len() <= s@.len() implies #[trigger] s@.subrange(j, j + part@.len()) != part@ by {
        assert(j < i);
    }
    false
}

/// A model id of one of the families the benchmark prefers.
pub open spec fn preferred_family(id: Seq<char>) -> bool {
    has_infix(id, "smollm2"@) || has_infix(id, "llama"@) || has_infix(id, "qwen"@)
}

/// The listed item at `k` names a model of a preferred family.
pub open spec fn preferred_at(ids: Seq<Option<String>>, k: int) -> bool {
    ids[k] matches Some(id) && preferred_family(id@)
}

/// The model to benchmark among the items a gateway lists (each with its id, if it has
/// one): the first id of a preferred family, else the id of the first item, else none.
pub fn preferred_model(ids: &Vec<Option<String>>) -> (r: Option<String>)
    ensures
        match r {
            Some(m) => (exists|k: int| 0 <= k < ids.len() && #[trigger] preferred_at(ids@, k)
                && crate::models::message::opt_view(ids@[k]) == Some(m@) && forall|j: int| 0 <= j < k ==> !#[trigger] preferred_at(ids@, j))
                || ((forall|j: int| 0 <= j < ids.len() ==> !#[trigger] preferred_at(ids@, j)) && ids.len() > 0
                && crate::models::message::opt_view(ids@[0]) == Some(m@)),
            None => (forall|j: int| 0 <= j < ids.len() ==> !#[trigger] preferred_at(ids@, j))
                && (ids.len() == 0 || ids@[0] is None),
        },
{
    let mut k: usize = 0;
    while k < ids.len()
        invariant
            k <= ids.len(),
            forall|j: int| 0 <= j < k ==> !#[trigger] preferred_at(ids@, j),
        decreases ids.len() - k,
    {
        if let Some(id) = &ids[k] {
            let t = id.as_str();
            if contains_str(t, "smollm2") || contains_str(t, "llama") || contains_str(t, "qwen") {
                assert(preferred_at(ids@, k as int));
                return Some(id.clone());
            }
        }
        k = k + 1;
    }
    if ids.len() > 0 {
        match &ids[0] {
            Some(id) => Some(id.clone()),
            None => None,
        }
    } else {
        None
    }
}

/// The model benchmarked when none can be detected.
pub fn fallback_model() -> (r: String)
    ensures
        r@ == "smollm2:135m"@,
{
    "smollm2:135m".to_owned()
}

/// The telemetry a completed turn reported: its server-side time to first token, its cached
/// prompt tokens, and whether it reported a positive cache hit rate.
#[derive(Debug, Clone, Copy, PartialEq, Eq, Structural)]
pub struct CompletedTelemetry {
    pub ttft_ms: Option<u64>,
    pub cached_tokens: Option<u64>,
    pub positive_hit_rate: bool,
}

/// What has been observed of one benchmark turn so far.
#[derive(Debug, Clone, Copy, PartialEq, Eq, Structural)]
pub struct TurnObservation {
    pub client_ttft_ms: Option<u64>,
    pub server_ttft_ms: Option<u64>,
    pub cached_tokens: Option<usize>,
    pub cache_hit: bool,
}

impl TurnObservation {
    /// Nothing observed yet.
    pub fn new() -> (r: Self)
        ensures
            r == (TurnObservation { client_ttft_ms: None, server_ttft_ms: None, cached_tokens: None, cache_hit: false }),
    {
        TurnObservation { client_ttft_ms: None, server_ttft_ms: None, cached_tokens: None, cache_hit: false }
    }

    /// Takes in an event named `event` that arrived `elapsed_ms` into the turn: the first
    /// `token_delta` gives the observed time to first token; a `turn_completed` with
    /// telemetry gives the server's time, the cached tokens, and whether the cache was hit.
    pub fn observe(&mut self, event: &str, elapsed_ms: u64, completed: Option<CompletedTelemetry>)
        ensures
            final(self).client_ttft_ms == if old(self).client_ttft_ms is None && event@ == "token_delta"@ {
                Some(elapsed_ms)
            } else {
                old(self).client_ttft_ms
            },
            (event@ == "turn_completed"@ && completed is Some) ==> {
                let c = completed->0;
                &&& final(self).server_ttft_ms == if c.ttft_ms is Some { c.ttft_ms } else { old(self).server_ttft_ms }
                &&& final(self).cached_tokens == match c.cached_tokens {
                    Some(n) => Some(n as usize),
                    None => old(self).cached_tokens,
                }
                &&& final(self).cache_hit == (old(self).cache_hit || (c.cached_tokens matches Some(n) && n > 0)
                    || c.positive_hit_rate)
            },
            !(event@ == "turn_completed"@ && completed is Some) ==> final(self).server_ttft_ms == old(
                self,
            ).server_ttft_ms && final(self).cached_tokens == old(self).cached_tokens && final(self).cache_hit == old(
                self,
            ).cache_hit,
    {
        if self.client_ttft_ms.is_none() && str_eq(event, "token_delta") {
            self.client_ttft_ms = Some(elapsed_ms);
        }
        if str_eq(event, "turn_completed") {
            if let Some(c) = completed {
                if let Some(t) = c.ttft_ms {
                    self.server_ttft_ms = Some(t);
                }
                if let Some(n) = c.cached_tokens {
                    self.cached_tokens = Some(n as usize);
                    if n > 0 {
                        self.cache_hit = true;
                    }
                }
                if c.positive_hit_rate {
                    self.cache_hit = true;
                }
            }
        }
    }

    /// The result of turn `turn_idx`, which took `total_ms`: without a token, the observed
    /// time to first token is the whole time.
    pub fn finish(&self, turn_idx: usize, total_ms: u64) -> (r: TurnResult)
        ensures
            r == (TurnResult {
                turn_idx,
                client_ttft_ms: match self.client_ttft_ms {
                    Some(t) => t,
                    None => total_ms,
                },
                server_ttft_ms: self.server_ttft_ms,
                total_ms,
                cache_hit: self.cache_hit,
                cached_tokens: self.cached_tokens,
            }),
    {
        TurnResult {
            turn_idx,
            client_ttft_ms: match self.client_ttft_ms {
                Some(t) => t,
                None => total_ms,
            },
            server_ttft_ms: self.server_ttft_ms,
            total_ms,
            cache_hit: self.cache_hit,
            cached_tokens: self.cached_tokens,
        }
    }
}

/// The results at turn `t` of the sessions that reached it, in session order.
pub open spec fn results_at(all: Seq<Seq<TurnResult>>, t: int) -> Seq<TurnResult>
    decreases all.len(),
{
    if all.len() == 0 {
        Seq::empty()
    } else if 0 <= t < all.last().len() {
        results_at(all.drop_last(), t).push(all.last()[t])
    } else {
        results_at(all.drop_last(), t)
    }
}

/// The sum of the observed times to first token.
pub open spec fn sum_client_ttft(rs: Seq<TurnResult>) -> nat
    decreases rs.len(),
{
    if rs.len() == 0 { 0 } else { sum_client_ttft(rs.drop_last()) + rs.last().client_ttft_ms as nat }
}

/// The sum of the total times.
pub open spec fn sum_total(rs: Seq<TurnResult>) -> nat
    decreases rs.len(),
{
    if rs.len() == 0 { 0 } else { sum_total(rs.drop_last()) + rs.last().total_ms as nat }
}

/// The sum and count of the reported server times to first token.
pub open spec fn server_ttfts(rs: Seq<TurnResult>) -> (nat, nat)
    decreases rs.len(),
{
    if rs.len() == 0 {
        (0, 0)
    } else {
        let p = server_ttfts(rs.drop_last());
        match rs.last().server_ttft_ms {
            Some(s) => (p.0 + s as nat, p.1 + 1),
            None => p,
        }
    }
}

/// The sum and count of the reported cached tokens.
pub open spec fn cached_counts(rs: Seq<TurnResult>) -> (nat, nat)
    decreases rs.len(),
{
    if rs.len() == 0 {
        (0, 0)
    } else {
        let p = cached_counts(rs.drop_last());
        match rs.last().cached_tokens {
            Some(c) => (p.0 + c as nat, p.1 + 1),
            None => p,
        }
    }
}

/// The number of cache hits.
pub open spec fn hit_count(rs: Seq<TurnResult>) -> nat
    decreases rs.len(),
{
    if rs.len() == 0 { 0 } else { hit_count(rs.drop_last()) + if rs.last().cache_hit { 1nat } else { 0nat } }
}

/// How a turn of the benchmark is classified.
#[derive(Debug, Clone, Copy, PartialEq, Eq, Structural)]
pub enum TurnStatus {
    /// The first turn: the prompt is prefilled from scratch.
    ColdPrefill,
    /// A later turn that reported cache hits, with the average number of cached tokens.
    WarmHit { avg_cached: usize },
    /// A later turn faster than the first: the first turn's and this turn's average times to
    /// first token.
    WarmFaster { first_ttft: u64, ttft: u64 },
    /// Any other later turn.
    Warm,
}

/// The summary of one turn across sessions.
#[derive(Debug, Clone, Copy, PartialEq, Eq, Structural)]
pub struct TurnSummary {
    pub avg_client_ttft: u64,
    pub avg_server_ttft: Option<u64>,
    pub avg_total: u64,
    pub status: TurnStatus,
}

/// The summary of turn `t` over the sessions `all`, given the first turn's average observed
/// time to first token: averages are taken over all sessions (0 without sessions), the
/// server average over the sessions that reported one.
pub open spec fn turn_summary(all: Seq<Seq<TurnResult>>, t: int, first_ttft: u64) -> TurnSummary {
    let rs = results_at(all, t);
    let n = all.len();
    let avg_client: u64 = if n > 0 { (sum_client_ttft(rs) / n) as u64 } else { 0 };
    let avg_total: u64 = if n > 0 { (sum_total(rs) / n) as u64 } else { 0 };
    let (ss, sc) = server_ttfts(rs);
    let (cs, cc) = cached_counts(rs);
    TurnSummary {
        avg_client_ttft: avg_client,
        avg_server_ttft: if sc > 0 { Some((ss / sc) as u64) } else { None },
        avg_total,
        status: if t == 0 {
            TurnStatus::ColdPrefill
        } else if hit_count(rs) > 0 && cc > 0 {
            TurnStatus::WarmHit { avg_cached: (cs / cc) as usize }
        } else if first_ttft > 0 && avg_client < first_ttft {
            TurnStatus::WarmFaster { first_ttft, ttft: avg_client }
        } else {
            TurnStatus::Warm
        },
    }
}

/// The results at turn `t` are at most one per session.
proof fn lemma_results_at_len(all: Seq<Seq<TurnResult>>, t: int)
    ensures
        results_at(all, t).len() <= all.len(),
    decreases all.len(),
{
    if all.len() > 0 {
        lemma_results_at_len(all.drop_last(), t);
    }
}

/// Sums of values below a bound grow by at most the bound per value.
proof fn lemma_sums_bounded(rs: Seq<TurnResult>)
    ensures
        sum_client_ttft(rs) <= rs.len() * 0xFFFF_FFFF_FFFF_FFFF,
        sum_total(rs) <= rs.len() * 0xFFFF_FFFF_FFFF_FFFF,
        server_ttfts(rs).0 <= server_ttfts(rs).1 * 0xFFFF_FFFF_FFFF_FFFF,
        server_ttfts(rs).1 <= rs.len(),
        cached_counts(rs).0 <= cached_counts(rs).1 * 0xFFFF_FFFF_FFFF_FFFF,
        cached_counts(rs).0 <= cached_counts(rs).1 * usize::MAX,
        cached_counts(rs).1 <= rs.len(),
        hit_count(rs) <= rs.len(),
    decreases rs.len(),
{
    if rs.len() > 0 {
        lemma_sums_bounded(rs.drop_last());
    }
}

/// The summary of turn `t` over the sessions `all`.
pub fn summarize_turn(all: &Vec<Vec<TurnResult>>, t: usize, first_ttft: u64) -> (r: TurnSummary)
    ensures
        r == turn_summary(all@.map_values(|s: Vec<TurnResult>| s@), t as int, first_ttft),
{
    let ghost sessions = all@.map_values(|s: Vec<TurnResult>| s@);
    let mut sum_client: u128 = 0;
    let mut sum_tot: u128 = 0;
    let mut server_sum: u128 = 0;
    let mut server_count: u128 = 0;
    let mut cached_sum: u128 = 0;
    let mut cached_count: u128 = 0;
    let mut hits: u128 = 0;
    let mut i: usize = 0;
    while i < all.len()
        invariant
            i <= all.len(),
            sessions == all@.map_values(|s: Vec<TurnResult>| s@),
            ({
                let rs = results_at(sessions.take(i as int), t as int);
                &&& sum_client == sum_client_ttft(rs)
                &&& sum_tot == sum_total(rs)
                &&& (server_sum, server_count) == (server_ttfts(rs).0 as u128, server_ttfts(rs).1 as u128)
                &&& (cached_sum, cached_count) == (cached_counts(rs).0 as u128, cached_counts(rs).1 as u128)
                &&& hits == hit_count(rs)
                &&& rs.len() <= i
            }),
        decreases all.len() - i,
    {
        proof {
            let pre = sessions.take(i as int);
            let nxt = sessions.take(i + 1);
            assert(nxt.drop_last() =~= pre);
            assert(nxt.last() == all@[i as int]@);
            lemma_results_at_len(pre, t as int);
            lemma_sums_bounded(results_at(nxt, t as int));
            lemma_results_at_len(nxt, t as int);
        }
        if t < all[i].len() {
            let res = all[i][t];
            assert(results_at(sessions.take(i + 1), t as int) == results_at(sessions.take(i as int), t as int).push(res));
            proof {
                let rs = results_at(sessions.take(i + 1), t as int);
                lemma_sums_bounded(rs);
                assert(rs.drop_last() =~= results_at(sessions.take(i as int), t as int));
                assert(rs.len() <= i + 1);
                assert(rs.len() * 0xFFFF_FFFF_FFFF_FFFF <= 0xFFFF_FFFF_FFFF_FFFF * 0xFFFF_FFFF_FFFF_FFFF) by (nonlinear_arith)
                    requires
                        rs.len() <= 0xFFFF_FFFF_FFFF_FFFF,
                ;
            }
            sum_client = sum_client + res.client_ttft_ms as u128;
            sum_tot = sum_tot + res.total_ms as u128;
            if let Some(s) = res.server_ttft_ms {
                server_sum = server_sum + s as u128;
                server_count = server_count + 1;
            }
            if let Some(c) = res.cached_tokens {
                cached_sum = cached_sum + c as u128;
                cached_count = cached_count + 1;
            }
            if res.cache_hit {
                hits = hits + 1;
            }
        } else {
            assert(results_at(sessions.take(i + 1), t as int) == results_at(sessions.take(i as int), t as int));
        }
        i = i + 1;
    }
    proof {
        assert(sessions.take(all.len() as int) =~= sessions);
        let rs = results_at(sessions, t as int);
        lemma_sums_bounded(rs);
        lemma_results_at_len(sessions, t as int);
    }
    let n = all.len() as u128;
    let avg_client: u64 = if n > 0 {
        proof {
            lemma_avg_fits(sum_client as nat, n as nat);
        }
        (sum_client / n) as u64
    } else {
        0
    };
    let avg_total: u64 = if n > 0 {
        proof {
            lemma_avg_fits(sum_tot as nat, n as nat);
        }
        (sum_tot / n) as u64
    } else {
        0
    };
    let avg_server = if server_count > 0 {
        proof {
            lemma_avg_fits(server_sum as nat, server_count as nat);
        }
        Some((server_sum / server_count) as u64)
    } else {
        None
    };
    let status = if t == 0 {
        TurnStatus::ColdPrefill
    } else if hits > 0 && cached_count > 0 {
        proof {
            lemma_avg_fits_usize(cached_sum as nat, cached_count as nat);
        }
        TurnStatus::WarmHit { avg_cached: (cached_sum / cached_count) as usize }
    } else if first_ttft > 0 && avg_client < first_ttft {
        TurnStatus::WarmFaster { first_ttft, ttft: avg_client }
    } else {
        TurnStatus::Warm
    };
    TurnSummary { avg_client_ttft: avg_client, avg_server_ttft: avg_server, avg_total, status }
}

/// An average of values below 2^64 is below 2^64.
proof fn lemma_avg_fits(sum: nat, n: nat)
    requires
        n > 0,
        sum <= n * 0xFFFF_FFFF_FFFF_FFFF,
    ensures
        sum / n <= 0xFFFF_FFFF_FFFF_FFFF,
{
    assert(sum / n <= 0xFFFF_FFFF_FFFF_FFFF) by (nonlinear_arith)
        requires
            n > 0,
            sum <= n * 0xFFFF_FFFF_FFFF_FFFF,
    ;
}

/// An average of values that fit a `usize` fits a `usize`.
proof fn lemma_avg_fits_usize(sum: nat, n: nat)
    requires
        n > 0,
        sum <= n * usize::MAX,
    ensures
        sum / n <= usize::MAX,
{
    assert(sum / n <= usize::MAX) by (nonlinear_arith)
        requires
            n > 0,
            sum <= n * usize::MAX,
    ;
}

/// The modelled time to first token of turn `t` (from 1) without prefix reuse: 820 ms, and
/// 40 ms more for each earlier turn.
pub fn cold_ttft(t: u64) -> (r: u64)
    requires
        t >= 1,
        820 + (t - 1) * 40 <= u64::MAX,
    ensures
        r == 820 + (t - 1) * 40,
{
    820 + (t - 1) * 40
}

/// The modelled time to first token of turn `t` (from 1) on a pinned replica: 820 ms for
/// the first turn, then 104 ms plus 2 ms for each step of `t mod 3`.
pub fn pinned_ttft(t: u64) -> (r: u64)
    requires
        t >= 1,
    ensures
        r == if t == 1 { 820 } else { 104 + (t % 3) * 2 },
{
    if t == 1 {
        820
    } else {
        104 + (t % 3) * 2
    }
}

/// The sum of a list of times.
pub open spec fn sum_u64(s: Seq<u64>) -> nat
    decreases s.len(),
{
    if s.len() == 0 { 0 } else { sum_u64(s.drop_last()) + s.last() as nat }
}

/// The mean of a list of times, rounded down (0 for an empty list).
pub fn mean_ms(values: &Vec<u64>) -> (r: u64)
    requires
        sum_u64(values@) <= u64::MAX,
    ensures
        r == sum_u64(values@) / (if values.len() > 0 { values.len() as nat } else { 1nat }),
{
    let mut sum: u64 = 0;
    let mut i: usize = 0;
    while i < values.len()
        invariant
            i <= values.len(),
            sum == sum_u64(values@.take(i as int)),
            sum_u64(values@) <= u64::MAX,
        decreases values.len() - i,
    {
        assert(values@.take(i + 1).drop_last() =~= values@.take(i as int));
        proof {
            lemma_sum_prefix(values@, i + 1);
        }
        sum = sum + values[i];
        i = i + 1;
    }
    assert(values@.take(values.len() as int) =~= values@);
    let n: u64 = if values.len() > 0 { values.len() as u64 } else { 1 };
    sum / n
}

/// A prefix sums to no more than the whole.
proof fn lemma_sum_prefix(s: Seq<u64>, i: int)
    requires
        0 <= i <= s.len(),
    ensures
        sum_u64(s.take(i)) <= sum_u64(s),
    decreases s.len() - i,
{
    if i < s.len() {
        lemma_sum_prefix(s, i + 1);
        assert(s.take(i + 1).drop_last() =~= s.take(i));
    } else {
        assert(s.take(i) =~= s);
    }
}

} // verus!
