//! The smart selector: picks one eligible proxy for a rotation request according to a
//! strategy, with a geo-diversity balancer over the currently bound sessions.

use vstd::prelude::*;
use crate::proxy::{Metrics, ProxyKey, ProxyRecord};
use crate::registry::{eligible_keys, lemma_eligible_prefix, opt_view, ProxyRegistry};

verus! {

/// How the next proxy is chosen among the eligible ones.
#[derive(Debug, Clone, Copy, PartialEq, Eq, Structural)]
pub enum RotationStrategy {
    /// The next key after the last one handed out, cyclically.
    RoundRobin,
    /// A uniform pick driven by a random draw.
    Random,
    /// The proxy handed out least recently (never handed out comes first).
    LeastRecentlyUsed,
    /// A pick weighted by success ratio and latency.
    HealthWeighted,
    /// The secondary strategy among the proxies claiming the target country.
    GeoTargeted,
}

/// A strategy and its parameters.
#[derive(Debug, Clone)]
pub struct RotationStrategyConfig {
    pub strategy: RotationStrategy,
    /// Country that `GeoTargeted` restricts the pick to.
    pub target_country: Option<String>,
    /// Strategy that `GeoTargeted` applies after filtering; `GeoTargeted` here means
    /// round-robin.
    pub secondary: RotationStrategy,
    /// Largest share, in percent, of bound sessions that one country may hold after a
    /// random or health-weighted pick.
    pub max_country_percent: u8,
}

impl RotationStrategyConfig {
    /// A field-by-field copy.
    pub fn copy(&self) -> (r: Self)
        ensures
            r == *self,
    {
        RotationStrategyConfig {
            strategy: self.strategy,
            target_country: crate::proxy::copy_opt_string(&self.target_country),
            secondary: self.secondary,
            max_country_percent: self.max_country_percent,
        }
    }
}

/// Whether `k` is in `v`.
pub fn contains_key(v: &Vec<ProxyKey>, k: ProxyKey) -> (r: bool)
    ensures
        r == v@.contains(k),
{
    let mut i: usize = 0;
    while i < v.len()
        invariant
            i <= v@.len(),
            forall|j: int| 0 <= j < i ==> v@[j] != k,
        decreases v@.len() - i,
    {
        if v[i] == k {
            return true;
        }
        i = i + 1;
    }
    false
}

/// The country claimed by the record under `k`.
pub open spec fn country_of(recs: Seq<ProxyRecord>, k: ProxyKey) -> Seq<char> {
    recs[k.index as int].claimed_country@
}

/// Keys that are not in `exclude`.
pub open spec fn not_in(exclude: Seq<ProxyKey>) -> spec_fn(ProxyKey) -> bool {
    |k: ProxyKey| !exclude.contains(k)
}

/// Keys of records that claim country `c`.
pub open spec fn claims(recs: Seq<ProxyRecord>, c: Seq<char>) -> spec_fn(ProxyKey) -> bool {
    |k: ProxyKey| k.index < recs.len() && country_of(recs, k) == c
}

/// Keys whose country may take one more session (see `within_share`).
pub open spec fn share_ok(recs: Seq<ProxyRecord>, bound: Seq<ProxyKey>, percent: u8) -> spec_fn(ProxyKey) -> bool {
    |k: ProxyKey| within_share(recs, bound, percent, k)
}

/// Eligible keys, in slot order, without the excluded ones.
pub open spec fn candidates(
    recs: Seq<ProxyRecord>,
    exclude: Seq<ProxyKey>,
    country: Option<Seq<char>>,
    now: u64,
    freshness: u64,
) -> Seq<ProxyKey> {
    eligible_keys(recs, country, now, freshness).filter(not_in(exclude))
}

/// How many bound keys point at a record claiming country `c`.
pub open spec fn bound_count(recs: Seq<ProxyRecord>, bound: Seq<ProxyKey>, c: Seq<char>) -> nat {
    bound.filter(claims(recs, c)).len()
}

/// Whether binding one more session to `k` keeps its country within `percent` of all
/// bound sessions, rounded up.
pub open spec fn within_share(recs: Seq<ProxyRecord>, bound: Seq<ProxyKey>, percent: u8, k: ProxyKey) -> bool {
    (bound_count(recs, bound, country_of(recs, k)) + 1) * 100 <= percent * (bound.len() + 1) + 99
}

/// The candidates that respect the country share, or all of them when none does.
pub open spec fn diverse(recs: Seq<ProxyRecord>, cands: Seq<ProxyKey>, bound: Seq<ProxyKey>, percent: u8) -> Seq<ProxyKey> {
    let d = cands.filter(share_ok(recs, bound, percent));
    if d.len() > 0 {
        d
    } else {
        cands
    }
}

pub(crate) proof fn lemma_filter_step<A>(s: Seq<A>, i: int, pred: spec_fn(A) -> bool)
    requires
        0 <= i < s.len(),
    ensures
        s.take(i + 1).filter(pred) == if pred(s[i]) {
            s.take(i).filter(pred).push(s[i])
        } else {
            s.take(i).filter(pred)
        },
{
    reveal(Seq::filter);
    assert(s.take(i + 1).drop_last() =~= s.take(i));
}

/// Number of bound keys whose record claims `c`.
pub fn count_bound(reg: &ProxyRegistry, bound: &Vec<ProxyKey>, c: &String) -> (r: usize)
    ensures
        r == bound_count(reg@, bound@, c@),
{
    let mut n: usize = 0;
    let mut i: usize = 0;
    while i < bound.len()
        invariant
            i <= bound@.len(),
            n == bound@.take(i as int).filter(claims(reg@, c@)).len(),
            n <= i,
        decreases bound@.len() - i,
    {
        proof {
            lemma_filter_step(bound@, i as int, claims(reg@, c@));
        }
        let k = bound[i];
        let ghost before = n;
        match reg.get(k) {
            Some(rec) => {
                if rec.claimed_country == *c {
                    n = n + 1;
                }
            },
            None => {},
        }
        proof {
            assert(claims(reg@, c@)(k) == (k.index < reg@.len() && reg@[k.index as int].claimed_country@ == c@));
            assert(claims(reg@, c@)(k) ==> n == before + 1);
            assert(!claims(reg@, c@)(k) ==> n == before);
        }
        i = i + 1;
    }
    proof {
        assert(bound@.take(bound@.len() as int) =~= bound@);
    }
    n
}

/// The eligible keys that are not excluded (see `candidates`).
pub fn list_candidates(
    reg: &ProxyRegistry,
    exclude: &Vec<ProxyKey>,
    country: Option<&String>,
    now: u64,
    freshness: u64,
) -> (r: Vec<ProxyKey>)
    ensures
        r@ == candidates(reg@, exclude@, opt_view(country), now, freshness),
{
    let e = reg.list_eligible(country, now, freshness);
    let mut out: Vec<ProxyKey> = Vec::new();
    let mut i: usize = 0;
    while i < e.len()
        invariant
            i <= e@.len(),
            out@ == e@.take(i as int).filter(not_in(exclude@)),
        decreases e@.len() - i,
    {
        proof {
            lemma_filter_step(e@, i as int, not_in(exclude@));
        }
        let k = e[i];
        if !contains_key(exclude, k) {
            out.push(k);
        }
        proof {
            assert(not_in(exclude@)(k) == !exclude@.contains(k));
        }
        i = i + 1;
    }
    proof {
        assert(e@.take(e@.len() as int) =~= e@);
    }
    out
}

/// The diversity-constrained candidates (see `diverse`).
pub fn diverse_candidates(reg: &ProxyRegistry, cands: &Vec<ProxyKey>, bound: &Vec<ProxyKey>, percent: u8) -> (r: Vec<ProxyKey>)
    requires
        forall|i: int| 0 <= i < cands@.len() ==> (#[trigger] cands@[i]).index < reg@.len(),
    ensures
        r@ == diverse(reg@, cands@, bound@, percent),
{
    let total = bound.len();
    let mut out: Vec<ProxyKey> = Vec::new();
    let mut i: usize = 0;
    while i < cands.len()
        invariant
            i <= cands@.len(),
            out@ == cands@.take(i as int).filter(share_ok(reg@, bound@, percent)),
            total == bound@.len(),
            forall|j: int| 0 <= j < cands@.len() ==> (#[trigger] cands@[j]).index < reg@.len(),
        decreases cands@.len() - i,
    {
        proof {
            lemma_filter_step(cands@, i as int, share_ok(reg@, bound@, percent));
        }
        let k = cands[i];
        let rec = reg.get(k).unwrap();
        let n = count_bound(reg, bound, &rec.claimed_country);
        proof {
            assert(n <= bound@.len()) by {
                bound@.filter_lemma(claims(reg@, rec.claimed_country@));
            }
        }
        let lhs: u128 = (n as u128 + 1) * 100;
        let cap: u128 = total as u128 + 1;
        proof {
            assert(percent as u128 * cap <= 255 * 0x1_0000_0000_0000_0000u128) by (nonlinear_arith)
                requires
                    percent <= 255,
                    cap <= 0x1_0000_0000_0000_0000u128,
            ;
        }
        if lhs <= (percent as u128) * cap + 99 {
            out.push(k);
        }
        i = i + 1;
    }
    proof {
        assert(cands@.take(cands@.len() as int) =~= cands@);
    }
    if out.len() > 0 {
        out
    } else {
        let mut all: Vec<ProxyKey> = Vec::new();
        let mut j: usize = 0;
        while j < cands.len()
            invariant
                j <= cands@.len(),
                all@ == cands@.take(j as int),
            decreases cands@.len() - j,
        {
            all.push(cands[j]);
            proof {
                assert(cands@.take(j + 1) =~= cands@.take(j as int).push(cands@[j as int]));
            }
            j = j + 1;
        }
        proof {
            assert(cands@.take(cands@.len() as int) =~= cands@);
        }
        all
    }
}

/// Position in `cands`, from `i` on, of the first key past slot `cursor`; 0 when there is none.
pub open spec fn first_after(cands: Seq<ProxyKey>, cursor: usize, i: nat) -> nat
    decreases cands.len() - i,
{
    if i >= cands.len() {
        0
    } else if cands[i as int].index > cursor {
        i
    } else {
        first_after(cands, cursor, i + 1)
    }
}

/// Position of the round-robin pick: the first key after the cursor, cyclically.
pub open spec fn round_robin_index(cands: Seq<ProxyKey>, cursor: Option<usize>) -> nat {
    match cursor {
        Some(c) => first_after(cands, c, 0),
        None => 0,
    }
}

/// Whether a record handed out at `x` was handed out before one handed out at `y`
/// (never comes first).
pub open spec fn selected_before(x: Option<u64>, y: Option<u64>) -> bool {
    match (x, y) {
        (None, Some(_)) => true,
        (Some(a), Some(b)) => a < b,
        _ => false,
    }
}

/// Position among the first `n` candidates of the one handed out least recently; ties
/// go to the earlier position.
pub open spec fn lru_index(recs: Seq<ProxyRecord>, cands: Seq<ProxyKey>, n: nat) -> nat
    decreases n,
{
    if n <= 1 {
        0
    } else {
        let j = lru_index(recs, cands, (n - 1) as nat);
        if selected_before(
            recs[cands[n - 1].index as int].last_selected,
            recs[cands[j as int].index as int].last_selected,
        ) {
            (n - 1) as nat
        } else {
            j
        }
    }
}

/// Success ratio in thousandths; an unprobed record counts as one half.
pub open spec fn success_permille(m: Metrics) -> nat {
    if m.success_count + m.failure_count == 0 {
        500
    } else {
        (m.success_count * 1000 / (m.success_count + m.failure_count)) as nat
    }
}

/// Latency score in thousandths: 1000 at no latency, one half at one second.
pub open spec fn speed_permille(m: Metrics) -> nat {
    (1_000_000int / (m.ewma_latency_ms + 1000int)) as nat
}

/// Selection weight of a record: at least 1 so that no record is starved, and up to 1001
/// for a record that always succeeds without latency.
pub open spec fn health_weight(rec: ProxyRecord) -> nat {
    1 + success_permille(rec.metrics) * speed_permille(rec.metrics) / 1000
}

/// Position, from `i` on, where the running weight total `acc` first passes `r`.
pub open spec fn weighted_index(recs: Seq<ProxyRecord>, cands: Seq<ProxyKey>, r: nat, i: nat, acc: nat) -> nat
    decreases cands.len() - i,
{
    if i >= cands.len() {
        0
    } else if r < acc + health_weight(recs[cands[i as int].index as int]) {
        i
    } else {
        weighted_index(recs, cands, r, i + 1, acc + health_weight(recs[cands[i as int].index as int]))
    }
}

/// Sum of the weights of the first `n` candidates.
pub open spec fn weight_total(recs: Seq<ProxyRecord>, cands: Seq<ProxyKey>, n: nat) -> nat
    decreases n,
{
    if n == 0 {
        0
    } else {
        weight_total(recs, cands, (n - 1) as nat) + health_weight(recs[cands[n - 1].index as int])
    }
}

/// The key that `strategy` picks among `cands`, given the round-robin cursor, the bound
/// sessions, the country share and a random draw; `None` when `cands` is empty.
pub open spec fn pick(
    recs: Seq<ProxyRecord>,
    cands: Seq<ProxyKey>,
    strategy: RotationStrategy,
    cursor: Option<usize>,
    bound: Seq<ProxyKey>,
    percent: u8,
    draw: u64,
) -> Option<ProxyKey> {
    if cands.len() == 0 {
        None
    } else {
        let d = diverse(recs, cands, bound, percent);
        Some(
            match strategy {
                RotationStrategy::RoundRobin | RotationStrategy::GeoTargeted => cands[round_robin_index(
                    cands,
                    cursor,
                ) as int],
                RotationStrategy::Random => d[(draw as nat % d.len()) as int],
                RotationStrategy::LeastRecentlyUsed => cands[lru_index(recs, cands, cands.len()) as int],
                RotationStrategy::HealthWeighted => d[weighted_index(
                    recs,
                    d,
                    draw as nat % weight_total(recs, d, d.len()),
                    0,
                    0,
                ) as int],
            },
        )
    }
}

/// The country filter a strategy applies before picking.
pub open spec fn strategy_country(cfg: RotationStrategyConfig) -> Option<Seq<char>> {
    if cfg.strategy == RotationStrategy::GeoTargeted {
        match cfg.target_country {
            Some(c) => Some(c@),
            None => None,
        }
    } else {
        None
    }
}

/// The strategy that picks among the candidates: the secondary one under `GeoTargeted`
/// (round-robin when that is `GeoTargeted` too), else the strategy itself.
pub open spec fn effective_strategy(cfg: RotationStrategyConfig) -> RotationStrategy {
    if cfg.strategy == RotationStrategy::GeoTargeted {
        if cfg.secondary == RotationStrategy::GeoTargeted {
            RotationStrategy::RoundRobin
        } else {
            cfg.secondary
        }
    } else {
        cfg.strategy
    }
}

/// What `select` returns.
pub open spec fn select_spec(
    recs: Seq<ProxyRecord>,
    cfg: RotationStrategyConfig,
    cursor: Option<usize>,
    exclude: Seq<ProxyKey>,
    bound: Seq<ProxyKey>,
    draw: u64,
    now: u64,
    freshness: u64,
) -> Option<ProxyKey> {
    pick(
        recs,
        candidates(recs, exclude, strategy_country(cfg), now, freshness),
        effective_strategy(cfg),
        cursor,
        bound,
        cfg.max_country_percent,
        draw,
    )
}

/// The round-robin cursor after a selection that returned `r`.
pub open spec fn cursor_after(strategy: RotationStrategy, cursor: Option<usize>, r: Option<ProxyKey>) -> Option<usize> {
    match r {
        Some(k) => if strategy == RotationStrategy::RoundRobin || strategy == RotationStrategy::GeoTargeted {
            Some(k.index)
        } else {
            cursor
        },
        None => cursor,
    }
}

pub(crate) proof fn lemma_first_after_bound(cands: Seq<ProxyKey>, cursor: usize, i: nat)
    requires
        cands.len() > 0,
    ensures
        first_after(cands, cursor, i) < cands.len(),
    decreases cands.len() - i,
{
    if i < cands.len() && cands[i as int].index <= cursor {
        lemma_first_after_bound(cands, cursor, i + 1);
    }
}

pub(crate) proof fn lemma_lru_bound(recs: Seq<ProxyRecord>, cands: Seq<ProxyKey>, n: nat)
    requires
        n >= 1,
    ensures
        lru_index(recs, cands, n) < n,
    decreases n,
{
    if n > 1 {
        lemma_lru_bound(recs, cands, (n - 1) as nat);
    }
}

pub(crate) proof fn lemma_weighted_bound(recs: Seq<ProxyRecord>, cands: Seq<ProxyKey>, r: nat, i: nat, acc: nat)
    requires
        cands.len() > 0,
    ensures
        weighted_index(recs, cands, r, i, acc) < cands.len(),
    decreases cands.len() - i,
{
    if i < cands.len() && r >= acc + health_weight(recs[cands[i as int].index as int]) {
        lemma_weighted_bound(recs, cands, r, i + 1, acc + health_weight(recs[cands[i as int].index as int]));
    }
}

pub(crate) proof fn lemma_weight_total_positive(recs: Seq<ProxyRecord>, cands: Seq<ProxyKey>, n: nat)
    requires
        n >= 1,
    ensures
        weight_total(recs, cands, n) >= n,
    decreases n,
{
    if n > 1 {
        lemma_weight_total_positive(recs, cands, (n - 1) as nat);
    }
}

/// The pick is one of the candidates.
pub proof fn lemma_pick_is_candidate(
    recs: Seq<ProxyRecord>,
    cands: Seq<ProxyKey>,
    strategy: RotationStrategy,
    cursor: Option<usize>,
    bound: Seq<ProxyKey>,
    percent: u8,
    draw: u64,
)
    ensures
        pick(recs, cands, strategy, cursor, bound, percent, draw) is Some <==> cands.len() > 0,
        pick(recs, cands, strategy, cursor, bound, percent, draw) matches Some(k) ==> cands.contains(k),
{
    if cands.len() > 0 {
        let d = diverse(recs, cands, bound, percent);
        let fd = cands.filter(share_ok(recs, bound, percent));
        cands.filter_lemma(share_ok(recs, bound, percent));
        assert(forall|i: int| 0 <= i < fd.len() ==> cands.contains(fd[i])) by {
            assert forall|i: int| 0 <= i < fd.len() implies cands.contains(fd[i]) by {
                Seq::lemma_filter_contains_rev(cands, share_ok(recs, bound, percent), fd[i]);
            }
        }
        assert(forall|i: int| 0 <= i < d.len() ==> cands.contains(d[i]));
        match cursor {
            Some(c) => lemma_first_after_bound(cands, c, 0),
            None => {},
        }
        lemma_lru_bound(recs, cands, cands.len());
        lemma_weight_total_positive(recs, d, d.len());
        lemma_weighted_bound(recs, d, draw as nat % weight_total(recs, d, d.len()), 0, 0);
        let k = pick(recs, cands, strategy, cursor, bound, percent, draw).unwrap();
        assert(cands.contains(k));
    }
}

/// Position of the round-robin pick (see `round_robin_index`).
pub fn round_robin_position(cands: &Vec<ProxyKey>, cursor: Option<usize>) -> (r: usize)
    ensures
        r == round_robin_index(cands@, cursor),
{
    match cursor {
        None => 0,
        Some(c) => {
            let mut i: usize = 0;
            while i < cands.len()
                invariant
                    i <= cands@.len(),
                    cursor == Some(c),
                    first_after(cands@, c, 0) == first_after(cands@, c, i as nat),
                decreases cands@.len() - i,
            {
                if cands[i].index > c {
                    proof {
                        assert(first_after(cands@, c, i as nat) == i);
                    }
                    return i;
                }
                i = i + 1;
            }
            0
        },
    }
}

/// Position of the least recently handed out candidate (see `lru_index`).
pub fn lru_position(reg: &ProxyRegistry, cands: &Vec<ProxyKey>) -> (r: usize)
    requires
        cands@.len() > 0,
        forall|i: int| 0 <= i < cands@.len() ==> (#[trigger] cands@[i]).index < reg@.len(),
    ensures
        r == lru_index(reg@, cands@, cands@.len()),
{
    let mut best: usize = 0;
    let mut i: usize = 1;
    while i < cands.len()
        invariant
            1 <= i <= cands@.len(),
            best == lru_index(reg@, cands@, i as nat),
            best < i,
            forall|j: int| 0 <= j < cands@.len() ==> (#[trigger] cands@[j]).index < reg@.len(),
        decreases cands@.len() - i,
    {
        proof {
            lemma_lru_bound(reg@, cands@, i as nat);
        }
        let a = reg.get(cands[i]).unwrap().last_selected;
        let b = reg.get(cands[best]).unwrap().last_selected;
        let earlier = match (a, b) {
            (None, Some(_)) => true,
            (Some(x), Some(y)) => x < y,
            _ => false,
        };
        if earlier {
            best = i;
        }
        i = i + 1;
    }
    best
}

/// Selection weight of a record (see `health_weight`).
pub fn weight_of(rec: &ProxyRecord) -> (r: u64)
    ensures
        r == health_weight(*rec),
        1 <= r <= 1001,
{
    let s = rec.metrics.success_count as u128;
    let f = rec.metrics.failure_count as u128;
    let ratio: u128 = if s + f == 0 {
        500
    } else {
        proof {
            assert(s * 1000 <= (s + f) * 1000) by (nonlinear_arith)
                requires
                    f >= 0,
            ;
            assert(s * 1000 / (s + f) <= 1000) by (nonlinear_arith)
                requires
                    s * 1000 <= (s + f) * 1000,
                    s + f > 0,
            ;
        }
        s * 1000 / (s + f)
    };
    let speed: u128 = 1_000_000 / (rec.metrics.ewma_latency_ms as u128 + 1000);
    proof {
        assert(1_000_000int / (rec.metrics.ewma_latency_ms as int + 1000) <= 1000) by (nonlinear_arith)
            requires
                rec.metrics.ewma_latency_ms >= 0,
        ;
        assert(ratio * speed <= 1_000_000) by (nonlinear_arith)
            requires
                ratio <= 1000,
                speed <= 1000,
        ;
    }
    (1 + ratio * speed / 1000) as u64
}

/// Position of the weighted pick for draw `draw` (see `weighted_index`).
pub fn weighted_position(reg: &ProxyRegistry, cands: &Vec<ProxyKey>, draw: u64) -> (r: usize)
    requires
        cands@.len() > 0,
        forall|i: int| 0 <= i < cands@.len() ==> (#[trigger] cands@[i]).index < reg@.len(),
    ensures
        r == weighted_index(
            reg@,
            cands@,
            draw as nat % weight_total(reg@, cands@, cands@.len()),
            0,
            0,
        ),
{
    let mut total: u128 = 0;
    let mut i: usize = 0;
    while i < cands.len()
        invariant
            i <= cands@.len(),
            total == weight_total(reg@, cands@, i as nat),
            total <= 1001 * i,
            forall|j: int| 0 <= j < cands@.len() ==> (#[trigger] cands@[j]).index < reg@.len(),
        decreases cands@.len() - i,
    {
        let w = weight_of(reg.get(cands[i]).unwrap());
        total = total + w as u128;
        i = i + 1;
    }
    proof {
        lemma_weight_total_positive(reg@, cands@, cands@.len());
    }
    let r: u128 = draw as u128 % total;
    let ghost rr = draw as nat % weight_total(reg@, cands@, cands@.len());
    let mut acc: u128 = 0;
    let mut j: usize = 0;
    while j < cands.len()
        invariant
            j <= cands@.len(),
            r == rr,
            rr == draw as nat % weight_total(reg@, cands@, cands@.len()),
            rr < total,
            total == weight_total(reg@, cands@, cands@.len()),
            acc == weight_total(reg@, cands@, j as nat),
            acc <= rr,
            total <= 1001 * cands@.len(),
            weighted_index(reg@, cands@, rr, 0, 0) == weighted_index(reg@, cands@, rr, j as nat, acc as nat),
            forall|m: int| 0 <= m < cands@.len() ==> (#[trigger] cands@[m]).index < reg@.len(),
        decreases cands@.len() - j,
    {
        let w = weight_of(reg.get(cands[j]).unwrap());
        if r < acc + w as u128 {
            proof {
                assert(weighted_index(reg@, cands@, rr, j as nat, acc as nat) == j);
            }
            return j;
        }
        acc = acc + w as u128;
        j = j + 1;
    }
    proof {
        assert(acc == total);
    }
    0
}

/// Chooses proxies for rotation requests; keeps the round-robin cursor.
pub struct SmartSelector {
    /// Slot of the last key that round-robin handed out.
    pub cursor: Option<usize>,
}

impl SmartSelector {
    pub fn new() -> (r: Self)
        ensures
            r.cursor.is_none(),
    {
        SmartSelector { cursor: None }
    }

    /// Picks a proxy for `cfg` among the eligible, non-excluded records, balancing
    /// countries over the `bound` sessions; `draw` drives the random strategies.
    /// Returns `None` exactly when no record is eligible.
    pub fn select(
        &mut self,
        reg: &ProxyRegistry,
        cfg: &RotationStrategyConfig,
        exclude: &Vec<ProxyKey>,
        bound: &Vec<ProxyKey>,
        draw: u64,
        now: u64,
        freshness: u64,
    ) -> (r: Option<ProxyKey>)
        ensures
            r == select_spec(reg@, *cfg, old(self).cursor, exclude@, bound@, draw, now, freshness),
            final(self).cursor == cursor_after(effective_strategy(*cfg), old(self).cursor, r),
            r.is_none() <==> candidates(reg@, exclude@, strategy_country(*cfg), now, freshness).len() == 0,
    {
        let country: Option<&String> = if cfg.strategy == RotationStrategy::GeoTargeted {
            match &cfg.target_country {
                Some(c) => Some(c),
                None => None,
            }
        } else {
            None
        };
        let cands = list_candidates(reg, exclude, country, now, freshness);
        let _n = reg.len();
        proof {
            assert(opt_view(country) == strategy_country(*cfg));
            lemma_pick_is_candidate(reg@, cands@, effective_strategy(*cfg), self.cursor, bound@, cfg.max_country_percent, draw);
            lemma_candidates_in_range(reg@, exclude@, opt_view(country), now, freshness);
        }
        if cands.len() == 0 {
            return None;
        }
        let strategy = if cfg.strategy == RotationStrategy::GeoTargeted {
            if cfg.secondary == RotationStrategy::GeoTargeted {
                RotationStrategy::RoundRobin
            } else {
                cfg.secondary
            }
        } else {
            cfg.strategy
        };
        let k = match strategy {
            RotationStrategy::RoundRobin | RotationStrategy::GeoTargeted => {
                let p = round_robin_position(&cands, self.cursor);
                proof {
                    match self.cursor {
                        Some(c) => lemma_first_after_bound(cands@, c, 0),
                        None => {},
                    }
                }
                let k = cands[p];
                self.cursor = Some(k.index);
                k
            },
            RotationStrategy::Random => {
                let d = diverse_candidates(reg, &cands, bound, cfg.max_country_percent);
                proof {
                    Self::lemma_diverse_nonempty(reg@, cands@, bound@, cfg.max_country_percent);
                }
                d[(draw % (d.len() as u64)) as usize]
            },
            RotationStrategy::LeastRecentlyUsed => {
                let p = lru_position(reg, &cands);
                proof {
                    lemma_lru_bound(reg@, cands@, cands@.len());
                }
                cands[p]
            },
            RotationStrategy::HealthWeighted => {
                let d = diverse_candidates(reg, &cands, bound, cfg.max_country_percent);
                proof {
                    Self::lemma_diverse_nonempty(reg@, cands@, bound@, cfg.max_country_percent);
                }
                let p = weighted_position(reg, &d, draw);
                proof {
                    lemma_weight_total_positive(reg@, d@, d@.len());
                    lemma_weighted_bound(reg@, d@, draw as nat % weight_total(reg@, d@, d@.len()), 0, 0);
                }
                d[p]
            },
        };
        Some(k)
    }

    proof fn lemma_diverse_nonempty(recs: Seq<ProxyRecord>, cands: Seq<ProxyKey>, bound: Seq<ProxyKey>, percent: u8)
        requires
            cands.len() > 0,
            forall|i: int| 0 <= i < cands.len() ==> (#[trigger] cands[i]).index < recs.len(),
        ensures
            diverse(recs, cands, bound, percent).len() > 0,
            forall|i: int| 0 <= i < diverse(recs, cands, bound, percent).len()
                ==> (#[trigger] diverse(recs, cands, bound, percent)[i]).index < recs.len(),
    {
        let d = diverse(recs, cands, bound, percent);
        let f = cands.filter(share_ok(recs, bound, percent));
        cands.filter_lemma(share_ok(recs, bound, percent));
        if f.len() > 0 {
            assert forall|i: int| 0 <= i < d.len() implies (#[trigger] d[i]).index < recs.len() by {
                Seq::lemma_filter_contains_rev(cands, share_ok(recs, bound, percent), d[i]);
            }
        }
    }
}

pub(crate) proof fn lemma_candidates_in_range(
    recs: Seq<ProxyRecord>,
    exclude: Seq<ProxyKey>,
    country: Option<Seq<char>>,
    now: u64,
    freshness: u64,
)
    requires
        recs.len() <= usize::MAX + 1,
    ensures
        forall|i: int| 0 <= i < candidates(recs, exclude, country, now, freshness).len()
            ==> (#[trigger] candidates(recs, exclude, country, now, freshness)[i]).index < recs.len(),
{
    let e = eligible_keys(recs, country, now, freshness);
    let c = candidates(recs, exclude, country, now, freshness);
    lemma_eligible_prefix(recs, recs.len(), country, now, freshness);
    assert forall|i: int| 0 <= i < c.len() implies (#[trigger] c[i]).index < recs.len() by {
        e.filter_lemma(not_in(exclude));
        Seq::lemma_filter_contains_rev(e, not_in(exclude), c[i]);
    }
}

/// A selected key names a record of the registry.
pub proof fn lemma_pick_is_candidate_in_range(
    recs: Seq<ProxyRecord>,
    cfg: RotationStrategyConfig,
    cursor: Option<usize>,
    exclude: Seq<ProxyKey>,
    bound: Seq<ProxyKey>,
    draw: u64,
    now: u64,
    freshness: u64,
)
    requires
        recs.len() <= usize::MAX + 1,
    ensures
        select_spec(recs, cfg, cursor, exclude, bound, draw, now, freshness) matches Some(k)
            ==> k.index < recs.len(),
{
    let cands = candidates(recs, exclude, strategy_country(cfg), now, freshness);
    lemma_candidates_in_range(recs, exclude, strategy_country(cfg), now, freshness);
    lemma_pick_is_candidate(recs, cands, effective_strategy(cfg), cursor, bound, cfg.max_country_percent, draw);
}

} // verus!
