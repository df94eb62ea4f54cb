//! What selection guarantees, proved over the selector's specification: quarantined
//! proxies are never chosen, round-robin cycles through every eligible proxy, and the
//! geo-diversity balancer keeps two countries within half of the bound sessions, both for
//! one selection and over a whole run of selections.

use vstd::prelude::*;
use crate::proxy::{HealthState, ProxyKey, ProxyRecord};
use crate::registry::{eligible, eligible_keys, lemma_eligible_prefix};
use crate::selector::{
    bound_count, candidates, claims, country_of, cursor_after, diverse, effective_strategy, first_after,
    lemma_candidates_in_range, lemma_first_after_bound, lemma_pick_is_candidate,
    lemma_weight_total_positive, lemma_weighted_bound, not_in, round_robin_index, select_spec,
    share_ok, strategy_country, weight_total, RotationStrategy, RotationStrategyConfig,
};

verus! {

/// A quarantined proxy is never selected, whatever the strategy, cursor, exclusions,
/// bindings and draw.
pub proof fn lemma_select_skips_quarantined(
    recs: Seq<ProxyRecord>,
    cfg: RotationStrategyConfig,
    cursor: Option<usize>,
    exclude: Seq<ProxyKey>,
    bound: Seq<ProxyKey>,
    draw: u64,
    now: u64,
    freshness: u64,
    k: ProxyKey,
)
    requires
        recs.len() <= usize::MAX + 1,
        0 <= k.index < recs.len(),
        recs[k.index as int].state == HealthState::Quarantined,
    ensures
        select_spec(recs, cfg, cursor, exclude, bound, draw, now, freshness) != Some(k),
{
    let country = strategy_country(cfg);
    let e = eligible_keys(recs, country, now, freshness);
    let cands = candidates(recs, exclude, country, now, freshness);
    lemma_eligible_prefix(recs, recs.len(), country, now, freshness);
    lemma_pick_is_candidate(recs, cands, effective_strategy(cfg), cursor, bound, cfg.max_country_percent, draw);
    if cands.contains(k) {
        Seq::lemma_filter_contains_rev(e, not_in(exclude), k);
        let j = choose|j: int| 0 <= j < e.len() && e[j] == k;
        assert(eligible(recs[e[j].index as int], country, now, freshness));
    }
}

/// Keys in strictly increasing slot order.
pub open spec fn slot_sorted(s: Seq<ProxyKey>) -> bool {
    forall|i: int, j: int| 0 <= i < j < s.len() ==> s[i].index < s[j].index
}

proof fn lemma_filter_sorted(s: Seq<ProxyKey>, p: spec_fn(ProxyKey) -> bool)
    requires
        slot_sorted(s),
    ensures
        slot_sorted(s.filter(p)),
    decreases s.len(),
{
    reveal(Seq::filter);
    if s.len() > 0 {
        let sub = s.drop_last().filter(p);
        lemma_filter_sorted(s.drop_last(), p);
        if p(s.last()) {
            assert forall|i: int| 0 <= i < sub.len() implies sub[i].index < s.last().index by {
                s.drop_last().filter_lemma(p);
                Seq::lemma_filter_contains_rev(s.drop_last(), p, sub[i]);
            }
        }
    }
}

/// The candidates are in strictly increasing slot order.
pub proof fn lemma_candidates_sorted(
    recs: Seq<ProxyRecord>,
    exclude: Seq<ProxyKey>,
    country: Option<Seq<char>>,
    now: u64,
    freshness: u64,
)
    requires
        recs.len() <= usize::MAX + 1,
    ensures
        slot_sorted(candidates(recs, exclude, country, now, freshness)),
{
    lemma_eligible_prefix(recs, recs.len(), country, now, freshness);
    lemma_filter_sorted(eligible_keys(recs, country, now, freshness), not_in(exclude));
}

/// The round-robin cursor after `t` consecutive picks from `cands`, starting at `cursor`.
pub open spec fn rr_cursor_after(cands: Seq<ProxyKey>, cursor: Option<usize>, t: nat) -> Option<usize>
    decreases t,
{
    if t == 0 {
        cursor
    } else {
        Some(cands[round_robin_index(cands, rr_cursor_after(cands, cursor, (t - 1) as nat)) as int].index)
    }
}

/// The key handed out by the round-robin pick number `t` (counting from 0).
pub open spec fn rr_pick_at(cands: Seq<ProxyKey>, cursor: Option<usize>, t: nat) -> ProxyKey {
    cands[round_robin_index(cands, rr_cursor_after(cands, cursor, t)) as int]
}

proof fn lemma_first_after_skip(cands: Seq<ProxyKey>, x: usize, i: nat, j: nat)
    requires
        i <= j <= cands.len(),
        forall|m: int| i <= m < j ==> cands[m].index <= x,
    ensures
        first_after(cands, x, i) == first_after(cands, x, j),
    decreases j - i,
{
    if i < j {
        lemma_first_after_skip(cands, x, i + 1, j);
    }
}

/// After the key at position `j`, round-robin moves to the next position, cyclically.
proof fn lemma_round_robin_next(cands: Seq<ProxyKey>, j: int)
    requires
        slot_sorted(cands),
        0 <= j < cands.len(),
    ensures
        round_robin_index(cands, Some(cands[j].index)) == (j + 1) % (cands.len() as int),
{
    let n = cands.len() as int;
    lemma_first_after_skip(cands, cands[j].index, 0, (j + 1) as nat);
    if j + 1 < n {
        assert(cands[j + 1].index > cands[j].index);
        assert(first_after(cands, cands[j].index, (j + 1) as nat) == j + 1);
        vstd::arithmetic::div_mod::lemma_small_mod((j + 1) as nat, n as nat);
    } else {
        assert(first_after(cands, cands[j].index, (j + 1) as nat) == 0);
        vstd::arithmetic::div_mod::lemma_mod_self_0(n);
    }
}

proof fn lemma_rr_positions(cands: Seq<ProxyKey>, cursor: Option<usize>, t: nat)
    requires
        slot_sorted(cands),
        cands.len() > 0,
    ensures
        rr_pick_at(cands, cursor, t) == cands[((round_robin_index(cands, cursor) + t) % cands.len()) as int],
    decreases t,
{
    let n = cands.len() as int;
    let j0 = round_robin_index(cands, cursor) as int;
    match cursor {
        Some(c) => lemma_first_after_bound(cands, c, 0),
        None => {},
    }
    if t == 0 {
        assert(j0 % n == j0) by {
            vstd::arithmetic::div_mod::lemma_small_mod(j0 as nat, n as nat);
        }
    } else {
        lemma_rr_positions(cands, cursor, (t - 1) as nat);
        let prev = (j0 + t - 1) % n;
        assert(0 <= prev < n) by {
            vstd::arithmetic::div_mod::lemma_mod_bound(j0 + t - 1, n);
        }
        lemma_round_robin_next(cands, prev);
        assert((prev + 1) % n == (j0 + t) % n) by {
            vstd::arithmetic::div_mod::lemma_add_mod_noop(j0 + t - 1, 1, n);
            vstd::arithmetic::div_mod::lemma_mod_bound(j0 + t - 1, n);
            if n > 1 {
                vstd::arithmetic::div_mod::lemma_small_mod(1, n as nat);
            }
            vstd::arithmetic::div_mod::lemma_add_mod_noop(prev, 1, n);
            vstd::arithmetic::div_mod::lemma_mod_twice(j0 + t - 1, n);
        }
    }
}

/// Round-robin over `n` candidates with nothing else changing: each selection returns
/// the pick that the cursor left by the previous one calls for, and selection number
/// `n + 1` returns the same proxy as the first.
pub proof fn lemma_round_robin_full_cycle(
    recs: Seq<ProxyRecord>,
    cfg: RotationStrategyConfig,
    cursor: Option<usize>,
    exclude: Seq<ProxyKey>,
    bound: Seq<ProxyKey>,
    draw: u64,
    now: u64,
    freshness: u64,
    t: nat,
)
    requires
        recs.len() <= usize::MAX + 1,
        cfg.strategy == RotationStrategy::RoundRobin,
        candidates(recs, exclude, strategy_country(cfg), now, freshness).len() > 0,
    ensures
        ({
            let cands = candidates(recs, exclude, strategy_country(cfg), now, freshness);
            let cur = rr_cursor_after(cands, cursor, t);
            &&& select_spec(recs, cfg, cur, exclude, bound, draw, now, freshness) == Some(rr_pick_at(cands, cursor, t))
            &&& cursor_after(effective_strategy(cfg), cur, Some(rr_pick_at(cands, cursor, t))) == rr_cursor_after(cands, cursor, t + 1)
            &&& rr_pick_at(cands, cursor, cands.len()) == rr_pick_at(cands, cursor, 0)
        }),
{
    let cands = candidates(recs, exclude, strategy_country(cfg), now, freshness);
    let n = cands.len() as int;
    lemma_candidates_sorted(recs, exclude, strategy_country(cfg), now, freshness);
    lemma_rr_positions(cands, cursor, cands.len());
    lemma_rr_positions(cands, cursor, 0);
    let j0 = round_robin_index(cands, cursor) as int;
    match cursor {
        Some(c) => lemma_first_after_bound(cands, c, 0),
        None => {},
    }
    assert((j0 + n) % n == j0 % n) by {
        vstd::arithmetic::div_mod::lemma_mod_add_multiples_vanish(j0, n);
    }
}

proof fn lemma_disjoint_filters(s: Seq<ProxyKey>, p: spec_fn(ProxyKey) -> bool, q: spec_fn(ProxyKey) -> bool)
    requires
        forall|k: ProxyKey| !(#[trigger] p(k) && q(k)),
    ensures
        s.filter(p).len() + s.filter(q).len() <= s.len(),
    decreases s.len(),
{
    reveal(Seq::filter);
    if s.len() > 0 {
        lemma_disjoint_filters(s.drop_last(), p, q);
    }
}

proof fn lemma_filter_push(s: Seq<ProxyKey>, k: ProxyKey, p: spec_fn(ProxyKey) -> bool)
    ensures
        s.push(k).filter(p).len() == s.filter(p).len() + if p(k) { 1int } else { 0 },
{
    reveal(Seq::filter);
    assert(s.push(k).drop_last() =~= s);
}

/// With every bound session on a proxy of country `c1` or `c2`, neither country holding
/// more than half of them (rounded up), and eligible supply from both countries and no
/// other, a random or health-weighted pick under a 50% share keeps both countries at
/// most half (rounded up) of the sessions once the pick is bound.
pub proof fn lemma_geo_diversity_two_countries(
    recs: Seq<ProxyRecord>,
    cfg: RotationStrategyConfig,
    cursor: Option<usize>,
    exclude: Seq<ProxyKey>,
    bound: Seq<ProxyKey>,
    draw: u64,
    now: u64,
    freshness: u64,
    c1: Seq<char>,
    c2: Seq<char>,
)
    requires
        recs.len() <= usize::MAX + 1,
        cfg.strategy == RotationStrategy::Random || cfg.strategy == RotationStrategy::HealthWeighted,
        cfg.max_country_percent == 50,
        c1 != c2,
        forall|i: int| 0 <= i < bound.len() ==> (#[trigger] bound[i]).index < recs.len()
            && (country_of(recs, bound[i]) == c1 || country_of(recs, bound[i]) == c2),
        2 * bound_count(recs, bound, c1) <= bound.len() + 1,
        2 * bound_count(recs, bound, c2) <= bound.len() + 1,
        exists|i: int| 0 <= i < candidates(recs, exclude, None, now, freshness).len()
            && country_of(recs, #[trigger] candidates(recs, exclude, None, now, freshness)[i]) == c1,
        exists|i: int| 0 <= i < candidates(recs, exclude, None, now, freshness).len()
            && country_of(recs, #[trigger] candidates(recs, exclude, None, now, freshness)[i]) == c2,
        forall|i: int| 0 <= i < candidates(recs, exclude, None, now, freshness).len() ==> (country_of(
            recs,
            #[trigger] candidates(recs, exclude, None, now, freshness)[i],
        ) == c1 || country_of(recs, candidates(recs, exclude, None, now, freshness)[i]) == c2),
    ensures
        select_spec(recs, cfg, cursor, exclude, bound, draw, now, freshness) is Some,
        ({
            let k = select_spec(recs, cfg, cursor, exclude, bound, draw, now, freshness).unwrap();
            &&& country_of(recs, k) == c1 || country_of(recs, k) == c2
            &&& 2 * bound_count(recs, bound.push(k), c1) <= bound.len() + 2
            &&& 2 * bound_count(recs, bound.push(k), c2) <= bound.len() + 2
        }),
{
    let cands = candidates(recs, exclude, None, now, freshness);
    assert(strategy_country(cfg) == None::<Seq<char>>);
    let kk = bound.len() as int;
    let a = bound_count(recs, bound, c1) as int;
    let b = bound_count(recs, bound, c2) as int;
    let sp = share_ok(recs, bound, 50);
    let f = cands.filter(sp);
    cands.filter_lemma(sp);
    lemma_disjoint_filters(bound, claims(recs, c1), claims(recs, c2));
    let i1 = choose|i: int| 0 <= i < cands.len() && country_of(recs, #[trigger] cands[i]) == c1;
    let i2 = choose|i: int| 0 <= i < cands.len() && country_of(recs, #[trigger] cands[i]) == c2;
    lemma_candidates_in_range(recs, exclude, None, now, freshness);
    // one of the two countries is within its share
    if !sp(cands[i1]) && !sp(cands[i2]) {
        assert((a + 1) * 100 > 50 * (kk + 1) + 99);
        assert((b + 1) * 100 > 50 * (kk + 1) + 99);
        assert(false);
    }
    if sp(cands[i1]) {
        assert(f.contains(cands[i1]));
    } else {
        assert(f.contains(cands[i2]));
    }
    assert(f.len() > 0);
    let d = diverse(recs, cands, bound, 50);
    assert(d == f);
    lemma_pick_is_candidate(recs, cands, effective_strategy(cfg), cursor, bound, 50, draw);
    lemma_weight_total_positive(recs, d, d.len());
    lemma_weighted_bound(recs, d, draw as nat % weight_total(recs, d, d.len()), 0, 0);
    let k = select_spec(recs, cfg, cursor, exclude, bound, draw, now, freshness).unwrap();
    assert(f.contains(k));
    let ik = choose|i: int| 0 <= i < f.len() && f[i] == k;
    assert(sp(f[ik]));
    Seq::lemma_filter_contains_rev(cands, sp, k);
    let ck = bound_count(recs, bound, country_of(recs, k)) as int;
    assert((ck + 1) * 100 <= 50 * (kk + 1) + 99);
    assert(2 * ck <= kk);
    lemma_filter_push(bound, k, claims(recs, c1));
    lemma_filter_push(bound, k, claims(recs, c2));
}

/// Round-robin cursor and bound keys after `t` consecutive selections with nothing else
/// changing, each selected proxy being bound to a new session; `draws(i)` is the random
/// draw of selection `i`.
pub open spec fn run_state(
    recs: Seq<ProxyRecord>,
    cfg: RotationStrategyConfig,
    cursor: Option<usize>,
    exclude: Seq<ProxyKey>,
    bound: Seq<ProxyKey>,
    draws: spec_fn(nat) -> u64,
    now: u64,
    freshness: u64,
    t: nat,
) -> (Option<usize>, Seq<ProxyKey>)
    decreases t,
{
    if t == 0 {
        (cursor, bound)
    } else {
        let (c, b) = run_state(recs, cfg, cursor, exclude, bound, draws, now, freshness, (t - 1) as nat);
        let k = select_spec(recs, cfg, c, exclude, b, draws((t - 1) as nat), now, freshness);
        (
            cursor_after(effective_strategy(cfg), c, k),
            match k {
                Some(key) => b.push(key),
                None => b,
            },
        )
    }
}

/// Selection number `t` (counting from 0) of such a run.
pub open spec fn run_selection(
    recs: Seq<ProxyRecord>,
    cfg: RotationStrategyConfig,
    cursor: Option<usize>,
    exclude: Seq<ProxyKey>,
    bound: Seq<ProxyKey>,
    draws: spec_fn(nat) -> u64,
    now: u64,
    freshness: u64,
    t: nat,
) -> Option<ProxyKey> {
    let (c, b) = run_state(recs, cfg, cursor, exclude, bound, draws, now, freshness, t);
    select_spec(recs, cfg, c, exclude, b, draws(t), now, freshness)
}

proof fn lemma_run_round_robin(
    recs: Seq<ProxyRecord>,
    cfg: RotationStrategyConfig,
    cursor: Option<usize>,
    exclude: Seq<ProxyKey>,
    bound: Seq<ProxyKey>,
    draws: spec_fn(nat) -> u64,
    now: u64,
    freshness: u64,
    t: nat,
)
    requires
        recs.len() <= usize::MAX + 1,
        cfg.strategy == RotationStrategy::RoundRobin,
        candidates(recs, exclude, strategy_country(cfg), now, freshness).len() > 0,
    ensures
        run_state(recs, cfg, cursor, exclude, bound, draws, now, freshness, t).0 == rr_cursor_after(
            candidates(recs, exclude, strategy_country(cfg), now, freshness),
            cursor,
            t,
        ),
        run_selection(recs, cfg, cursor, exclude, bound, draws, now, freshness, t) == Some(
            rr_pick_at(candidates(recs, exclude, strategy_country(cfg), now, freshness), cursor, t),
        ),
    decreases t,
{
    if t > 0 {
        lemma_run_round_robin(recs, cfg, cursor, exclude, bound, draws, now, freshness, (t - 1) as nat);
        let b = run_state(recs, cfg, cursor, exclude, bound, draws, now, freshness, (t - 1) as nat).1;
        lemma_round_robin_full_cycle(recs, cfg, cursor, exclude, b, draws((t - 1) as nat), now, freshness, (t - 1) as nat);
    }
    let b = run_state(recs, cfg, cursor, exclude, bound, draws, now, freshness, t).1;
    lemma_round_robin_full_cycle(recs, cfg, cursor, exclude, b, draws(t), now, freshness, t);
}

/// Round-robin with `n` eligible proxies and nothing else changing: in any run of
/// selections, whatever the draws and the sessions bound meanwhile, selection number
/// `n + 1` returns the same proxy as the first.
pub proof fn lemma_round_robin_returns_to_first(
    recs: Seq<ProxyRecord>,
    cfg: RotationStrategyConfig,
    cursor: Option<usize>,
    exclude: Seq<ProxyKey>,
    bound: Seq<ProxyKey>,
    draws: spec_fn(nat) -> u64,
    now: u64,
    freshness: u64,
)
    requires
        recs.len() <= usize::MAX + 1,
        cfg.strategy == RotationStrategy::RoundRobin,
        candidates(recs, exclude, strategy_country(cfg), now, freshness).len() > 0,
    ensures
        ({
            let n = candidates(recs, exclude, strategy_country(cfg), now, freshness).len();
            run_selection(recs, cfg, cursor, exclude, bound, draws, now, freshness, n)
                == run_selection(recs, cfg, cursor, exclude, bound, draws, now, freshness, 0)
        }),
{
    let n = candidates(recs, exclude, strategy_country(cfg), now, freshness).len();
    lemma_run_round_robin(recs, cfg, cursor, exclude, bound, draws, now, freshness, n);
    lemma_run_round_robin(recs, cfg, cursor, exclude, bound, draws, now, freshness, 0);
    lemma_round_robin_full_cycle(recs, cfg, cursor, exclude, bound, draws(0), now, freshness, 0);
}

/// The balancer over a whole run: starting with no bound sessions, with eligible supply
/// from exactly two countries, a 50% share and a random or health-weighted strategy,
/// after any number `k` of bindings each country holds at most `ceil(k / 2)` of them.
pub proof fn lemma_geo_diversity_over_run(
    recs: Seq<ProxyRecord>,
    cfg: RotationStrategyConfig,
    cursor: Option<usize>,
    exclude: Seq<ProxyKey>,
    draws: spec_fn(nat) -> u64,
    now: u64,
    freshness: u64,
    c1: Seq<char>,
    c2: Seq<char>,
    k: nat,
)
    requires
        recs.len() <= usize::MAX + 1,
        cfg.strategy == RotationStrategy::Random || cfg.strategy == RotationStrategy::HealthWeighted,
        cfg.max_country_percent == 50,
        c1 != c2,
        exists|i: int| 0 <= i < candidates(recs, exclude, None, now, freshness).len()
            && country_of(recs, #[trigger] candidates(recs, exclude, None, now, freshness)[i]) == c1,
        exists|i: int| 0 <= i < candidates(recs, exclude, None, now, freshness).len()
            && country_of(recs, #[trigger] candidates(recs, exclude, None, now, freshness)[i]) == c2,
        forall|i: int| 0 <= i < candidates(recs, exclude, None, now, freshness).len() ==> (country_of(
            recs,
            #[trigger] candidates(recs, exclude, None, now, freshness)[i],
        ) == c1 || country_of(recs, candidates(recs, exclude, None, now, freshness)[i]) == c2),
    ensures
        ({
            let b = run_state(recs, cfg, cursor, exclude, Seq::empty(), draws, now, freshness, k).1;
            &&& b.len() == k
            &&& 2 * bound_count(recs, b, c1) <= k + 1
            &&& 2 * bound_count(recs, b, c2) <= k + 1
        }),
{
    lemma_run_bound_keys(recs, cfg, cursor, exclude, draws, now, freshness, c1, c2, k);
}

proof fn lemma_run_bound_keys(
    recs: Seq<ProxyRecord>,
    cfg: RotationStrategyConfig,
    cursor: Option<usize>,
    exclude: Seq<ProxyKey>,
    draws: spec_fn(nat) -> u64,
    now: u64,
    freshness: u64,
    c1: Seq<char>,
    c2: Seq<char>,
    k: nat,
)
    requires
        recs.len() <= usize::MAX + 1,
        cfg.strategy == RotationStrategy::Random || cfg.strategy == RotationStrategy::HealthWeighted,
        cfg.max_country_percent == 50,
        c1 != c2,
        exists|i: int| 0 <= i < candidates(recs, exclude, None, now, freshness).len()
            && country_of(recs, #[trigger] candidates(recs, exclude, None, now, freshness)[i]) == c1,
        exists|i: int| 0 <= i < candidates(recs, exclude, None, now, freshness).len()
            && country_of(recs, #[trigger] candidates(recs, exclude, None, now, freshness)[i]) == c2,
        forall|i: int| 0 <= i < candidates(recs, exclude, None, now, freshness).len() ==> (country_of(
            recs,
            #[trigger] candidates(recs, exclude, None, now, freshness)[i],
        ) == c1 || country_of(recs, candidates(recs, exclude, None, now, freshness)[i]) == c2),
    ensures
        ({
            let b = run_state(recs, cfg, cursor, exclude, Seq::empty(), draws, now, freshness, k).1;
            &&& b.len() == k
            &&& forall|i: int| 0 <= i < b.len() ==> (#[trigger] b[i]).index < recs.len()
                && (country_of(recs, b[i]) == c1 || country_of(recs, b[i]) == c2)
            &&& 2 * bound_count(recs, b, c1) <= k + 1
            &&& 2 * bound_count(recs, b, c2) <= k + 1
        }),
    decreases k,
{
    let empty = Seq::<ProxyKey>::empty();
    if k == 0 {
        reveal(Seq::filter);
        assert(empty.filter(claims(recs, c1)).len() == 0);
        assert(empty.filter(claims(recs, c2)).len() == 0);
    } else {
        lemma_run_bound_keys(recs, cfg, cursor, exclude, draws, now, freshness, c1, c2, (k - 1) as nat);
        let (c, b) = run_state(recs, cfg, cursor, exclude, empty, draws, now, freshness, (k - 1) as nat);
        let d = draws((k - 1) as nat);
        lemma_geo_diversity_two_countries(recs, cfg, c, exclude, b, d, now, freshness, c1, c2);
        crate::selector::lemma_pick_is_candidate_in_range(recs, cfg, c, exclude, b, d, now, freshness);
        let key = select_spec(recs, cfg, c, exclude, b, d, now, freshness).unwrap();
        let nb = run_state(recs, cfg, cursor, exclude, empty, draws, now, freshness, k).1;
        assert(nb == b.push(key));
        assert forall|i: int| 0 <= i < nb.len() implies (#[trigger] nb[i]).index < recs.len()
            && (country_of(recs, nb[i]) == c1 || country_of(recs, nb[i]) == c2) by {
            if i < b.len() {
                assert(nb[i] == b[i]);
            }
        }
    }
}

} // verus!
