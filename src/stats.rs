//! Pool statistics: records by health state, quarantines by reason, and the
//! distribution of claimed countries.

use vstd::prelude::*;
use crate::proxy::{HealthState, ProxyRecord, QuarantineReason};
use crate::registry::ProxyRegistry;

verus! {

/// Records in health state `s`.
pub open spec fn in_state(s: HealthState) -> spec_fn(ProxyRecord) -> bool {
    |r: ProxyRecord| r.state == s
}

/// Records quarantined for `reason`.
pub open spec fn quarantined_for(reason: QuarantineReason) -> spec_fn(ProxyRecord) -> bool {
    |r: ProxyRecord| r.state == HealthState::Quarantined && r.quarantine is Some
        && r.quarantine.unwrap().reason == reason
}

/// Records claiming country `c`.
pub open spec fn claiming(c: Seq<char>) -> spec_fn(ProxyRecord) -> bool {
    |r: ProxyRecord| r.claimed_country@ == c
}

/// Quarantine counts, in total and by reason.
#[derive(Debug, Clone, Copy, PartialEq, Eq, Structural)]
pub struct QuarantineStats {
    pub count: usize,
    pub geo_mismatch: usize,
    pub consecutive_failures: usize,
}

/// How many records claim one country.
#[derive(Debug)]
pub struct CountryCount {
    pub country: String,
    pub proxies: usize,
}

/// Pool size by health state, quarantine counts, and the per-country distribution.
#[derive(Debug)]
pub struct PoolStats {
    pub total: usize,
    pub untested: usize,
    pub validating: usize,
    pub active: usize,
    pub degraded: usize,
    pub quarantined: usize,
    pub dead: usize,
    pub quarantine: QuarantineStats,
    /// One entry per claimed country, in order of first appearance.
    pub by_country: Vec<CountryCount>,
}

proof fn lemma_count_step(s: Seq<ProxyRecord>, i: int, p: spec_fn(ProxyRecord) -> bool)
    requires
        0 <= i < s.len(),
    ensures
        s.take(i + 1).filter(p).len() == s.take(i).filter(p).len() + if p(s[i]) { 1int } else { 0 },
{
    reveal(Seq::filter);
    assert(s.take(i + 1).drop_last() =~= s.take(i));
}

/// Whether some entry of `entries` is for country `c`.
pub open spec fn listed(entries: Seq<CountryCount>, c: Seq<char>) -> bool {
    exists|e: int| 0 <= e < entries.len() && (#[trigger] entries[e]).country@ == c
}

/// Whether `stats` counts the records of `recs` exactly.
pub open spec fn counts_match(recs: Seq<ProxyRecord>, st: PoolStats) -> bool {
    &&& st.total == recs.len()
    &&& st.untested == recs.filter(in_state(HealthState::Untested)).len()
    &&& st.validating == recs.filter(in_state(HealthState::Validating)).len()
    &&& st.active == recs.filter(in_state(HealthState::Active)).len()
    &&& st.degraded == recs.filter(in_state(HealthState::Degraded)).len()
    &&& st.quarantined == recs.filter(in_state(HealthState::Quarantined)).len()
    &&& st.dead == recs.filter(in_state(HealthState::Dead)).len()
    &&& st.quarantine.count == recs.filter(in_state(HealthState::Quarantined)).len()
    &&& st.quarantine.geo_mismatch == recs.filter(quarantined_for(QuarantineReason::GeoMismatch)).len()
    &&& st.quarantine.consecutive_failures == recs.filter(
        quarantined_for(QuarantineReason::ConsecutiveFailures),
    ).len()
    &&& forall|i: int| 0 <= i < st.by_country@.len() ==> (#[trigger] st.by_country@[i]).proxies
        == recs.filter(claiming(st.by_country@[i].country@)).len()
    &&& forall|i: int, j: int| 0 <= i < j < st.by_country@.len() ==> (#[trigger] st.by_country@[i]).country@
        != (#[trigger] st.by_country@[j]).country@
    &&& forall|m: int| 0 <= m < recs.len() ==> listed(st.by_country@, (#[trigger] recs[m]).claimed_country@)
}

/// Position in `entries` of the entry for `c`, if any.
fn find_country(entries: &Vec<CountryCount>, c: &String) -> (r: Option<usize>)
    ensures
        r matches Some(j) ==> j < entries@.len() && entries@[j as int].country@ == c@,
        r is None ==> forall|i: int| 0 <= i < entries@.len() ==> (#[trigger] entries@[i]).country@ != c@,
{
    let mut i: usize = 0;
    while i < entries.len()
        invariant
            i <= entries@.len(),
            forall|j: int| 0 <= j < i ==> (#[trigger] entries@[j]).country@ != c@,
        decreases entries@.len() - i,
    {
        if entries[i].country == *c {
            return Some(i);
        }
        i = i + 1;
    }
    None
}

/// Counts the records of the registry.
pub fn pool_stats(reg: &ProxyRegistry) -> (st: PoolStats)
    ensures
        counts_match(reg@, st),
{
    let n = reg.len();
    let ghost recs = reg@;
    let mut untested: usize = 0;
    let mut validating: usize = 0;
    let mut active: usize = 0;
    let mut degraded: usize = 0;
    let mut quarantined: usize = 0;
    let mut dead: usize = 0;
    let mut geo: usize = 0;
    let mut failures: usize = 0;
    let mut by_country: Vec<CountryCount> = Vec::new();
    let mut i: usize = 0;
    while i < n
        invariant
            n == recs.len(),
            recs == reg@,
            i <= n,
            untested == recs.take(i as int).filter(in_state(HealthState::Untested)).len(),
            validating == recs.take(i as int).filter(in_state(HealthState::Validating)).len(),
            active == recs.take(i as int).filter(in_state(HealthState::Active)).len(),
            degraded == recs.take(i as int).filter(in_state(HealthState::Degraded)).len(),
            quarantined == recs.take(i as int).filter(in_state(HealthState::Quarantined)).len(),
            dead == recs.take(i as int).filter(in_state(HealthState::Dead)).len(),
            geo == recs.take(i as int).filter(quarantined_for(QuarantineReason::GeoMismatch)).len(),
            failures == recs.take(i as int).filter(quarantined_for(QuarantineReason::ConsecutiveFailures)).len(),
            untested + validating + active + degraded + quarantined + dead == i,
            geo <= i,
            failures <= i,
            forall|e: int| 0 <= e < by_country@.len() ==> (#[trigger] by_country@[e]).proxies
                == recs.take(i as int).filter(claiming(by_country@[e].country@)).len(),
            forall|e: int| 0 <= e < by_country@.len() ==> (#[trigger] by_country@[e]).proxies <= i,
            forall|a: int, b: int| 0 <= a < b < by_country@.len() ==> (#[trigger] by_country@[a]).country@
                != (#[trigger] by_country@[b]).country@,
            forall|m: int| 0 <= m < i ==> listed(by_country@, (#[trigger] recs[m]).claimed_country@),
        decreases n - i,
    {
        let rec = reg.get(crate::proxy::ProxyKey { index: i }).unwrap();
        proof {
            lemma_count_step(recs, i as int, in_state(HealthState::Untested));
            lemma_count_step(recs, i as int, in_state(HealthState::Validating));
            lemma_count_step(recs, i as int, in_state(HealthState::Active));
            lemma_count_step(recs, i as int, in_state(HealthState::Degraded));
            lemma_count_step(recs, i as int, in_state(HealthState::Quarantined));
            lemma_count_step(recs, i as int, in_state(HealthState::Dead));
            lemma_count_step(recs, i as int, quarantined_for(QuarantineReason::GeoMismatch));
            lemma_count_step(recs, i as int, quarantined_for(QuarantineReason::ConsecutiveFailures));
        }
        match rec.state {
            HealthState::Untested => untested = untested + 1,
            HealthState::Validating => validating = validating + 1,
            HealthState::Active => active = active + 1,
            HealthState::Degraded => degraded = degraded + 1,
            HealthState::Quarantined => {
                quarantined = quarantined + 1;
                match rec.quarantine {
                    Some(q) => match q.reason {
                        QuarantineReason::GeoMismatch => geo = geo + 1,
                        QuarantineReason::ConsecutiveFailures => failures = failures + 1,
                    },
                    None => {},
                }
            },
            HealthState::Dead => dead = dead + 1,
        }
        let ghost before = by_country@;
        match find_country(&by_country, &rec.claimed_country) {
            Some(j) => {
                let bumped = CountryCount { country: rec.claimed_country.clone(), proxies: by_country[j].proxies + 1 };
                by_country.set(j, bumped);
                proof {
                    assert forall|e: int| 0 <= e < by_country@.len() implies (#[trigger] by_country@[e]).proxies
                        == recs.take(i + 1).filter(claiming(by_country@[e].country@)).len() by {
                        lemma_count_step(recs, i as int, claiming(by_country@[e].country@));
                        if e != j {
                            assert(by_country@[e] == before[e]);
                        }
                    }
                    assert forall|m: int| 0 <= m < i + 1 implies listed(by_country@, (#[trigger] recs[m]).claimed_country@) by {
                        if m < i {
                            assert(listed(before, recs[m].claimed_country@));
                            let e = choose|e: int| 0 <= e < before.len() && (#[trigger] before[e]).country@ == recs[m].claimed_country@;
                            assert(by_country@[e].country@ == before[e].country@);
                        } else {
                            assert(by_country@[j as int].country@ == recs[m].claimed_country@);
                        }
                    }
                }
            },
            None => {
                proof {
                    let p = claiming(rec.claimed_country@);
                    assert forall|m: int| 0 <= m < recs.take(i as int).len() implies !p(#[trigger] recs.take(i as int)[m]) by {
                        assert(listed(before, recs[m].claimed_country@));
                    }
                    recs.take(i as int).lemma_all_neg_filter_empty(p);
                    lemma_count_step(recs, i as int, p);
                }
                by_country.push(CountryCount { country: rec.claimed_country.clone(), proxies: 1 });
                proof {
                    assert forall|e: int| 0 <= e < by_country@.len() implies (#[trigger] by_country@[e]).proxies
                        == recs.take(i + 1).filter(claiming(by_country@[e].country@)).len() by {
                        lemma_count_step(recs, i as int, claiming(by_country@[e].country@));
                        if e < before.len() {
                            assert(by_country@[e] == before[e]);
                        }
                    }
                    assert forall|m: int| 0 <= m < i + 1 implies listed(by_country@, (#[trigger] recs[m]).claimed_country@) by {
                        if m < i {
                            assert(listed(before, recs[m].claimed_country@));
                            let e = choose|e: int| 0 <= e < before.len() && (#[trigger] before[e]).country@ == recs[m].claimed_country@;
                            assert(by_country@[e] == before[e]);
                        } else {
                            assert(by_country@[before.len() as int].country@ == recs[m].claimed_country@);
                        }
                    }
                }
            },
        }
        i = i + 1;
    }
    proof {
        assert(recs.take(n as int) =~= recs);
    }
    let st = PoolStats {
        total: n,
        untested,
        validating,
        active,
        degraded,
        quarantined,
        dead,
        quarantine: QuarantineStats { count: quarantined, geo_mismatch: geo, consecutive_failures: failures },
        by_country,
    };
    proof {
        assert forall|m: int| 0 <= m < recs.len() implies listed(st.by_country@, (#[trigger] recs[m]).claimed_country@) by {
            assert(listed(by_country@, recs[m].claimed_country@));
        }
    }
    st
}

} // verus!
