//! The registry: the arena of proxy records, keyed by slot, with admission,
//! eligibility queries, probe commits and the quarantine release sweep.

use vstd::prelude::*;
use crate::health::{health_transition, transition_spec};
use crate::proxy::{
    admitted_record, record_from_candidate, GeoVerificationResult, HealthState, Metrics, ProxyCandidate,
    ProxyKey, ProxyProtocol, ProxyRecord, QuarantineInfo, ValidationErrorKind,
};
use crate::quarantine::{
    backoff_spec, due_for_release, enter_quarantine, release_due, release_if_due, released,
    QuarantinePolicy,
};

verus! {

/// Why a candidate was not admitted.
#[derive(Debug, Clone, Copy, PartialEq, Eq, Structural)]
pub enum AdmissionError {
    /// A record with the same host, port and protocol is already in the registry.
    Duplicate,
    /// The host is empty or the port is zero.
    Malformed,
}

/// Where a probe's traffic was observed to leave the network.
#[derive(Debug, Clone)]
pub struct GeoObservation {
    pub observed_country: String,
    pub observed_city: Option<String>,
    pub distance_km: Option<u64>,
}

/// What one probe of a proxy found.
#[derive(Debug, Clone)]
pub struct ProbeReport {
    pub success: bool,
    pub latency_ms: u32,
    pub bandwidth_bps: u64,
    pub error: Option<ValidationErrorKind>,
    /// Present when the probe also checked the egress location.
    pub geo: Option<GeoObservation>,
}

/// Tunable parameters of health tracking.
#[derive(Debug, Clone, Copy, PartialEq, Eq, Structural)]
pub struct PoolConfig {
    /// Consecutive failures of a degraded record that send it to quarantine.
    pub failure_threshold: u32,
    /// Largest distance between claimed and observed city that still passes.
    pub max_city_distance_km: u64,
    /// How long a geo verification stays valid, in seconds.
    pub geo_freshness_secs: u64,
    pub quarantine: QuarantinePolicy,
}

impl PoolConfig {
    pub open spec fn wf(&self) -> bool {
        self.failure_threshold >= 1 && self.quarantine.wf()
    }
}

/// Whether an observation confirms a claimed country: the codes agree and, where a
/// city distance is known, it is within the limit.
pub open spec fn geo_passes(claimed_country: Seq<char>, obs: GeoObservation, max_km: u64) -> bool {
    &&& obs.observed_country@ == claimed_country
    &&& match obs.distance_km {
        Some(d) => d <= max_km,
        None => true,
    }
}

/// The moving latency average after one more successful sample (weight 1/4 on the sample).
pub open spec fn ewma_next(avg: u64, samples: u64, sample: u32) -> u64 {
    if samples == 0 {
        sample as u64
    } else {
        ((3 * avg + sample) / 4) as u64
    }
}

pub open spec fn saturating_inc(n: u64) -> u64 {
    if n < u64::MAX {
        (n + 1) as u64
    } else {
        n
    }
}

/// The record after a probe that found `report` at `now`. A quarantined record, and a dead
/// one whose claim the probe does not contradict, are left as they are.
pub open spec fn probed(rec: ProxyRecord, report: ProbeReport, now: u64, cfg: PoolConfig) -> ProxyRecord {
    let mismatch = report.geo.is_some() && !geo_passes(
        rec.claimed_country@,
        report.geo.unwrap(),
        cfg.max_city_distance_km,
    );
    if rec.state == HealthState::Quarantined || (rec.state == HealthState::Dead && !mismatch) {
        rec
    } else {
        let t = transition_spec(
            rec.state,
            rec.metrics.consecutive_failures,
            report.success,
            mismatch,
            cfg.failure_threshold,
        );
        let metrics = if report.success {
            Metrics {
                ewma_latency_ms: ewma_next(
                    rec.metrics.ewma_latency_ms,
                    rec.metrics.success_count,
                    report.latency_ms,
                ),
                consecutive_failures: t.consecutive_failures,
                success_count: saturating_inc(rec.metrics.success_count),
                last_checked: now,
                bandwidth_bps: report.bandwidth_bps,
                ..rec.metrics
            }
        } else {
            Metrics {
                consecutive_failures: t.consecutive_failures,
                failure_count: saturating_inc(rec.metrics.failure_count),
                last_checked: now,
                ..rec.metrics
            }
        };
        let geo = match report.geo {
            Some(obs) => Some(
                GeoVerificationResult {
                    claimed_country: rec.claimed_country,
                    observed_country: obs.observed_country,
                    observed_city: obs.observed_city,
                    distance_km: obs.distance_km,
                    passed: !mismatch,
                    checked_at: now,
                },
            ),
            None => rec.geo,
        };
        let quarantine = match t.quarantine {
            Some(reason) => Some(
                QuarantineInfo {
                    reason,
                    entered_at: now,
                    release_at: (now + backoff_spec(
                        cfg.quarantine.base_secs as nat,
                        cfg.quarantine.max_secs as nat,
                        rec.quarantine_retries as nat,
                    )) as u64,
                    retry_count: rec.quarantine_retries,
                },
            ),
            None => rec.quarantine,
        };
        ProxyRecord { state: t.state, metrics, geo, quarantine, ..rec }
    }
}

/// Whether `rec` may be handed out: active or degraded, with a passed geo check no older
/// than `freshness` seconds at `now`, and claiming `country` when one is asked for.
pub open spec fn eligible(rec: ProxyRecord, country: Option<Seq<char>>, now: u64, freshness: u64) -> bool {
    &&& rec.state == HealthState::Active || rec.state == HealthState::Degraded
    &&& rec.geo.is_some()
    &&& rec.geo.unwrap().passed
    &&& rec.geo.unwrap().checked_at <= now
    &&& now - rec.geo.unwrap().checked_at <= freshness
    &&& match country {
        Some(c) => rec.claimed_country@ == c,
        None => true,
    }
}

/// Standing of a record's latest geo verification at some moment.
#[derive(Debug, Clone, Copy, PartialEq, Eq, Structural)]
pub enum GeoStatus {
    /// Never verified, or released from quarantine since.
    Unverified,
    /// Passed, and no older than the freshness window.
    Verified,
    /// Passed, but older than the freshness window: it must be checked again.
    Stale,
    /// The observed location contradicted the claim.
    Mismatch,
}

/// The standing of `geo` at `now` for a freshness window of `freshness` seconds.
pub open spec fn geo_status_spec(geo: Option<GeoVerificationResult>, now: u64, freshness: u64) -> GeoStatus {
    match geo {
        None => GeoStatus::Unverified,
        Some(g) => if !g.passed {
            GeoStatus::Mismatch
        } else if g.checked_at <= now && now - g.checked_at <= freshness {
            GeoStatus::Verified
        } else {
            GeoStatus::Stale
        },
    }
}

/// The standing of a record's latest geo verification (see `geo_status_spec`); a record
/// is eligible only while it is `Verified`.
pub fn geo_status(rec: &ProxyRecord, now: u64, freshness: u64) -> (r: GeoStatus)
    ensures
        r == geo_status_spec(rec.geo, now, freshness),
        eligible(*rec, None, now, freshness) ==> r == GeoStatus::Verified,
{
    match &rec.geo {
        None => GeoStatus::Unverified,
        Some(g) => {
            if !g.passed {
                GeoStatus::Mismatch
            } else if g.checked_at <= now && now - g.checked_at <= freshness {
                GeoStatus::Verified
            } else {
                GeoStatus::Stale
            }
        },
    }
}

/// Keys of the eligible records among the first `n`, in slot order.
pub open spec fn eligible_prefix(
    recs: Seq<ProxyRecord>,
    n: nat,
    country: Option<Seq<char>>,
    now: u64,
    freshness: u64,
) -> Seq<ProxyKey>
    decreases n,
{
    if n == 0 {
        Seq::empty()
    } else {
        let rest = eligible_prefix(recs, (n - 1) as nat, country, now, freshness);
        if eligible(recs[n - 1], country, now, freshness) {
            rest.push(ProxyKey { index: (n - 1) as usize })
        } else {
            rest
        }
    }
}

/// Keys of all eligible records, in slot order.
pub open spec fn eligible_keys(
    recs: Seq<ProxyRecord>,
    country: Option<Seq<char>>,
    now: u64,
    freshness: u64,
) -> Seq<ProxyKey> {
    eligible_prefix(recs, recs.len(), country, now, freshness)
}

/// A key is listed exactly when its record is eligible; the list is in increasing slot order.
pub proof fn lemma_eligible_prefix(
    recs: Seq<ProxyRecord>,
    n: nat,
    country: Option<Seq<char>>,
    now: u64,
    freshness: u64,
)
    requires
        n <= recs.len(),
        recs.len() <= usize::MAX + 1,
    ensures
        ({
            let e = eligible_prefix(recs, n, country, now, freshness);
            &&& forall|i: int| 0 <= i < e.len() ==> e[i].index < n
            &&& forall|i: int| 0 <= i < e.len() ==> eligible(recs[e[i].index as int], country, now, freshness)
            &&& forall|i: int, j: int| 0 <= i < j < e.len() ==> e[i].index < e[j].index
            &&& forall|k: int| 0 <= k < n && eligible(recs[k], country, now, freshness)
                ==> e.contains(ProxyKey { index: k as usize })
        }),
    decreases n,
{
    if n > 0 {
        lemma_eligible_prefix(recs, (n - 1) as nat, country, now, freshness);
        let rest = eligible_prefix(recs, (n - 1) as nat, country, now, freshness);
        let e = eligible_prefix(recs, n, country, now, freshness);
        assert forall|k: int| 0 <= k < n && eligible(recs[k], country, now, freshness)
            implies e.contains(ProxyKey { index: k as usize }) by {
            if k < n - 1 {
                let j = choose|j: int| 0 <= j < rest.len() && rest[j] == ProxyKey { index: k as usize };
                assert(e[j] == rest[j]);
            } else {
                assert(e[e.len() - 1] == ProxyKey { index: k as usize });
            }
        }
    }
}

/// The arena of proxy records. A record's key is its slot, which never changes.
pub struct ProxyRegistry {
    records: Vec<ProxyRecord>,
}

impl View for ProxyRegistry {
    type V = Seq<ProxyRecord>;

    closed spec fn view(&self) -> Seq<ProxyRecord> {
        self.records@
    }
}

impl ProxyRegistry {
    /// Every record is well formed, its latency average fits in 32 bits, and no two
    /// records share host, port and protocol.
    pub open spec fn wf(&self) -> bool {
        &&& forall|i: int| 0 <= i < self@.len() ==> (#[trigger] self@[i]).wf()
        &&& forall|i: int| 0 <= i < self@.len() ==> (#[trigger] self@[i]).metrics.ewma_latency_ms <= u32::MAX
        &&& forall|i: int, j: int| 0 <= i < j < self@.len() ==> !(#[trigger] self@[i]).same_identity(
            (#[trigger] self@[j]).host@,
            self@[j].port,
            self@[j].protocol,
        )
    }

    /// An empty registry.
    pub fn new() -> (r: Self)
        ensures
            r@ == Seq::<ProxyRecord>::empty(),
            r.wf(),
    {
        ProxyRegistry { records: Vec::new() }
    }

    pub fn len(&self) -> (r: usize)
        ensures
            r == self@.len(),
    {
        self.records.len()
    }

    /// The record under `key`, if there is one.
    pub fn get(&self, key: ProxyKey) -> (r: Option<&ProxyRecord>)
        ensures
            key.index < self@.len() ==> r == Some(&self@[key.index as int]),
            key.index >= self@.len() ==> r.is_none(),
    {
        if key.index < self.records.len() {
            Some(&self.records[key.index])
        } else {
            None
        }
    }

    /// Whether a record with this host, port and protocol is present.
    pub fn contains_identity(&self, host: &String, port: u16, protocol: ProxyProtocol) -> (r: bool)
        ensures
            r == exists|i: int| 0 <= i < self@.len() && self@[i].same_identity(host@, port, protocol),
    {
        let mut i: usize = 0;
        while i < self.records.len()
            invariant
                i <= self@.len(),
                forall|j: int| 0 <= j < i ==> !self@[j].same_identity(host@, port, protocol),
            decreases self@.len() - i,
        {
            let rec = &self.records[i];
            if rec.port == port && rec.protocol == protocol && rec.host == *host {
                assert(self@[i as int].same_identity(host@, port, protocol));
                return true;
            }
            i = i + 1;
        }
        false
    }

    /// Admits a candidate as an untested record. Fails with `Malformed` when the host is
    /// empty or the port is zero, else with `Duplicate` when its identity is taken.
    pub fn admit_proxy(&mut self, c: ProxyCandidate, now: u64) -> (r: Result<ProxyKey, AdmissionError>)
        requires
            old(self).wf(),
            old(self)@.len() < usize::MAX,
        ensures
            final(self).wf(),
            (c.host@.len() == 0 || c.port == 0) ==> r == Err::<ProxyKey, AdmissionError>(AdmissionError::Malformed),
            !(c.host@.len() == 0 || c.port == 0) && (exists|i: int|
                0 <= i < old(self)@.len() && old(self)@[i].same_identity(c.host@, c.port, c.protocol))
                ==> r == Err::<ProxyKey, AdmissionError>(AdmissionError::Duplicate),
            r.is_err() ==> final(self)@ == old(self)@,
            r.is_ok() ==> r == Ok::<ProxyKey, AdmissionError>(ProxyKey { index: old(self)@.len() as usize })
                && final(self)@ == old(self)@.push(admitted_record(c, now)),
            !(c.host@.len() == 0 || c.port == 0) && !(exists|i: int|
                0 <= i < old(self)@.len() && old(self)@[i].same_identity(c.host@, c.port, c.protocol))
                ==> r.is_ok(),
    {
        if c.host.as_str().is_empty() || c.port == 0 {
            return Err(AdmissionError::Malformed);
        }
        if self.contains_identity(&c.host, c.port, c.protocol) {
            return Err(AdmissionError::Duplicate);
        }
        let key = ProxyKey { index: self.records.len() };
        let rec = record_from_candidate(c, now);
        self.records.push(rec);
        Ok(key)
    }

    /// Marks an untested record as being validated; other records are left alone.
    pub fn begin_validation(&mut self, key: ProxyKey) -> (r: bool)
        requires
            old(self).wf(),
        ensures
            final(self).wf(),
            r == (key.index < old(self)@.len() && old(self)@[key.index as int].state == HealthState::Untested),
            r ==> final(self)@ == old(self)@.update(
                key.index as int,
                ProxyRecord { state: HealthState::Validating, ..old(self)@[key.index as int] },
            ),
            !r ==> final(self)@ == old(self)@,
    {
        if key.index < self.records.len() && self.records[key.index].state == HealthState::Untested {
            self.records[key.index].state = HealthState::Validating;
            proof {
                assert forall|i: int, j: int| 0 <= i < j < self@.len() implies !(#[trigger] self@[i]).same_identity(
                    (#[trigger] self@[j]).host@, self@[j].port, self@[j].protocol) by {
                    assert(old(self)@[i].host == self@[i].host);
                    assert(old(self)@[j].host == self@[j].host);
                }
            }
            true
        } else {
            false
        }
    }
    /// Keys of the eligible records, in slot order (see `eligible`).
    pub fn list_eligible(&self, country: Option<&String>, now: u64, freshness: u64) -> (r: Vec<ProxyKey>)
        ensures
            r@ == eligible_keys(self@, opt_view(country), now, freshness),
    {
        let mut out: Vec<ProxyKey> = Vec::new();
        let mut i: usize = 0;
        while i < self.records.len()
            invariant
                i <= self@.len(),
                out@ == eligible_prefix(self@, i as nat, opt_view(country), now, freshness),
            decreases self@.len() - i,
        {
            if record_eligible(&self.records[i], country, now, freshness) {
                out.push(ProxyKey { index: i });
            }
            i = i + 1;
        }
        out
    }

    /// Commits what a probe of `key` found at `now`: metrics, geo result and health
    /// transition, entering quarantine when the transition asks for it. Returns the new
    /// state, or `None` when no record has that key.
    pub fn record_probe(&mut self, key: ProxyKey, report: ProbeReport, now: u64, cfg: PoolConfig) -> (r: Option<HealthState>)
        requires
            old(self).wf(),
            cfg.wf(),
            now as int + cfg.quarantine.max_secs as int <= u64::MAX,
        ensures
            final(self).wf(),
            key.index >= old(self)@.len() ==> r.is_none() && final(self)@ == old(self)@,
            key.index < old(self)@.len() ==> final(self)@ == old(self)@.update(
                key.index as int,
                probed(old(self)@[key.index as int], report, now, cfg),
            ) && r == Some(final(self)@[key.index as int].state),
    {
        if key.index >= self.records.len() {
            return None;
        }
        let i = key.index;
        let ghost before = self.records[i as int];
        let state = self.records[i].state;
        let mismatch = match &report.geo {
            Some(obs) => !observation_passes(&self.records[i].claimed_country, obs, cfg.max_city_distance_km),
            None => false,
        };
        if state == HealthState::Quarantined || (state == HealthState::Dead && !mismatch) {
            return Some(state);
        }
        let t = health_transition(state, self.records[i].metrics.consecutive_failures, report.success, mismatch, cfg.failure_threshold);
        let m = self.records[i].metrics;
        let metrics = if report.success {
            let avg: u64 = if m.success_count == 0 {
                report.latency_ms as u64
            } else {
                (3 * m.ewma_latency_ms + report.latency_ms as u64) / 4
            };
            Metrics {
                ewma_latency_ms: avg,
                consecutive_failures: t.consecutive_failures,
                success_count: if m.success_count < u64::MAX { m.success_count + 1 } else { m.success_count },
                failure_count: m.failure_count,
                last_checked: now,
                bandwidth_bps: report.bandwidth_bps,
            }
        } else {
            Metrics {
                ewma_latency_ms: m.ewma_latency_ms,
                consecutive_failures: t.consecutive_failures,
                success_count: m.success_count,
                failure_count: if m.failure_count < u64::MAX { m.failure_count + 1 } else { m.failure_count },
                last_checked: now,
                bandwidth_bps: m.bandwidth_bps,
            }
        };
        let claimed = self.records[i].claimed_country.clone();
        let rec = &mut self.records[i];
        rec.metrics = metrics;
        match report.geo {
            Some(obs) => {
                rec.geo = Some(GeoVerificationResult {
                    claimed_country: claimed,
                    observed_country: obs.observed_country,
                    observed_city: obs.observed_city,
                    distance_km: obs.distance_km,
                    passed: !mismatch,
                    checked_at: now,
                });
            },
            None => {},
        }
        rec.state = t.state;
        match t.quarantine {
            Some(reason) => {
                enter_quarantine(rec, reason, now, cfg.quarantine);
            },
            None => {},
        }
        let ghost after = self.records[i as int];
        proof {
            assert(after == probed(before, report, now, cfg));
            self.lemma_wf_after_update(old(self)@, i as int);
        }
        Some(t.state)
    }

    /// Releases every quarantined record whose release time has come; returns how many.
    pub fn sweep_releases(&mut self, now: u64) -> (r: usize)
        requires
            old(self).wf(),
        ensures
            final(self).wf(),
            r == old(self)@.filter(due_for_release(now)).len(),
            final(self)@.len() == old(self)@.len(),
            forall|i: int| 0 <= i < old(self)@.len() ==> final(self)@[i] == if release_due(old(self)@[i], now) {
                released(old(self)@[i])
            } else {
                old(self)@[i]
            },
    {
        let mut n: usize = 0;
        let mut i: usize = 0;
        while i < self.records.len()
            invariant
                self@.len() == old(self)@.len(),
                i <= self@.len(),
                n <= i,
                n == old(self)@.take(i as int).filter(due_for_release(now)).len(),
                self.wf(),
                forall|j: int| 0 <= j < i ==> self@[j] == if release_due(old(self)@[j], now) {
                    released(old(self)@[j])
                } else {
                    old(self)@[j]
                },
                forall|j: int| i <= j < self@.len() ==> self@[j] == old(self)@[j],
            decreases self@.len() - i,
        {
            let ghost prev = self@;
            proof {
                crate::selector::lemma_filter_step(old(self)@, i as int, due_for_release(now));
            }
            if release_if_due(&mut self.records[i], now) {
                n = n + 1;
            }
            proof {
                self.lemma_wf_after_update(prev, i as int);
            }
            i = i + 1;
        }
        proof {
            assert(old(self)@.take(old(self)@.len() as int) =~= old(self)@);
        }
        n
    }

    /// Records that `key` was handed out at `now`.
    pub fn mark_selected(&mut self, key: ProxyKey, now: u64)
        requires
            old(self).wf(),
            key.index < old(self)@.len(),
        ensures
            final(self).wf(),
            final(self)@ == old(self)@.update(
                key.index as int,
                ProxyRecord { last_selected: Some(now), ..old(self)@[key.index as int] },
            ),
    {
        let ghost prev = self@;
        self.records[key.index].last_selected = Some(now);
        proof {
            self.lemma_wf_after_update(prev, key.index as int);
        }
    }

    /// Replacing one record by one of the same identity, well formed and with a latency
    /// average that fits in 32 bits, keeps the registry well formed.
    proof fn lemma_wf_after_update(&self, prev: Seq<ProxyRecord>, k: int)
        requires
            forall|i: int| 0 <= i < prev.len() ==> (#[trigger] prev[i]).wf(),
            forall|i: int| 0 <= i < prev.len() ==> (#[trigger] prev[i]).metrics.ewma_latency_ms <= u32::MAX,
            forall|i: int, j: int| 0 <= i < j < prev.len() ==> !(#[trigger] prev[i]).same_identity(
                (#[trigger] prev[j]).host@, prev[j].port, prev[j].protocol),
            0 <= k < prev.len(),
            self@.len() == prev.len(),
            forall|i: int| 0 <= i < prev.len() && i != k ==> self@[i] == prev[i],
            self@[k].wf(),
            self@[k].metrics.ewma_latency_ms <= u32::MAX,
            self@[k].host == prev[k].host,
            self@[k].port == prev[k].port,
            self@[k].protocol == prev[k].protocol,
        ensures
            self.wf(),
    {
        assert forall|i: int, j: int| 0 <= i < j < self@.len() implies !(#[trigger] self@[i]).same_identity(
            (#[trigger] self@[j]).host@, self@[j].port, self@[j].protocol) by {
            assert(prev[i].host == self@[i].host);
            assert(prev[j].host == self@[j].host);
        }
        assert forall|i: int| 0 <= i < self@.len() implies (#[trigger] self@[i]).wf() by {
            if i != k { assert(prev[i].wf()); }
        }
        assert forall|i: int| 0 <= i < self@.len() implies (#[trigger] self@[i]).metrics.ewma_latency_ms <= u32::MAX by {
            if i != k { assert(prev[i].metrics.ewma_latency_ms <= u32::MAX); }
        }
    }
}

/// The view of an optional borrowed string.
pub open spec fn opt_view(c: Option<&String>) -> Option<Seq<char>> {
    match c {
        Some(s) => Some(s@),
        None => None,
    }
}

/// Whether `rec` is eligible (see `eligible`).
pub fn record_eligible(rec: &ProxyRecord, country: Option<&String>, now: u64, freshness: u64) -> (r: bool)
    ensures
        r == eligible(*rec, opt_view(country), now, freshness),
{
    if rec.state != HealthState::Active && rec.state != HealthState::Degraded {
        return false;
    }
    let fresh = match &rec.geo {
        Some(g) => g.passed && g.checked_at <= now && now - g.checked_at <= freshness,
        None => false,
    };
    if !fresh {
        return false;
    }
    match country {
        Some(c) => rec.claimed_country == *c,
        None => true,
    }
}

/// Whether `obs` confirms `claimed_country` (see `geo_passes`).
pub fn observation_passes(claimed_country: &String, obs: &GeoObservation, max_km: u64) -> (r: bool)
    ensures
        r == geo_passes(claimed_country@, *obs, max_km),
{
    if obs.observed_country != *claimed_country {
        return false;
    }
    match obs.distance_km {
        Some(d) => d <= max_km,
        None => true,
    }
}

} // verus!
