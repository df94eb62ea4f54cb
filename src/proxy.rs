//! The proxy record and the types it is made of.

use vstd::prelude::*;

verus! {

/// Wire protocol a proxy speaks.
#[derive(Debug, Clone, Copy, PartialEq, Eq, Structural)]
pub enum ProxyProtocol {
    Http,
    Https,
    Socks5,
}

/// Lifecycle stage of a proxy record; it governs eligibility for selection.
#[derive(Debug, Clone, Copy, PartialEq, Eq, Structural)]
pub enum HealthState {
    Untested,
    Validating,
    Active,
    Degraded,
    Quarantined,
    Dead,
}

/// Why a proxy was put into quarantine.
#[derive(Debug, Clone, Copy, PartialEq, Eq, Structural)]
pub enum QuarantineReason {
    /// The consecutive-failure counter reached the configured threshold.
    ConsecutiveFailures,
    /// The observed egress country differs from the claimed one.
    GeoMismatch,
}

/// How a connectivity probe failed.
#[derive(Debug, Clone, Copy, PartialEq, Eq, Structural)]
pub enum ValidationErrorKind {
    ConnectTimeout,
    AuthRejected,
    ProtocolError,
    Unreachable,
}

/// Stable identity of a record in the registry: its slot in the arena.
#[derive(Debug, Clone, Copy, PartialEq, Eq, Structural)]
pub struct ProxyKey {
    pub index: usize,
}

/// A candidate relay as supplied by a discovery feed.
#[derive(Debug, Clone)]
pub struct ProxyCandidate {
    pub host: String,
    pub port: u16,
    pub protocol: ProxyProtocol,
    pub username: Option<String>,
    pub password: Option<String>,
    /// Two-letter country code the proxy claims to egress from.
    pub claimed_country: String,
    pub claimed_city: Option<String>,
}

/// Rolling health metrics of a record.
#[derive(Debug, Clone, Copy, PartialEq, Eq, Structural)]
pub struct Metrics {
    /// Exponentially weighted moving average of probe latency, in milliseconds.
    pub ewma_latency_ms: u64,
    pub consecutive_failures: u32,
    pub success_count: u64,
    pub failure_count: u64,
    /// Time of the last probe, in seconds.
    pub last_checked: u64,
    /// Bytes per second measured by the last successful probe.
    pub bandwidth_bps: u64,
}

/// Quarantine bookkeeping of a record that is isolated from selection.
#[derive(Debug, Clone, Copy, PartialEq, Eq, Structural)]
pub struct QuarantineInfo {
    pub reason: QuarantineReason,
    pub entered_at: u64,
    pub release_at: u64,
    /// How many quarantines preceded this one.
    pub retry_count: u32,
}

/// Outcome of the most recent check of a proxy's egress location.
#[derive(Debug, Clone)]
pub struct GeoVerificationResult {
    pub claimed_country: String,
    pub observed_country: String,
    pub observed_city: Option<String>,
    /// Distance between the claimed and the observed city, when both are known.
    pub distance_km: Option<u64>,
    pub passed: bool,
    pub checked_at: u64,
}

/// A tracked proxy: identity, claim, health and quarantine state.
#[derive(Debug, Clone)]
pub struct ProxyRecord {
    pub host: String,
    pub port: u16,
    pub protocol: ProxyProtocol,
    pub username: Option<String>,
    pub password: Option<String>,
    pub claimed_country: String,
    pub claimed_city: Option<String>,
    pub created_at: u64,
    pub state: HealthState,
    pub metrics: Metrics,
    pub quarantine: Option<QuarantineInfo>,
    /// Number of quarantines this record has been released from.
    pub quarantine_retries: u32,
    pub geo: Option<GeoVerificationResult>,
    /// When the selector last handed this record out, if ever.
    pub last_selected: Option<u64>,
}

/// Metrics of a record that has never been probed.
pub open spec fn fresh_metrics() -> Metrics {
    Metrics {
        ewma_latency_ms: 0,
        consecutive_failures: 0,
        success_count: 0,
        failure_count: 0,
        last_checked: 0,
        bandwidth_bps: 0,
    }
}

impl ProxyRecord {
    /// The quarantine fields agree with the health state, and a quarantine ends after it starts.
    pub open spec fn wf(&self) -> bool {
        &&& (self.state == HealthState::Quarantined) == self.quarantine.is_some()
        &&& self.quarantine.is_some() ==> self.quarantine.unwrap().release_at
            > self.quarantine.unwrap().entered_at
    }

    /// Whether two records share the identity (host, port, protocol).
    pub open spec fn same_identity(&self, host: Seq<char>, port: u16, protocol: ProxyProtocol) -> bool {
        self.host@ == host && self.port == port && self.protocol == protocol
    }
}

/// The untested record that admitting `c` at `now` creates.
pub open spec fn admitted_record(c: ProxyCandidate, now: u64) -> ProxyRecord {
    ProxyRecord {
        host: c.host,
        port: c.port,
        protocol: c.protocol,
        username: c.username,
        password: c.password,
        claimed_country: c.claimed_country,
        claimed_city: c.claimed_city,
        created_at: now,
        state: HealthState::Untested,
        metrics: fresh_metrics(),
        quarantine: None,
        quarantine_retries: 0,
        geo: None,
        last_selected: None,
    }
}

/// A fresh, untested record for `c` admitted at `now`.
pub fn record_from_candidate(c: ProxyCandidate, now: u64) -> (r: ProxyRecord)
    ensures
        r == admitted_record(c, now),
        r.wf(),
{
    ProxyRecord {
        host: c.host,
        port: c.port,
        protocol: c.protocol,
        username: c.username,
        password: c.password,
        claimed_country: c.claimed_country,
        claimed_city: c.claimed_city,
        created_at: now,
        state: HealthState::Untested,
        metrics: Metrics {
            ewma_latency_ms: 0,
            consecutive_failures: 0,
            success_count: 0,
            failure_count: 0,
            last_checked: 0,
            bandwidth_bps: 0,
        },
        quarantine: None,
        quarantine_retries: 0,
        geo: None,
        last_selected: None,
    }
}

/// A copy of an optional string.
pub fn copy_opt_string(s: &Option<String>) -> (r: Option<String>)
    ensures
        r == *s,
{
    match s {
        Some(v) => Some(v.clone()),
        None => None,
    }
}

impl GeoVerificationResult {
    /// A field-by-field copy.
    pub fn copy(&self) -> (r: GeoVerificationResult)
        ensures
            r == *self,
    {
        GeoVerificationResult {
            claimed_country: self.claimed_country.clone(),
            observed_country: self.observed_country.clone(),
            observed_city: copy_opt_string(&self.observed_city),
            distance_km: self.distance_km,
            passed: self.passed,
            checked_at: self.checked_at,
        }
    }
}

impl ProxyRecord {
    /// A field-by-field copy: the read snapshot handed to callers.
    pub fn copy(&self) -> (r: ProxyRecord)
        ensures
            r == *self,
    {
        ProxyRecord {
            host: self.host.clone(),
            port: self.port,
            protocol: self.protocol,
            username: copy_opt_string(&self.username),
            password: copy_opt_string(&self.password),
            claimed_country: self.claimed_country.clone(),
            claimed_city: copy_opt_string(&self.claimed_city),
            created_at: self.created_at,
            state: self.state,
            metrics: self.metrics,
            quarantine: self.quarantine,
            quarantine_retries: self.quarantine_retries,
            geo: match &self.geo {
                Some(g) => Some(g.copy()),
                None => None,
            },
            last_selected: self.last_selected,
        }
    }
}

} // verus!
