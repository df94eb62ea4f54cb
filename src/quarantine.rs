//! Quarantine: exponential backoff, entering quarantine, and release of due records.

use vstd::prelude::*;
use crate::proxy::{HealthState, ProxyRecord, QuarantineInfo, QuarantineReason};

verus! {

/// Backoff parameters: the first quarantine lasts `base_secs`, each later one twice
/// as long as the one before, never more than `max_secs`.
#[derive(Debug, Clone, Copy, PartialEq, Eq, Structural)]
pub struct QuarantinePolicy {
    pub base_secs: u64,
    pub max_secs: u64,
}

impl QuarantinePolicy {
    pub open spec fn wf(&self) -> bool {
        1 <= self.base_secs <= self.max_secs
    }
}

pub open spec fn pow2(n: nat) -> nat
    decreases n,
{
    if n == 0 {
        1
    } else {
        2 * pow2((n - 1) as nat)
    }
}

/// Length of the quarantine that follows `retry` earlier ones: `base * 2^retry`, capped at `max`.
pub open spec fn backoff_spec(base: nat, max: nat, retry: nat) -> nat {
    if base * pow2(retry) <= max {
        base * pow2(retry)
    } else {
        max
    }
}

proof fn lemma_pow2_positive(n: nat)
    ensures
        pow2(n) >= 1,
    decreases n,
{
    if n > 0 {
        lemma_pow2_positive((n - 1) as nat);
    }
}

proof fn lemma_pow2_monotonic(a: nat, b: nat)
    requires
        a <= b,
    ensures
        pow2(a) <= pow2(b),
    decreases b,
{
    if a < b {
        lemma_pow2_monotonic(a, (b - 1) as nat);
        lemma_pow2_positive((b - 1) as nat);
    }
}

proof fn lemma_scaled_pow2_step(base: nat, n: nat)
    ensures
        base * pow2(n + 1) == 2 * (base * pow2(n)),
{
    assert(pow2(n + 1) == 2 * pow2(n));
    assert(base * (2 * pow2(n)) == 2 * (base * pow2(n))) by (nonlinear_arith);
}

proof fn lemma_scaled_pow2_monotonic(base: nat, a: nat, b: nat)
    requires
        a <= b,
    ensures
        base * pow2(a) <= base * pow2(b),
{
    lemma_pow2_monotonic(a, b);
    let (pa, pb) = (pow2(a), pow2(b));
    assert(base * pa <= base * pb) by (nonlinear_arith)
        requires
            pa <= pb,
    ;
}

/// Every quarantine lasts at least one second and at most the cap; a later quarantine
/// never lasts less than an earlier one, and strictly longer while the cap is not reached.
pub proof fn lemma_backoff_grows(policy: QuarantinePolicy, retry: nat)
    requires
        policy.wf(),
    ensures
        1 <= backoff_spec(policy.base_secs as nat, policy.max_secs as nat, retry),
        backoff_spec(policy.base_secs as nat, policy.max_secs as nat, retry) <= policy.max_secs,
        backoff_spec(policy.base_secs as nat, policy.max_secs as nat, retry)
            <= backoff_spec(policy.base_secs as nat, policy.max_secs as nat, retry + 1),
        backoff_spec(policy.base_secs as nat, policy.max_secs as nat, retry) < policy.max_secs
            ==> backoff_spec(policy.base_secs as nat, policy.max_secs as nat, retry)
            < backoff_spec(policy.base_secs as nat, policy.max_secs as nat, retry + 1),
{
    let base = policy.base_secs as nat;
    lemma_pow2_positive(retry);
    lemma_scaled_pow2_monotonic(base, 0, retry);
    lemma_scaled_pow2_step(base, retry);
    assert(pow2(0) == 1);
}

/// Length in seconds of the quarantine that follows `retry` earlier ones.
pub fn backoff_secs(policy: QuarantinePolicy, retry: u32) -> (r: u64)
    requires
        policy.wf(),
    ensures
        r == backoff_spec(policy.base_secs as nat, policy.max_secs as nat, retry as nat),
{
    let base = policy.base_secs;
    let max = policy.max_secs;
    let mut d: u64 = base;
    let mut i: u32 = 0;
    proof {
        assert(pow2(0) == 1);
        assert(base as nat * pow2(0) == base as nat);
    }
    while i < retry && d < max
        invariant
            1 <= base <= max,
            i <= retry,
            d == backoff_spec(base as nat, max as nat, i as nat),
        decreases retry - i,
    {
        proof {
            lemma_scaled_pow2_step(base as nat, i as nat);
        }
        if d > max / 2 {
            d = max;
        } else {
            d = d * 2;
        }
        i = i + 1;
    }
    proof {
        if i < retry {
            lemma_scaled_pow2_monotonic(base as nat, i as nat, retry as nat);
        }
    }
    d
}

/// Puts `rec` into quarantine at `now` for the backoff that its earlier quarantines call for.
pub fn enter_quarantine(rec: &mut ProxyRecord, reason: QuarantineReason, now: u64, policy: QuarantinePolicy)
    requires
        policy.wf(),
        now as int + policy.max_secs as int <= u64::MAX,
    ensures
        final(rec).state == HealthState::Quarantined,
        final(rec).quarantine == Some(QuarantineInfo {
            reason,
            entered_at: now,
            release_at: (now + backoff_spec(
                policy.base_secs as nat,
                policy.max_secs as nat,
                old(rec).quarantine_retries as nat,
            )) as u64,
            retry_count: old(rec).quarantine_retries,
        }),
        final(rec).wf(),
        *final(rec) == (ProxyRecord {
            state: final(rec).state,
            quarantine: final(rec).quarantine,
            ..*old(rec)
        }),
{
    let d = backoff_secs(policy, rec.quarantine_retries);
    proof {
        lemma_backoff_grows(policy, rec.quarantine_retries as nat);
    }
    rec.state = HealthState::Quarantined;
    rec.quarantine = Some(QuarantineInfo {
        reason,
        entered_at: now,
        release_at: now + d,
        retry_count: rec.quarantine_retries,
    });
}

/// Whether `rec` is quarantined and its release time has come.
pub open spec fn release_due(rec: ProxyRecord, now: u64) -> bool {
    rec.state == HealthState::Quarantined && rec.quarantine.is_some()
        && rec.quarantine.unwrap().release_at <= now
}

/// Records whose quarantine is over at `now`.
pub open spec fn due_for_release(now: u64) -> spec_fn(ProxyRecord) -> bool {
    |rec: ProxyRecord| release_due(rec, now)
}

/// The record after release: untested, with no quarantine, no geo result and a clear
/// failure counter, and one more quarantine counted for the next backoff.
pub open spec fn released(rec: ProxyRecord) -> ProxyRecord {
    ProxyRecord {
        state: HealthState::Untested,
        quarantine: None,
        quarantine_retries: if rec.quarantine_retries < u32::MAX {
            (rec.quarantine_retries + 1) as u32
        } else {
            rec.quarantine_retries
        },
        geo: None,
        metrics: crate::proxy::Metrics { consecutive_failures: 0, ..rec.metrics },
        ..rec
    }
}

/// Successive quarantines of one record: the quarantine after a release lasts at least as
/// long as the one released from, and strictly longer while the cap is not reached.
pub proof fn lemma_next_quarantine_longer(rec: ProxyRecord, policy: QuarantinePolicy)
    requires
        policy.wf(),
        rec.quarantine_retries < u32::MAX,
    ensures
        ({
            let before = backoff_spec(policy.base_secs as nat, policy.max_secs as nat, rec.quarantine_retries as nat);
            let after = backoff_spec(
                policy.base_secs as nat,
                policy.max_secs as nat,
                released(rec).quarantine_retries as nat,
            );
            &&& before <= after <= policy.max_secs
            &&& before < policy.max_secs ==> before < after
        }),
{
    lemma_backoff_grows(policy, rec.quarantine_retries as nat);
    lemma_backoff_grows(policy, rec.quarantine_retries as nat + 1);
}

/// Releases `rec` when its quarantine is over; reports whether it did.
pub fn release_if_due(rec: &mut ProxyRecord, now: u64) -> (r: bool)
    ensures
        r == release_due(*old(rec), now),
        *final(rec) == if r { released(*old(rec)) } else { *old(rec) },
        old(rec).wf() ==> final(rec).wf(),
{
    let due = match &rec.quarantine {
        Some(q) => rec.state == HealthState::Quarantined && q.release_at <= now,
        None => false,
    };
    if due {
        rec.state = HealthState::Untested;
        rec.quarantine = None;
        if rec.quarantine_retries < u32::MAX {
            rec.quarantine_retries = rec.quarantine_retries + 1;
        }
        rec.geo = None;
        rec.metrics.consecutive_failures = 0;
    }
    due
}

} // verus!
