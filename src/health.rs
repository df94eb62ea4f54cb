//! The health state machine: how one probe outcome moves a record between states.

use vstd::prelude::*;
use crate::proxy::{HealthState, QuarantineReason};

verus! {

/// Result of applying one probe outcome to a record's health.
#[derive(Debug, Clone, Copy, PartialEq, Eq, Structural)]
pub struct HealthTransition {
    pub state: HealthState,
    pub consecutive_failures: u32,
    /// `Some(reason)` when the record must be handed to the quarantine manager.
    pub quarantine: Option<QuarantineReason>,
}

/// The failure counter after one more failure (it stops at its largest value).
pub open spec fn bumped(failures: u32) -> u32 {
    if failures < u32::MAX {
        (failures + 1) as u32
    } else {
        failures
    }
}

/// The transition rules. A quarantined record stays as it is. A claim mismatch quarantines
/// at once, whatever the state, a dead record included; otherwise a dead record stays as it
/// is. A success makes the record active and clears the
/// failure counter; a failure makes the record degraded, and quarantines it when it was
/// already degraded and the counter reaches `threshold`.
pub open spec fn transition_spec(
    state: HealthState,
    failures: u32,
    success: bool,
    geo_mismatch: bool,
    threshold: u32,
) -> HealthTransition {
    let counter = if success { 0u32 } else { bumped(failures) };
    if state == HealthState::Quarantined {
        HealthTransition { state, consecutive_failures: failures, quarantine: None }
    } else if geo_mismatch {
        HealthTransition {
            state: HealthState::Quarantined,
            consecutive_failures: counter,
            quarantine: Some(QuarantineReason::GeoMismatch),
        }
    } else if state == HealthState::Dead {
        HealthTransition { state, consecutive_failures: failures, quarantine: None }
    } else if success {
        HealthTransition { state: HealthState::Active, consecutive_failures: 0, quarantine: None }
    } else if state == HealthState::Degraded && counter >= threshold {
        HealthTransition {
            state: HealthState::Quarantined,
            consecutive_failures: counter,
            quarantine: Some(QuarantineReason::ConsecutiveFailures),
        }
    } else {
        HealthTransition { state: HealthState::Degraded, consecutive_failures: counter, quarantine: None }
    }
}

/// Applies one probe outcome to a record in `state` with `failures` consecutive failures.
pub fn health_transition(
    state: HealthState,
    failures: u32,
    success: bool,
    geo_mismatch: bool,
    threshold: u32,
) -> (t: HealthTransition)
    ensures
        t == transition_spec(state, failures, success, geo_mismatch, threshold),
{
    let counter: u32 = if success {
        0
    } else if failures < u32::MAX {
        failures + 1
    } else {
        failures
    };
    if state == HealthState::Quarantined {
        HealthTransition { state, consecutive_failures: failures, quarantine: None }
    } else if geo_mismatch {
        HealthTransition {
            state: HealthState::Quarantined,
            consecutive_failures: counter,
            quarantine: Some(QuarantineReason::GeoMismatch),
        }
    } else if state == HealthState::Dead {
        HealthTransition { state, consecutive_failures: failures, quarantine: None }
    } else if success {
        HealthTransition { state: HealthState::Active, consecutive_failures: 0, quarantine: None }
    } else if state == HealthState::Degraded && counter >= threshold {
        HealthTransition {
            state: HealthState::Quarantined,
            consecutive_failures: counter,
            quarantine: Some(QuarantineReason::ConsecutiveFailures),
        }
    } else {
        HealthTransition { state: HealthState::Degraded, consecutive_failures: counter, quarantine: None }
    }
}

/// A single failed probe never quarantines a record that was not already degraded,
/// and only a failure or a claim mismatch leads to quarantine.
pub proof fn lemma_single_failure_never_quarantines(
    state: HealthState,
    failures: u32,
    success: bool,
    threshold: u32,
)
    requires
        state != HealthState::Degraded,
    ensures
        transition_spec(state, failures, success, false, threshold).quarantine.is_none(),
{
}

/// A claim mismatch quarantines a record in any state, a dead one included, whatever the
/// connectivity outcome; a record already in quarantine stays there.
pub proof fn lemma_mismatch_quarantines(state: HealthState, failures: u32, success: bool, threshold: u32)
    ensures
        transition_spec(state, failures, success, true, threshold).state == HealthState::Quarantined,
        state != HealthState::Quarantined ==> transition_spec(state, failures, success, true, threshold).quarantine
            == Some(QuarantineReason::GeoMismatch),
{
}

/// Quarantine is entered exactly when the transition asks for it.
pub proof fn lemma_quarantine_iff_command(
    state: HealthState,
    failures: u32,
    success: bool,
    geo_mismatch: bool,
    threshold: u32,
)
    requires
        state != HealthState::Quarantined,
        state != HealthState::Dead,
    ensures
        ({
            let t = transition_spec(state, failures, success, geo_mismatch, threshold);
            (t.state == HealthState::Quarantined) == t.quarantine.is_some()
        }),
{
}

} // verus!
