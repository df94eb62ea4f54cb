//! Health-monitor scheduling: which records a tick probes.

use vstd::prelude::*;
use crate::proxy::{HealthState, ProxyKey, ProxyRecord};
use crate::registry::ProxyRegistry;
use crate::selector::contains_key;

verus! {

/// Whether `rec` is probed by the monitor (neither quarantined nor dead) and its last
/// check is at least `interval` seconds before `now`.
pub open spec fn due(rec: ProxyRecord, now: u64, interval: u64) -> bool {
    &&& rec.state != HealthState::Quarantined
    &&& rec.state != HealthState::Dead
    &&& rec.metrics.last_checked as int + interval as int <= now as int
}

/// Whether the record under `a` is staler than the one under `b`: checked earlier, or
/// at the same time and in an earlier slot.
pub open spec fn staler(recs: Seq<ProxyRecord>, a: ProxyKey, b: ProxyKey) -> bool {
    let la = recs[a.index as int].metrics.last_checked;
    let lb = recs[b.index as int].metrics.last_checked;
    la < lb || (la == lb && a.index < b.index)
}

/// Whether the record under key `k` exists and is due.
pub open spec fn due_key(recs: Seq<ProxyRecord>, k: ProxyKey, now: u64, interval: u64) -> bool {
    k.index < recs.len() && due(recs[k.index as int], now, interval)
}

fn is_due(rec: &ProxyRecord, now: u64, interval: u64) -> (r: bool)
    ensures
        r == due(*rec, now, interval),
{
    rec.state != HealthState::Quarantined && rec.state != HealthState::Dead
        && rec.metrics.last_checked as u128 + interval as u128 <= now as u128
}

/// The records a monitor tick at `now` probes: the due ones, stalest first, at most
/// `batch` of them. A due record is left out only when the batch is full, and then
/// every record in the batch is staler than it.
pub fn due_for_check(reg: &ProxyRegistry, now: u64, interval: u64, batch: usize) -> (r: Vec<ProxyKey>)
    ensures
        r@.len() <= batch,
        forall|i: int| 0 <= i < r@.len() ==> due_key(reg@, #[trigger] r@[i], now, interval),
        forall|i: int, j: int| 0 <= i < j < r@.len() ==> staler(reg@, #[trigger] r@[i], #[trigger] r@[j]),
        forall|k: ProxyKey| due_key(reg@, k, now, interval) && !r@.contains(k) ==> r@.len() == batch
            && forall|i: int| 0 <= i < r@.len() ==> staler(reg@, #[trigger] r@[i], k),
{
    let n = reg.len();
    let mut out: Vec<ProxyKey> = Vec::new();
    while out.len() < batch
        invariant
            n == reg@.len(),
            out@.len() <= batch,
            forall|i: int| 0 <= i < out@.len() ==> due_key(reg@, #[trigger] out@[i], now, interval),
            forall|i: int, j: int| 0 <= i < j < out@.len() ==> staler(reg@, #[trigger] out@[i], #[trigger] out@[j]),
            forall|k: ProxyKey| due_key(reg@, k, now, interval) && !out@.contains(k)
                ==> forall|i: int| 0 <= i < out@.len() ==> staler(reg@, #[trigger] out@[i], k),
        ensures
            out@.len() <= batch,
            forall|i: int| 0 <= i < out@.len() ==> due_key(reg@, #[trigger] out@[i], now, interval),
            forall|i: int, j: int| 0 <= i < j < out@.len() ==> staler(reg@, #[trigger] out@[i], #[trigger] out@[j]),
            forall|k: ProxyKey| due_key(reg@, k, now, interval) && !out@.contains(k)
                ==> out@.len() == batch && forall|i: int| 0 <= i < out@.len() ==> staler(reg@, #[trigger] out@[i], k),
        decreases batch - out@.len(),
    {
        let mut best: Option<usize> = None;
        let mut i: usize = 0;
        while i < n
            invariant
                n == reg@.len(),
                i <= n,
                best matches Some(b) ==> b < i && due_key(reg@, ProxyKey { index: b }, now, interval)
                    && !out@.contains(ProxyKey { index: b }),
                forall|j: int| 0 <= j < i && due(#[trigger] reg@[j], now, interval)
                    && !out@.contains(ProxyKey { index: j as usize }) ==> (best matches Some(b) && (b == j
                    || staler(reg@, ProxyKey { index: b }, ProxyKey { index: j as usize }))),
            decreases n - i,
        {
            let k = ProxyKey { index: i };
            let rec = reg.get(k).unwrap();
            if is_due(rec, now, interval) && !contains_key(&out, k) {
                let better = match best {
                    None => true,
                    Some(b) => {
                        let lb = reg.get(ProxyKey { index: b }).unwrap().metrics.last_checked;
                        rec.metrics.last_checked < lb
                    },
                };
                if better {
                    best = Some(i);
                }
            }
            i = i + 1;
        }
        match best {
            None => {
                proof {
                    assert forall|k: ProxyKey| due_key(reg@, k, now, interval) implies out@.contains(k) by {
                        assert(k == ProxyKey { index: k.index as int as usize });
                        assert(due(reg@[k.index as int], now, interval));
                    }
                }
                break;
            },
            Some(b) => {
                let ghost before = out@;
                out.push(ProxyKey { index: b });
                proof {
                    assert forall|k: ProxyKey| due_key(reg@, k, now, interval) && !out@.contains(k)
                        implies forall|i: int| 0 <= i < out@.len() ==> staler(reg@, #[trigger] out@[i], k) by {
                        assert(!before.contains(k)) by {
                            if before.contains(k) {
                                let j = choose|j: int| 0 <= j < before.len() && before[j] == k;
                                assert(out@[j] == k);
                            }
                        }
                        assert(k == ProxyKey { index: k.index as int as usize });
                        assert(due(reg@[k.index as int], now, interval));
                        assert forall|i: int| 0 <= i < out@.len() implies staler(reg@, #[trigger] out@[i], k) by {
                            if i < before.len() {
                                assert(out@[i] == before[i]);
                            } else {
                                assert(k != ProxyKey { index: b }) by {
                                    assert(out@[before.len() as int] == ProxyKey { index: b });
                                }
                            }
                        }
                    }
                    assert forall|i: int, j: int| 0 <= i < j < out@.len() implies staler(reg@, #[trigger] out@[i], #[trigger] out@[j]) by {
                        if j < before.len() {
                            assert(out@[i] == before[i]);
                            assert(out@[j] == before[j]);
                        } else {
                            assert(out@[i] == before[i]);
                        }
                    }
                }
            },
        }
    }
    out
}

} // verus!
