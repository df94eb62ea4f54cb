//! The rotation manager: the public façade that ingests candidates, binds sessions to
//! selected proxies, and reports on the pool.

use vstd::prelude::*;
use vstd::string::StringExecFns;
use crate::proxy::{ProxyCandidate, ProxyKey, ProxyRecord, HealthState};
use crate::registry::{AdmissionError, PoolConfig, ProbeReport, ProxyRegistry, probed};
use crate::quarantine::{due_for_release, release_due, released};
use crate::stats::{counts_match, pool_stats, PoolStats};
use crate::selector::{
    candidates, cursor_after, effective_strategy, select_spec, strategy_country, RotationStrategyConfig, SmartSelector,
};

verus! {

/// Errors a rotation request can report to its caller.
#[derive(Debug, Clone, Copy, PartialEq, Eq, Structural)]
pub enum RotationError {
    /// No proxy is eligible after filtering.
    NoEligibleProxies,
    /// The session has no binding.
    SessionNotFound,
}

/// A session or tab bound to a proxy.
#[derive(Debug)]
pub struct SessionBinding {
    pub session_id: String,
    pub key: ProxyKey,
    pub bound_at: u64,
}

/// A read snapshot of a record, with its key.
#[derive(Debug)]
pub struct ProxyRecordView {
    pub key: ProxyKey,
    pub record: ProxyRecord,
}

/// What `stats` reports: the pool's counts and how many sessions are bound.
#[derive(Debug)]
pub struct AggregateStats {
    pub pool: PoolStats,
    pub bound_sessions: usize,
}

/// Position of the binding of session `id`, searching from the back.
pub open spec fn session_position(sessions: Seq<SessionBinding>, id: Seq<char>) -> Option<int>
    decreases sessions.len(),
{
    if sessions.len() == 0 {
        None
    } else if sessions.last().session_id@ == id {
        Some(sessions.len() - 1)
    } else {
        session_position(sessions.drop_last(), id)
    }
}

/// Keys of the first `n` bindings, in order, leaving out position `skip`.
pub open spec fn keys_except(sessions: Seq<SessionBinding>, skip: int, n: nat) -> Seq<ProxyKey>
    decreases n,
{
    if n == 0 {
        Seq::empty()
    } else {
        let r = keys_except(sessions, skip, (n - 1) as nat);
        if n - 1 == skip {
            r
        } else {
            r.push(sessions[n - 1].key)
        }
    }
}

/// Keys bound to every session but `id`: what the diversity balancer counts when `id` rotates.
pub open spec fn keys_of_others(sessions: Seq<SessionBinding>, id: Seq<char>) -> Seq<ProxyKey> {
    keys_except(
        sessions,
        match session_position(sessions, id) {
            Some(j) => j,
            None => -1,
        },
        sessions.len(),
    )
}

/// The bindings without the one of session `id`.
pub open spec fn without_session(sessions: Seq<SessionBinding>, id: Seq<char>) -> Seq<SessionBinding> {
    match session_position(sessions, id) {
        Some(j) => sessions.remove(j),
        None => sessions,
    }
}

proof fn lemma_session_position(sessions: Seq<SessionBinding>, id: Seq<char>)
    ensures
        session_position(sessions, id) matches Some(j) ==> 0 <= j < sessions.len()
            && sessions[j].session_id@ == id,
        session_position(sessions, id) is None ==> forall|m: int| 0 <= m < sessions.len()
            ==> (#[trigger] sessions[m]).session_id@ != id,
    decreases sessions.len(),
{
    if sessions.len() > 0 && sessions.last().session_id@ != id {
        lemma_session_position(sessions.drop_last(), id);
        if session_position(sessions, id) is None {
            assert forall|m: int| 0 <= m < sessions.len() implies (#[trigger] sessions[m]).session_id@ != id by {
                if m < sessions.len() - 1 {
                    assert(sessions.drop_last()[m] == sessions[m]);
                }
            }
        }
    }
}

/// Orchestrates the registry, the selector and the session bindings.
pub struct ProxyRotationManager {
    pub registry: ProxyRegistry,
    pub selector: SmartSelector,
    pub sessions: Vec<SessionBinding>,
    pub config: PoolConfig,
    pub default_strategy: RotationStrategyConfig,
}

impl ProxyRotationManager {
    /// The registry and configuration are well formed and every binding points at a record.
    pub open spec fn wf(&self) -> bool {
        &&& self.registry.wf()
        &&& self.config.wf()
        &&& forall|i: int| 0 <= i < self.sessions@.len() ==> (#[trigger] self.sessions@[i]).key.index
            < self.registry@.len()
        &&& forall|i: int, j: int| 0 <= i < j < self.sessions@.len()
            ==> (#[trigger] self.sessions@[i]).session_id@ != (#[trigger] self.sessions@[j]).session_id@
    }

    /// Position of the binding of `id` (see `session_position`).
    fn find_session(&self, id: &String) -> (r: Option<usize>)
        ensures
            r matches Some(j) ==> session_position(self.sessions@, id@) == Some(j as int),
            r is None ==> session_position(self.sessions@, id@) is None,
    {
        let mut i: usize = self.sessions.len();
        proof {
            assert(self.sessions@.take(i as int) =~= self.sessions@);
        }
        while i > 0
            invariant
                i <= self.sessions@.len(),
                session_position(self.sessions@, id@) == session_position(self.sessions@.take(i as int), id@),
            decreases i,
        {
            proof {
                assert(self.sessions@.take(i as int).drop_last() =~= self.sessions@.take(i - 1));
            }
            if self.sessions[i - 1].session_id == *id {
                return Some(i - 1);
            }
            i = i - 1;
        }
        None
    }

    /// Keys bound to every session but position `skip` (see `keys_except`).
    fn bound_keys_except(&self, skip: Option<usize>) -> (r: Vec<ProxyKey>)
        ensures
            r@ == keys_except(self.sessions@, match skip { Some(j) => j as int, None => -1 }, self.sessions@.len()),
    {
        let ghost sk: int = match skip { Some(j) => j as int, None => -1 };
        let mut out: Vec<ProxyKey> = Vec::new();
        let mut i: usize = 0;
        while i < self.sessions.len()
            invariant
                i <= self.sessions@.len(),
                sk == match skip { Some(j) => j as int, None => -1 },
                out@ == keys_except(self.sessions@, sk, i as nat),
            decreases self.sessions@.len() - i,
        {
            let skipped = match skip {
                Some(j) => j == i,
                None => false,
            };
            if !skipped {
                out.push(self.sessions[i].key);
            }
            i = i + 1;
        }
        out
    }

    /// Binds session `session_id` to a proxy chosen by `strategy_override`, or by the
    /// default strategy, replacing its earlier binding; `draw` drives the random
    /// strategies. Fails with `NoEligibleProxies`, changing nothing, when no proxy is
    /// eligible.
    pub fn rotate(
        &mut self,
        session_id: &str,
        strategy_override: Option<RotationStrategyConfig>,
        draw: u64,
        now: u64,
    ) -> (r: Result<ProxyRecordView, RotationError>)
        requires
            old(self).wf(),
        ensures
            final(self).wf(),
            final(self).config == old(self).config,
            final(self).default_strategy == old(self).default_strategy,
            ({
                let cfg = match strategy_override {
                    Some(c) => c,
                    None => old(self).default_strategy,
                };
                let picked = select_spec(
                    old(self).registry@,
                    cfg,
                    old(self).selector.cursor,
                    Seq::empty(),
                    keys_of_others(old(self).sessions@, session_id@),
                    draw,
                    now,
                    old(self).config.geo_freshness_secs,
                );
                &&& picked is None <==> candidates(
                    old(self).registry@,
                    Seq::empty(),
                    strategy_country(cfg),
                    now,
                    old(self).config.geo_freshness_secs,
                ).len() == 0
                &&& picked is None ==> {
                    &&& r == Err::<ProxyRecordView, RotationError>(RotationError::NoEligibleProxies)
                    &&& final(self).registry@ == old(self).registry@
                    &&& final(self).sessions@ == old(self).sessions@
                    &&& final(self).selector == old(self).selector
                }
                &&& picked matches Some(k) ==> {
                    &&& r matches Ok(v) && v.key == k && v.record == final(self).registry@[k.index as int]
                    &&& final(self).registry@ == old(self).registry@.update(
                        k.index as int,
                        ProxyRecord { last_selected: Some(now), ..old(self).registry@[k.index as int] },
                    )
                    &&& final(self).sessions@.len() == without_session(old(self).sessions@, session_id@).len() + 1
                    &&& final(self).sessions@.drop_last() == without_session(old(self).sessions@, session_id@)
                    &&& final(self).sessions@.last().session_id@ == session_id@
                    &&& final(self).sessions@.last().key == k
                    &&& final(self).sessions@.last().bound_at == now
                    &&& final(self).selector.cursor == cursor_after(effective_strategy(cfg), old(self).selector.cursor, picked)
                }
            }),
    {
        let id = <String as StringExecFns>::from_str(session_id);
        let pos = self.find_session(&id);
        let others = self.bound_keys_except(pos);
        let cfg = match strategy_override {
            Some(c) => c,
            None => self.default_strategy.copy(),
        };
        let empty: Vec<ProxyKey> = Vec::new();
        let freshness = self.config.geo_freshness_secs;
        let picked = self.selector.select(&self.registry, &cfg, &empty, &others, draw, now, freshness);
        let _n = self.registry.len();
        proof {
            assert(empty@ =~= Seq::<ProxyKey>::empty());
            lemma_session_position(self.sessions@, id@);
        }
        match picked {
            None => Err(RotationError::NoEligibleProxies),
            Some(k) => {
                proof {
                    crate::selector::lemma_pick_is_candidate_in_range(
                        self.registry@, cfg, old(self).selector.cursor, empty@, others@, draw, now, freshness);
                }
                self.registry.mark_selected(k, now);
                let ghost before = self.sessions@;
                match pos {
                    Some(j) => {
                        self.sessions.remove(j);
                    },
                    None => {},
                }
                let ghost kept = self.sessions@;
                self.sessions.push(SessionBinding { session_id: id, key: k, bound_at: now });
                proof {
                    assert(self.sessions@.drop_last() =~= kept);
                    assert forall|i: int| 0 <= i < kept.len() implies (#[trigger] kept[i]).session_id@ != id@ by {
                        match pos {
                            Some(j) => {
                                if i < j {
                                    assert(kept[i] == before[i]);
                                } else {
                                    assert(kept[i] == before[i + 1]);
                                }
                            },
                            None => {},
                        }
                    }
                    assert forall|a: int, b: int| 0 <= a < b < self.sessions@.len()
                        implies (#[trigger] self.sessions@[a]).session_id@ != (#[trigger] self.sessions@[b]).session_id@ by {
                        if b == self.sessions@.len() - 1 {
                            assert(self.sessions@[a] == kept[a]);
                        } else {
                            match pos {
                                Some(j) => {
                                    let a0 = if a < j { a } else { a + 1 };
                                    let b0 = if b < j { b } else { b + 1 };
                                    assert(self.sessions@[a] == before[a0]);
                                    assert(self.sessions@[b] == before[b0]);
                                },
                                None => {
                                    assert(self.sessions@[a] == before[a]);
                                    assert(self.sessions@[b] == before[b]);
                                },
                            }
                        }
                    }
                    assert forall|i: int| 0 <= i < self.sessions@.len() implies (#[trigger] self.sessions@[i]).key.index
                        < self.registry@.len() by {
                        if i < self.sessions@.len() - 1 {
                            match pos {
                                Some(j) => {
                                    let i0 = if i < j { i } else { i + 1 };
                                    assert(self.sessions@[i] == before[i0]);
                                },
                                None => {
                                    assert(self.sessions@[i] == before[i]);
                                },
                            }
                        }
                    }
                }
                let record = self.registry.get(k).unwrap().copy();
                Ok(ProxyRecordView { key: k, record })
            },
        }
    }

    /// Pool size by state, quarantine counts by reason, the per-country distribution,
    /// and the number of bound sessions.
    pub fn stats(&self) -> (r: AggregateStats)
        ensures
            counts_match(self.registry@, r.pool),
            r.bound_sessions == self.sessions@.len(),
    {
        AggregateStats { pool: pool_stats(&self.registry), bound_sessions: self.sessions.len() }
    }

    /// The proxy bound to session `session_id`, if any.
    pub fn get_active(&self, session_id: &str) -> (r: Option<ProxyRecordView>)
        requires
            self.wf(),
        ensures
            match session_position(self.sessions@, session_id@) {
                Some(j) => r matches Some(v) && v.key == self.sessions@[j].key
                    && v.record == self.registry@[v.key.index as int],
                None => r is None,
            },
    {
        let id = <String as StringExecFns>::from_str(session_id);
        match self.find_session(&id) {
            Some(j) => {
                proof {
                    lemma_session_position(self.sessions@, id@);
                }
                let k = self.sessions[j].key;
                let record = self.registry.get(k).unwrap().copy();
                Some(ProxyRecordView { key: k, record })
            },
            None => None,
        }
    }

    /// Removes the binding of session `session_id`; fails with `SessionNotFound`,
    /// changing nothing, when it has none.
    pub fn release(&mut self, session_id: &str) -> (r: Result<(), RotationError>)
        requires
            old(self).wf(),
        ensures
            final(self).wf(),
            final(self).registry@ == old(self).registry@,
            final(self).selector == old(self).selector,
            final(self).config == old(self).config,
            final(self).default_strategy == old(self).default_strategy,
            final(self).sessions@ == without_session(old(self).sessions@, session_id@),
            r is Err <==> session_position(old(self).sessions@, session_id@) is None,
            r is Err ==> r == Err::<(), RotationError>(RotationError::SessionNotFound),
    {
        let id = <String as StringExecFns>::from_str(session_id);
        match self.find_session(&id) {
            Some(j) => {
                proof {
                    lemma_session_position(self.sessions@, id@);
                }
                let ghost before = self.sessions@;
                self.sessions.remove(j);
                proof {
                    assert forall|a: int, b: int| 0 <= a < b < self.sessions@.len()
                        implies (#[trigger] self.sessions@[a]).session_id@ != (#[trigger] self.sessions@[b]).session_id@ by {
                        let a0 = if a < j { a } else { a + 1 };
                        let b0 = if b < j { b } else { b + 1 };
                        assert(self.sessions@[a] == before[a0]);
                        assert(self.sessions@[b] == before[b0]);
                    }
                    assert forall|i: int| 0 <= i < self.sessions@.len() implies (#[trigger] self.sessions@[i]).key.index
                        < self.registry@.len() by {
                        let i0 = if i < j { i } else { i + 1 };
                        assert(self.sessions@[i] == before[i0]);
                    }
                }
                Ok(())
            },
            None => Err(RotationError::SessionNotFound),
        }
    }

    /// A manager with an empty pool and no sessions.
    pub fn new(config: PoolConfig, default_strategy: RotationStrategyConfig) -> (r: Self)
        requires
            config.wf(),
        ensures
            r.wf(),
            r.registry@.len() == 0,
            r.sessions@.len() == 0,
            r.selector.cursor.is_none(),
            r.config == config,
            r.default_strategy == default_strategy,
    {
        ProxyRotationManager {
            registry: ProxyRegistry::new(),
            selector: SmartSelector::new(),
            sessions: Vec::new(),
            config,
            default_strategy,
        }
    }

    /// Admits a candidate into the pool (see `ProxyRegistry::admit_proxy`).
    pub fn admit_proxy(&mut self, c: ProxyCandidate, now: u64) -> (r: Result<ProxyKey, AdmissionError>)
        requires
            old(self).wf(),
            old(self).registry@.len() < usize::MAX,
        ensures
            final(self).wf(),
            (c.host@.len() == 0 || c.port == 0) ==> r == Err::<ProxyKey, AdmissionError>(AdmissionError::Malformed),
            !(c.host@.len() == 0 || c.port == 0) && (exists|i: int|
                0 <= i < old(self).registry@.len() && old(self).registry@[i].same_identity(c.host@, c.port, c.protocol))
                ==> r == Err::<ProxyKey, AdmissionError>(AdmissionError::Duplicate),
            !(c.host@.len() == 0 || c.port == 0) && !(exists|i: int|
                0 <= i < old(self).registry@.len() && old(self).registry@[i].same_identity(c.host@, c.port, c.protocol))
                ==> r == Ok::<ProxyKey, AdmissionError>(ProxyKey { index: old(self).registry@.len() as usize }),
            r.is_err() ==> final(self).registry@ == old(self).registry@,
            r.is_ok() ==> final(self).registry@ == old(self).registry@.push(crate::proxy::admitted_record(c, now)),
            final(self).sessions@ == old(self).sessions@,
            final(self).selector == old(self).selector,
            final(self).config == old(self).config,
            final(self).default_strategy == old(self).default_strategy,
    {
        let r = self.registry.admit_proxy(c, now);
        r
    }

    /// Commits a probe outcome of `key` (see `ProxyRegistry::record_probe`).
    pub fn record_probe(&mut self, key: ProxyKey, report: ProbeReport, now: u64) -> (r: Option<HealthState>)
        requires
            old(self).wf(),
            now as int + old(self).config.quarantine.max_secs as int <= u64::MAX,
        ensures
            final(self).wf(),
            key.index >= old(self).registry@.len() ==> r.is_none() && final(self).registry@ == old(self).registry@,
            key.index < old(self).registry@.len() ==> final(self).registry@ == old(self).registry@.update(
                key.index as int,
                probed(old(self).registry@[key.index as int], report, now, old(self).config),
            ) && r == Some(final(self).registry@[key.index as int].state),
            final(self).sessions@ == old(self).sessions@,
            final(self).selector == old(self).selector,
            final(self).config == old(self).config,
            final(self).default_strategy == old(self).default_strategy,
    {
        let cfg = self.config;
        self.registry.record_probe(key, report, now, cfg)
    }

    /// Releases the quarantined records whose time has come; returns how many.
    pub fn sweep_quarantine(&mut self, now: u64) -> (r: usize)
        requires
            old(self).wf(),
        ensures
            final(self).wf(),
            r == old(self).registry@.filter(due_for_release(now)).len(),
            final(self).registry@.len() == old(self).registry@.len(),
            forall|i: int| 0 <= i < old(self).registry@.len() ==> final(self).registry@[i] == if release_due(
                old(self).registry@[i],
                now,
            ) {
                released(old(self).registry@[i])
            } else {
                old(self).registry@[i]
            },
            final(self).sessions@ == old(self).sessions@,
            final(self).selector == old(self).selector,
            final(self).config == old(self).config,
            final(self).default_strategy == old(self).default_strategy,
    {
        self.registry.sweep_releases(now)
    }
}

} // verus!
