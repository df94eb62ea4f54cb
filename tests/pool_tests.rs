use browser_core::engine::{profile_proxy_config_for, proxy_settings_for, ProxyType};
use browser_core::health::health_transition;
use browser_core::manager::{ProxyRotationManager, RotationError};
use browser_core::monitor::due_for_check;
use browser_core::proxy::{
    HealthState, ProxyCandidate, ProxyKey, ProxyProtocol, QuarantineReason, ValidationErrorKind,
};
use browser_core::quarantine::{backoff_secs, QuarantinePolicy};
use browser_core::registry::{geo_status, AdmissionError, GeoObservation, GeoStatus, PoolConfig, ProbeReport};
use browser_core::screenshot::{ScreenshotFormat, ScreenshotManager};
use browser_core::selector::{weight_of, RotationStrategy, RotationStrategyConfig};

fn config() -> PoolConfig {
    PoolConfig {
        failure_threshold: 3,
        max_city_distance_km: 100,
        geo_freshness_secs: 3600,
        quarantine: QuarantinePolicy { base_secs: 60, max_secs: 86_400 },
    }
}

fn strategy(s: RotationStrategy, percent: u8) -> RotationStrategyConfig {
    RotationStrategyConfig {
        strategy: s,
        target_country: None,
        secondary: RotationStrategy::RoundRobin,
        max_country_percent: percent,
    }
}

fn manager() -> ProxyRotationManager {
    ProxyRotationManager::new(config(), strategy(RotationStrategy::RoundRobin, 100))
}

fn candidate(host: &str, country: &str) -> ProxyCandidate {
    ProxyCandidate {
        host: host.to_string(),
        port: 8080,
        protocol: ProxyProtocol::Http,
        username: None,
        password: None,
        claimed_country: country.to_string(),
        claimed_city: None,
    }
}

fn ok_probe(observed: Option<&str>) -> ProbeReport {
    ProbeReport {
        success: true,
        latency_ms: 120,
        bandwidth_bps: 50_000,
        error: None,
        geo: observed.map(|c| GeoObservation {
            observed_country: c.to_string(),
            observed_city: None,
            distance_km: None,
        }),
    }
}

fn failed_probe() -> ProbeReport {
    ProbeReport {
        success: false,
        latency_ms: 0,
        bandwidth_bps: 0,
        error: Some(ValidationErrorKind::ConnectTimeout),
        geo: None,
    }
}

/// Admits `host` claiming `country` and makes it active with a matching geo check.
fn admit_active(m: &mut ProxyRotationManager, host: &str, country: &str, now: u64) -> ProxyKey {
    let k = m.admit_proxy(candidate(host, country), now).unwrap();
    assert_eq!(m.record_probe(k, ok_probe(Some(country)), now), Some(HealthState::Active));
    k
}

#[test]
fn geo_mismatch_quarantines_on_admission_checks() {
    let mut m = manager();
    let a = m.admit_proxy(candidate("10.0.0.1", "US"), 100).unwrap();
    let b = m.admit_proxy(candidate("10.0.0.2", "US"), 100).unwrap();
    let c = m.admit_proxy(candidate("10.0.0.3", "DE"), 100).unwrap();
    assert_eq!(m.record_probe(a, ok_probe(Some("US")), 100), Some(HealthState::Active));
    assert_eq!(m.record_probe(b, ok_probe(Some("DE")), 100), Some(HealthState::Quarantined));
    assert_eq!(m.record_probe(c, ok_probe(Some("DE")), 100), Some(HealthState::Active));

    let stats = m.stats();
    assert_eq!(stats.pool.total, 3);
    assert_eq!(stats.pool.active, 2);
    assert_eq!(stats.pool.quarantined, 1);
    assert_eq!(stats.pool.quarantine.count, 1);
    assert_eq!(stats.pool.quarantine.geo_mismatch, 1);
    assert_eq!(stats.pool.quarantine.consecutive_failures, 0);
    let q = m.registry.get(b).unwrap().quarantine.unwrap();
    assert_eq!(q.reason, QuarantineReason::GeoMismatch);
    assert_eq!(stats.pool.by_country.len(), 2);
    assert_eq!(stats.pool.by_country[0].country, "US");
    assert_eq!(stats.pool.by_country[0].proxies, 2);
    assert_eq!(stats.pool.by_country[1].country, "DE");
    assert_eq!(stats.pool.by_country[1].proxies, 1);
}

#[test]
fn three_failed_ticks_quarantine_and_early_tick_keeps_it() {
    let mut m = manager();
    let k = admit_active(&mut m, "10.0.0.1", "US", 0);
    assert_eq!(m.record_probe(k, failed_probe(), 60), Some(HealthState::Degraded));
    assert_eq!(m.record_probe(k, failed_probe(), 120), Some(HealthState::Degraded));
    assert_eq!(m.record_probe(k, failed_probe(), 180), Some(HealthState::Quarantined));
    let q = m.registry.get(k).unwrap().quarantine.unwrap();
    assert_eq!(q.reason, QuarantineReason::ConsecutiveFailures);
    assert_eq!(q.entered_at, 180);
    assert_eq!(q.release_at, 240);
    assert_eq!(m.registry.get(k).unwrap().metrics.consecutive_failures, 3);

    // a fourth tick before the release time changes nothing
    assert_eq!(m.sweep_quarantine(239), 0);
    assert_eq!(m.record_probe(k, ok_probe(Some("US")), 239), Some(HealthState::Quarantined));
    assert_eq!(m.registry.get(k).unwrap().state, HealthState::Quarantined);

    // at the release time it comes back untested, with the next backoff doubled
    assert_eq!(m.sweep_quarantine(240), 1);
    let rec = m.registry.get(k).unwrap();
    assert_eq!(rec.state, HealthState::Untested);
    assert!(rec.quarantine.is_none());
    assert!(rec.geo.is_none());
    assert_eq!(rec.quarantine_retries, 1);
    assert_eq!(rec.metrics.consecutive_failures, 0);
}

#[test]
fn two_sessions_share_a_single_proxy() {
    let mut m = manager();
    let k = admit_active(&mut m, "10.0.0.1", "US", 0);
    let v1 = m.rotate("tab-1", None, 0, 10).unwrap();
    assert_eq!(v1.key, k);
    let v2 = m
        .rotate("tab-2", Some(strategy(RotationStrategy::RoundRobin, 100)), 0, 11)
        .unwrap();
    assert_eq!(v2.key, k);
    assert_eq!(m.get_active("tab-1").unwrap().key, k);
    assert_eq!(m.get_active("tab-2").unwrap().key, k);
    assert_eq!(m.sessions.len(), 2);

    assert_eq!(m.release("tab-1"), Ok(()));
    assert!(m.get_active("tab-1").is_none());
    assert_eq!(m.get_active("tab-2").unwrap().key, k);
    assert_eq!(m.release("tab-1"), Err(RotationError::SessionNotFound));
}

#[test]
fn quarantined_proxy_is_never_selected() {
    let mut m = manager();
    let good = admit_active(&mut m, "10.0.0.1", "US", 0);
    let bad = m.admit_proxy(candidate("10.0.0.2", "US"), 0).unwrap();
    assert_eq!(m.record_probe(bad, ok_probe(Some("FR")), 0), Some(HealthState::Quarantined));
    for s in [
        RotationStrategy::RoundRobin,
        RotationStrategy::Random,
        RotationStrategy::LeastRecentlyUsed,
        RotationStrategy::HealthWeighted,
        RotationStrategy::GeoTargeted,
    ] {
        for draw in 0..5u64 {
            let v = m.rotate("tab", Some(strategy(s, 100)), draw, 10).unwrap();
            assert_eq!(v.key, good);
        }
    }
}

#[test]
fn round_robin_returns_first_again_after_full_cycle() {
    let mut m = manager();
    let keys: Vec<ProxyKey> = ["10.0.0.1", "10.0.0.2", "10.0.0.3"]
        .iter()
        .map(|h| admit_active(&mut m, h, "US", 0))
        .collect();
    let picks: Vec<ProxyKey> = (0..4)
        .map(|i| m.rotate(&format!("tab-{}", i), None, 0, 5).unwrap().key)
        .collect();
    assert_eq!(picks[0], keys[0]);
    assert_eq!(picks[1], keys[1]);
    assert_eq!(picks[2], keys[2]);
    assert_eq!(picks[3], picks[0]);
}

#[test]
fn diversity_keeps_each_country_within_half() {
    let mut m = manager();
    admit_active(&mut m, "10.0.0.1", "US", 0);
    admit_active(&mut m, "10.0.0.2", "US", 0);
    admit_active(&mut m, "10.0.0.3", "DE", 0);
    for k in 1..=8u64 {
        // draw 0 alone would always pick the first, US, proxy without the balancer
        m.rotate(&format!("tab-{}", k), Some(strategy(RotationStrategy::Random, 50)), 0, 10)
            .unwrap();
        let stats = m.stats();
        let bound_us = m
            .sessions
            .iter()
            .filter(|b| m.registry.get(b.key).unwrap().claimed_country == "US")
            .count() as u64;
        let bound_de = k - bound_us;
        assert!(bound_us <= (k + 1) / 2, "after {} bindings: {} US", k, bound_us);
        assert!(bound_de <= (k + 1) / 2, "after {} bindings: {} DE", k, bound_de);
        assert_eq!(stats.bound_sessions as u64, k);
    }
}

#[test]
fn diversity_falls_back_when_only_one_country_is_eligible() {
    let mut m = manager();
    admit_active(&mut m, "10.0.0.1", "US", 0);
    for k in 0..3 {
        let v = m.rotate(&format!("tab-{}", k), Some(strategy(RotationStrategy::HealthWeighted, 50)), 7, 10);
        assert!(v.is_ok());
    }
}

#[test]
fn empty_pool_reports_no_eligible_proxies() {
    let mut m = manager();
    assert_eq!(m.rotate("tab-1", None, 0, 0).err(), Some(RotationError::NoEligibleProxies));
    assert!(m.get_active("tab-1").is_none());
    // an untested proxy is not eligible either
    m.admit_proxy(candidate("10.0.0.1", "US"), 0).unwrap();
    assert_eq!(m.rotate("tab-1", None, 0, 0).err(), Some(RotationError::NoEligibleProxies));
}

#[test]
fn stale_geo_check_makes_proxy_ineligible() {
    let mut m = manager();
    admit_active(&mut m, "10.0.0.1", "US", 0);
    assert!(m.rotate("tab-1", None, 0, 3600).is_ok());
    assert_eq!(m.rotate("tab-2", None, 0, 3601).err(), Some(RotationError::NoEligibleProxies));
}

#[test]
fn admission_rejects_malformed_and_duplicates() {
    let mut m = manager();
    assert_eq!(m.admit_proxy(candidate("", "US"), 0), Err(AdmissionError::Malformed));
    let mut zero = candidate("10.0.0.1", "US");
    zero.port = 0;
    assert_eq!(m.admit_proxy(zero, 0), Err(AdmissionError::Malformed));
    assert_eq!(m.admit_proxy(candidate("10.0.0.1", "US"), 0), Ok(ProxyKey { index: 0 }));
    assert_eq!(m.admit_proxy(candidate("10.0.0.1", "DE"), 0), Err(AdmissionError::Duplicate));
    let mut socks = candidate("10.0.0.1", "US");
    socks.protocol = ProxyProtocol::Socks5;
    assert_eq!(m.admit_proxy(socks, 0), Ok(ProxyKey { index: 1 }));
    assert_eq!(m.registry.len(), 2);
}

#[test]
fn backoff_doubles_up_to_the_cap() {
    let p = QuarantinePolicy { base_secs: 60, max_secs: 86_400 };
    assert_eq!(backoff_secs(p, 0), 60);
    assert_eq!(backoff_secs(p, 1), 120);
    assert_eq!(backoff_secs(p, 2), 240);
    assert_eq!(backoff_secs(p, 10), 61_440);
    assert_eq!(backoff_secs(p, 11), 86_400);
    assert_eq!(backoff_secs(p, 4_000_000_000), 86_400);
    let mut prev = 0;
    for r in 0..20 {
        let d = backoff_secs(p, r);
        assert!(d > prev || d == 86_400);
        prev = d;
    }
}

#[test]
fn successive_quarantines_last_longer() {
    let mut m = manager();
    let k = admit_active(&mut m, "10.0.0.1", "US", 0);
    let mut now = 0;
    let mut lengths = Vec::new();
    for _ in 0..3 {
        assert_eq!(m.record_probe(k, ok_probe(Some("JP")), now), Some(HealthState::Quarantined));
        let q = m.registry.get(k).unwrap().quarantine.unwrap();
        assert!(q.release_at > q.entered_at);
        lengths.push(q.release_at - q.entered_at);
        now = q.release_at;
        assert_eq!(m.sweep_quarantine(now), 1);
    }
    assert_eq!(lengths, vec![60, 120, 240]);
}

#[test]
fn health_transition_rules() {
    let t = health_transition(HealthState::Untested, 0, true, false, 3);
    assert_eq!(t.state, HealthState::Active);
    let t = health_transition(HealthState::Active, 0, false, false, 3);
    assert_eq!((t.state, t.consecutive_failures, t.quarantine), (HealthState::Degraded, 1, None));
    let t = health_transition(HealthState::Degraded, 2, false, false, 3);
    assert_eq!(t.quarantine, Some(QuarantineReason::ConsecutiveFailures));
    let t = health_transition(HealthState::Degraded, 2, true, false, 3);
    assert_eq!((t.state, t.consecutive_failures), (HealthState::Active, 0));
    let t = health_transition(HealthState::Active, 0, true, true, 3);
    assert_eq!((t.state, t.quarantine), (HealthState::Quarantined, Some(QuarantineReason::GeoMismatch)));
    let t = health_transition(HealthState::Quarantined, 5, true, false, 3);
    assert_eq!((t.state, t.consecutive_failures, t.quarantine), (HealthState::Quarantined, 5, None));
}

#[test]
fn geo_city_distance_limit() {
    let mut m = manager();
    let k = m.admit_proxy(candidate("10.0.0.1", "US"), 0).unwrap();
    let mut far = ok_probe(Some("US"));
    far.geo.as_mut().unwrap().distance_km = Some(101);
    assert_eq!(m.record_probe(k, far, 0), Some(HealthState::Quarantined));
    let k2 = m.admit_proxy(candidate("10.0.0.2", "US"), 0).unwrap();
    let mut near = ok_probe(Some("US"));
    near.geo.as_mut().unwrap().distance_km = Some(100);
    assert_eq!(m.record_probe(k2, near, 0), Some(HealthState::Active));
}

#[test]
fn latency_average_weights_new_samples_by_a_quarter() {
    let mut m = manager();
    let k = m.admit_proxy(candidate("10.0.0.1", "US"), 0).unwrap();
    let mut p = ok_probe(None);
    p.latency_ms = 400;
    m.record_probe(k, p, 1);
    assert_eq!(m.registry.get(k).unwrap().metrics.ewma_latency_ms, 400);
    let mut p = ok_probe(None);
    p.latency_ms = 800;
    m.record_probe(k, p, 2);
    let metrics = m.registry.get(k).unwrap().metrics;
    assert_eq!(metrics.ewma_latency_ms, 500);
    assert_eq!(metrics.success_count, 2);
    assert_eq!(metrics.last_checked, 2);
    m.record_probe(k, failed_probe(), 3);
    let metrics = m.registry.get(k).unwrap().metrics;
    assert_eq!(metrics.failure_count, 1);
    assert_eq!(metrics.ewma_latency_ms, 500);
    assert_eq!(metrics.last_checked, 3);
}

#[test]
fn health_weight_values() {
    let mut m = manager();
    let k = m.admit_proxy(candidate("10.0.0.1", "US"), 0).unwrap();
    // unprobed: half success ratio, no latency
    assert_eq!(weight_of(m.registry.get(k).unwrap()), 501);
    let mut p = ok_probe(Some("US"));
    p.latency_ms = 1000;
    m.record_probe(k, p, 0);
    // full success ratio, half speed
    assert_eq!(weight_of(m.registry.get(k).unwrap()), 501);
    m.record_probe(k, failed_probe(), 1);
    // ratio 500, speed 500
    assert_eq!(weight_of(m.registry.get(k).unwrap()), 251);
}

#[test]
fn health_weighted_pick_follows_cumulative_weights() {
    let mut m = manager();
    let a = admit_active(&mut m, "10.0.0.1", "US", 0);
    let b = admit_active(&mut m, "10.0.0.2", "US", 0);
    let wa = weight_of(m.registry.get(a).unwrap());
    let cfg = strategy(RotationStrategy::HealthWeighted, 100);
    assert_eq!(m.rotate("t", Some(cfg.clone()), wa - 1, 1).unwrap().key, a);
    assert_eq!(m.rotate("t", Some(cfg), wa, 1).unwrap().key, b);
}

#[test]
fn least_recently_used_prefers_never_selected() {
    let mut m = manager();
    let a = admit_active(&mut m, "10.0.0.1", "US", 0);
    let b = admit_active(&mut m, "10.0.0.2", "US", 0);
    let cfg = strategy(RotationStrategy::LeastRecentlyUsed, 100);
    assert_eq!(m.rotate("t1", Some(cfg.clone()), 0, 5).unwrap().key, a);
    assert_eq!(m.rotate("t2", Some(cfg.clone()), 0, 6).unwrap().key, b);
    assert_eq!(m.rotate("t3", Some(cfg), 0, 7).unwrap().key, a);
}

#[test]
fn geo_targeted_picks_only_the_target_country() {
    let mut m = manager();
    admit_active(&mut m, "10.0.0.1", "US", 0);
    let de = admit_active(&mut m, "10.0.0.2", "DE", 0);
    let cfg = RotationStrategyConfig {
        strategy: RotationStrategy::GeoTargeted,
        target_country: Some("DE".to_string()),
        secondary: RotationStrategy::RoundRobin,
        max_country_percent: 100,
    };
    for i in 0..3 {
        assert_eq!(m.rotate(&format!("t{}", i), Some(cfg.clone()), 0, 1).unwrap().key, de);
    }
    let none = RotationStrategyConfig {
        strategy: RotationStrategy::GeoTargeted,
        target_country: Some("JP".to_string()),
        secondary: RotationStrategy::RoundRobin,
        max_country_percent: 100,
    };
    assert_eq!(m.rotate("t", Some(none), 0, 1).err(), Some(RotationError::NoEligibleProxies));
}

#[test]
fn monitor_batch_is_stalest_first_and_capped() {
    let mut m = manager();
    let a = m.admit_proxy(candidate("10.0.0.1", "US"), 0).unwrap();
    let b = m.admit_proxy(candidate("10.0.0.2", "US"), 0).unwrap();
    let c = m.admit_proxy(candidate("10.0.0.3", "US"), 0).unwrap();
    m.record_probe(a, ok_probe(None), 30);
    m.record_probe(b, ok_probe(None), 10);
    m.record_probe(c, ok_probe(None), 20);
    assert_eq!(due_for_check(&m.registry, 100, 60, 2), vec![b, c]);
    assert_eq!(due_for_check(&m.registry, 100, 60, 5), vec![b, c, a]);
    assert_eq!(due_for_check(&m.registry, 85, 60, 5), vec![b, c]);
    assert!(m.registry.begin_validation(ProxyKey { index: 0 }) == false);
}

#[test]
fn rotated_proxy_feeds_tab_and_profile_settings() {
    let mut m = manager();
    let mut c = candidate("10.0.0.9", "US");
    c.protocol = ProxyProtocol::Socks5;
    c.port = 1080;
    c.username = Some("u".to_string());
    let k = m.admit_proxy(c, 0).unwrap();
    m.record_probe(k, ok_probe(Some("US")), 0);
    let v = m.rotate("tab", None, 0, 0).unwrap();
    let s = proxy_settings_for(&v);
    assert_eq!(s.proxy_type, ProxyType::Socks5);
    assert_eq!(s.host, Some("10.0.0.9".to_string()));
    assert_eq!(s.port, Some(1080));
    assert_eq!(s.username, Some("u".to_string()));
    let p = profile_proxy_config_for(&v);
    assert_eq!(p.protocol, "socks5");
    assert_eq!(p.port, 1080);
}

#[test]
fn screenshot_format_names() {
    assert_eq!(ScreenshotFormat::Png.extension(), "png");
    assert_eq!(ScreenshotFormat::Jpeg.extension(), "jpg");
    assert_eq!(ScreenshotFormat::WebP.extension(), "webp");
    assert_eq!(ScreenshotFormat::Png.mime_type(), "image/png");
    assert_eq!(ScreenshotFormat::Jpeg.mime_type(), "image/jpeg");
    assert_eq!(ScreenshotFormat::WebP.mime_type(), "image/webp");
    assert_eq!(ScreenshotFormat::default(), ScreenshotFormat::Png);
    let m = ScreenshotManager::new(std::path::PathBuf::from("./shots"));
    assert_eq!(m.output_dir, std::path::PathBuf::from("./shots"));
}

#[test]
fn geo_status_over_time() {
    let mut m = manager();
    let k = m.admit_proxy(candidate("10.0.0.1", "US"), 0).unwrap();
    assert_eq!(geo_status(m.registry.get(k).unwrap(), 0, 3600), GeoStatus::Unverified);
    assert!(m.registry.begin_validation(k));
    assert_eq!(m.registry.get(k).unwrap().state, HealthState::Validating);
    m.record_probe(k, ok_probe(Some("US")), 100);
    assert_eq!(m.registry.get(k).unwrap().state, HealthState::Active);
    assert_eq!(geo_status(m.registry.get(k).unwrap(), 3700, 3600), GeoStatus::Verified);
    assert_eq!(geo_status(m.registry.get(k).unwrap(), 3701, 3600), GeoStatus::Stale);
    m.record_probe(k, ok_probe(Some("CA")), 3800);
    assert_eq!(geo_status(m.registry.get(k).unwrap(), 3800, 3600), GeoStatus::Mismatch);
}

#[test]
fn geo_targeted_applies_its_secondary_strategy() {
    let mut m = manager();
    admit_active(&mut m, "10.0.0.1", "US", 0);
    let de1 = admit_active(&mut m, "10.0.0.2", "DE", 0);
    let de2 = admit_active(&mut m, "10.0.0.3", "DE", 0);
    let cfg = RotationStrategyConfig {
        strategy: RotationStrategy::GeoTargeted,
        target_country: Some("DE".to_string()),
        secondary: RotationStrategy::LeastRecentlyUsed,
        max_country_percent: 100,
    };
    assert_eq!(m.rotate("t1", Some(cfg.clone()), 0, 5).unwrap().key, de1);
    assert_eq!(m.rotate("t2", Some(cfg.clone()), 0, 6).unwrap().key, de2);
    assert_eq!(m.rotate("t3", Some(cfg), 0, 7).unwrap().key, de1);
    // a random secondary draws among the target country only
    let random = RotationStrategyConfig {
        strategy: RotationStrategy::GeoTargeted,
        target_country: Some("DE".to_string()),
        secondary: RotationStrategy::Random,
        max_country_percent: 100,
    };
    assert_eq!(m.rotate("t4", Some(random.clone()), 1, 8).unwrap().key, de2);
    assert_eq!(m.rotate("t5", Some(random), 2, 8).unwrap().key, de1);
}

#[test]
fn geo_mismatch_quarantines_a_dead_record_too() {
    let t = health_transition(HealthState::Dead, 0, true, true, 3);
    assert_eq!((t.state, t.quarantine), (HealthState::Quarantined, Some(QuarantineReason::GeoMismatch)));
    let t = health_transition(HealthState::Dead, 0, true, false, 3);
    assert_eq!((t.state, t.quarantine), (HealthState::Dead, None));
}

#[test]
fn sweep_counts_released_records() {
    let mut m = manager();
    let a = admit_active(&mut m, "10.0.0.1", "US", 0);
    let b = admit_active(&mut m, "10.0.0.2", "US", 0);
    admit_active(&mut m, "10.0.0.3", "US", 0);
    m.record_probe(a, ok_probe(Some("FR")), 10);
    m.record_probe(b, ok_probe(Some("FR")), 20);
    assert_eq!(m.sweep_quarantine(69), 0);
    assert_eq!(m.sweep_quarantine(80), 2);
    assert_eq!(m.sweep_quarantine(80), 0);
}
