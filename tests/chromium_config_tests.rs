use browser_core::engine::{BrowserEngineType, CookieIsolationMode, FingerprintConfig, ProxyAuth};

#[test]
fn test_browser_engine_type_default() {
    let engine_type = BrowserEngineType::default();
    assert_eq!(engine_type, BrowserEngineType::System);
}

#[test]
fn test_browser_engine_type_variants() {
    let system = BrowserEngineType::System;
    let chromium = BrowserEngineType::IntegratedChromium;

    assert_ne!(system, chromium);
    assert_eq!(system, BrowserEngineType::System);
    assert_eq!(chromium, BrowserEngineType::IntegratedChromium);
}

#[test]
fn test_fingerprint_config_default() {
    let config = FingerprintConfig::default();

    assert!(config.randomize_canvas);
    assert!(config.randomize_webgl);
    assert!(config.randomize_audio);
    assert!(!config.spoof_screen);
    assert_eq!(config.screen_width, 1920);
    assert_eq!(config.screen_height, 1080);
    assert!(!config.spoof_hardware_concurrency);
    assert_eq!(config.hardware_concurrency, 8);
    assert!(!config.spoof_device_memory);
    assert_eq!(config.device_memory, 8);
    assert!(!config.spoof_timezone);
    assert_eq!(config.timezone, "America/New_York");
    assert!(!config.spoof_language);
    assert_eq!(config.language, "en-US");
    assert!(!config.spoof_platform);
    assert_eq!(config.platform, "Win32");
}

#[test]
fn test_fingerprint_config_custom() {
    let config = FingerprintConfig {
        randomize_canvas: false,
        randomize_webgl: false,
        randomize_audio: false,
        spoof_screen: true,
        screen_width: 2560,
        screen_height: 1440,
        spoof_hardware_concurrency: true,
        hardware_concurrency: 16,
        spoof_device_memory: true,
        device_memory: 32,
        spoof_timezone: true,
        timezone: "Europe/London".to_string(),
        spoof_language: true,
        language: "en-GB".to_string(),
        spoof_platform: true,
        platform: "MacIntel".to_string(),
    };

    assert!(!config.randomize_canvas);
    assert!(config.spoof_screen);
    assert_eq!(config.screen_width, 2560);
    assert_eq!(config.screen_height, 1440);
    assert_eq!(config.hardware_concurrency, 16);
    assert_eq!(config.device_memory, 32);
    assert_eq!(config.timezone, "Europe/London");
    assert_eq!(config.language, "en-GB");
    assert_eq!(config.platform, "MacIntel");
}

#[test]
fn test_proxy_auth() {
    let auth = ProxyAuth {
        username: "testuser".to_string(),
        password: "testpass".to_string(),
    };

    assert_eq!(auth.username, "testuser");
    assert_eq!(auth.password, "testpass");
}

#[test]
fn test_cookie_isolation_mode_default() {
    let mode = CookieIsolationMode::default();
    assert!(matches!(mode, CookieIsolationMode::Shared));
}

#[test]
fn test_cookie_isolation_mode_variants() {
    let modes = vec![
        CookieIsolationMode::Shared,
        CookieIsolationMode::PerTab,
        CookieIsolationMode::PerDomain,
        CookieIsolationMode::FullContext,
    ];

    assert_eq!(modes.len(), 4);
}

#[test]
fn test_engine_capabilities() {
    let caps = browser_core::engine::EngineCapabilities {
        per_tab_proxy: true,
        webrtc_protection: true,
        stealth_mode: true,
        dns_over_https: true,
        custom_user_agent: true,
        javascript_injection: true,
        network_interception: true,
        cookie_management: true,
    };

    assert!(caps.per_tab_proxy);
    assert!(caps.webrtc_protection);
    assert!(caps.stealth_mode);
    assert!(caps.dns_over_https);
    assert!(caps.custom_user_agent);
    assert!(caps.javascript_injection);
    assert!(caps.network_interception);
    assert!(caps.cookie_management);
}
