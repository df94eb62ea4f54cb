//! Data types of the browser engine layer: engine choice, fingerprint and cookie
//! settings, tabs, and the proxy settings a tab is opened with.

use vstd::prelude::*;
use vstd::string::StringExecFns;
use crate::manager::ProxyRecordView;
use crate::proxy::{copy_opt_string, ProxyProtocol};

verus! {

/// Which browser engine renders pages.
#[derive(Debug, Clone, Copy, PartialEq, Eq, Structural)]
pub enum BrowserEngineType {
    /// The platform's own webview.
    System,
    /// The Chromium engine driven over its DevTools protocol.
    IntegratedChromium,
}

impl Default for BrowserEngineType {
    fn default() -> (r: Self)
        ensures
            r == BrowserEngineType::System,
    {
        BrowserEngineType::System
    }
}

/// How cookies are separated between tabs.
#[derive(Debug, Clone, Copy, PartialEq, Eq, Structural)]
pub enum CookieIsolationMode {
    /// All tabs share one cookie jar.
    Shared,
    PerTab,
    PerDomain,
    FullContext,
}

impl Default for CookieIsolationMode {
    fn default() -> (r: Self)
        ensures
            r == CookieIsolationMode::Shared,
    {
        CookieIsolationMode::Shared
    }
}

/// Which browser fingerprint surfaces are randomised or spoofed, and the spoofed values.
#[derive(Debug, Clone)]
pub struct FingerprintConfig {
    pub randomize_canvas: bool,
    pub randomize_webgl: bool,
    pub randomize_audio: bool,
    pub spoof_screen: bool,
    pub screen_width: u32,
    pub screen_height: u32,
    pub spoof_hardware_concurrency: bool,
    pub hardware_concurrency: u32,
    pub spoof_device_memory: bool,
    pub device_memory: u32,
    pub spoof_timezone: bool,
    pub timezone: String,
    pub spoof_language: bool,
    pub language: String,
    pub spoof_platform: bool,
    pub platform: String,
}

impl Default for FingerprintConfig {
    /// Randomises canvas, WebGL and audio; spoofs nothing, with the values of a common
    /// desktop (1920x1080, 8 cores, 8 GB, New York time, US English, Windows).
    fn default() -> (r: Self)
        ensures
            r.randomize_canvas && r.randomize_webgl && r.randomize_audio,
            !r.spoof_screen && !r.spoof_hardware_concurrency && !r.spoof_device_memory,
            !r.spoof_timezone && !r.spoof_language && !r.spoof_platform,
            r.screen_width == 1920 && r.screen_height == 1080,
            r.hardware_concurrency == 8 && r.device_memory == 8,
            r.timezone@ == "America/New_York"@,
            r.language@ == "en-US"@,
            r.platform@ == "Win32"@,
    {
        FingerprintConfig {
            randomize_canvas: true,
            randomize_webgl: true,
            randomize_audio: true,
            spoof_screen: false,
            screen_width: 1920,
            screen_height: 1080,
            spoof_hardware_concurrency: false,
            hardware_concurrency: 8,
            spoof_device_memory: false,
            device_memory: 8,
            spoof_timezone: false,
            timezone: <String as StringExecFns>::from_str("America/New_York"),
            spoof_language: false,
            language: <String as StringExecFns>::from_str("en-US"),
            spoof_platform: false,
            platform: <String as StringExecFns>::from_str("Win32"),
        }
    }
}

/// Credentials for an authenticating proxy.
#[derive(Debug, Clone)]
pub struct ProxyAuth {
    pub username: String,
    pub password: String,
}

/// What an engine can do.
#[derive(Debug, Clone, Copy, PartialEq, Eq, Structural)]
pub struct EngineCapabilities {
    pub per_tab_proxy: bool,
    pub webrtc_protection: bool,
    pub stealth_mode: bool,
    pub dns_over_https: bool,
    pub custom_user_agent: bool,
    pub javascript_injection: bool,
    pub network_interception: bool,
    pub cookie_management: bool,
}

/// Kind of proxy a tab routes through.
#[derive(Debug, Clone, Copy, PartialEq, Eq, Structural)]
pub enum ProxyType {
    Direct,
    Http,
    Https,
    Socks5,
}

/// Connection parameters of the proxy a tab uses.
#[derive(Debug, Clone)]
pub struct ProxySettings {
    pub proxy_type: ProxyType,
    pub host: Option<String>,
    pub port: Option<u16>,
    pub username: Option<String>,
    pub password: Option<String>,
    pub dns_servers: Vec<String>,
    pub bypass_list: Vec<String>,
}

/// The tab-level proxy kind of a pool protocol.
pub open spec fn proxy_type_of(p: ProxyProtocol) -> ProxyType {
    match p {
        ProxyProtocol::Http => ProxyType::Http,
        ProxyProtocol::Https => ProxyType::Https,
        ProxyProtocol::Socks5 => ProxyType::Socks5,
    }
}

/// The settings a tab is opened with to route through the selected proxy `view`.
pub fn proxy_settings_for(view: &ProxyRecordView) -> (r: ProxySettings)
    ensures
        r.proxy_type == proxy_type_of(view.record.protocol),
        r.host == Some(view.record.host),
        r.port == Some(view.record.port),
        r.username == view.record.username,
        r.password == view.record.password,
        r.dns_servers@.len() == 0,
        r.bypass_list@.len() == 0,
{
    let proxy_type = match view.record.protocol {
        ProxyProtocol::Http => ProxyType::Http,
        ProxyProtocol::Https => ProxyType::Https,
        ProxyProtocol::Socks5 => ProxyType::Socks5,
    };
    ProxySettings {
        proxy_type,
        host: Some(view.record.host.clone()),
        port: Some(view.record.port),
        username: copy_opt_string(&view.record.username),
        password: copy_opt_string(&view.record.password),
        dns_servers: Vec::new(),
        bypass_list: Vec::new(),
    }
}

/// Name of a pool protocol as a profile stores it.
pub open spec fn protocol_name(p: ProxyProtocol) -> Seq<char> {
    match p {
        ProxyProtocol::Http => "http"@,
        ProxyProtocol::Https => "https"@,
        ProxyProtocol::Socks5 => "socks5"@,
    }
}

/// The proxy a browser profile is configured with.
#[derive(Debug, Clone)]
pub struct ProfileProxyConfig {
    pub host: String,
    pub port: u16,
    pub protocol: String,
    pub username: Option<String>,
    pub password: Option<String>,
}

/// The profile configuration that routes through the selected proxy `view`.
pub fn profile_proxy_config_for(view: &ProxyRecordView) -> (r: ProfileProxyConfig)
    ensures
        r.host == view.record.host,
        r.port == view.record.port,
        r.protocol@ == protocol_name(view.record.protocol),
        r.username == view.record.username,
        r.password == view.record.password,
{
    let name = match view.record.protocol {
        ProxyProtocol::Http => "http",
        ProxyProtocol::Https => "https",
        ProxyProtocol::Socks5 => "socks5",
    };
    ProfileProxyConfig {
        host: view.record.host.clone(),
        port: view.record.port,
        protocol: <String as StringExecFns>::from_str(name),
        username: copy_opt_string(&view.record.username),
        password: copy_opt_string(&view.record.password),
    }
}

/// Declares `std::time::SystemTime` so that it can stand in fields; its contents are opaque.
#[verifier::external_type_specification]
#[verifier::external_body]
pub struct ExSystemTime(std::time::SystemTime);

/// A tab of the desktop shell's webview.
#[derive(Debug)]
pub struct WebviewTab {
    pub tab_id: String,
    pub window_label: String,
    pub url: String,
    pub title: String,
    pub is_loading: bool,
    pub can_go_back: bool,
    pub can_go_forward: bool,
    pub created_at: std::time::SystemTime,
}

/// A tab of the integrated engine.
#[derive(Debug, Clone)]
pub struct ChromiumTab {
    pub id: String,
    pub url: String,
    pub title: String,
    pub proxy: Option<ProxySettings>,
    pub is_loading: bool,
    pub can_go_back: bool,
    pub can_go_forward: bool,
}

/// Handle on the integrated Chromium engine, which runs outside this library.
pub struct ChromiumEngine;

/// Configuration of the integrated Chromium engine, which runs outside this library.
pub struct ChromiumEngineConfig;

} // verus!
