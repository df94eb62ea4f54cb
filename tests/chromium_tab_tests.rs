use browser_core::engine::{ChromiumTab, ProxySettings, ProxyType};

#[test]
fn test_chromium_tab_creation() {
    let tab = ChromiumTab {
        id: "tab-1".to_string(),
        url: "https://example.com".to_string(),
        title: "Example Domain".to_string(),
        proxy: None,
        is_loading: false,
        can_go_back: false,
        can_go_forward: false,
    };

    assert_eq!(tab.id, "tab-1");
    assert_eq!(tab.url, "https://example.com");
    assert_eq!(tab.title, "Example Domain");
    assert!(tab.proxy.is_none());
    assert!(!tab.is_loading);
    assert!(!tab.can_go_back);
    assert!(!tab.can_go_forward);
}

#[test]
fn test_chromium_tab_with_proxy() {
    let proxy = ProxySettings {
        proxy_type: ProxyType::Http,
        host: Some("proxy.example.com".to_string()),
        port: Some(8080),
        username: None,
        password: None,
        dns_servers: vec![],
        bypass_list: vec![],
    };

    let tab = ChromiumTab {
        id: "tab-2".to_string(),
        url: "about:blank".to_string(),
        title: "New Tab".to_string(),
        proxy: Some(proxy.clone()),
        is_loading: false,
        can_go_back: false,
        can_go_forward: false,
    };

    assert!(tab.proxy.is_some());
    let tab_proxy = tab.proxy.expect("Proxy operation failed");
    assert_eq!(tab_proxy.host, Some("proxy.example.com".to_string()));
    assert_eq!(tab_proxy.port, Some(8080));
}

#[test]
fn test_chromium_tab_clone() {
    let tab1 = ChromiumTab {
        id: "tab-3".to_string(),
        url: "https://rust-lang.org".to_string(),
        title: "Rust".to_string(),
        proxy: None,
        is_loading: true,
        can_go_back: true,
        can_go_forward: false,
    };

    let tab2 = tab1.clone();

    assert_eq!(tab1.id, tab2.id);
    assert_eq!(tab1.url, tab2.url);
    assert_eq!(tab1.title, tab2.title);
    assert_eq!(tab1.is_loading, tab2.is_loading);
    assert_eq!(tab1.can_go_back, tab2.can_go_back);
}

#[test]
fn test_tab_with_special_urls() {
    let special_urls = vec![
        "about:blank",
        "chrome://settings",
        "data:text/html,<h1>Test</h1>",
        "file:///tmp/test.html",
    ];

    for url in special_urls {
        let tab = ChromiumTab {
            id: format!("tab-{}", url.len()),
            url: url.to_string(),
            title: "Special URL".to_string(),
            proxy: None,
            is_loading: false,
            can_go_back: false,
            can_go_forward: false,
        };

        assert_eq!(tab.url, url);
    }
}

#[test]
fn test_tab_with_unicode_title() {
    let tab = ChromiumTab {
        id: "tab-unicode".to_string(),
        url: "https://example.com".to_string(),
        title: "测试 テスト 테스트 🦀".to_string(),
        proxy: None,
        is_loading: false,
        can_go_back: false,
        can_go_forward: false,
    };

    assert!(tab.title.contains("测试"));
    assert!(tab.title.contains("🦀"));
}
