use browser_core::request::{
    HttpMethod, RequestBody, RequestBuilder, RequestConfig, RequestError, RequestErrorKind,
    RequestResponse,
};
use std::collections::HashMap;
use std::time::Duration;

#[test]
fn test_request_builder_get() {
    let builder = RequestBuilder::get("https://example.com");
    assert_eq!(builder.url, "https://example.com");
}

#[test]
fn test_request_builder_post() {
    let builder = RequestBuilder::post("https://api.example.com/data");
    assert_eq!(builder.url, "https://api.example.com/data");
}

#[test]
fn test_request_builder_with_headers() {
    let builder = RequestBuilder::get("https://example.com")
        .header("Authorization", "Bearer token123")
        .header("Accept", "application/json");

    assert_eq!(
        builder.headers.get("Authorization").unwrap(),
        "Bearer token123"
    );
    assert_eq!(builder.headers.get("Accept").unwrap(), "application/json");
}

#[test]
fn test_request_builder_with_timeout() {
    let builder = RequestBuilder::get("https://example.com").timeout(Duration::from_secs(60));

    assert_eq!(builder.config.timeout, Duration::from_secs(60));
}

#[test]
fn test_request_builder_follow_redirects() {
    let builder = RequestBuilder::get("https://example.com").follow_redirects(false);

    assert!(!builder.config.follow_redirects);
}

#[test]
fn test_request_config_default() {
    let config = RequestConfig::default();

    assert_eq!(config.timeout, Duration::from_secs(30));
    assert!(config.follow_redirects);
    assert_eq!(config.max_redirects, 10);
    assert!(config.verify_ssl);
    assert!(config.user_agent.is_some());
}

#[test]
fn test_request_response_is_success() {
    let success_response = RequestResponse {
        status: 200,
        status_text: "OK".to_string(),
        headers: HashMap::new(),
        body: r#"{"success": true}"#.to_string(),
        response_time_ms: 150,
        final_url: "https://example.com".to_string(),
    };
    assert!(success_response.is_success());

    let created_response = RequestResponse {
        status: 201,
        status_text: "Created".to_string(),
        headers: HashMap::new(),
        body: "{}".to_string(),
        response_time_ms: 200,
        final_url: "https://example.com/resource".to_string(),
    };
    assert!(created_response.is_success());

    let error_response = RequestResponse {
        status: 404,
        status_text: "Not Found".to_string(),
        headers: HashMap::new(),
        body: "{}".to_string(),
        response_time_ms: 100,
        final_url: "https://example.com/missing".to_string(),
    };
    assert!(!error_response.is_success());

    let server_error = RequestResponse {
        status: 500,
        status_text: "Internal Server Error".to_string(),
        headers: HashMap::new(),
        body: "{}".to_string(),
        response_time_ms: 50,
        final_url: "https://example.com/error".to_string(),
    };
    assert!(!server_error.is_success());
}

#[test]
fn test_request_error_creation() {
    let error = RequestError::new(RequestErrorKind::Timeout, "Request timed out")
        .with_url("https://example.com")
        .with_status(408);

    assert!(matches!(error.kind, RequestErrorKind::Timeout));
    assert_eq!(error.message, "Request timed out");
    assert_eq!(error.url, Some("https://example.com".to_string()));
    assert_eq!(error.status_code, Some(408));
}

#[test]
fn test_request_error_display() {
    let error = RequestError::new(RequestErrorKind::Network, "Connection refused");
    let display = error.to_string();
    assert!(display.contains("Network"));
    assert!(display.contains("Connection refused"));
}

#[test]
fn test_request_builder_form_data() {
    let mut form_data = HashMap::new();
    form_data.insert("username".to_string(), "test_user".to_string());
    form_data.insert("password".to_string(), "secret".to_string());

    let builder = RequestBuilder::post("https://example.com/login").form(form_data);

    assert!(matches!(builder.body, RequestBody::Form(_)));
    assert_eq!(
        builder.headers.get("Content-Type").unwrap(),
        "application/x-www-form-urlencoded"
    );
}

#[test]
fn test_request_builder_text_body() {
    let builder = RequestBuilder::post("https://example.com/text").body_text("Hello, World!");

    assert!(matches!(builder.body, RequestBody::Text(_)));
    assert_eq!(builder.headers.get("Content-Type").unwrap(), "text/plain");
}

#[test]
fn test_request_builder_bytes_body() {
    let bytes = vec![0x48, 0x65, 0x6c, 0x6c, 0x6f]; // "Hello" in bytes
    let builder = RequestBuilder::post("https://example.com/binary").body_bytes(bytes);

    assert!(matches!(builder.body, RequestBody::Bytes(_)));
}

#[test]
fn test_all_http_methods() {
    let get = RequestBuilder::get("https://example.com");
    assert_eq!(get.method, HttpMethod::Get);

    let post = RequestBuilder::post("https://example.com");
    assert_eq!(post.method, HttpMethod::Post);

    let put = RequestBuilder::put("https://example.com");
    assert_eq!(put.method, HttpMethod::Put);

    let delete = RequestBuilder::delete("https://example.com");
    assert_eq!(delete.method, HttpMethod::Delete);

    let patch = RequestBuilder::patch("https://example.com");
    assert_eq!(patch.method, HttpMethod::Patch);

    let head = RequestBuilder::head("https://example.com");
    assert_eq!(head.method, HttpMethod::Head);

    let options = RequestBuilder::options("https://example.com");
    assert_eq!(options.method, HttpMethod::Options);
}

#[test]
fn test_dns_resolution_error_kind() {
    // Test that DnsResolution error kind exists and works correctly
    let error = RequestError::new(
        RequestErrorKind::DnsResolution,
        "Failed to resolve hostname",
    )
    .with_url("https://nonexistent-domain-12345.invalid");

    assert!(matches!(error.kind, RequestErrorKind::DnsResolution));
    assert_eq!(error.message, "Failed to resolve hostname");
    assert_eq!(
        error.url,
        Some("https://nonexistent-domain-12345.invalid".to_string())
    );

    // Test display format
    let display = error.to_string();
    assert!(display.contains("DnsResolution"));
    assert!(display.contains("Failed to resolve hostname"));
}

#[test]
fn test_dns_resolution_error_is_distinct_from_network() {
    // Verify that DnsResolution is treated as a distinct error type from Network
    let dns_error = RequestError::new(RequestErrorKind::DnsResolution, "DNS lookup failed");
    let network_error = RequestError::new(RequestErrorKind::Network, "Connection refused");

    assert_ne!(dns_error.kind, network_error.kind);
    assert!(matches!(dns_error.kind, RequestErrorKind::DnsResolution));
    assert!(matches!(network_error.kind, RequestErrorKind::Network));
}

#[test]
fn request_error_text_is_kind_colon_message() {
    let error = RequestError::new(RequestErrorKind::Timeout, "slow");
    assert_eq!(error.to_string(), "Timeout: slow");
}

#[test]
fn response_status_boundaries() {
    let mk = |status: u16| RequestResponse {
        status,
        status_text: String::new(),
        headers: HashMap::new(),
        body: String::new(),
        response_time_ms: 0,
        final_url: String::new(),
    };
    assert!(!mk(199).is_success());
    assert!(mk(299).is_success());
    assert!(!mk(300).is_success());
}
