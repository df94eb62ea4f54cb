use browser_core::handshake::{
    bandwidth_estimate, check_connect_reply, check_socks5_auth_reply, connect_request,
    encode_credentials, http_status, socks5_auth_request, socks5_greeting, socks5_method_step,
    Socks5Step,
};
use browser_core::proxy::ValidationErrorKind;

#[test]
fn connect_request_with_and_without_credentials() {
    assert_eq!(
        connect_request("example.com:443", None),
        "CONNECT example.com:443 HTTP/1.1\r\nHost: example.com:443\r\n\r\n"
    );
    let creds = encode_credentials(&b"user:pass".to_vec());
    assert_eq!(creds, "dXNlcjpwYXNz");
    assert_eq!(
        connect_request("a:1", Some(&creds)),
        "CONNECT a:1 HTTP/1.1\r\nHost: a:1\r\nProxy-Authorization: Basic dXNlcjpwYXNz\r\n\r\n"
    );
}

#[test]
fn connect_reply_verdicts() {
    assert_eq!(http_status(b"HTTP/1.1 200 Connection established\r\n\r\n"), Some(200));
    assert_eq!(check_connect_reply(b"HTTP/1.0 200 OK\r\n\r\n"), Ok(()));
    assert_eq!(check_connect_reply(b"HTTP/1.1 407 Proxy Authentication Required\r\n"), Err(ValidationErrorKind::AuthRejected));
    assert_eq!(check_connect_reply(b"HTTP/1.1 502 Bad Gateway\r\n"), Err(ValidationErrorKind::ProtocolError));
    assert_eq!(check_connect_reply(b"SSH-2.0-OpenSSH"), Err(ValidationErrorKind::ProtocolError));
    assert_eq!(check_connect_reply(b""), Err(ValidationErrorKind::ProtocolError));
}

#[test]
fn socks5_exchange() {
    assert_eq!(socks5_greeting(false), vec![5, 1, 0]);
    assert_eq!(socks5_greeting(true), vec![5, 2, 0, 2]);
    assert_eq!(socks5_method_step(&[5, 0], false), Socks5Step::Ready);
    assert_eq!(socks5_method_step(&[5, 2], true), Socks5Step::Authenticate);
    assert_eq!(socks5_method_step(&[5, 2], false), Socks5Step::Failed(ValidationErrorKind::ProtocolError));
    assert_eq!(socks5_method_step(&[5, 255], true), Socks5Step::Failed(ValidationErrorKind::AuthRejected));
    assert_eq!(socks5_method_step(&[4, 0], false), Socks5Step::Failed(ValidationErrorKind::ProtocolError));
    assert_eq!(socks5_auth_request(b"ab", b"xyz"), Some(vec![1, 2, b'a', b'b', 3, b'x', b'y', b'z']));
    assert_eq!(socks5_auth_request(b"", b"xyz"), None);
    assert_eq!(socks5_auth_request(&[b'a'; 256], b"x"), None);
    assert_eq!(check_socks5_auth_reply(&[1, 0]), Ok(()));
    assert_eq!(check_socks5_auth_reply(&[1, 1]), Err(ValidationErrorKind::AuthRejected));
    assert_eq!(check_socks5_auth_reply(&[5]), Err(ValidationErrorKind::ProtocolError));
}

#[test]
fn bandwidth_from_bytes_and_time() {
    assert_eq!(bandwidth_estimate(5000, 250), 20_000);
    assert_eq!(bandwidth_estimate(7, 0), 7000);
    assert_eq!(bandwidth_estimate(u64::MAX, 1), u64::MAX);
}
