use proxy_core::request::{
    connect_outcome, dispatch_request, parse_host_port, reply_text, Dispatch, ProxyError, Reply,
};

#[test]
fn host_port_with_port() {
    assert_eq!(
        parse_host_port("example.com:443"),
        Ok(("example.com".to_string(), 443))
    );
}

#[test]
fn host_port_defaults_to_80() {
    assert_eq!(parse_host_port("example.com"), Ok(("example.com".to_string(), 80)));
}

#[test]
fn host_port_uses_last_colon() {
    assert_eq!(parse_host_port("[::1]:8080"), Ok(("[::1]".to_string(), 8080)));
}

#[test]
fn host_port_rejects_bad_ports() {
    assert_eq!(parse_host_port("example.com:abc"), Err(ProxyError::InvalidPort));
    assert_eq!(parse_host_port("example.com:70000"), Err(ProxyError::InvalidPort));
    assert_eq!(parse_host_port("example.com:"), Err(ProxyError::InvalidPort));
    assert_eq!(parse_host_port("example.com:-1"), Err(ProxyError::InvalidPort));
}

#[test]
fn host_port_accepts_plus_sign_and_limits() {
    assert_eq!(parse_host_port("h:+80"), Ok(("h".to_string(), 80)));
    assert_eq!(parse_host_port("h:65535"), Ok(("h".to_string(), 65535)));
    assert_eq!(parse_host_port("h:0"), Ok(("h".to_string(), 0)));
}

#[test]
fn empty_request_is_an_error() {
    assert!(matches!(dispatch_request(""), Err(ProxyError::EmptyRequest)));
}

#[test]
fn connect_request_opens_tunnel() {
    match dispatch_request("CONNECT example.com:443 HTTP/1.1\r\nHost: example.com\r\n\r\n") {
        Ok(Dispatch::Tunnel { host, port }) => {
            assert_eq!(host, "example.com");
            assert_eq!(port, 443);
        }
        other => panic!("unexpected {:?}", other),
    }
}

#[test]
fn connect_without_port_uses_80() {
    match dispatch_request("CONNECT localhost HTTP/1.1\r\n\r\n") {
        Ok(Dispatch::Tunnel { host, port }) => {
            assert_eq!(host, "localhost");
            assert_eq!(port, 80);
        }
        other => panic!("unexpected {:?}", other),
    }
}

#[test]
fn connect_without_target_is_malformed() {
    assert!(matches!(
        dispatch_request("CONNECT\r\n\r\n"),
        Err(ProxyError::MalformedConnectTarget)
    ));
}

#[test]
fn connect_with_bad_port_is_invalid() {
    assert!(matches!(
        dispatch_request("CONNECT example.com:http HTTP/1.1\r\n"),
        Err(ProxyError::InvalidPort)
    ));
}

#[test]
fn get_and_post_get_placeholder() {
    assert!(matches!(dispatch_request("GET / HTTP/1.1\r\n\r\n"), Ok(Dispatch::Placeholder)));
    assert!(matches!(dispatch_request("POST /x HTTP/1.1\r\n\r\n"), Ok(Dispatch::Placeholder)));
}

#[test]
fn other_methods_not_allowed() {
    assert!(matches!(dispatch_request("PUT / HTTP/1.1\r\n\r\n"), Ok(Dispatch::NotAllowed)));
    assert!(matches!(dispatch_request("\r\n"), Ok(Dispatch::NotAllowed)));
}

#[test]
fn only_first_line_is_classified() {
    assert!(matches!(
        dispatch_request("DELETE / HTTP/1.1\r\nCONNECT a:1 HTTP/1.1\r\n"),
        Ok(Dispatch::NotAllowed)
    ));
}

#[test]
fn unreachable_target_gets_bad_gateway() {
    let (reply, result) = connect_outcome(false);
    assert_eq!(reply, Reply::BadGateway);
    assert_eq!(result, Err(ProxyError::UpstreamUnreachable));
    assert_eq!(reply_text(reply), "HTTP/1.1 502 Bad Gateway\r\n\r\n");
}

#[test]
fn reachable_target_gets_established() {
    let (reply, result) = connect_outcome(true);
    assert_eq!(reply, Reply::Established);
    assert_eq!(result, Ok(()));
    assert_eq!(reply_text(reply), "HTTP/1.1 200 Connection Established\r\n\r\n");
}

#[test]
fn reply_texts() {
    assert_eq!(
        reply_text(Reply::Placeholder),
        "HTTP/1.1 200 OK\r\nContent-Length: 13\r\n\r\nProxy working"
    );
    assert_eq!(reply_text(Reply::NotAllowed), "HTTP/1.1 405 Method Not Allowed\r\n\r\n");
}
