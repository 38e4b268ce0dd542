use greatway::error::GatewayError;
use greatway::proxy::{forward_headers, forward_url, is_host, plan_forward, relay_status, Header};

fn header(name: &str, value: &str) -> Header {
    Header { name: name.to_string(), value: value.as_bytes().to_vec() }
}

fn pairs(hs: &[Header]) -> Vec<(String, Vec<u8>)> {
    hs.iter().map(|h| (h.name.clone(), h.value.clone())).collect()
}

#[test]
fn orders_request_is_forwarded_unchanged_but_host() {
    let inbound = vec![
        header("host", "gateway.local"),
        header("authorization", "Bearer t"),
        header("accept", "application/json"),
    ];
    let out = plan_forward("POST", "http://upstream.local", "/orders/42", &inbound, b"{\"n\":1}".to_vec());
    assert_eq!(out.method, "POST");
    assert_eq!(out.url, "http://upstream.local/orders/42");
    assert_eq!(out.body, b"{\"n\":1}".to_vec());
    assert_eq!(
        pairs(&out.headers),
        vec![
            ("authorization".to_string(), b"Bearer t".to_vec()),
            ("accept".to_string(), b"application/json".to_vec()),
            ("Connection".to_string(), b"keep-alive".to_vec()),
        ]
    );
}

#[test]
fn url_keeps_query() {
    assert_eq!(forward_url("http://up:8080", "/a/b?x=1&y=2"), "http://up:8080/a/b?x=1&y=2");
    assert_eq!(forward_url("", ""), "");
}

#[test]
fn host_is_matched_in_any_case() {
    assert!(is_host("host"));
    assert!(is_host("HoSt"));
    assert!(!is_host("hosts"));
    assert!(!is_host("x-host"));
    let out = forward_headers(&vec![header("Host", "a"), header("HOST", "b")]);
    assert_eq!(pairs(&out), vec![("Connection".to_string(), b"keep-alive".to_vec())]);
}

#[test]
fn unreachable_upstream_is_a_server_error() {
    let r = relay_status::<&str>(Err("connection refused"));
    assert_eq!(r, Err(GatewayError::UpstreamUnreachable));
    assert_eq!(GatewayError::UpstreamUnreachable.status(), 502);
    assert_eq!(relay_status::<&str>(Ok(201)), Ok(201));
}
