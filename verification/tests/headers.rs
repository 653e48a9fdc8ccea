use easyapi::headers::{
    authorized, forwarded_request_headers, forwarded_response_headers,
    should_forward_request_header, should_forward_response_header, upstream_request_headers,
    RequestHeader,
};
use reqwest::header;

fn h(name: &str, value: &[u8]) -> RequestHeader {
    RequestHeader { name: name.to_string(), value: value.to_vec() }
}

#[test]
fn local_auth_requires_exact_bearer_token() {
    let headers = vec![h(header::AUTHORIZATION.as_str(), b"Bearer secret")];
    assert!(authorized(&headers, "secret"));
    assert!(!authorized(&headers, "secret2"));
}

#[test]
fn filters_hop_by_hop_headers() {
    assert!(!should_forward_request_header(header::AUTHORIZATION.as_str()));
    assert!(!should_forward_request_header(header::CONNECTION.as_str()));
    assert!(should_forward_request_header(header::CONTENT_TYPE.as_str()));
    assert!(!should_forward_response_header(header::TRANSFER_ENCODING.as_str()));
}

#[test]
fn local_auth_rejects_missing_prefix_and_missing_header() {
    assert!(!authorized(&vec![h("authorization", b"secret")], "secret"));
    assert!(!authorized(&vec![h("authorization", b"bearer secret")], "secret"));
    assert!(!authorized(&vec![h("authorization", b"Bearer secret ")], "secret"));
    assert!(!authorized(&vec![], "secret"));
    assert!(!authorized(&vec![h("x-token", b"Bearer secret")], "secret"));
}

#[test]
fn local_auth_uses_the_first_authorization_header() {
    let hs = vec![h("Authorization", b"Bearer wrong"), h("authorization", b"Bearer secret")];
    assert!(!authorized(&hs, "secret"));
    let hs = vec![h("AUTHORIZATION", b"Bearer secret"), h("authorization", b"Bearer wrong")];
    assert!(authorized(&hs, "secret"));
}

#[test]
fn local_auth_rejects_values_that_are_not_visible_ascii() {
    let mut v = b"Bearer secret".to_vec();
    v.push(0x80);
    assert!(!authorized(&vec![h("authorization", &v)], "secret\u{80}"));
}

#[test]
fn response_keeps_host_and_authorization_but_not_hop_by_hop() {
    assert!(should_forward_response_header("Host"));
    assert!(should_forward_response_header("authorization"));
    for n in ["connection", "Proxy-Connection", "keep-alive", "TE", "trailer", "upgrade"] {
        assert!(!should_forward_response_header(n));
        assert!(!should_forward_request_header(n));
    }
    assert!(!should_forward_request_header("HOST"));
}

#[test]
fn forwarded_lists_keep_order() {
    let hs = vec![
        h("content-type", b"application/json"),
        h("authorization", b"Bearer local"),
        h("x-a", b"1"),
        h("connection", b"keep-alive"),
        h("host", b"127.0.0.1"),
    ];
    let f = forwarded_request_headers(&hs);
    let names: Vec<&str> = f.iter().map(|x| x.name.as_str()).collect();
    assert_eq!(names, vec!["content-type", "x-a"]);
    let r = forwarded_response_headers(&hs);
    let names: Vec<&str> = r.iter().map(|x| x.name.as_str()).collect();
    assert_eq!(names, vec!["content-type", "authorization", "x-a", "host"]);
}

#[test]
fn upstream_request_carries_only_the_provider_key() {
    let incoming = vec![
        h("authorization", b"Bearer local-token"),
        h("content-type", b"application/json"),
        h("transfer-encoding", b"chunked"),
    ];
    let extra = vec![h("x-team", b"blue")];
    let out = upstream_request_headers("upstream-key", &incoming, &extra);
    assert_eq!(out.len(), 3);
    assert_eq!(out[0].name, "authorization");
    assert_eq!(out[0].value, b"Bearer upstream-key".to_vec());
    assert_eq!(out[1].name, "content-type");
    assert_eq!(out[2].name, "x-team");
    assert_eq!(out[2].value, b"blue".to_vec());
    assert_eq!(out.iter().filter(|x| x.name.eq_ignore_ascii_case("authorization")).count(), 1);
}
