use easyapi::headers::RequestHeader;
use easyapi::models::Provider;
use easyapi::proxy::{check_request, models_request_url, parse_decimal_u64, request_body_length, upstream_failure};
use easyapi::runtime::{ProviderManager, ProviderRuntime};

fn h(name: &str, value: &[u8]) -> RequestHeader {
    RequestHeader { name: name.to_string(), value: value.to_vec() }
}

#[test]
fn refuses_without_token_before_checking_provider() {
    let r = check_request(&vec![], "tok", false).err().unwrap();
    assert_eq!(r.status, 401);
    assert_eq!(r.log_message, "本地代理认证失败");
    assert_eq!(r.client_message, "EasyAPI local proxy authentication failed");
    assert_eq!(r.error_type, "authentication_error");
}

#[test]
fn refuses_without_provider() {
    let hs = vec![h("authorization", b"Bearer tok")];
    let r = check_request(&hs, "tok", false).err().unwrap();
    assert_eq!(r.status, 503);
    assert_eq!(r.log_message, "未选择 Provider");
    assert_eq!(r.error_type, "easyapi_configuration_error");
    assert!(check_request(&hs, "tok", true).is_ok());
}

#[test]
fn upstream_failure_answer() {
    let r = upstream_failure("上游请求超时".to_string());
    assert_eq!(r.status, 502);
    assert_eq!(r.client_message, "上游请求超时");
    assert_eq!(r.error_type, "easyapi_upstream_error");
}

#[test]
fn parses_content_length_like_u64_from_str() {
    assert_eq!(parse_decimal_u64(&b"4194304".to_vec()), Some(4194304));
    assert_eq!(parse_decimal_u64(&b"+7".to_vec()), Some(7));
    assert_eq!(parse_decimal_u64(&b"+".to_vec()), None);
    assert_eq!(parse_decimal_u64(&b"".to_vec()), None);
    assert_eq!(parse_decimal_u64(&b"-1".to_vec()), None);
    assert_eq!(parse_decimal_u64(&b" 1".to_vec()), None);
    assert_eq!(parse_decimal_u64(&b"18446744073709551615".to_vec()), Some(u64::MAX));
    assert_eq!(parse_decimal_u64(&b"18446744073709551616".to_vec()), None);
    assert_eq!(parse_decimal_u64(&b"99999999999999999999x".to_vec()), None);
    for s in ["0", "12", "00042", "+100"] {
        assert_eq!(parse_decimal_u64(&s.as_bytes().to_vec()), s.parse::<u64>().ok());
    }
}

#[test]
fn body_length_comes_from_the_first_content_length() {
    let hs = vec![h("Content-Length", b"10"), h("content-length", b"20")];
    assert_eq!(request_body_length(&hs), Some(10));
    assert_eq!(request_body_length(&vec![h("content-type", b"x")]), None);
    assert_eq!(request_body_length(&vec![h("content-length", b"abc")]), None);
}

#[test]
fn model_list_url_keeps_the_query() {
    let rt = ProviderRuntime::new_for_test(
        Provider {
            id: "p".to_string(),
            name: "P".to_string(),
            base_url: "http://127.0.0.1:9/v1/".to_string(),
            test_model: String::new(),
            extra_headers: vec![],
            created_at: String::new(),
            updated_at: String::new(),
        },
        "k".to_string(),
    );
    assert_eq!(models_request_url(&rt, Some("limit=1")), "http://127.0.0.1:9/v1/models?limit=1");
    assert_eq!(models_request_url(&rt, None), "http://127.0.0.1:9/v1/models");
}
