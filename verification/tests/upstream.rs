use easyapi::model_list::normalize_model_ids;
use easyapi::models::Provider;
use easyapi::runtime::{ProviderManager, ProviderRuntime};
use easyapi::upstream::{
    append_preview, check_test_model, format_upstream_error, summarize_upstream_bytes,
    request_failure_message, sanitized_upstream_error, summarize_upstream_error, test_rejected,
    test_succeeded, test_unreachable,
};

#[test]
fn summary_reads_the_upstream_message() {
    assert_eq!(
        summarize_upstream_error(401, r#"{"error":{"message":"bad key","type":"x"}}"#),
        "HTTP 401: bad key"
    );
}

#[test]
fn summary_falls_back_to_a_generic_message() {
    assert_eq!(summarize_upstream_error(502, "<html>"), "HTTP 502: 上游返回错误");
    assert_eq!(summarize_upstream_error(500, r#"{"error":{"message":7}}"#), "HTTP 500: 上游返回错误");
    assert_eq!(format_upstream_error(0, None), "HTTP 0: 上游返回错误");
}

#[test]
fn summary_keeps_240_characters() {
    let long: String = "错".repeat(300);
    let body = format!(r#"{{"error":{{"message":"{long}"}}}}"#);
    let s = summarize_upstream_error(429, &body);
    assert_eq!(s, format!("HTTP 429: {}", "错".repeat(240)));
    assert_eq!(format_upstream_error(65535, Some("x".repeat(240))), format!("HTTP 65535: {}", "x".repeat(240)));
}

#[test]
fn failure_messages_by_kind() {
    assert_eq!(sanitized_upstream_error(true, true, true), "上游请求超时");
    assert_eq!(sanitized_upstream_error(false, true, true), "无法连接上游 API");
    assert_eq!(sanitized_upstream_error(false, false, true), "上游响应流中断");
    assert_eq!(sanitized_upstream_error(false, false, false), "上游请求失败");
    assert_eq!(request_failure_message(false, false), "上游请求失败");
}

#[test]
fn preview_stops_at_the_limit() {
    let mut bytes = Vec::new();
    assert!(append_preview(&mut bytes, b"abc", 5));
    assert!(!append_preview(&mut bytes, b"defg", 5));
    assert_eq!(bytes, b"abcde".to_vec());
    assert!(!append_preview(&mut bytes, b"x", 5));
    assert_eq!(bytes, b"abcde".to_vec());
    assert_eq!(summarize_upstream_bytes(500, &[0x61, 0xff, 0x62]), "HTTP 500: 上游返回错误");
    let body = "{\"error\":{\"message\":\"a\u{fffd}b\"}}".as_bytes().to_vec();
    let mut broken = body.clone();
    let at = broken.iter().position(|&b| b == 0xef).unwrap();
    broken.splice(at..at + 3, [0xff]);
    assert_eq!(summarize_upstream_bytes(400, &broken), "HTTP 400: a\u{fffd}b");
}

#[test]
fn model_ids_are_trimmed_sorted_and_unique() {
    let ids = vec![
        " gpt-b ".to_string(),
        "gpt-a".to_string(),
        "".to_string(),
        "gpt-b".to_string(),
        "  ".to_string(),
        "Zeta".to_string(),
        "éclair".to_string(),
    ];
    assert_eq!(normalize_model_ids(ids), vec!["Zeta", "gpt-a", "gpt-b", "éclair"]);
    assert!(normalize_model_ids(vec![]).is_empty());
}

fn runtime(test_model: &str) -> ProviderRuntime {
    ProviderRuntime::new_for_test(
        Provider {
            id: "p".to_string(),
            name: "P".to_string(),
            base_url: "https://x".to_string(),
            test_model: test_model.to_string(),
            extra_headers: vec![],
            created_at: String::new(),
            updated_at: String::new(),
        },
        "k".to_string(),
    )
}

#[test]
fn test_requires_a_model() {
    assert_eq!(check_test_model(&runtime("  ")), Err("请先填写测试模型".to_string()));
    assert_eq!(check_test_model(&runtime("m")), Ok(()));
}

#[test]
fn test_results() {
    let ok = test_succeeded(200, 12);
    assert!(ok.ok);
    assert_eq!(ok.message, "连接测试成功");
    let bad = test_rejected(403, 5, br#"{"error":{"message":"no"}}"#);
    assert!(!bad.ok);
    assert_eq!(bad.status_code, Some(403));
    assert_eq!(bad.message, "HTTP 403: no");
    let down = test_unreachable(true, false, 9);
    assert_eq!(down.status_code, None);
    assert_eq!(down.message, "上游请求超时");
    assert_eq!(down.latency_ms, 9);
}
