use easyapi::capture::{capture_data, CaptureFileData, CaptureProgress};
use easyapi::request_log::{Outcome, RequestGuard};
use easyapi::runtime::{ProviderManager, RuntimeStats};
use easyapi::setup::{
    api_key_to_store, check_new_provider_key, choose_local_token, credential_error,
    credential_user, get_codex_setup, local_token, log_query_limit, new_request_id, provider_id,
};

fn guard(stats: &mut RuntimeStats) -> RequestGuard {
    RequestGuard::new(stats, "r1".to_string(), "2024".to_string(), Some("p".to_string()), None, Some(3))
}

#[test]
fn completed_request_is_logged_completed() {
    let mut stats = RuntimeStats::new();
    let mut g = guard(&mut stats);
    g.set_status(200);
    g.complete();
    let log = g.finish(&mut stats, 15);
    assert_eq!(log.outcome, "completed");
    assert_eq!(log.status_code, Some(200));
    assert_eq!(log.duration_ms, 15);
    assert_eq!(log.request_bytes, Some(3));
    assert_eq!(log.id, "r1");
    assert!(log.error.is_none());
    assert!(!log.content_captured);
    let st = stats.status(&ProviderManager::new(), "a");
    assert_eq!(st.in_flight_requests, 0);
    assert_eq!(st.total_requests, 1);
}

#[test]
fn outcomes_follow_the_request() {
    let mut stats = RuntimeStats::new();
    let g = guard(&mut stats);
    assert_eq!(g.finish(&mut stats, 0).outcome, "cancelled");
    let mut g = guard(&mut stats);
    g.set_status(200);
    assert_eq!(g.finish(&mut stats, 0).outcome, "client_cancelled");
    let mut g = guard(&mut stats);
    g.set_status(500);
    g.complete();
    assert_eq!(g.finish(&mut stats, 0).outcome, "upstream_http_error");
    let mut g = guard(&mut stats);
    g.fail(401, "本地代理认证失败");
    let log = g.finish(&mut stats, 0);
    assert_eq!(log.outcome, "proxy_error");
    assert_eq!(log.error.as_deref(), Some("本地代理认证失败"));
    let mut g = guard(&mut stats);
    g.set_status(200);
    g.mark_stream_error("上游响应流中断".to_string());
    let log = g.finish(&mut stats, u128::MAX);
    assert_eq!(log.outcome, "stream_error");
    assert_eq!(log.duration_ms, i64::MAX);
    let st = stats.status(&ProviderManager::new(), "a");
    assert_eq!(st.last_error.as_deref(), Some("上游响应流中断"));
    assert_eq!(st.in_flight_requests, 0);
    assert_eq!(Outcome::Completed.as_text(), "completed");
}

#[test]
fn codex_setup_text() {
    let s = get_codex_setup("127.0.0.1:8787", "easyapi-abc");
    assert_eq!(
        s.config_toml,
        "model_provider = \"easyapi\"\n\n[model_providers.easyapi]\nname = \"EasyAPI Local Proxy\"\nbase_url = \"http://127.0.0.1:8787/v1\"\nenv_key = \"EASYAPI_LOCAL_TOKEN\"\nwire_api = \"responses\"\nsupports_websockets = false\nrequest_max_retries = 0\nstream_max_retries = 0\nstream_idle_timeout_ms = 300000\n"
    );
    assert_eq!(
        s.powershell_command,
        "[Environment]::SetEnvironmentVariable(\"EASYAPI_LOCAL_TOKEN\", \"easyapi-abc\", \"User\")"
    );
    assert_eq!(s.local_token, "easyapi-abc");
}

#[test]
fn local_token_is_kept_or_made() {
    assert_eq!(choose_local_token(Some("t".to_string()), "u"), ("t".to_string(), false));
    assert_eq!(choose_local_token(Some(String::new()), "u"), ("easyapi-u".to_string(), true));
    assert_eq!(choose_local_token(None, "u"), ("easyapi-u".to_string(), true));
    let (t, fresh) = local_token(None);
    assert!(fresh);
    assert_eq!(t.len(), 44);
    assert!(t.starts_with("easyapi-"));
    assert_eq!(local_token(Some("keep".to_string())), ("keep".to_string(), false));
}

#[test]
fn ids() {
    let id = new_request_id();
    assert_eq!(id.len(), 36);
    assert!(id.chars().enumerate().all(|(i, c)| if [8, 13, 18, 23].contains(&i) { c == '-' } else { c.is_ascii_digit() || ('a'..='f').contains(&c) }));
    assert_ne!(new_request_id(), new_request_id());
    assert_eq!(provider_id(&Some("given".to_string())), "given");
    assert_eq!(provider_id(&None).len(), 36);
    assert_eq!(credential_user("p1"), "provider:p1");
    assert_eq!(credential_error("无法保存 API Key: ", "denied"), "无法保存 API Key: denied");
}

#[test]
fn new_provider_needs_a_key() {
    let err = Err("新增 Provider 时必须填写 API Key".to_string());
    assert_eq!(check_new_provider_key(true, &None), err);
    assert_eq!(check_new_provider_key(true, &Some("  ".to_string())), err);
    assert_eq!(check_new_provider_key(true, &Some("k".to_string())), Ok(()));
    assert_eq!(check_new_provider_key(false, &None), Ok(()));
    assert_eq!(api_key_to_store(&Some(" k ".to_string())), Some("k".to_string()));
    assert_eq!(api_key_to_store(&Some(" ".to_string())), None);
    assert_eq!(api_key_to_store(&None), None);
}

#[test]
fn log_limits() {
    assert_eq!(log_query_limit(None), -1);
    assert_eq!(log_query_limit(Some(50)), 50);
    assert_eq!(log_query_limit(Some(usize::MAX)), if usize::MAX as u128 > i64::MAX as u128 { i64::MAX } else { usize::MAX as i64 });
}

#[test]
fn capture_data_joins_errors() {
    let a = CaptureFileData::lock_error("请求内容记录锁异常");
    let b = CaptureFileData::lock_error("响应内容记录锁异常");
    let d = capture_data(a, b);
    assert_eq!(d.capture_error.as_deref(), Some("请求内容记录锁异常；响应内容记录锁异常"));
    assert_eq!(d.request_captured_bytes, 0);
    let mut p = CaptureProgress::new(Some("text/plain".to_string()));
    p.wrote(5);
    p.wrote(7);
    p.mark_complete();
    let ok = p.finish(Some("/tmp/x".to_string()));
    let q = CaptureProgress::new(None);
    let d = capture_data(ok, q.finish(None));
    assert!(d.capture_error.is_none());
    assert_eq!(d.request_captured_bytes, 12);
    assert!(d.request_complete && !d.response_complete);
    assert_eq!(d.request_path.as_deref(), Some("/tmp/x"));
    let mut f = CaptureProgress::new(None);
    f.wrote(usize::MAX);
    f.wrote(usize::MAX);
    f.write_failed("disk full");
    let fd = f.finish(Some("/tmp/y".to_string()));
    assert!(fd.path.is_none());
    assert_eq!(fd.error.as_deref(), Some("写入内容记录失败: disk full"));
    let d = capture_data(fd, CaptureFileData::lock_error(""));
    assert_eq!(d.capture_error.as_deref(), Some("写入内容记录失败: disk full；"));
}
