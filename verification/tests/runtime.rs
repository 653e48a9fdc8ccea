use easyapi::models::{HeaderPair, Provider};
use easyapi::runtime::{ProviderManager, ProviderRuntime, RuntimeStats};

fn provider(id: &str, base_url: &str, headers: Vec<HeaderPair>) -> Provider {
    Provider {
        id: id.to_string(),
        name: format!("Name {id}"),
        base_url: base_url.to_string(),
        test_model: "m".to_string(),
        extra_headers: headers,
        created_at: "t0".to_string(),
        updated_at: "t1".to_string(),
    }
}

fn pair(name: &str, value: &str) -> HeaderPair {
    HeaderPair { name: name.to_string(), value: value.to_string() }
}

#[test]
fn urls_drop_trailing_slashes() {
    let rt = ProviderRuntime::new_for_test(provider("a", "https://x.example/v1//", vec![]), "k".to_string());
    assert_eq!(rt.responses_url(), "https://x.example/v1/responses");
    assert_eq!(rt.models_url(), "https://x.example/v1/models");
    assert_eq!(rt.api_key(), "k");
}

#[test]
fn load_reports_missing_provider_and_blank_key() {
    assert_eq!(
        ProviderManager::load_runtime(None, Ok("k".to_string())).err(),
        Some("Provider 不存在".to_string())
    );
    assert_eq!(
        ProviderManager::load_runtime(Some(provider("a", "https://x", vec![])), Ok("  ".to_string())).err(),
        Some("API Key 为空".to_string())
    );
    assert_eq!(
        ProviderManager::load_runtime(
            Some(provider("a", "https://x", vec![])),
            Err("无法读取 API Key: gone".to_string())
        )
        .err(),
        Some("无法读取 API Key: gone".to_string())
    );
}

#[test]
fn load_parses_headers_and_replaces_repeats() {
    let rt = ProviderManager::load_runtime(
        Some(provider(
            "a",
            "https://x",
            vec![pair(" X-One ", "1"), pair("x-two", "2"), pair("X-ONE", "3")],
        )),
        Ok("key".to_string()),
    )
    .ok()
    .unwrap();
    let hs: Vec<(String, Vec<u8>)> =
        rt.extra_headers().into_iter().map(|h| (h.name, h.value)).collect();
    assert_eq!(
        hs,
        vec![("x-one".to_string(), b"3".to_vec()), ("x-two".to_string(), b"2".to_vec())]
    );
    assert_eq!(rt.headers().len(), 2);
    assert_eq!(rt.headers().get("x-one").unwrap().as_bytes(), b"3");
}

#[test]
fn load_rejects_bad_header_with_its_given_name() {
    let r = ProviderManager::load_runtime(
        Some(provider("a", "https://x", vec![pair(" bad name ", "1")])),
        Ok("key".to_string()),
    );
    assert_eq!(r.err(), Some("无效请求头名称:  bad name ".to_string()));
    let r = ProviderManager::load_runtime(
        Some(provider("a", "https://x", vec![pair("x-a", "a\u{7f}")])),
        Ok("key".to_string()),
    );
    assert_eq!(r.err(), Some("无效请求头值: x-a".to_string()));
}

#[test]
fn switch_affects_only_later_snapshots() {
    let mut m = ProviderManager::new();
    assert!(m.active().is_none());
    m.switch(ProviderRuntime::new_for_test(provider("p1", "https://one", vec![]), "k1".to_string()));
    let request_a = m.active().unwrap();
    m.switch(ProviderRuntime::new_for_test(provider("p2", "https://two", vec![]), "k2".to_string()));
    let request_b = m.active().unwrap();
    assert_eq!(request_a.provider.id, "p1");
    assert_eq!(request_a.api_key(), "k1");
    assert_eq!(request_b.provider.id, "p2");
    assert_eq!(m.active_id().as_deref(), Some("p2"));
    assert!(m.is_active("p2"));
    assert!(!m.is_active("p1"));
    m.deactivate();
    assert!(m.active().is_none());
    assert!(m.active_id().is_none());
    assert_eq!(request_b.api_key(), "k2");
}

#[test]
fn list_views_marks_the_active_provider() {
    let mut m = ProviderManager::new();
    m.switch(ProviderRuntime::new_for_test(provider("b", "https://b", vec![]), "k".to_string()));
    let views = m.list_views(
        vec![provider("a", "https://a", vec![]), provider("b", "https://b", vec![])],
        vec![false, true],
    );
    assert_eq!(views.len(), 2);
    assert!(!views[0].active && !views[0].has_api_key);
    assert!(views[1].active && views[1].has_api_key);
    assert_eq!(views[1].provider.id, "b");
}

#[test]
fn stats_count_requests_and_keep_last_error() {
    let mut s = RuntimeStats::new();
    let m = ProviderManager::new();
    s.begin();
    s.begin();
    s.finish(Some("boom".to_string()));
    s.finish(None);
    let st = s.status(&m, "127.0.0.1:8787");
    assert!(st.proxy_running);
    assert_eq!(st.listen_address, "127.0.0.1:8787");
    assert_eq!(st.in_flight_requests, 0);
    assert_eq!(st.total_requests, 2);
    assert_eq!(st.last_error.as_deref(), Some("boom"));
    assert!(st.active_provider_id.is_none());
}

#[test]
fn stats_status_names_the_active_provider() {
    let mut m = ProviderManager::new();
    m.switch(ProviderRuntime::new_for_test(provider("p9", "https://b", vec![]), "k".to_string()));
    let s = RuntimeStats::new();
    let st = s.status(&m, "addr");
    assert_eq!(st.active_provider_id.as_deref(), Some("p9"));
    assert_eq!(st.active_provider_name.as_deref(), Some("Name p9"));
    assert!(st.last_error.is_none());
}

#[test]
fn finish_without_begin_wraps_like_an_atomic() {
    let mut s = RuntimeStats::new();
    s.finish(None);
    let st = s.status(&ProviderManager::new(), "a");
    assert_eq!(st.in_flight_requests, u64::MAX);
}
