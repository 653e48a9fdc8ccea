use easyapi::capture::CaptureProgress;
use easyapi::models::Provider;
use easyapi::provider_input::{check_base_url, validate_base_url, UrlParts};
use easyapi::runtime::{ProviderManager, ProviderRuntime};
use easyapi::setup::{after_key_store, local_token};
use easyapi::upstream::{answer_needs_body, test_answered};

fn runtime(id: &str) -> ProviderRuntime {
    ProviderRuntime::new_for_test(
        Provider {
            id: id.to_string(),
            name: "N".to_string(),
            base_url: "https://x".to_string(),
            test_model: String::new(),
            extra_headers: vec![],
            created_at: String::new(),
            updated_at: String::new(),
        },
        "k".to_string(),
    )
}

#[test]
fn restores_the_saved_provider_when_it_loads() {
    let (m, dropped) = ProviderManager::restore(Some(("p1".to_string(), Ok(runtime("p1")))));
    assert!(dropped.is_none());
    assert_eq!(m.active_id().as_deref(), Some("p1"));
    assert_eq!(m.active().unwrap().provider.id, "p1");
}

#[test]
fn drops_the_saved_provider_that_does_not_load() {
    let (m, dropped) =
        ProviderManager::restore(Some(("p1".to_string(), Err("Provider 不存在".to_string()))));
    assert_eq!(dropped.as_deref(), Some("Provider 不存在"));
    assert!(m.active().is_none() && m.active_id().is_none());
    let (m, dropped) = ProviderManager::restore(None);
    assert!(dropped.is_none() && m.active().is_none());
}

#[test]
fn new_provider_is_removed_when_its_key_cannot_be_stored() {
    assert_eq!(after_key_store(true, Err("e".to_string())), (Err("e".to_string()), true));
    assert_eq!(after_key_store(false, Err("e".to_string())), (Err("e".to_string()), false));
    assert_eq!(after_key_store(true, Ok(())), (Ok(()), false));
}

#[test]
fn test_answer_by_status() {
    assert!(!answer_needs_body(204));
    assert!(answer_needs_body(301));
    let ok = test_answered(200, 3, b"ignored");
    assert!(ok.ok && ok.message == "连接测试成功");
    let bad = test_answered(401, 3, br#"{"error":{"message":"bad key"}}"#);
    assert!(!bad.ok);
    assert_eq!(bad.message, "HTTP 401: bad key");
}

#[test]
fn base_url_parts_are_checked() {
    let parts = |scheme: &str, host, query, fragment| {
        Some(UrlParts { scheme: scheme.to_string(), has_host: host, has_query: query, has_fragment: fragment })
    };
    assert_eq!(check_base_url(&None), Err("Base URL 格式无效".to_string()));
    assert_eq!(
        check_base_url(&parts("file", true, false, false)),
        Err("Base URL 必须是有效的 http 或 https 地址".to_string())
    );
    assert_eq!(
        check_base_url(&parts("https", false, false, false)),
        Err("Base URL 必须是有效的 http 或 https 地址".to_string())
    );
    assert_eq!(
        check_base_url(&parts("http", true, false, true)),
        Err("Base URL 不能包含查询参数或锚点".to_string())
    );
    assert_eq!(check_base_url(&parts("http", true, false, false)), Ok(()));
    assert_eq!(validate_base_url("https://api.example.com/v1"), Ok(()));
    assert_eq!(validate_base_url("mailto:a@b.c"), Err("Base URL 必须是有效的 http 或 https 地址".to_string()));
}

#[test]
fn fresh_token_is_prefix_and_uuid_and_persists() {
    let (t, fresh) = local_token(None);
    assert!(fresh);
    let id = &t[8..];
    assert_eq!(id.len(), 36);
    assert!(id.chars().enumerate().all(|(i, c)| if [8, 13, 18, 23].contains(&i) { c == '-' } else { c.is_ascii_hexdigit() && !c.is_ascii_uppercase() }));
    assert_eq!(&id[14..15], "4");
    assert!(["8", "9", "a", "b"].contains(&&id[19..20]));
    assert_eq!(local_token(Some(t.clone())), (t, false));
}

#[test]
fn captured_bytes_add_up() {
    let mut p = CaptureProgress::new(None);
    for n in [3usize, 0, 10, 7] {
        p.wrote(n);
    }
    assert!(p.keeps_file());
    assert_eq!(p.bytes, 20);
    p.write_failed("x");
    assert!(!p.keeps_file());
}
