use easyapi::models::{HeaderPair, ProviderInput};
use easyapi::provider_input::validate_provider_input;

fn input(name: &str, base_url: &str, headers: Vec<HeaderPair>) -> ProviderInput {
    ProviderInput {
        id: None,
        name: name.to_string(),
        base_url: base_url.to_string(),
        api_key: Some("key".to_string()),
        test_model: "model".to_string(),
        extra_headers: headers,
    }
}

fn pair(name: &str, value: &str) -> HeaderPair {
    HeaderPair { name: name.to_string(), value: value.to_string() }
}

#[test]
fn normalizes_provider_base_url() {
    let mut input = ProviderInput {
        id: None,
        name: " Test ".to_string(),
        base_url: "https://example.com/v1/".to_string(),
        api_key: Some("key".to_string()),
        test_model: " model ".to_string(),
        extra_headers: vec![],
    };
    validate_provider_input(&mut input).unwrap();
    assert_eq!(input.name, "Test");
    assert_eq!(input.base_url, "https://example.com/v1");
    assert_eq!(input.test_model, "model");
}

#[test]
fn rejects_authorization_override() {
    let mut input = ProviderInput {
        id: None,
        name: "Test".to_string(),
        base_url: "https://example.com/v1".to_string(),
        api_key: Some("key".to_string()),
        test_model: "model".to_string(),
        extra_headers: vec![HeaderPair {
            name: "Authorization".to_string(),
            value: "bad".to_string(),
        }],
    };
    assert!(validate_provider_input(&mut input).is_err());
}

#[test]
fn strips_every_trailing_slash_and_unicode_spaces() {
    let mut i = input("\u{3000}A\t", "  http://h.example///  ", vec![]);
    validate_provider_input(&mut i).unwrap();
    assert_eq!(i.name, "A");
    assert_eq!(i.base_url, "http://h.example");
}

#[test]
fn rejects_blank_name() {
    let mut i = input("   ", "https://example.com", vec![pair(" X-A ", "1")]);
    assert_eq!(validate_provider_input(&mut i), Err("Provider 名称不能为空".to_string()));
    // validation stopped before the headers: they are untouched
    assert_eq!(i.extra_headers[0].name, " X-A ");
}

#[test]
fn rejects_unparsable_base_url() {
    let mut i = input("A", "not a url", vec![]);
    assert_eq!(validate_provider_input(&mut i), Err("Base URL 格式无效".to_string()));
}

#[test]
fn rejects_non_web_scheme() {
    let mut i = input("A", "ftp://example.com", vec![]);
    assert_eq!(
        validate_provider_input(&mut i),
        Err("Base URL 必须是有效的 http 或 https 地址".to_string())
    );
}

#[test]
fn rejects_query_and_fragment() {
    let mut i = input("A", "https://example.com/v1?x=1", vec![]);
    assert_eq!(
        validate_provider_input(&mut i),
        Err("Base URL 不能包含查询参数或锚点".to_string())
    );
    let mut j = input("A", "https://example.com/v1#top", vec![]);
    assert_eq!(
        validate_provider_input(&mut j),
        Err("Base URL 不能包含查询参数或锚点".to_string())
    );
}

#[test]
fn drops_blank_header_names_and_trims_the_rest() {
    let mut i = input("A", "https://example.com", vec![pair("  ", "x"), pair(" X-Team ", "blue")]);
    validate_provider_input(&mut i).unwrap();
    assert_eq!(i.extra_headers.len(), 1);
    assert_eq!(i.extra_headers[0].name, "X-Team");
    assert_eq!(i.extra_headers[0].value, "blue");
}

#[test]
fn rejects_invalid_header_name() {
    let mut i = input("A", "https://example.com", vec![pair("Bad Name", "x")]);
    assert_eq!(
        validate_provider_input(&mut i),
        Err("无效请求头名称: Bad Name".to_string())
    );
}

#[test]
fn rejects_reserved_headers_in_any_case() {
    for name in ["HOST", "Content-Length", "Transfer-Encoding", "te", "Upgrade", "Keep-Alive"] {
        let mut i = input("A", "https://example.com", vec![pair(name, "x")]);
        assert_eq!(
            validate_provider_input(&mut i),
            Err(format!("不允许自定义请求头: {name}"))
        );
    }
}

#[test]
fn rejects_duplicate_header_names_ignoring_case() {
    let mut i = input(
        "A",
        "https://example.com",
        vec![pair("X-A", "1"), pair("x-a", "2"), pair(" X-B ", "3")],
    );
    assert_eq!(validate_provider_input(&mut i), Err("请求头重复: x-a".to_string()));
    // pairs up to the failing one are trimmed, later ones are left as given
    assert_eq!(i.extra_headers[2].name, " X-B ");
}

#[test]
fn rejects_invalid_header_value() {
    let mut i = input("A", "https://example.com", vec![pair("X-A", "line\nbreak")]);
    assert_eq!(validate_provider_input(&mut i), Err("无效请求头值: X-A".to_string()));
}

#[test]
fn keeps_id_and_key() {
    let mut i = input("A", "https://example.com", vec![]);
    i.id = Some("p1".to_string());
    validate_provider_input(&mut i).unwrap();
    assert_eq!(i.id.as_deref(), Some("p1"));
    assert_eq!(i.api_key.as_deref(), Some("key"));
}
