//! The records that the library exchanges with its callers.

use vstd::prelude::*;

verus! {

/// One extra request header configured for a provider.
#[derive(Debug, Clone)]
pub struct HeaderPair {
    pub name: String,
    pub value: String,
}

/// The abstract content of a [`HeaderPair`].
pub struct HeaderPairView {
    pub name: Seq<char>,
    pub value: Seq<char>,
}

impl View for HeaderPair {
    type V = HeaderPairView;

    open spec fn view(&self) -> HeaderPairView {
        HeaderPairView { name: self.name@, value: self.value@ }
    }
}

impl HeaderPair {
    /// A copy of this pair.
    pub fn duplicate(&self) -> (r: HeaderPair)
        ensures
            r@ == self@,
    {
        HeaderPair { name: self.name.clone(), value: self.value.clone() }
    }
}

/// The views of a sequence of header pairs.
pub open spec fn pairs_view(v: Seq<HeaderPair>) -> Seq<HeaderPairView> {
    v.map_values(|p: HeaderPair| p@)
}

/// An upstream API as stored.
#[derive(Debug, Clone)]
pub struct Provider {
    pub id: String,
    pub name: String,
    pub base_url: String,
    pub test_model: String,
    pub extra_headers: Vec<HeaderPair>,
    pub created_at: String,
    pub updated_at: String,
}

/// What the user submits to create or edit a provider.
#[derive(Debug, Clone)]
pub struct ProviderInput {
    pub id: Option<String>,
    pub name: String,
    pub base_url: String,
    pub api_key: Option<String>,
    pub test_model: String,
    pub extra_headers: Vec<HeaderPair>,
}

/// A provider as listed to the user.
#[derive(Debug, Clone)]
pub struct ProviderView {
    pub provider: Provider,
    pub active: bool,
    pub has_api_key: bool,
}

/// The proxy's running state as shown to the user.
#[derive(Debug, Clone)]
pub struct AppStatus {
    pub proxy_running: bool,
    pub listen_address: String,
    pub active_provider_id: Option<String>,
    pub active_provider_name: Option<String>,
    pub in_flight_requests: u64,
    pub total_requests: u64,
    pub last_error: Option<String>,
}

/// The metadata recorded for one proxied request.
#[derive(Debug, Clone)]
pub struct RequestLog {
    pub id: String,
    pub provider_id: Option<String>,
    pub provider_name: Option<String>,
    pub started_at: String,
    pub duration_ms: i64,
    pub status_code: Option<u16>,
    pub outcome: String,
    pub error: Option<String>,
    pub request_bytes: Option<u64>,
    pub content_captured: bool,
}

/// The answer to a manual connection test.
#[derive(Debug, Clone)]
pub struct ProviderTestResult {
    pub ok: bool,
    pub status_code: Option<u16>,
    pub latency_ms: u128,
    pub message: String,
}

/// The client configuration shown to the user.
#[derive(Debug, Clone)]
pub struct CodexSetup {
    pub config_toml: String,
    pub powershell_command: String,
    pub local_token: String,
}

/// Whether request and response bodies are being recorded.
#[derive(Debug, Clone)]
pub struct ContentCaptureStatus {
    pub enabled: bool,
}

/// The recorded bodies of one request.
#[derive(Debug, Clone)]
pub struct RequestCapture {
    pub request_content_type: Option<String>,
    pub response_content_type: Option<String>,
    pub request_content: Option<String>,
    pub response_content: Option<String>,
    pub request_captured_bytes: i64,
    pub response_captured_bytes: i64,
    pub request_complete: bool,
    pub response_complete: bool,
    pub capture_error: Option<String>,
}

} // verus!
