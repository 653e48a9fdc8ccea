//! Verified core of a local forwarding proxy for the Responses API.

pub mod text;
pub mod models;
pub mod headers;
pub mod provider_input;
pub mod runtime;
pub mod request_log;
pub mod upstream;
pub mod model_list;
pub mod proxy;
pub mod setup;
pub mod capture;
pub mod header_map;


