//! What the proxy makes of upstream answers: error summaries, connection
//! failures, the preview of an error body, model lists and connection tests.

use vstd::prelude::*;
use vstd::slice::*;
use vstd::string::*;

use crate::models::ProviderTestResult;
use crate::request_log::is_success;
use crate::runtime::ProviderRuntime;
use crate::text::{decimal, push_decimal, trim, trim_str};

verus! {

/// What a JSON reader finds at `/error/message` of `body` when `body` is a
/// JSON document and that member is a string; `None` otherwise.
pub uninterp spec fn json_error_message(body: Seq<char>) -> Option<Seq<char>>;

/// Reads `/error/message` from a JSON error body. Calls
/// `serde_json::from_str::<serde_json::Value>`, then `Value::pointer` and
/// `Value::as_str` on the result. JSON parsing takes pages to state; the
/// contract only ties the result to [`json_error_message`] of the body.
#[verifier::external_body]
fn read_error_message(body: &str) -> (r: Option<String>)
    ensures
        match r {
            Some(m) => json_error_message(body@) == Some(m@),
            None => json_error_message(body@) is None,
        },
{
    match serde_json::from_str::<serde_json::Value>(body) {
        Ok(v) => match v.pointer("/error/message") {
            Some(serde_json::Value::String(s)) => Some(s.clone()),
            _ => None,
        },
        Err(_) => None,
    }
}

/// Most characters of an upstream message that a summary keeps.
pub open spec fn summary_limit() -> nat {
    240
}

/// The summary of an upstream error answer: the status, then the upstream's
/// own message (or a generic one) cut to its first 240 characters.
pub open spec fn error_summary(status: u16, message: Option<Seq<char>>) -> Seq<char> {
    let m = match message {
        Some(m) => m,
        None => "上游返回错误"@,
    };
    let kept = if m.len() > summary_limit() {
        m.take(summary_limit() as int)
    } else {
        m
    };
    "HTTP "@ + decimal(status as nat) + ": "@ + kept
}

/// Summarises an upstream error answer from its status and the message that
/// was read from its body.
pub fn format_upstream_error(status: u16, message: Option<String>) -> (r: String)
    ensures
        r@ == error_summary(
            status,
            match message {
                Some(m) => Some(m@),
                None => None,
            },
        ),
{
    let m = match message {
        Some(m) => m,
        None => "上游返回错误".to_owned(),
    };
    let n = m.as_str().unicode_len();
    let kept = if n > 240 {
        m.as_str().substring_char(0, 240)
    } else {
        m.as_str()
    };
    assert(n > 240 ==> kept@ =~= m@.take(240));
    let mut out = "HTTP ".to_owned();
    push_decimal(&mut out, status as u64);
    out.append(": ");
    out.append(kept);
    out
}

/// Summarises an upstream error answer from its status and its body text.
pub fn summarize_upstream_error(status: u16, body: &str) -> (r: String)
    ensures
        r@ == error_summary(status, json_error_message(body@)),
{
    format_upstream_error(status, read_error_message(body))
}

/// An error summary is `HTTP `, the status in decimal, `: `, then the
/// upstream's own message cut to its first 240 characters, whatever the
/// status; the generic text stands only where the body held no message.
pub proof fn summary_keeps_upstream_message(status: u16, message: Option<Seq<char>>)
    ensures
        ({
            let head = "HTTP "@ + decimal(status as nat) + ": "@;
            let r = error_summary(status, message);
            &&& r.take(head.len() as int) == head
            &&& match message {
                Some(m) => {
                    &&& r.len() == head.len() + (if m.len() < 240 {
                        m.len()
                    } else {
                        240
                    })
                    &&& forall|i: int|
                        0 <= i < r.len() - head.len() ==> #[trigger] r[head.len() + i] == m[i]
                },
                None => r.skip(head.len() as int) == "上游返回错误"@,
            }
        }),
{
    let head = "HTTP "@ + decimal(status as nat) + ": "@;
    let r = error_summary(status, message);
    assert(r.take(head.len() as int) =~= head);
    if let Some(m) = message {
        let kept = if m.len() > 240 {
            m.take(240)
        } else {
            m
        };
        assert(r == head + kept);
        assert forall|i: int| 0 <= i < r.len() - head.len() implies #[trigger] r[head.len() + i]
            == m[i] by {
            assert(r[head.len() + i] == kept[i]);
        }
    } else {
        reveal_strlit("上游返回错误");
        assert(r == head + "上游返回错误"@);
        assert(r.skip(head.len() as int) =~= "上游返回错误"@);
    }
}

/// The message for a request that got no answer from the upstream, by what
/// went wrong (checked in this order).
pub open spec fn failure_text(timeout: bool, connect: bool, body: bool) -> Seq<char> {
    if timeout {
        "上游请求超时"@
    } else if connect {
        "无法连接上游 API"@
    } else if body {
        "上游响应流中断"@
    } else {
        "上游请求失败"@
    }
}

/// The message for an upstream failure: a timeout, a failed connection, a
/// broken body, or anything else. No detail of the failure is passed on.
pub fn sanitized_upstream_error(timeout: bool, connect: bool, body: bool) -> (r: String)
    ensures
        r@ == failure_text(timeout, connect, body),
{
    if timeout {
        "上游请求超时".to_owned()
    } else if connect {
        "无法连接上游 API".to_owned()
    } else if body {
        "上游响应流中断".to_owned()
    } else {
        "上游请求失败".to_owned()
    }
}

/// The message for a failed test or model-list request: a timeout, a failed
/// connection, or anything else.
pub fn request_failure_message(timeout: bool, connect: bool) -> (r: String)
    ensures
        r@ == failure_text(timeout, connect, false),
{
    sanitized_upstream_error(timeout, connect, false)
}

/// How an error body is read for its preview: at most `max` bytes, from the
/// first chunks. Appends `chunk` to `bytes` within the limit and says whether
/// to read on.
pub fn append_preview(bytes: &mut Vec<u8>, chunk: &[u8], max: usize) -> (more: bool)
    ensures
        old(bytes)@.len() >= max ==> final(bytes)@ == old(bytes)@ && !more,
        old(bytes)@.len() < max ==> {
            let room = max - old(bytes)@.len();
            let n = if chunk@.len() < room {
                chunk@.len() as int
            } else {
                room
            };
            &&& final(bytes)@ == old(bytes)@ + chunk@.take(n)
            &&& more == (final(bytes)@.len() < max)
        },
{
    if bytes.len() >= max {
        return false;
    }
    let room = max - bytes.len();
    let n = if chunk.len() < room {
        chunk.len()
    } else {
        room
    };
    let part = slice_subrange(chunk, 0, n);
    assert(part@ =~= chunk@.take(n as int));
    bytes.extend_from_slice(part);
    bytes.len() < max
}

/// The text that a lossy UTF-8 reading of `bytes` gives.
pub uninterp spec fn lossy_utf8(bytes: Seq<u8>) -> Seq<char>;

/// Reads bytes as text. Calls `String::from_utf8_lossy`, which std documents
/// as replacing each invalid sequence by U+FFFD; the contract only ties the
/// result to [`lossy_utf8`] of the bytes.
#[verifier::external_body]
fn preview_text(bytes: &[u8]) -> (r: String)
    ensures
        r@ == lossy_utf8(bytes@),
{
    String::from_utf8_lossy(bytes).into_owned()
}

/// Summarises an upstream error answer from its status and the first bytes
/// of its body, read as text.
pub fn summarize_upstream_bytes(status: u16, body: &[u8]) -> (r: String)
    ensures
        r@ == error_summary(status, json_error_message(lossy_utf8(body@))),
{
    let text = preview_text(body);
    summarize_upstream_error(status, text.as_str())
}

/// Refuses a connection test for a provider without a test model.
pub fn check_test_model(runtime: &ProviderRuntime) -> (r: Result<(), String>)
    ensures
        r is Ok <==> trim(runtime.record().test_model@).len() > 0,
        r matches Err(e) ==> e@ == "请先填写测试模型"@,
{
    let t = trim_str(runtime.provider().test_model.as_str());
    if t.as_str().is_empty() {
        Err("请先填写测试模型".to_owned())
    } else {
        Ok(())
    }
}

/// A connection test whose request the upstream accepted.
pub fn test_succeeded(status: u16, latency_ms: u128) -> (r: ProviderTestResult)
    ensures
        r.ok,
        r.status_code == Some(status),
        r.latency_ms == latency_ms,
        r.message@ == "连接测试成功"@,
{
    ProviderTestResult {
        ok: true,
        status_code: Some(status),
        latency_ms,
        message: "连接测试成功".to_owned(),
    }
}

/// A connection test that the upstream answered with an error status, with
/// the first bytes of its body.
pub fn test_rejected(status: u16, latency_ms: u128, body: &[u8]) -> (r: ProviderTestResult)
    ensures
        !r.ok,
        r.status_code == Some(status),
        r.latency_ms == latency_ms,
        r.message@ == error_summary(status, json_error_message(lossy_utf8(body@))),
{
    ProviderTestResult {
        ok: false,
        status_code: Some(status),
        latency_ms,
        message: summarize_upstream_bytes(status, body),
    }
}

/// Whether an answer with this status is an error whose body is read.
pub fn answer_needs_body(status: u16) -> (r: bool)
    ensures
        r == !is_success(status),
{
    !(200 <= status && status <= 299)
}

/// A connection test that the upstream answered with `status`: a success for
/// a 2xx status, else a rejection summarised from the first bytes of the body.
pub fn test_answered(status: u16, latency_ms: u128, body: &[u8]) -> (r: ProviderTestResult)
    ensures
        r.ok == is_success(status),
        r.status_code == Some(status),
        r.latency_ms == latency_ms,
        is_success(status) ==> r.message@ == "连接测试成功"@,
        !is_success(status) ==> r.message@ == error_summary(
            status,
            json_error_message(lossy_utf8(body@)),
        ),
{
    if 200 <= status && status <= 299 {
        test_succeeded(status, latency_ms)
    } else {
        test_rejected(status, latency_ms, body)
    }
}

/// A connection test that got no answer.
pub fn test_unreachable(timeout: bool, connect: bool, latency_ms: u128) -> (r: ProviderTestResult)
    ensures
        !r.ok,
        r.status_code is None,
        r.latency_ms == latency_ms,
        r.message@ == failure_text(timeout, connect, false),
{
    ProviderTestResult {
        ok: false,
        status_code: None,
        latency_ms,
        message: request_failure_message(timeout, connect),
    }
}

} // verus!
