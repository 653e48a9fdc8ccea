//! What the proxy records of each request, from its start to its end.

use vstd::prelude::*;
use vstd::string::*;

use crate::models::RequestLog;
use crate::runtime::{RuntimeStats, began, finished};

use crate::text::opt_chars;

verus! {

/// How a proxied request ended.
#[derive(Debug, Clone, Copy, PartialEq, Eq, Structural)]
pub enum Outcome {
    /// It ended before any answer came back.
    Cancelled,
    /// The upstream answered with success but the body was not read to the end.
    ClientCancelled,
    /// The upstream answered with an error status.
    UpstreamHttpError,
    /// The proxy itself refused or failed the request.
    ProxyError,
    /// The upstream body broke off.
    StreamError,
    /// The upstream body was forwarded to the end.
    Completed,
}

/// The text under which an outcome is stored.
pub open spec fn outcome_text(o: Outcome) -> Seq<char> {
    match o {
        Outcome::Cancelled => "cancelled"@,
        Outcome::ClientCancelled => "client_cancelled"@,
        Outcome::UpstreamHttpError => "upstream_http_error"@,
        Outcome::ProxyError => "proxy_error"@,
        Outcome::StreamError => "stream_error"@,
        Outcome::Completed => "completed"@,
    }
}

impl Outcome {
    /// The text under which this outcome is stored.
    pub fn as_text(&self) -> (r: String)
        ensures
            r@ == outcome_text(*self),
    {
        match self {
            Outcome::Cancelled => "cancelled".to_owned(),
            Outcome::ClientCancelled => "client_cancelled".to_owned(),
            Outcome::UpstreamHttpError => "upstream_http_error".to_owned(),
            Outcome::ProxyError => "proxy_error".to_owned(),
            Outcome::StreamError => "stream_error".to_owned(),
            Outcome::Completed => "completed".to_owned(),
        }
    }
}

/// Whether an HTTP status is a success (2xx).
pub open spec fn is_success(status: u16) -> bool {
    200 <= status <= 299
}

/// The abstract state of a [`RequestGuard`].
pub struct GuardView {
    pub status_code: Option<u16>,
    pub outcome: Outcome,
    pub error: Option<Seq<char>>,
}

/// What a [`RequestGuard`] holds from its start and never changes.
pub struct GuardStart {
    pub id: Seq<char>,
    pub provider_id: Option<Seq<char>>,
    pub provider_name: Option<Seq<char>>,
    pub started_at: Seq<char>,
    pub request_bytes: Option<u64>,
}

/// The record of one request while it runs. It is counted as in flight from
/// [`RequestGuard::new`] until [`RequestGuard::finish`] turns it into its log
/// entry.
pub struct RequestGuard {
    id: String,
    provider_id: Option<String>,
    provider_name: Option<String>,
    started_at: String,
    status_code: Option<u16>,
    outcome: Outcome,
    error: Option<String>,
    request_bytes: Option<u64>,
}

impl View for RequestGuard {
    type V = GuardView;

    closed spec fn view(&self) -> GuardView {
        GuardView {
            status_code: self.status_code,
            outcome: self.outcome,
            error: match self.error {
                Some(e) => Some(e@),
                None => None,
            },
        }
    }
}

/// The state after the upstream answered with `status`.
pub open spec fn after_status(g: GuardView, status: u16) -> GuardView {
    GuardView {
        status_code: Some(status),
        outcome: if is_success(status) {
            Outcome::ClientCancelled
        } else {
            Outcome::UpstreamHttpError
        },
        error: g.error,
    }
}

/// The state after the proxy failed the request with `status` and `error`.
pub open spec fn after_failure(status: u16, error: Seq<char>) -> GuardView {
    GuardView { status_code: Some(status), outcome: Outcome::ProxyError, error: Some(error) }
}

/// The state after the upstream body broke off with `error`.
pub open spec fn after_stream_error(g: GuardView, error: Seq<char>) -> GuardView {
    GuardView { status_code: g.status_code, outcome: Outcome::StreamError, error: Some(error) }
}

/// The state after the upstream body was forwarded to its end: completed if
/// the status was below 400, else unchanged.
pub open spec fn after_complete(g: GuardView) -> GuardView {
    if g.status_code matches Some(s) && s < 400 {
        GuardView { outcome: Outcome::Completed, ..g }
    } else {
        g
    }
}

/// The abstract content of a stored request log.
pub struct LogView {
    pub id: Seq<char>,
    pub provider_id: Option<Seq<char>>,
    pub provider_name: Option<Seq<char>>,
    pub started_at: Seq<char>,
    pub duration_ms: i64,
    pub status_code: Option<u16>,
    pub outcome: Seq<char>,
    pub error: Option<Seq<char>>,
    pub request_bytes: Option<u64>,
    pub content_captured: bool,
}

/// The view of a request log.
pub open spec fn log_view(r: RequestLog) -> LogView {
    LogView {
        id: r.id@,
        provider_id: opt_chars(r.provider_id),
        provider_name: opt_chars(r.provider_name),
        started_at: r.started_at@,
        duration_ms: r.duration_ms,
        status_code: r.status_code,
        outcome: r.outcome@,
        error: opt_chars(r.error),
        request_bytes: r.request_bytes,
        content_captured: r.content_captured,
    }
}

/// The log of a request: made of what was known at its start, the state the
/// request ended in, and its duration, and of nothing else.
pub open spec fn log_record(start: GuardStart, g: GuardView, duration_ms: u128) -> LogView {
    LogView {
        id: start.id,
        provider_id: start.provider_id,
        provider_name: start.provider_name,
        started_at: start.started_at,
        duration_ms: stored_duration(duration_ms),
        status_code: g.status_code,
        outcome: outcome_text(g.outcome),
        error: g.error,
        request_bytes: start.request_bytes,
        content_captured: false,
    }
}

/// `ms` as a stored duration: capped at the largest `i64`.
pub open spec fn stored_duration(ms: u128) -> i64 {
    if ms > i64::MAX as u128 {
        i64::MAX
    } else {
        ms as i64
    }
}

fn copy_opt(s: &Option<String>) -> (r: Option<String>)
    ensures
        r == *s,
{
    match s {
        Some(x) => Some(x.clone()),
        None => None,
    }
}

impl RequestGuard {
    /// What the record holds from its start.
    pub closed spec fn start(&self) -> GuardStart {
        GuardStart {
            id: self.id@,
            provider_id: opt_chars(self.provider_id),
            provider_name: opt_chars(self.provider_name),
            started_at: self.started_at@,
            request_bytes: self.request_bytes,
        }
    }

    /// Starts the record of a request and counts it in `stats`: no status
    /// yet, outcome [`Outcome::Cancelled`], no error.
    pub fn new(
        stats: &mut RuntimeStats,
        id: String,
        started_at: String,
        provider_id: Option<String>,
        provider_name: Option<String>,
        request_bytes: Option<u64>,
    ) -> (r: RequestGuard)
        ensures
            final(stats)@ == began(old(stats)@),
            r@ == (GuardView { status_code: None, outcome: Outcome::Cancelled, error: None }),
            r.start() == (GuardStart {
                id: id@,
                provider_id: opt_chars(provider_id),
                provider_name: opt_chars(provider_name),
                started_at: started_at@,
                request_bytes,
            }),
    {
        stats.begin();
        RequestGuard {
            id,
            provider_id,
            provider_name,
            started_at,
            status_code: None,
            outcome: Outcome::Cancelled,
            error: None,
            request_bytes,
        }
    }

    /// Records the upstream's status.
    pub fn set_status(&mut self, status: u16)
        ensures
            final(self)@ == after_status(old(self)@, status),
            final(self).start() == old(self).start(),
    {
        self.status_code = Some(status);
        self.outcome = if 200 <= status && status <= 299 {
            Outcome::ClientCancelled
        } else {
            Outcome::UpstreamHttpError
        };
    }

    /// Records that the proxy failed the request.
    pub fn fail(&mut self, status: u16, error: &str)
        ensures
            final(self)@ == after_failure(status, error@),
            final(self).start() == old(self).start(),
    {
        self.status_code = Some(status);
        self.outcome = Outcome::ProxyError;
        self.error = Some(error.to_owned());
    }

    /// Records that the upstream body broke off.
    pub fn mark_stream_error(&mut self, error: String)
        ensures
            final(self)@ == after_stream_error(old(self)@, error@),
            final(self).start() == old(self).start(),
    {
        self.outcome = Outcome::StreamError;
        self.error = Some(error);
    }

    /// Records that the upstream body was forwarded to its end.
    pub fn complete(&mut self)
        ensures
            final(self)@ == after_complete(old(self)@),
            final(self).start() == old(self).start(),
    {
        match self.status_code {
            Some(s) => {
                if s < 400 {
                    self.outcome = Outcome::Completed;
                }
            },
            None => {},
        }
    }

    /// Ends the record: the request leaves the in-flight count of `stats`
    /// (its error becoming the last error), and its log entry is returned,
    /// with `duration_ms` capped at the largest `i64`.
    pub fn finish(self, stats: &mut RuntimeStats, duration_ms: u128) -> (r: RequestLog)
        ensures
            final(stats)@ == finished(old(stats)@, self@.error),
            r.id@ == self.start().id,
            opt_chars(r.provider_id) == self.start().provider_id,
            opt_chars(r.provider_name) == self.start().provider_name,
            r.started_at@ == self.start().started_at,
            r.request_bytes == self.start().request_bytes,
            r.status_code == self@.status_code,
            r.outcome@ == outcome_text(self@.outcome),
            match self@.error {
                Some(e) => (r.error matches Some(x) && x@ == e),
                None => r.error is None,
            },
            r.duration_ms == stored_duration(duration_ms),
            !r.content_captured,
            log_view(r) == log_record(self.start(), self@, duration_ms),
    {
        stats.finish(copy_opt(&self.error));
        let duration_ms = if duration_ms > 9223372036854775807u128 {
            9223372036854775807i64
        } else {
            duration_ms as i64
        };
        let outcome = self.outcome.as_text();
        RequestLog {
            id: self.id,
            provider_id: self.provider_id,
            provider_name: self.provider_name,
            started_at: self.started_at,
            duration_ms,
            status_code: self.status_code,
            outcome,
            error: self.error,
            request_bytes: self.request_bytes,
            content_captured: false,
        }
    }
}

/// Forwarding the whole body marks a request completed exactly when its
/// status was below 400; a proxy failure is always recorded as a proxy error
/// with its message; a broken body is recorded as a stream error whatever
/// came before.
pub proof fn outcome_rules(g: GuardView, status: u16, error: Seq<char>)
    ensures
        after_complete(after_status(g, status)).outcome == (if status < 400 {
            Outcome::Completed
        } else {
            Outcome::UpstreamHttpError
        }),
        after_complete(after_failure(status, error)).outcome == (if status < 400 {
            Outcome::Completed
        } else {
            Outcome::ProxyError
        }),
        after_stream_error(g, error).outcome == Outcome::StreamError,
        after_stream_error(g, error).error == Some(error),
        g.status_code is None ==> after_complete(g) == g,
{
}


/// A request refused or failed by the proxy is logged with exactly the
/// status and message it failed with, as a proxy error, whether or not a body
/// is forwarded afterwards. An upstream answer's status is likewise logged as
/// it came, keeping any earlier error; a broken body or the end of the body
/// leaves the status as it was.
pub proof fn failures_keep_their_status(
    start: GuardStart,
    g: GuardView,
    status: u16,
    error: Seq<char>,
    duration_ms: u128,
)
    ensures
        after_failure(status, error).status_code == Some(status),
        after_failure(status, error).error == Some(error),
        after_failure(status, error).outcome == Outcome::ProxyError,
        log_record(start, after_failure(status, error), duration_ms).status_code == Some(status),
        log_record(start, after_failure(status, error), duration_ms).outcome == "proxy_error"@,
        log_record(start, after_failure(status, error), duration_ms).error == Some(error),
        after_complete(after_failure(status, error)).status_code == Some(status),
        after_status(g, status).status_code == Some(status),
        after_complete(after_status(g, status)).status_code == Some(status),
        after_status(g, status).error == g.error,
        after_stream_error(g, error).status_code == g.status_code,
        after_complete(g).status_code == g.status_code,
        after_complete(g).error == g.error,
{
}

/// The log of a request holds nothing of its bodies or of any key: two
/// requests from the same provider, with the same declared size, that end in
/// the same state (status, outcome, error) are logged alike, apart from their
/// id, start time and duration, whatever their body bytes or the key used.
pub proof fn log_holds_no_content(
    a: GuardStart,
    b: GuardStart,
    g: GuardView,
    da: u128,
    db: u128,
)
    requires
        a.provider_id == b.provider_id,
        a.provider_name == b.provider_name,
        a.request_bytes == b.request_bytes,
    ensures
        ({
            let la = log_record(a, g, da);
            let lb = log_record(b, g, db);
            &&& la.provider_id == lb.provider_id
            &&& la.provider_name == lb.provider_name
            &&& la.status_code == lb.status_code
            &&& la.outcome == lb.outcome
            &&& la.error == lb.error
            &&& la.request_bytes == lb.request_bytes
            &&& la.content_captured == lb.content_captured
            &&& !la.content_captured
        }),
{
}

} // verus!
