//! The active provider, its snapshot for requests, and the running counters.

use std::sync::Arc;
use vstd::prelude::*;
use vstd::string::*;

use crate::headers::{
    header_value_accepted, parse_header_name, reserved_header, valid_header_name,
    valid_header_value,
};
use crate::header_map::{
    distinct_entry_names, entries_view, entry_inserted, header_map_entries, header_map_insert,
    header_map_list, lemma_entry_inserted, new_header_map,
};
use crate::headers::{RequestHeader, headers_view};
use crate::models::{AppStatus, HeaderPairView, Provider, ProviderView, pairs_view};
use reqwest::header::{HeaderMap, HeaderValue};
use vstd::utf8::*;
use crate::text::{ascii_lower, strip_end, strip_end_str, trim, trim_str};

verus! {

/// A provider ready to serve requests: its record, its API key and its extra
/// headers as parsed (lowercase names, each name once).
pub struct ProviderRuntime {
    pub provider: Provider,
    api_key: String,
    pub headers: HeaderMap<HeaderValue>,
}

/// The headers that a provider's extra headers parse into, or the error of
/// the first one that does not parse.
pub open spec fn runtime_headers(ps: Seq<HeaderPairView>) -> Result<
    Seq<(Seq<char>, Seq<u8>)>,
    Seq<char>,
>
    decreases ps.len(),
{
    if ps.len() == 0 {
        Ok(Seq::empty())
    } else {
        match runtime_headers(ps.drop_last()) {
            Err(e) => Err(e),
            Ok(hs) => {
                let p = ps.last();
                if !valid_header_name(trim(p.name)) {
                    Err("无效请求头名称: "@ + p.name)
                } else if !valid_header_value(p.value) {
                    Err("无效请求头值: "@ + p.name)
                } else {
                    Ok(entry_inserted(hs, ascii_lower(trim(p.name)), encode_utf8(p.value)))
                }
            },
        }
    }
}

/// The outcome of building a runtime from what storage and the credential
/// store gave back.
pub open spec fn runtime_outcome(
    provider: Option<Provider>,
    api_key: Result<Seq<char>, Seq<char>>,
) -> Result<(Seq<char>, Seq<(Seq<char>, Seq<u8>)>), Seq<char>> {
    match provider {
        None => Err("Provider 不存在"@),
        Some(p) => match api_key {
            Err(e) => Err(e),
            Ok(k) => if trim(k).len() == 0 {
                Err("API Key 为空"@)
            } else {
                match runtime_headers(pairs_view(p.extra_headers@)) {
                    Err(e) => Err(e),
                    Ok(hs) => Ok((k, hs)),
                }
            },
        },
    }
}

impl ProviderRuntime {
    /// The API key, as a specification value.
    pub closed spec fn key(&self) -> Seq<char> {
        self.api_key@
    }

    /// The provider record, as a specification value.
    pub closed spec fn record(&self) -> Provider {
        self.provider
    }

    /// The parsed extra headers, as a specification value.
    pub closed spec fn header_entries(&self) -> Seq<(Seq<char>, Seq<u8>)> {
        header_map_entries(self.headers)
    }

    /// A runtime with no extra headers.
    pub fn new_for_test(provider: Provider, api_key: String) -> (r: ProviderRuntime)
        ensures
            r.record() == provider,
            r.key() == api_key@,
            r.header_entries().len() == 0,
    {
        ProviderRuntime { provider, api_key, headers: new_header_map() }
    }

    /// The provider record.
    pub fn provider(&self) -> (r: &Provider)
        ensures
            *r == self.record(),
    {
        &self.provider
    }

    /// The parsed extra headers.
    pub fn headers(&self) -> (r: &HeaderMap<HeaderValue>)
        ensures
            header_map_entries(*r) == self.header_entries(),
    {
        &self.headers
    }

    /// The parsed extra headers as a list, in the map's order.
    pub fn extra_headers(&self) -> (r: Vec<RequestHeader>)
        ensures
            headers_view(r@) == entries_view(self.header_entries()),
    {
        header_map_list(&self.headers)
    }

    /// The upstream API key.
    pub fn api_key(&self) -> (r: &str)
        ensures
            r@ == self.key(),
    {
        self.api_key.as_str()
    }

    /// The upstream Responses endpoint: the base URL without trailing slashes,
    /// then `/responses`.
    pub fn responses_url(&self) -> (r: String)
        ensures
            r@ == strip_end(self.record().base_url@, '/') + "/responses"@,
    {
        let mut u = strip_end_str(self.provider.base_url.as_str(), '/');
        u.append("/responses");
        u
    }

    /// The upstream model list endpoint: the base URL without trailing
    /// slashes, then `/models`.
    pub fn models_url(&self) -> (r: String)
        ensures
            r@ == strip_end(self.record().base_url@, '/') + "/models"@,
    {
        let mut u = strip_end_str(self.provider.base_url.as_str(), '/');
        u.append("/models");
        u
    }

}

/// An error among the first `n` extra headers is the error of them all.
proof fn lemma_runtime_headers_prefix_error(s: Seq<HeaderPairView>, n: int)
    requires
        0 <= n <= s.len(),
        runtime_headers(s.take(n)) is Err,
    ensures
        runtime_headers(s) == runtime_headers(s.take(n)),
    decreases s.len(),
{
    if n == s.len() {
        assert(s.take(n) =~= s);
    } else {
        assert(s.drop_last().take(n) =~= s.take(n));
        lemma_runtime_headers_prefix_error(s.drop_last(), n);
    }
}


/// Makes another handle to a shared runtime. Calls `Arc::clone`, which std
/// documents as a new pointer to the same allocation, so the value it reaches
/// is the same.
#[verifier::external_body]
fn share(rt: &Arc<ProviderRuntime>) -> (r: Arc<ProviderRuntime>)
    ensures
        *r == **rt,
{
    Arc::clone(rt)
}

/// The abstract state of a [`ProviderManager`].
pub struct ManagerView {
    pub active: Option<ProviderRuntime>,
    pub active_id: Option<Seq<char>>,
}

/// The state after switching to `rt`.
pub open spec fn switched_to(rt: ProviderRuntime) -> ManagerView {
    ManagerView { active: Some(rt), active_id: Some(rt.record().id@) }
}

/// The state with no active provider.
pub open spec fn no_active() -> ManagerView {
    ManagerView { active: None, active_id: None }
}

/// Holds the provider that new requests use. Each request takes a snapshot
/// (a shared handle) when it starts; switching replaces the provider for later
/// snapshots only.
pub struct ProviderManager {
    active: Option<Arc<ProviderRuntime>>,
    active_id: Option<String>,
}

impl View for ProviderManager {
    type V = ManagerView;

    closed spec fn view(&self) -> ManagerView {
        ManagerView {
            active: match self.active {
                Some(a) => Some(*a),
                None => None,
            },
            active_id: match self.active_id {
                Some(i) => Some(i@),
                None => None,
            },
        }
    }
}

impl ProviderManager {
    /// Builds the runtime of a provider from its stored record (`None` when
    /// there is none) and its API key as read from the credential store (or
    /// the read's error message). Rejects a missing provider, a blank key, and
    /// extra headers that do not parse; later headers of the same name
    /// replace earlier ones.
    #[verifier::loop_isolation(false)]
    pub fn load_runtime(provider: Option<Provider>, api_key: Result<String, String>) -> (r: Result<
        ProviderRuntime,
        String,
    >)
        requires
            provider matches Some(p) ==> p.extra_headers@.len() < 6554,
        ensures
            match r {
                Ok(rt) => provider == Some(rt.record()) && runtime_outcome(
                    provider,
                    match api_key {
                        Ok(k) => Ok(k@),
                        Err(e) => Err(e@),
                    },
                ) == Ok::<(Seq<char>, Seq<(Seq<char>, Seq<u8>)>), Seq<char>>(
                    (rt.key(), rt.header_entries()),
                ),
                Err(e) => runtime_outcome(
                    provider,
                    match api_key {
                        Ok(k) => Ok(k@),
                        Err(e) => Err(e@),
                    },
                ) == Err::<(Seq<char>, Seq<(Seq<char>, Seq<u8>)>), Seq<char>>(e@),
            },
    {
        let provider = match provider {
            None => {
                return Err("Provider 不存在".to_owned());
            },
            Some(p) => p,
        };
        let api_key = match api_key {
            Err(e) => {
                return Err(e);
            },
            Ok(k) => k,
        };
        let t = trim_str(api_key.as_str());
        if t.as_str().is_empty() {
            return Err("API Key 为空".to_owned());
        }
        let ps = &provider.extra_headers;
        let ghost pv = pairs_view(ps@);
        let mut hs = new_header_map();
        let mut i: usize = 0;
        assert(pv.take(0) =~= Seq::<HeaderPairView>::empty());
        while i < ps.len()
            invariant
                i <= ps@.len(),
                ps@.len() < 6554,
                pv == pairs_view(ps@),
                runtime_headers(pv.take(i as int)) == Ok::<Seq<(Seq<char>, Seq<u8>)>, Seq<char>>(
                    header_map_entries(hs),
                ),
                distinct_entry_names(header_map_entries(hs)),
                header_map_entries(hs).len() <= i,
            decreases ps.len() - i,
        {
            let p = &ps[i];
            proof {
                assert(pv.take(i + 1).drop_last() =~= pv.take(i as int));
                assert(pv.take(i + 1).last() == p@);
            }
            let name = trim_str(p.name.as_str());
            let lower = match parse_header_name(name.as_str()) {
                None => {
                    let mut m = "无效请求头名称: ".to_owned();
                    m.append(p.name.as_str());
                    proof {
                        lemma_runtime_headers_prefix_error(pv, i + 1);
                    }
                    return Err(m);
                },
                Some(l) => l,
            };
            if !header_value_accepted(p.value.as_str()) {
                let mut m = "无效请求头值: ".to_owned();
                m.append(p.name.as_str());
                proof {
                    lemma_runtime_headers_prefix_error(pv, i + 1);
                }
                return Err(m);
            }
            proof {
                lemma_entry_inserted(
                    header_map_entries(hs),
                    ascii_lower(name@),
                    encode_utf8(p.value@),
                );
            }
            header_map_insert(&mut hs, name.as_str(), p.value.as_str());
            i = i + 1;
        }
        assert(pv.take(ps@.len() as int) =~= pv);
        Ok(ProviderRuntime { provider, api_key, headers: hs })
    }

    /// The active provider and its id agree.
    #[verifier::type_invariant]
    closed spec fn consistent(self) -> bool {
        match self.active {
            Some(a) => self.active_id matches Some(i) && i@ == a.record().id@,
            None => self.active_id is None,
        }
    }

    /// Whether the active id is that of the active runtime.
    pub open spec fn agrees(v: ManagerView) -> bool {
        match v.active {
            Some(a) => v.active_id == Some(a.record().id@),
            None => v.active_id is None,
        }
    }

    /// A manager with no active provider.
    pub fn new() -> (r: ProviderManager)
        ensures
            r@ == no_active(),
    {
        ProviderManager { active: None, active_id: None }
    }

    /// The manager at start-up, from the saved active provider: `None` when no
    /// provider was saved, else the saved id and the result of loading its
    /// runtime. A runtime that loads becomes active; one that does not leaves
    /// no provider active, and its error comes back so that the saved setting
    /// is dropped.
    pub fn restore(saved: Option<(String, Result<ProviderRuntime, String>)>) -> (r: (
        ProviderManager,
        Option<String>,
    ))
        ensures
            saved is None ==> r.0@ == no_active() && r.1 is None,
            saved matches Some((_, Ok(rt))) ==> r.0@ == switched_to(rt) && r.1 is None,
            saved matches Some((_, Err(e))) ==> r.0@ == no_active() && (r.1 matches Some(x)
                && x@ == e@),
            Self::agrees(r.0@),
    {
        match saved {
            None => (ProviderManager::new(), None),
            Some((_id, Ok(runtime))) => {
                let mut m = ProviderManager::new();
                m.switch(runtime);
                (m, None)
            },
            Some((_id, Err(error))) => (ProviderManager::new(), Some(error)),
        }
    }

    /// The snapshot that a request starting now uses.
    pub fn active(&self) -> (r: Option<Arc<ProviderRuntime>>)
        ensures
            match r {
                Some(a) => self@.active == Some(*a),
                None => self@.active is None,
            },
            Self::agrees(self@),
    {
        proof {
            use_type_invariant(self);
        }
        match &self.active {
            Some(a) => Some(share(a)),
            None => None,
        }
    }

    /// The id of the active provider.
    pub fn active_id(&self) -> (r: Option<String>)
        ensures
            match r {
                Some(i) => self@.active_id == Some(i@),
                None => self@.active_id is None,
            },
            Self::agrees(self@),
    {
        proof {
            use_type_invariant(self);
        }
        match &self.active_id {
            Some(i) => Some(i.clone()),
            None => None,
        }
    }

    /// Whether `id` is the active provider's id.
    pub fn is_active(&self, id: &str) -> (r: bool)
        ensures
            r == (self@.active_id == Some(id@)),
    {
        match &self.active_id {
            Some(i) => {
                let a = crate::text::chars_of(i.as_str());
                crate::text::chars_equal_str(&a, id)
            },
            None => false,
        }
    }

    /// Makes `runtime` the provider of every request that starts from now on.
    pub fn switch(&mut self, runtime: ProviderRuntime)
        ensures
            final(self)@ == switched_to(runtime),
    {
        let id = runtime.provider.id.clone();
        *self = ProviderManager { active: Some(Arc::new(runtime)), active_id: Some(id) };
    }

    /// Leaves no provider active.
    pub fn deactivate(&mut self)
        ensures
            final(self)@ == no_active(),
    {
        *self = ProviderManager { active: None, active_id: None };
    }

    /// The providers as listed to the user: each marked active when its id is
    /// the active id, with whether it has an API key (`has_api_key[i]` for
    /// `providers[i]`).
    pub fn list_views(&self, providers: Vec<Provider>, has_api_key: Vec<bool>) -> (r: Vec<
        ProviderView,
    >)
        requires
            providers@.len() == has_api_key@.len(),
        ensures
            r@.len() == providers@.len(),
            forall|i: int|
                0 <= i < r@.len() ==> {
                    &&& (#[trigger] r@[i]).provider == providers@[i]
                    &&& r@[i].active == (self@.active_id == Some(providers@[i].id@))
                    &&& r@[i].has_api_key == has_api_key@[i]
                },
    {
        let mut r: Vec<ProviderView> = Vec::new();
        for provider in it: providers
            invariant
                has_api_key@.len() == it.seq().len(),
                r@.len() == it.index(),
                forall|j: int|
                    0 <= j < r@.len() ==> {
                        &&& (#[trigger] r@[j]).provider == it.seq()[j]
                        &&& r@[j].active == (self@.active_id == Some(it.seq()[j].id@))
                        &&& r@[j].has_api_key == has_api_key@[j]
                    },
        {
            let active = self.is_active(provider.id.as_str());
            r.push(ProviderView { provider, active, has_api_key: has_api_key[r.len()] });
        }
        r
    }
}


/// A counter after one more increment, wrapping past the largest value as an
/// atomic `fetch_add` does.
pub open spec fn count_up(x: u64) -> u64 {
    if x == u64::MAX {
        0
    } else {
        (x + 1) as u64
    }
}

/// A counter after one decrement, wrapping below zero as an atomic
/// `fetch_sub` does.
pub open spec fn count_down(x: u64) -> u64 {
    if x == 0 {
        u64::MAX
    } else {
        (x - 1) as u64
    }
}

/// The abstract state of [`RuntimeStats`].
pub struct StatsView {
    pub in_flight: u64,
    pub total: u64,
    pub last_error: Option<Seq<char>>,
}

/// The counters after a request starts.
pub open spec fn began(s: StatsView) -> StatsView {
    StatsView { in_flight: count_up(s.in_flight), total: count_up(s.total), last_error: s.last_error }
}

/// The counters after a request ends, with its error if it had one.
pub open spec fn finished(s: StatsView, error: Option<Seq<char>>) -> StatsView {
    StatsView {
        in_flight: count_down(s.in_flight),
        total: s.total,
        last_error: match error {
            Some(e) => Some(e),
            None => s.last_error,
        },
    }
}

/// Requests in flight, requests seen, and the last error a request ended with.
pub struct RuntimeStats {
    in_flight: u64,
    total: u64,
    last_error: Option<String>,
}

impl View for RuntimeStats {
    type V = StatsView;

    closed spec fn view(&self) -> StatsView {
        StatsView {
            in_flight: self.in_flight,
            total: self.total,
            last_error: match self.last_error {
                Some(e) => Some(e@),
                None => None,
            },
        }
    }
}

impl RuntimeStats {
    /// No request seen yet.
    pub fn new() -> (r: RuntimeStats)
        ensures
            r@ == (StatsView { in_flight: 0, total: 0, last_error: None }),
    {
        RuntimeStats { in_flight: 0, total: 0, last_error: None }
    }

    /// Counts a request that starts.
    pub fn begin(&mut self)
        ensures
            final(self)@ == began(old(self)@),
    {
        self.in_flight = if self.in_flight == u64::MAX {
            0
        } else {
            self.in_flight + 1
        };
        self.total = if self.total == u64::MAX {
            0
        } else {
            self.total + 1
        };
    }

    /// Counts a request that ends; its error, if any, becomes the last error.
    pub fn finish(&mut self, error: Option<String>)
        ensures
            final(self)@ == finished(
                old(self)@,
                match error {
                    Some(e) => Some(e@),
                    None => None,
                },
            ),
    {
        self.in_flight = if self.in_flight == 0 {
            u64::MAX
        } else {
            self.in_flight - 1
        };
        if let Some(e) = error {
            self.last_error = Some(e);
        }
    }

    /// The status shown to the user: the proxy runs at `listen_address`, the
    /// active provider's id and name, the counters and the last error.
    pub fn status(&self, manager: &ProviderManager, listen_address: &str) -> (r: AppStatus)
        ensures
            r.proxy_running,
            r.listen_address@ == listen_address@,
            match manager@.active {
                Some(a) => (r.active_provider_id matches Some(i) && i@ == a.record().id@) && (
                r.active_provider_name matches Some(n) && n@ == a.record().name@),
                None => r.active_provider_id is None && r.active_provider_name is None,
            },
            r.in_flight_requests == self@.in_flight,
            r.total_requests == self@.total,
            match self@.last_error {
                Some(e) => (r.last_error matches Some(x) && x@ == e),
                None => r.last_error is None,
            },
    {
        let active = manager.active();
        let (id, name) = match &active {
            Some(a) => (Some(a.provider.id.clone()), Some(a.provider.name.clone())),
            None => (None, None),
        };
        AppStatus {
            proxy_running: true,
            listen_address: listen_address.to_owned(),
            active_provider_id: id,
            active_provider_name: name,
            in_flight_requests: self.in_flight,
            total_requests: self.total,
            last_error: match &self.last_error {
                Some(e) => Some(e.clone()),
                None => None,
            },
        }
    }
}

/// A request that ends undoes its start on the in-flight count and leaves
/// the total one higher; an error it ends with becomes the last error, and
/// one that ends without error leaves the last error as it was.
pub proof fn finish_undoes_begin(s: StatsView, error: Option<Seq<char>>)
    ensures
        finished(began(s), error).in_flight == s.in_flight,
        finished(began(s), error).total == count_up(s.total),
        error is None ==> finished(began(s), error).last_error == s.last_error,
        error matches Some(e) ==> finished(began(s), error).last_error == Some(e),
{
}

/// A request is counted in the total when it starts and never when it ends:
/// starting raises both counters by one (modulo 2^64), ending lowers the
/// in-flight count by one (modulo 2^64) and leaves the total as it was.
pub proof fn total_counts_starts(s: StatsView, error: Option<Seq<char>>)
    ensures
        began(s).total as int == (s.total as int + 1) % 0x1_0000_0000_0000_0000,
        began(s).in_flight as int == (s.in_flight as int + 1) % 0x1_0000_0000_0000_0000,
        began(s).last_error == s.last_error,
        finished(s, error).total == s.total,
        finished(s, error).in_flight as int == (s.in_flight as int + 0xffff_ffff_ffff_ffff)
            % 0x1_0000_0000_0000_0000,
{
}

/// Switching to a runtime makes it, and its id, what later snapshots see;
/// switching again to the same runtime changes nothing; after a switch or a
/// deactivation the active id agrees with the active runtime.
pub proof fn switch_sets_later_snapshots(rt: ProviderRuntime)
    ensures
        switched_to(rt).active == Some(rt),
        switched_to(rt).active_id == Some(rt.record().id@),
        ProviderManager::agrees(switched_to(rt)),
        ProviderManager::agrees(no_active()),
{
}


/// The names of the headers a runtime is built from come from the extra
/// headers, trimmed and lowercased, and no name occurs twice.
proof fn lemma_runtime_header_names(ps: Seq<HeaderPairView>, hs: Seq<(Seq<char>, Seq<u8>)>)
    requires
        runtime_headers(ps) == Ok::<Seq<(Seq<char>, Seq<u8>)>, Seq<char>>(hs),
    ensures
        distinct_entry_names(hs),
        forall|i: int|
            0 <= i < hs.len() ==> exists|j: int|
                0 <= j < ps.len() && (#[trigger] hs[i]).0 == ascii_lower(trim(ps[j].name)),
    decreases ps.len(),
{
    if ps.len() > 0 {
        let prev = runtime_headers(ps.drop_last())->Ok_0;
        lemma_runtime_header_names(ps.drop_last(), prev);
        let p = ps.last();
        lemma_entry_inserted(prev, ascii_lower(trim(p.name)), encode_utf8(p.value));
        assert forall|i: int| 0 <= i < hs.len() implies exists|j: int|
            0 <= j < ps.len() && (#[trigger] hs[i]).0 == ascii_lower(trim(ps[j].name)) by {
            if hs[i].0 == ascii_lower(trim(p.name)) {
                assert(ps[ps.len() - 1] == p);
            } else {
                let q = choose|q: int| 0 <= q < prev.len() && prev[q].0 == hs[i].0;
                let j = choose|j: int|
                    0 <= j < ps.drop_last().len() && (#[trigger] prev[q]).0 == ascii_lower(
                        trim(ps.drop_last()[j].name),
                    );
                assert(ps[j] == ps.drop_last()[j]);
            }
        }
    }
}

proof fn lemma_token_text_is_trimmed(s: Seq<char>)
    requires
        valid_header_name(s),
    ensures
        trim(s) == s,
{
    assert(!crate::text::is_ws(s[0]));
    assert(crate::text::trim_start(s) == s);
    assert(!crate::text::is_ws(s.last())) by {
        assert(crate::headers::token_char(s[s.len() - 1]));
    }
}

/// Header names that pass validation stay clear of the reserved names once a
/// runtime is built from them.
pub proof fn loaded_headers_avoid_reserved_names(
    ps: Seq<HeaderPairView>,
    hs: Seq<(Seq<char>, Seq<u8>)>,
)
    requires
        forall|j: int|
            0 <= j < ps.len() ==> valid_header_name((#[trigger] ps[j]).name) && !reserved_header(
                ascii_lower(ps[j].name),
            ),
        runtime_headers(ps) == Ok::<Seq<(Seq<char>, Seq<u8>)>, Seq<char>>(hs),
    ensures
        forall|i: int| 0 <= i < hs.len() ==> !reserved_header(ascii_lower(#[trigger] hs[i].0)),
{
    lemma_runtime_header_names(ps, hs);
    assert forall|i: int| 0 <= i < hs.len() implies !reserved_header(
        ascii_lower(#[trigger] hs[i].0),
    ) by {
        let j = choose|j: int| 0 <= j < ps.len() && hs[i].0 == ascii_lower(trim(ps[j].name));
        assert(valid_header_name(ps[j].name));
        lemma_token_text_is_trimmed(ps[j].name);
        assert(ascii_lower(ascii_lower(ps[j].name)) =~= ascii_lower(ps[j].name));
    }
}

/// A provider saved through validation and loaded as a runtime sends its own
/// key as the only `Authorization` of every upstream request, whatever the
/// client sent, and no hop-by-hop header.
pub proof fn saved_provider_owns_authorization(
    name: Seq<char>,
    base_url: Seq<char>,
    headers: Seq<HeaderPairView>,
    loaded: Seq<(Seq<char>, Seq<u8>)>,
    key: Seq<u8>,
    incoming: Seq<crate::headers::RequestHeaderView>,
)
    requires
        crate::provider_input::input_check(name, base_url, headers) is Ok,
        runtime_headers(crate::provider_input::headers_after_check(name, base_url, headers))
            == Ok::<Seq<(Seq<char>, Seq<u8>)>, Seq<char>>(loaded),
    ensures
        crate::headers::upstream_headers(key, incoming, entries_view(loaded))[0]
            == crate::headers::authorization_header(key),
        forall|i: int|
            1 <= i < crate::headers::upstream_headers(key, incoming, entries_view(loaded)).len()
                ==> {
                let l = ascii_lower(
                    #[trigger] crate::headers::upstream_headers(
                        key,
                        incoming,
                        entries_view(loaded),
                    )[i].name,
                );
                l != "authorization"@ && !crate::headers::hop_by_hop(l)
            },
{
    crate::provider_input::accepted_headers_are_safe(name, base_url, headers);
    let stored = crate::provider_input::headers_after_check(name, base_url, headers);
    loaded_headers_avoid_reserved_names(stored, loaded);
    let e = entries_view(loaded);
    assert forall|j: int| 0 <= j < e.len() implies !reserved_header(
        ascii_lower(#[trigger] e[j].name),
    ) by {
        assert(e[j].name == loaded[j].0);
    }
    crate::headers::upstream_authorization_is_the_providers(key, incoming, e);
}

} // verus!
