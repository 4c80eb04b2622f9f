//! The optional cache wrapper: built enabled or disabled per scope when the
//! gateway is constructed, so the per-request path never branches on a
//! mutable flag. Enabled, it answers fresh entries with `helicone-cache:
//! HIT` and marks everything it forwards with `helicone-cache: MISS`;
//! disabled, it passes requests through untouched and adds no header.

use vstd::prelude::*;

use crate::cache_key::{fingerprint_spec, CacheScope, ScopeModel};
use crate::cache_store::{fresh, CacheStore, EntryModel};
use crate::config::{CacheConfig, InitError, RouterConfig};
use crate::parse::parse_max_age_spec;
use crate::types::{
    opt_bytes_view, GatewayRequest, GatewayResponse, Header, HeaderModel, RequestModel,
    ResponseModel,
};

verus! {

/// The name of the header the cache layer stamps on responses.
pub open spec fn cache_header_name() -> Seq<u8> {
    seq![
        ('h' as u8),
        ('e' as u8),
        ('l' as u8),
        ('i' as u8),
        ('c' as u8),
        ('o' as u8),
        ('n' as u8),
        ('e' as u8),
        ('-' as u8),
        ('c' as u8),
        ('a' as u8),
        ('c' as u8),
        ('h' as u8),
        ('e' as u8),
    ]
}

pub open spec fn hit_value() -> Seq<u8> {
    seq![('H' as u8), ('I' as u8), ('T' as u8)]
}

pub open spec fn miss_value() -> Seq<u8> {
    seq![('M' as u8), ('I' as u8), ('S' as u8), ('S' as u8)]
}

/// The header name as bytes.
pub fn cache_header_name_vec() -> (r: Vec<u8>)
    ensures
        r@ == cache_header_name(),
{
    let r = vec![
        ('h' as u8),
        ('e' as u8),
        ('l' as u8),
        ('i' as u8),
        ('c' as u8),
        ('o' as u8),
        ('n' as u8),
        ('e' as u8),
        ('-' as u8),
        ('c' as u8),
        ('a' as u8),
        ('c' as u8),
        ('h' as u8),
        ('e' as u8),
    ];
    assert(r@ =~= cache_header_name());
    r
}

fn hit_value_vec() -> (r: Vec<u8>)
    ensures
        r@ == hit_value(),
{
    let r = vec![('H' as u8), ('I' as u8), ('T' as u8)];
    assert(r@ =~= hit_value());
    r
}

fn miss_value_vec() -> (r: Vec<u8>)
    ensures
        r@ == miss_value(),
{
    let r = vec![('M' as u8), ('I' as u8), ('S' as u8), ('S' as u8)];
    assert(r@ =~= miss_value());
    r
}

/// What an active cache scope carries: the seed that salts router
/// fingerprints and the fallback freshness window.
pub struct CacheSettings {
    pub seed: Option<Vec<u8>>,
    pub default_max_age: u64,
}

/// Mathematical image of [`CacheSettings`].
pub ghost struct SettingsModel {
    pub seed: Option<Seq<u8>>,
    pub default_max_age: u64,
}

impl View for CacheSettings {
    type V = SettingsModel;

    open spec fn view(&self) -> SettingsModel {
        SettingsModel { seed: opt_bytes_view(self.seed), default_max_age: self.default_max_age }
    }
}

/// The settings of a layer, where it is active.
pub open spec fn layer_view(l: Layer) -> Option<SettingsModel> {
    match l.inner {
        Some(s) => Some(s@),
        None => None,
    }
}

/// The settings of a service, where it is active.
pub open spec fn service_view(s: Service) -> Option<SettingsModel> {
    match s {
        Service::Enabled { settings } => Some(settings@),
        Service::Disabled => None,
    }
}

impl CacheSettings {
    pub fn duplicate(&self) -> (r: CacheSettings)
        ensures
            opt_bytes_view(r.seed) == opt_bytes_view(self.seed),
            r.default_max_age == self.default_max_age,
    {
        let seed = match &self.seed {
            Some(s) => Some(crate::bytes::clone_bytes(s)),
            None => None,
        };
        CacheSettings { seed, default_max_age: self.default_max_age }
    }
}

/// The optional cache layer for one scope: either an active cache or an
/// identity pass-through, fixed at construction.
pub struct Layer {
    pub inner: Option<CacheSettings>,
}

impl Layer {
    /// The layer for a router: the router's own cache config where it has
    /// one, else the global one, else disabled.
    pub fn for_router(global_cache: Option<&CacheConfig>, router_config: &RouterConfig) -> (r:
        Result<Layer, InitError>)
        ensures
            match r {
                Ok(l) => match (router_config.cache, global_cache) {
                    (Some(c), _) => l.inner matches Some(s) && c.buckets >= 1
                        && opt_bytes_view(s.seed) == opt_bytes_view(c.seed) && s.default_max_age
                        == c.default_max_age,
                    (None, Some(c)) => l.inner matches Some(s) && c.buckets >= 1
                        && opt_bytes_view(s.seed) == opt_bytes_view(c.seed) && s.default_max_age
                        == c.default_max_age,
                    (None, None) => l.inner is None,
                },
                Err(e) => e == InitError::InvalidCacheConfig && match (
                    router_config.cache,
                    global_cache,
                ) {
                    (Some(c), _) => c.buckets == 0,
                    (None, Some(c)) => c.buckets == 0,
                    (None, None) => false,
                },
            },
    {
        let effective: Option<&CacheConfig> = match &router_config.cache {
            Some(c) => Some(c),
            None => global_cache,
        };
        match effective {
            Some(c) => {
                if c.buckets == 0 {
                    Err(InitError::InvalidCacheConfig)
                } else {
                    let c2 = c.duplicate();
                    Ok(
                        Layer {
                            inner: Some(
                                CacheSettings { seed: c2.seed, default_max_age: c2.default_max_age },
                            ),
                        },
                    )
                }
            },
            None => Ok(Layer { inner: None }),
        }
    }

    /// The layer in front of the direct-proxy façade, from the global cache
    /// config.
    pub fn global(global_cache: Option<&CacheConfig>) -> (r: Result<Layer, InitError>)
        ensures
            match r {
                Ok(l) => match global_cache {
                    Some(c) => l.inner matches Some(s) && c.buckets >= 1 && opt_bytes_view(s.seed)
                        == opt_bytes_view(c.seed) && s.default_max_age == c.default_max_age,
                    None => l.inner is None,
                },
                Err(e) => e == InitError::InvalidCacheConfig && (global_cache matches Some(c)
                    && c.buckets == 0),
            },
    {
        match global_cache {
            Some(c) => {
                if c.buckets == 0 {
                    Err(InitError::InvalidCacheConfig)
                } else {
                    let c2 = c.duplicate();
                    Ok(
                        Layer {
                            inner: Some(
                                CacheSettings { seed: c2.seed, default_max_age: c2.default_max_age },
                            ),
                        },
                    )
                }
            },
            None => Ok(Layer { inner: None }),
        }
    }

    /// The layer in front of the unified API, from the global cache config.
    pub fn unified_api(global_cache: Option<&CacheConfig>) -> (r: Result<Layer, InitError>)
        ensures
            match r {
                Ok(l) => match global_cache {
                    Some(c) => l.inner matches Some(s) && c.buckets >= 1 && opt_bytes_view(s.seed)
                        == opt_bytes_view(c.seed) && s.default_max_age == c.default_max_age,
                    None => l.inner is None,
                },
                Err(e) => e == InitError::InvalidCacheConfig && (global_cache matches Some(c)
                    && c.buckets == 0),
            },
    {
        Layer::global(global_cache)
    }

    /// For when we statically know that caching is disabled.
    pub fn disabled() -> (r: Layer)
        ensures
            r.inner is None,
    {
        Layer { inner: None }
    }

    /// Builds the per-request service this layer stands for.
    pub fn layer(&self) -> (s: Service)
        ensures
            service_view(s) == layer_view(*self),
    {
        match &self.inner {
            Some(settings) => Service::Enabled { settings: settings.duplicate() },
            None => Service::Disabled,
        }
    }
}

/// The per-request shape of the layer: an active cache service or the
/// identity pass-through.
pub enum Service {
    Enabled { settings: CacheSettings },
    Disabled,
}

/// What the cache layer decides for one request.
pub enum CacheDecision {
    /// A fresh entry was found; this response goes to the client and no
    /// upstream is contacted.
    Hit { response: GatewayResponse },
    /// The layer is active but holds nothing fresh: forward, then store
    /// under `key` with window `ttl`.
    Miss { key: Vec<u8>, ttl: u64 },
    /// The layer is inactive: forward untouched, stamp nothing.
    Bypass,
}

/// Mathematical image of a [`CacheDecision`].
pub ghost enum DecisionModel {
    Hit { response: ResponseModel },
    Miss { key: Seq<u8>, ttl: u64 },
    Bypass,
}

impl View for CacheDecision {
    type V = DecisionModel;

    open spec fn view(&self) -> DecisionModel {
        match self {
            CacheDecision::Hit { response } => DecisionModel::Hit { response: response@ },
            CacheDecision::Miss { key, ttl } => DecisionModel::Miss { key: key@, ttl: *ttl },
            CacheDecision::Bypass => DecisionModel::Bypass,
        }
    }
}

/// The freshness window a request asks for, or the scope's default.
pub open spec fn ttl_spec(cache_control: Option<Seq<u8>>, default_max_age: u64) -> u64 {
    match cache_control {
        Some(h) => match parse_max_age_spec(h) {
            Some(n) => n,
            None => default_max_age,
        },
        None => default_max_age,
    }
}

/// A stored entry as it is served on a hit: its response with the HIT
/// header appended.
pub open spec fn hit_response(e: EntryModel) -> ResponseModel {
    ResponseModel {
        status: e.status,
        headers: e.headers.push(HeaderModel { name: cache_header_name(), value: hit_value() }),
        body: e.body,
    }
}

/// What the cache layer decides: a fresh stored entry is a hit; anything
/// else under an active layer is a miss keyed by the scope's fingerprint;
/// an inactive layer bypasses.
pub open spec fn decision_spec(
    svc: Option<SettingsModel>,
    store: CacheStore,
    scope: ScopeModel,
    req: RequestModel,
    now: u64,
) -> DecisionModel {
    match svc {
        None => DecisionModel::Bypass,
        Some(settings) => {
            let key = fingerprint_spec(scope, req);
            let ttl = ttl_spec(req.cache_control, settings.default_max_age);
            match store.find(key) {
                Some(e) => if fresh(e, now) {
                    DecisionModel::Hit { response: hit_response(e) }
                } else {
                    DecisionModel::Miss { key, ttl }
                },
                None => DecisionModel::Miss { key, ttl },
            }
        },
    }
}

impl Service {
    /// Runs the lookup half of the layer for one request.
    pub fn begin(
        &self,
        store: &CacheStore,
        scope: &CacheScope,
        req: &GatewayRequest,
        now: u64,
    ) -> (d: CacheDecision)
        requires
            store.wf(),
        ensures
            d@ == decision_spec(service_view(*self), *store, scope@, req@, now),
    {
        match self {
            Service::Disabled => CacheDecision::Bypass,
            Service::Enabled { settings } => {
                let key = crate::cache_key::fingerprint(scope, req);
                let ttl = match &req.cache_control {
                    Some(h) => match crate::parse::parse_max_age(h) {
                        Some(n) => n,
                        None => settings.default_max_age,
                    },
                    None => settings.default_max_age,
                };
                match store.lookup(&key, now) {
                    Some(mut response) => {
                        response.push_header(cache_header_name_vec(), hit_value_vec());
                        CacheDecision::Hit { response }
                    },
                    None => CacheDecision::Miss { key, ttl },
                }
            },
        }
    }
}

/// The response the client sees after the forward half of the layer ran: a
/// missed response is stamped MISS, a bypassed one is untouched.
pub open spec fn marked_response(d: DecisionModel, resp: ResponseModel) -> ResponseModel {
    match d {
        DecisionModel::Miss { .. } => ResponseModel {
            status: resp.status,
            headers: resp.headers.push(
                HeaderModel { name: cache_header_name(), value: miss_value() },
            ),
            body: resp.body,
        },
        _ => resp,
    }
}

/// Runs the forward half of the layer: stores a successful missed response
/// under its key (the raw response, without the MISS mark) and stamps the
/// outgoing one.
pub fn observe(store: &mut CacheStore, decision: CacheDecision, resp: GatewayResponse, now: u64) -> (r:
    GatewayResponse)
    requires
        old(store).wf(),
    ensures
        final(store).wf(),
        final(store).buckets@.len() == old(store).buckets@.len(),
        r@ == marked_response(decision@, resp@),
        match decision@ {
            DecisionModel::Miss { key, ttl } => if resp@.is_success() {
                final(store).find(key) == Some(
                    EntryModel {
                        key: key,
                        status: resp@.status,
                        headers: resp@.headers,
                        body: resp@.body,
                        stored_at: now,
                        ttl: ttl,
                    },
                ) && forall|k: Seq<u8>| k != key ==> final(store).find(k) == old(store).find(k)
            } else {
                *final(store) == *old(store)
            },
            _ => *final(store) == *old(store),
        },
{
    match decision {
        CacheDecision::Miss { key, ttl } => {
            store.store_response(key, &resp, ttl, now);
            let mut out = resp;
            out.push_header(cache_header_name_vec(), miss_value_vec());
            out
        },
        CacheDecision::Hit { response: _unused } => resp,
        CacheDecision::Bypass => resp,
    }
}

} // verus!
