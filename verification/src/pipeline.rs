//! The request-processing pipeline: classify, authenticate, consult the
//! cache, select a provider — then the caller performs the outbound call and
//! hands the result back. The pipeline is two-phased because the upstream
//! call itself is I/O: [`Gateway::begin_request`] decides everything up to
//! dispatch, [`Gateway::on_upstream_response`] decides everything after it,
//! and [`Gateway::monitor_tick_router`] is the rate-limit monitor's turn.

use vstd::prelude::*;

use crate::auth::{
    attempts_delta, authorize_spec, rejections_delta, sat_u64, AppState, AuthService,
};
use crate::balance::{select_spec, ProviderPool};
use crate::cache_key::{CacheScope, ScopeModel};
use crate::cache_layer::{
    decision_spec, layer_view, marked_response, CacheDecision, DecisionModel, Layer, Service,
};
use crate::cache_store::{CacheStore, EntryModel};
use crate::classify::{classify_spec, RouteTarget, TargetModel};
use crate::config::{InitError, RouterConfig, WeightedProvider};
use crate::monitor::{Monitor, RateLimitSignal};
use crate::types::{
    opt_bytes_view, ApiError, AuthContext, AuthContextModel, AuthError, GatewayRequest,
    GatewayResponse, Provider, RequestKind, RequestModel, ResponseModel,
};

verus! {

/// Which pool, if any, dispatch balanced a call over: a router's pool, the
/// unified API's pool, or none — the direct proxy calls the provider its
/// path names.
#[derive(Clone, Copy, Debug, PartialEq, Eq, Structural)]
pub enum PoolChoice {
    Router { ix: usize },
    Unified,
    Direct,
}

/// Mathematical image of a [`PoolChoice`].
pub ghost enum PoolChoiceModel {
    Router { ix: int },
    Unified,
    Direct,
}

impl View for PoolChoice {
    type V = PoolChoiceModel;

    open spec fn view(&self) -> PoolChoiceModel {
        match self {
            PoolChoice::Router { ix } => PoolChoiceModel::Router { ix: *ix as int },
            PoolChoice::Unified => PoolChoiceModel::Unified,
            PoolChoice::Direct => PoolChoiceModel::Direct,
        }
    }
}

/// Everything the caller must carry from dispatch decision to dispatch
/// outcome: where to call, under which identity, and what the cache layer
/// wants done with the response.
pub struct PendingCall {
    /// The pool this call was balanced over, if any.
    pub pool: PoolChoice,
    pub provider: Provider,
    /// Store the response under this fingerprint — the layer was active and
    /// held nothing fresh.
    pub cache_key: Option<Vec<u8>>,
    pub ttl: u64,
    /// The identity the auth gate bound, absent only when auth is globally
    /// disabled.
    pub auth: Option<AuthContext>,
    /// Upstream calls made for this request so far, this one included.
    pub attempt: u8,
}

/// Mathematical image of a [`PendingCall`].
pub ghost struct PendingModel {
    pub pool: PoolChoiceModel,
    pub provider: Provider,
    pub cache_key: Option<Seq<u8>>,
    pub ttl: u64,
    pub auth: Option<AuthContextModel>,
    pub attempt: u8,
}

pub open spec fn opt_ctx_view(o: Option<AuthContext>) -> Option<AuthContextModel> {
    match o {
        Some(c) => Some(c@),
        None => None,
    }
}

pub open spec fn opt_ix_view(o: Option<usize>) -> Option<int> {
    match o {
        Some(i) => Some(i as int),
        None => None,
    }
}

impl View for PendingCall {
    type V = PendingModel;

    open spec fn view(&self) -> PendingModel {
        PendingModel {
            pool: self.pool@,
            provider: self.provider,
            cache_key: opt_bytes_view(self.cache_key),
            ttl: self.ttl,
            auth: opt_ctx_view(self.auth),
            attempt: self.attempt,
        }
    }
}

/// What the first phase decides for a request.
pub enum PipelineStep {
    /// Answered without any upstream call: a classification, auth or
    /// balancer error.
    Reject { error: ApiError },
    /// Served from the cache; no upstream call is made.
    CacheHit { response: GatewayResponse },
    /// Forward to this provider and hand the outcome back.
    CallUpstream { pending: PendingCall },
}

/// Mathematical image of a [`PipelineStep`].
pub ghost enum StepModel {
    Reject { error: ApiError },
    CacheHit { response: ResponseModel },
    CallUpstream { pending: PendingModel },
}

impl View for PipelineStep {
    type V = StepModel;

    open spec fn view(&self) -> StepModel {
        match self {
            PipelineStep::Reject { error } => StepModel::Reject { error: *error },
            PipelineStep::CacheHit { response } => StepModel::CacheHit { response: response@ },
            PipelineStep::CallUpstream { pending } => StepModel::CallUpstream {
                pending: pending@,
            },
        }
    }
}

/// What the second phase decides once the upstream answered.
pub enum UpstreamOutcome {
    /// This response goes to the client.
    Done { response: GatewayResponse },
    /// The request fails with this error and no response body from any
    /// upstream.
    Failed { error: ApiError },
    /// The upstream throttled; call this provider instead and hand the
    /// outcome back again.
    Retry { pending: PendingCall },
}

/// Mathematical image of an [`UpstreamOutcome`].
pub ghost enum OutcomeModel {
    Done { response: ResponseModel },
    Failed { error: ApiError },
    Retry { pending: PendingModel },
}

impl View for UpstreamOutcome {
    type V = OutcomeModel;

    open spec fn view(&self) -> OutcomeModel {
        match self {
            UpstreamOutcome::Done { response } => OutcomeModel::Done { response: response@ },
            UpstreamOutcome::Failed { error } => OutcomeModel::Failed { error: *error },
            UpstreamOutcome::Retry { pending } => OutcomeModel::Retry { pending: pending@ },
        }
    }
}

/// One router as the gateway runs it: its cache layer, its provider pool,
/// the signal channel dispatch writes and the monitor that consumes it.
pub struct RouterRuntime {
    pub id: Vec<u8>,
    pub layer: Layer,
    pub pool: ProviderPool,
    pub signals: Vec<RateLimitSignal>,
    pub monitor: Monitor,
}

/// The gateway: the four subsystems and the state they share.
pub struct Gateway {
    pub auth: AuthService,
    pub store: CacheStore,
    pub routers: Vec<RouterRuntime>,
    /// The cache layer in front of the direct-proxy façade.
    pub direct_layer: Layer,
    /// The cache layer in front of the unified API.
    pub unified_layer: Layer,
    /// The pool the unified API balances over.
    pub unified_pool: ProviderPool,
    /// The unified pool's signal channel; its monitor consumes it.
    pub unified_signals: Vec<RateLimitSignal>,
    /// The monitor turn for the unified pool's signals and timers.
    pub unified_monitor: Monitor,
    /// Seconds to back off when a throttling upstream names none.
    pub default_cooldown: u64,
    /// Upstream tries allowed per request, the first call included.
    pub max_attempts: u8,
}

/// The index of the router named `id`.
pub open spec fn router_index(rs: Seq<RouterRuntime>, id: Seq<u8>) -> Option<int>
    decreases rs.len(),
{
    if rs.len() == 0 {
        None
    } else if rs[0].id@ == id {
        Some(0int)
    } else {
        match router_index(rs.subrange(1, rs.len() as int), id) {
            Some(i) => Some(i + 1),
            None => None,
        }
    }
}

pub proof fn lemma_router_index_found(rs: Seq<RouterRuntime>, j: int, id: Seq<u8>)
    requires
        0 <= j < rs.len(),
        rs[j].id@ == id,
        forall|k: int| 0 <= k < j ==> rs[k].id@ != id,
    ensures
        router_index(rs, id) == Some(j),
    decreases rs.len(),
{
    if j > 0 {
        let rest = rs.subrange(1, rs.len() as int);
        lemma_router_index_found(rest, j - 1, id);
    }
}

pub proof fn lemma_router_index_none(rs: Seq<RouterRuntime>, id: Seq<u8>)
    requires
        forall|k: int| 0 <= k < rs.len() ==> rs[k].id@ != id,
    ensures
        router_index(rs, id) is None,
    decreases rs.len(),
{
    if rs.len() > 0 {
        lemma_router_index_none(rs.subrange(1, rs.len() as int), id);
    }
}

/// The request kind the auth gate is told, by façade.
pub open spec fn kind_of(target: TargetModel) -> Option<RequestKind> {
    match target {
        TargetModel::Router { .. } => Some(RequestKind::Router),
        TargetModel::UnifiedApi { .. } => Some(RequestKind::UnifiedApi),
        TargetModel::DirectProxy { .. } => Some(RequestKind::DirectProxy),
        TargetModel::NotFound => None,
    }
}

/// The router id the auth gate is told, by façade.
pub open spec fn router_of(target: TargetModel) -> Option<Seq<u8>> {
    match target {
        TargetModel::Router { id, .. } => Some(id),
        _ => None,
    }
}

/// What dispatch needs to know of the façade: the router id, or the
/// provider the path names.
pub enum TargetShape {
    Router { id: Vec<u8> },
    Unified,
    Direct { provider: Provider },
}

/// Mathematical image of a [`TargetShape`].
pub ghost enum ShapeModel {
    Router { id: Seq<u8> },
    Unified,
    Direct { provider: Provider },
}

impl View for TargetShape {
    type V = ShapeModel;

    open spec fn view(&self) -> ShapeModel {
        match self {
            TargetShape::Router { id } => ShapeModel::Router { id: id@ },
            TargetShape::Unified => ShapeModel::Unified,
            TargetShape::Direct { provider } => ShapeModel::Direct { provider: *provider },
        }
    }
}

/// The shape of a classified target.
pub open spec fn shape_of(target: TargetModel) -> ShapeModel {
    match target {
        TargetModel::Router { id, .. } => ShapeModel::Router { id },
        TargetModel::UnifiedApi { .. } => ShapeModel::Unified,
        TargetModel::DirectProxy { provider, .. } => ShapeModel::Direct { provider },
        TargetModel::NotFound => ShapeModel::Unified,
    }
}

/// The cache scope a request is keyed under: per-router with the layer's
/// seed, or the façade's own scope.
pub open spec fn scope_of(shape: ShapeModel, seed: Option<Seq<u8>>) -> ScopeModel {
    match shape {
        ShapeModel::Router { id } => ScopeModel::Router { id, seed },
        ShapeModel::Unified => ScopeModel::UnifiedApi,
        ShapeModel::Direct { provider } => ScopeModel::DirectProxy { provider },
    }
}

/// The seed of a layer, where it is active and carries one.
pub open spec fn seed_of(l: Layer) -> Option<Seq<u8>> {
    match layer_view(l) {
        Some(s) => s.seed,
        None => None,
    }
}

/// The cache layer that fronts a façade.
pub open spec fn layer_for(gw: Gateway, shape: ShapeModel, router_ix: Option<int>) -> Layer {
    match shape {
        ShapeModel::Router { .. } => match router_ix {
            Some(i) => gw.routers@[i].layer,
            None => gw.unified_layer,
        },
        ShapeModel::Unified => gw.unified_layer,
        ShapeModel::Direct { .. } => gw.direct_layer,
    }
}

/// The balancer half of phase one: the direct proxy calls the provider its
/// path names; the other façades draw from their pool, and an all-ejected
/// pool is answered with a retriable error and no upstream call.
pub open spec fn pick_spec(
    gw: Gateway,
    shape: ShapeModel,
    router_ix: Option<int>,
    cache_key: Option<Seq<u8>>,
    ttl: u64,
    auth: Option<AuthContextModel>,
    draw: u64,
) -> StepModel {
    match shape {
        ShapeModel::Direct { provider } => StepModel::CallUpstream {
            pending: PendingModel {
                pool: PoolChoiceModel::Direct,
                provider,
                cache_key,
                ttl,
                auth,
                attempt: 1,
            },
        },
        _ => {
            let pool = match router_ix {
                Some(i) => gw.routers@[i].pool,
                None => gw.unified_pool,
            };
            match select_spec(pool.entries@, draw) {
                Err(e) => StepModel::Reject { error: e },
                Ok(p) => StepModel::CallUpstream {
                    pending: PendingModel {
                        pool: match router_ix {
                            Some(i) => PoolChoiceModel::Router { ix: i },
                            None => PoolChoiceModel::Unified,
                        },
                        provider: p,
                        cache_key,
                        ttl,
                        auth,
                        attempt: 1,
                    },
                },
            }
        },
    }
}

/// The cache consultation and the dispatch decision, combined: what phase
/// one answers once auth has passed.
pub open spec fn dispatch_spec(
    gw: Gateway,
    shape: ShapeModel,
    router_ix: Option<int>,
    auth: Option<AuthContextModel>,
    req: RequestModel,
    now: u64,
    draw: u64,
) -> StepModel {
    let l = layer_for(gw, shape, router_ix);
    let scope = scope_of(shape, seed_of(l));
    match decision_spec(layer_view(l), gw.store, scope, req, now) {
        DecisionModel::Hit { response } => StepModel::CacheHit { response },
        DecisionModel::Miss { key, ttl } => pick_spec(
            gw,
            shape,
            router_ix,
            Some(key),
            ttl,
            auth,
            draw,
        ),
        DecisionModel::Bypass => pick_spec(gw, shape, router_ix, None, 0u64, auth, draw),
    }
}

/// What phase one decides, in full: classification, then the auth gate,
/// then the cache, then the balancer — in exactly that order.
pub open spec fn begin_spec(gw: Gateway, req: RequestModel, now: u64, draw: u64) -> StepModel {
    let target = classify_spec(req.path);
    match target {
        TargetModel::NotFound => StepModel::Reject { error: ApiError::RouteNotFound },
        _ => match authorize_spec(
            gw.auth.app_state,
            req.authorization,
            kind_of(target),
            router_of(target),
        ) {
            Err(e) => StepModel::Reject { error: ApiError::Auth(e) },
            Ok(auth) => match target {
                TargetModel::Router { id, .. } => match router_index(gw.routers@, id) {
                    None => StepModel::Reject {
                        error: ApiError::Auth(AuthError::RouterNotFound),
                    },
                    Some(i) => dispatch_spec(
                        gw,
                        shape_of(target),
                        Some(i),
                        auth,
                        req,
                        now,
                        draw,
                    ),
                },
                _ => dispatch_spec(gw, shape_of(target), None, auth, req, now, draw),
            },
        },
    }
}

impl Gateway {
    /// Every pool usable, the store usable, at least one try allowed.
    pub open spec fn wf(&self) -> bool {
        &&& self.store.wf()
        &&& self.unified_pool.wf()
        &&& forall|i: int|
            0 <= i < self.routers@.len() ==> (#[trigger] self.routers@[i]).pool.wf()
        &&& self.max_attempts >= 1
    }

    /// Phase one: everything up to the outbound call. Reads the shared
    /// state and changes nothing but the auth counters.
    pub fn begin_request(&mut self, req: &GatewayRequest, now: u64, draw: u64) -> (step:
        PipelineStep)
        requires
            old(self).wf(),
        ensures
            final(self).wf(),
            step@ == begin_spec(*old(self), req@, now, draw),
            final(self).auth.app_state == old(self).auth.app_state,
            final(self).store == old(self).store,
            final(self).routers == old(self).routers,
            final(self).direct_layer == old(self).direct_layer,
            final(self).unified_layer == old(self).unified_layer,
            final(self).unified_pool == old(self).unified_pool,
            final(self).unified_signals == old(self).unified_signals,
            final(self).unified_monitor == old(self).unified_monitor,
            final(self).default_cooldown == old(self).default_cooldown,
            final(self).max_attempts == old(self).max_attempts,
            classify_spec(req@.path) is NotFound ==> final(self).auth.metrics == old(
                self,
            ).auth.metrics,
            !(classify_spec(req@.path) is NotFound) ==> final(self).auth.metrics.auth_attempts
                as int == sat_u64(
                old(self).auth.metrics.auth_attempts + attempts_delta(old(self).auth.app_state),
            ) && final(self).auth.metrics.auth_rejections as int == sat_u64(
                old(self).auth.metrics.auth_rejections + rejections_delta(
                    old(self).auth.app_state,
                    req@.authorization,
                    kind_of(classify_spec(req@.path)),
                    router_of(classify_spec(req@.path)),
                ),
            ),
    {
        let target = crate::classify::classify(&req.path);
        match target {
            RouteTarget::NotFound => PipelineStep::Reject { error: ApiError::RouteNotFound },
            RouteTarget::Router { id, rest: _rest } => {
                let auth_result = self.auth.authorize(
                    req.authorization.as_ref(),
                    Some(RequestKind::Router),
                    Some(&id),
                );
                match auth_result {
                    Err(e) => PipelineStep::Reject { error: ApiError::Auth(e) },
                    Ok(auth) => match self.find_router(&id) {
                        None => PipelineStep::Reject {
                            error: ApiError::Auth(AuthError::RouterNotFound),
                        },
                        Some(i) => self.dispatch(
                            TargetShape::Router { id },
                            Some(i),
                            auth,
                            req,
                            now,
                            draw,
                        ),
                    },
                }
            },
            RouteTarget::UnifiedApi { rest: _rest } => {
                let auth_result = self.auth.authorize(
                    req.authorization.as_ref(),
                    Some(RequestKind::UnifiedApi),
                    None,
                );
                match auth_result {
                    Err(e) => PipelineStep::Reject { error: ApiError::Auth(e) },
                    Ok(auth) => self.dispatch(TargetShape::Unified, None, auth, req, now, draw),
                }
            },
            RouteTarget::DirectProxy { provider, rest: _rest } => {
                let auth_result = self.auth.authorize(
                    req.authorization.as_ref(),
                    Some(RequestKind::DirectProxy),
                    None,
                );
                match auth_result {
                    Err(e) => PipelineStep::Reject { error: ApiError::Auth(e) },
                    Ok(auth) => self.dispatch(
                        TargetShape::Direct { provider },
                        None,
                        auth,
                        req,
                        now,
                        draw,
                    ),
                }
            },
        }
    }

    /// The index of the router named `id`, if one is configured.
    fn find_router(&self, id: &Vec<u8>) -> (r: Option<usize>)
        ensures
            match r {
                Some(i) => router_index(self.routers@, id@) == Some(i as int) && i
                    < self.routers@.len(),
                None => router_index(self.routers@, id@) is None,
            },
    {
        let mut i: usize = 0;
        while i < self.routers.len()
            invariant
                i <= self.routers@.len(),
                forall|k: int| 0 <= k < i ==> (#[trigger] self.routers@[k]).id@ != id@,
            decreases self.routers@.len() - i,
        {
            if crate::bytes::bytes_eq(&self.routers[i].id, id) {
                proof {
                    lemma_router_index_found(self.routers@, i as int, id@);
                }
                return Some(i);
            }
            i += 1;
        }
        proof {
            lemma_router_index_none(self.routers@, id@);
        }
        None
    }

    /// The cache consultation and provider selection shared by the three
    /// façades.
    fn dispatch(
        &self,
        shape: TargetShape,
        router_ix: Option<usize>,
        auth: Option<AuthContext>,
        req: &GatewayRequest,
        now: u64,
        draw: u64,
    ) -> (step: PipelineStep)
        requires
            self.wf(),
            router_ix matches Some(i) ==> i < self.routers@.len(),
            (shape matches TargetShape::Router { .. }) <==> router_ix is Some,
        ensures
            step@ == dispatch_spec(
                *self,
                shape@,
                opt_ix_view(router_ix),
                opt_ctx_view(auth),
                req@,
                now,
                draw,
            ),
    {
        let layer: &Layer = match (&shape, router_ix) {
            (TargetShape::Router { .. }, Some(i)) => &self.routers[i].layer,
            (TargetShape::Unified, _) => &self.unified_layer,
            (TargetShape::Direct { .. }, _) => &self.direct_layer,
            (TargetShape::Router { .. }, None) => &self.unified_layer,
        };
        let svc = layer.layer();
        let decision = match &svc {
            Service::Disabled => CacheDecision::Bypass,
            Service::Enabled { settings } => {
                let scope = match &shape {
                    TargetShape::Router { id } => CacheScope::Router {
                        id: crate::bytes::clone_bytes(id),
                        seed: match &settings.seed {
                            Some(s) => Some(crate::bytes::clone_bytes(s)),
                            None => None,
                        },
                    },
                    TargetShape::Unified => CacheScope::UnifiedApi,
                    TargetShape::Direct { provider } => CacheScope::DirectProxy {
                        provider: *provider,
                    },
                };
                svc.begin(&self.store, &scope, req, now)
            },
        };
        match decision {
            CacheDecision::Hit { response } => PipelineStep::CacheHit { response },
            CacheDecision::Miss { key, ttl } => self.pick_provider(
                shape,
                router_ix,
                Some(key),
                ttl,
                auth,
                draw,
            ),
            CacheDecision::Bypass => self.pick_provider(shape, router_ix, None, 0, auth, draw),
        }
    }

    /// The balancer half of dispatch.
    fn pick_provider(
        &self,
        shape: TargetShape,
        router_ix: Option<usize>,
        cache_key: Option<Vec<u8>>,
        ttl: u64,
        auth: Option<AuthContext>,
        draw: u64,
    ) -> (step: PipelineStep)
        requires
            self.wf(),
            router_ix matches Some(i) ==> i < self.routers@.len(),
            (shape matches TargetShape::Router { .. }) <==> router_ix is Some,
        ensures
            step@ == pick_spec(
                *self,
                shape@,
                opt_ix_view(router_ix),
                opt_bytes_view(cache_key),
                ttl,
                opt_ctx_view(auth),
                draw,
            ),
    {
        match &shape {
            TargetShape::Direct { provider } => PipelineStep::CallUpstream {
                pending: PendingCall {
                    pool: PoolChoice::Direct,
                    provider: *provider,
                    cache_key,
                    ttl,
                    auth,
                    attempt: 1,
                },
            },
            _ => {
                let pool: &ProviderPool = match router_ix {
                    Some(i) => &self.routers[i].pool,
                    None => &self.unified_pool,
                };
                match pool.select(draw) {
                    Err(e) => PipelineStep::Reject { error: e },
                    Ok(p) => PipelineStep::CallUpstream {
                        pending: PendingCall {
                            pool: match router_ix {
                                Some(i) => PoolChoice::Router { ix: i },
                                None => PoolChoice::Unified,
                            },
                            provider: p,
                            cache_key,
                            ttl,
                            auth,
                            attempt: 1,
                        },
                    },
                }
            },
        }
    }
}

/// The name of the header a throttling upstream sets.
pub open spec fn retry_after_name() -> Seq<u8> {
    seq![
        ('r' as u8),
        ('e' as u8),
        ('t' as u8),
        ('r' as u8),
        ('y' as u8),
        ('-' as u8),
        ('a' as u8),
        ('f' as u8),
        ('t' as u8),
        ('e' as u8),
        ('r' as u8),
    ]
}

fn retry_after_name_vec() -> (r: Vec<u8>)
    ensures
        r@ == retry_after_name(),
{
    let r = vec![
        ('r' as u8),
        ('e' as u8),
        ('t' as u8),
        ('r' as u8),
        ('y' as u8),
        ('-' as u8),
        ('a' as u8),
        ('f' as u8),
        ('t' as u8),
        ('e' as u8),
        ('r' as u8),
    ];
    assert(r@ =~= retry_after_name());
    r
}

/// The cooldown a throttling response asks for: its `Retry-After` value as
/// delta-seconds, or as the seconds until the HTTP-date it names (a date
/// already past waits nothing), or the configured default when the header
/// is missing or parses as neither.
pub open spec fn retry_secs_spec(resp: ResponseModel, default_cooldown: u64, now: u64) -> u64 {
    match crate::types::header_lookup(resp.headers, retry_after_name()) {
        Some(v) => match crate::parse::parse_retry_after_spec(v) {
            Some(n) => n,
            None => match crate::parse::parse_http_date_spec(v) {
                Some(t) => if t > now {
                    (t - now) as u64
                } else {
                    0
                },
                None => default_cooldown,
            },
        },
        None => default_cooldown,
    }
}

/// The cache decision the pending call carried into dispatch.
pub open spec fn decision_of_pending(p: PendingModel) -> DecisionModel {
    match p.cache_key {
        Some(key) => DecisionModel::Miss { key, ttl: p.ttl },
        None => DecisionModel::Bypass,
    }
}

/// A throttled call that was balanced over a pool: the case the balancer
/// handles specially. The direct proxy is a pass-through façade; its 429s
/// go to the client like any other status.
pub open spec fn throttled(p: PendingModel, resp: ResponseModel) -> bool {
    resp.status == 429 && !(p.pool is Direct)
}

/// The signal dispatch emits for a throttled call.
pub open spec fn emitted_signal(
    p: PendingModel,
    resp: ResponseModel,
    default_cooldown: u64,
    now: u64,
) -> RateLimitSignal {
    RateLimitSignal {
        provider: p.provider,
        retry_after: retry_secs_spec(resp, default_cooldown, now),
        observed_at: now,
    }
}

/// The pool a pending call was balanced over.
pub open spec fn pool_of(gw: Gateway, p: PendingModel) -> ProviderPool {
    match p.pool {
        PoolChoiceModel::Router { ix } => gw.routers@[ix].pool,
        _ => gw.unified_pool,
    }
}

/// What phase two decides. A throttled call that came out of a pool is
/// never passed through: within the try budget the balancer draws again
/// over the remaining healthy providers — the one that just throttled set
/// aside — and with none remaining, or past the budget, the request fails
/// with a bad-gateway error. Everything else is marked by the cache layer
/// and handed to the client.
pub open spec fn finish_spec(
    gw: Gateway,
    p: PendingModel,
    resp: ResponseModel,
    now: u64,
    draw: u64,
) -> OutcomeModel {
    if throttled(p, resp) {
        if p.attempt < gw.max_attempts {
            match crate::balance::select_excluding_spec(
                pool_of(gw, p).entries@,
                draw,
                p.provider,
            ) {
                Err(_) => OutcomeModel::Failed { error: ApiError::AllProvidersRejected },
                Ok(q) => OutcomeModel::Retry {
                    pending: PendingModel {
                        provider: q,
                        attempt: (p.attempt + 1) as u8,
                        ..p
                    },
                },
            }
        } else {
            OutcomeModel::Failed { error: ApiError::AllProvidersRejected }
        }
    } else {
        OutcomeModel::Done { response: marked_response(decision_of_pending(p), resp) }
    }
}

/// A retry after throttling goes to a remaining provider: never back to
/// the one whose 429 is being handled, whatever the draw.
pub proof fn law_retry_avoids_throttled(
    gw: Gateway,
    p: PendingModel,
    resp: ResponseModel,
    now: u64,
    draw: u64,
)
    requires
        finish_spec(gw, p, resp, now, draw) matches OutcomeModel::Retry { .. },
    ensures
        finish_spec(gw, p, resp, now, draw) matches OutcomeModel::Retry { pending }
            ==> pending.provider != p.provider,
{
    crate::balance::law_excluded_never_picked(pool_of(gw, p).entries@, draw, p.provider);
}

impl Gateway {
    /// Phase two: what happens to the upstream's answer. On a throttled
    /// call the signal goes on the router's channel and the pool is only
    /// read — the monitor alone writes provider states.
    pub fn on_upstream_response(
        &mut self,
        pending: PendingCall,
        resp: GatewayResponse,
        now: u64,
        draw: u64,
    ) -> (out: UpstreamOutcome)
        requires
            old(self).wf(),
            pending@.pool matches PoolChoiceModel::Router { ix } ==> ix < old(
                self,
            ).routers@.len(),
        ensures
            final(self).wf(),
            out@ == finish_spec(*old(self), pending@, resp@, now, draw),
            final(self).auth == old(self).auth,
            final(self).direct_layer == old(self).direct_layer,
            final(self).unified_layer == old(self).unified_layer,
            final(self).unified_pool == old(self).unified_pool,
            final(self).unified_monitor == old(self).unified_monitor,
            final(self).default_cooldown == old(self).default_cooldown,
            final(self).max_attempts == old(self).max_attempts,
            if throttled(pending@, resp@) {
                &&& final(self).store == old(self).store
                &&& match pending@.pool {
                    PoolChoiceModel::Router { ix } => {
                        &&& final(self).unified_signals == old(self).unified_signals
                        &&& final(self).routers@.len() == old(self).routers@.len()
                        &&& forall|j: int|
                            0 <= j < old(self).routers@.len() && j != ix
                                ==> final(self).routers@[j] == old(self).routers@[j]
                        &&& final(self).routers@[ix].id == old(self).routers@[ix].id
                        &&& final(self).routers@[ix].layer == old(self).routers@[ix].layer
                        &&& final(self).routers@[ix].pool == old(self).routers@[ix].pool
                        &&& final(self).routers@[ix].monitor == old(self).routers@[ix].monitor
                        &&& final(self).routers@[ix].signals@ == old(
                            self,
                        ).routers@[ix].signals@.push(
                            emitted_signal(pending@, resp@, old(self).default_cooldown, now),
                        )
                    },
                    PoolChoiceModel::Unified => {
                        &&& final(self).routers == old(self).routers
                        &&& final(self).unified_signals@ == old(self).unified_signals@.push(
                            emitted_signal(pending@, resp@, old(self).default_cooldown, now),
                        )
                    },
                    PoolChoiceModel::Direct => false,
                }
            } else {
                &&& final(self).routers == old(self).routers
                &&& final(self).unified_signals == old(self).unified_signals
                &&& final(self).store.buckets@.len() == old(self).store.buckets@.len()
                &&& match decision_of_pending(pending@) {
                    DecisionModel::Miss { key, ttl } => if resp@.is_success() {
                        final(self).store.find(key) == Some(
                            EntryModel {
                                key: key,
                                status: resp@.status,
                                headers: resp@.headers,
                                body: resp@.body,
                                stored_at: now,
                                ttl: ttl,
                            },
                        ) && forall|k: Seq<u8>|
                            k != key ==> final(self).store.find(k) == old(self).store.find(k)
                    } else {
                        final(self).store == old(self).store
                    },
                    _ => final(self).store == old(self).store,
                }
            },
    {
        let ghost pm = pending@;
        if resp.status == 429 {
            match &pending.pool {
                PoolChoice::Router { ix } => {
                    let i = *ix;
                    let ra = Self::retry_secs(&resp, self.default_cooldown, now);
                    let rt = &mut self.routers[i];
                    rt.signals.push(
                        RateLimitSignal {
                            provider: pending.provider,
                            retry_after: ra,
                            observed_at: now,
                        },
                    );
                    return if pending.attempt < self.max_attempts {
                        match self.routers[i].pool.select_excluding(draw, pending.provider) {
                            Err(_) => UpstreamOutcome::Failed {
                                error: ApiError::AllProvidersRejected,
                            },
                            Ok(q) => UpstreamOutcome::Retry {
                                pending: PendingCall {
                                    pool: pending.pool,
                                    provider: q,
                                    cache_key: pending.cache_key,
                                    ttl: pending.ttl,
                                    auth: pending.auth,
                                    attempt: pending.attempt + 1,
                                },
                            },
                        }
                    } else {
                        UpstreamOutcome::Failed { error: ApiError::AllProvidersRejected }
                    };
                },
                PoolChoice::Unified => {
                    let ra = Self::retry_secs(&resp, self.default_cooldown, now);
                    self.unified_signals.push(
                        RateLimitSignal {
                            provider: pending.provider,
                            retry_after: ra,
                            observed_at: now,
                        },
                    );
                    return if pending.attempt < self.max_attempts {
                        match self.unified_pool.select_excluding(draw, pending.provider) {
                            Err(_) => UpstreamOutcome::Failed {
                                error: ApiError::AllProvidersRejected,
                            },
                            Ok(q) => UpstreamOutcome::Retry {
                                pending: PendingCall {
                                    pool: pending.pool,
                                    provider: q,
                                    cache_key: pending.cache_key,
                                    ttl: pending.ttl,
                                    auth: pending.auth,
                                    attempt: pending.attempt + 1,
                                },
                            },
                        }
                    } else {
                        UpstreamOutcome::Failed { error: ApiError::AllProvidersRejected }
                    };
                },
                PoolChoice::Direct => {},
            }
        }
        let decision = match pending.cache_key {
            Some(key) => CacheDecision::Miss { key, ttl: pending.ttl },
            None => CacheDecision::Bypass,
        };
        let out = crate::cache_layer::observe(&mut self.store, decision, resp, now);
        UpstreamOutcome::Done { response: out }
    }

    /// The seconds a throttling response asks the balancer to back off.
    fn retry_secs(resp: &GatewayResponse, default_cooldown: u64, now: u64) -> (r: u64)
        ensures
            r == retry_secs_spec(resp@, default_cooldown, now),
    {
        match resp.get_header(&retry_after_name_vec()) {
            Some(v) => match crate::parse::parse_retry_after(&v) {
                Some(n) => n,
                None => match crate::parse::parse_http_date(&v) {
                    Some(t) => if t > now {
                        t - now
                    } else {
                        0
                    },
                    None => default_cooldown,
                },
            },
            None => default_cooldown,
        }
    }

    /// One turn of the rate-limit monitor for one router: consume the
    /// signals dispatch queued, in arrival order, then fire every
    /// re-admission whose moment has come.
    pub fn monitor_tick_router(&mut self, ix: usize, now: u64)
        requires
            old(self).wf(),
            ix < old(self).routers@.len(),
        ensures
            final(self).wf(),
            final(self).auth == old(self).auth,
            final(self).store == old(self).store,
            final(self).direct_layer == old(self).direct_layer,
            final(self).unified_layer == old(self).unified_layer,
            final(self).unified_pool == old(self).unified_pool,
            final(self).unified_signals == old(self).unified_signals,
            final(self).unified_monitor == old(self).unified_monitor,
            final(self).default_cooldown == old(self).default_cooldown,
            final(self).max_attempts == old(self).max_attempts,
            final(self).routers@.len() == old(self).routers@.len(),
            forall|j: int|
                0 <= j < old(self).routers@.len() && j != ix ==> final(self).routers@[j] == old(
                    self,
                ).routers@[j],
            final(self).routers@[ix as int].id == old(self).routers@[ix as int].id,
            final(self).routers@[ix as int].layer == old(self).routers@[ix as int].layer,
            final(self).routers@[ix as int].signals@ == Seq::<RateLimitSignal>::empty(),
            final(self).routers@[ix as int].pool.entries@ == crate::monitor::tick_pool(
                crate::monitor::drain_pool(
                    old(self).routers@[ix as int].pool.entries@,
                    old(self).routers@[ix as int].signals@,
                ),
                crate::monitor::drain_timers(
                    old(self).routers@[ix as int].monitor.timers@,
                    old(self).routers@[ix as int].signals@,
                ),
                now,
            ),
            final(self).routers@[ix as int].monitor.timers@ == crate::monitor::keep_timers(
                crate::monitor::drain_timers(
                    old(self).routers@[ix as int].monitor.timers@,
                    old(self).routers@[ix as int].signals@,
                ),
                now,
            ),
    {
        let rt = &mut self.routers[ix];
        rt.monitor.drain(&mut rt.pool, &rt.signals);
        rt.signals.clear();
        rt.monitor.tick(&mut rt.pool, now);
        proof {
            crate::monitor::lemma_transitions_keep_wf(
                old(self).routers@[ix as int].pool.entries@,
                old(self).routers@[ix as int].signals@,
                crate::monitor::drain_timers(
                    old(self).routers@[ix as int].monitor.timers@,
                    old(self).routers@[ix as int].signals@,
                ),
                now,
            );
        }
    }
}

/// The cache layer a request's façade runs through, if the request reaches
/// one.
pub open spec fn effective_layer(gw: Gateway, req: RequestModel) -> Option<Layer> {
    match classify_spec(req.path) {
        TargetModel::NotFound => None,
        TargetModel::Router { id, .. } => match router_index(gw.routers@, id) {
            Some(i) => Some(gw.routers@[i].layer),
            None => None,
        },
        TargetModel::UnifiedApi { .. } => Some(gw.unified_layer),
        TargetModel::DirectProxy { .. } => Some(gw.direct_layer),
    }
}

/// Every request that reaches dispatch carries an identity, unless auth is
/// globally disabled; and in cloud mode a router request's identity belongs
/// to the organization that owns the router.
pub proof fn law_dispatch_authenticated(gw: Gateway, req: RequestModel, now: u64, draw: u64)
    requires
        begin_spec(gw, req, now, draw) matches StepModel::CallUpstream { .. },
    ensures
        begin_spec(gw, req, now, draw) matches StepModel::CallUpstream { pending } ==> {
            &&& (gw.auth.app_state.auth_disabled <==> pending.auth is None)
            &&& (classify_spec(req.path) matches TargetModel::Router { id, .. } ==> ((
            !gw.auth.app_state.auth_disabled && gw.auth.app_state.deployment_target is Cloud)
                ==> (pending.auth matches Some(ctx) && crate::auth::router_org_lookup(
                crate::auth::routers_view(gw.auth.app_state.router_orgs@),
                id,
            ) == Some(ctx.org_id))))
            &&& (!gw.auth.app_state.auth_disabled && gw.auth.app_state.deployment_target
                is Sidecar) ==> (pending.auth matches Some(ctx) && ctx.org_id
                == gw.auth.app_state.sidecar_org_id@)
        },
{
}

/// A cache hit is served from the store: phase one answers `CacheHit` only
/// with a stored, still-fresh entry, stamped HIT. Such a request produces
/// no pending call, so no upstream is contacted for it.
/// A cache hit at the dispatch stage comes from the store.
proof fn lemma_dispatch_hit_from_store(
    gw: Gateway,
    shape: ShapeModel,
    ix: Option<int>,
    auth: Option<AuthContextModel>,
    req: RequestModel,
    now: u64,
    draw: u64,
)
    requires
        dispatch_spec(gw, shape, ix, auth, req, now, draw) matches StepModel::CacheHit { .. },
    ensures
        dispatch_spec(gw, shape, ix, auth, req, now, draw) matches StepModel::CacheHit { response }
            ==> exists|e: EntryModel|
            {
                &&& #[trigger] gw.store.find(e.key) == Some(e)
                &&& crate::cache_store::fresh(e, now)
                &&& response == crate::cache_layer::hit_response(e)
            },
{
    let l = layer_for(gw, shape, ix);
    let scope = scope_of(shape, seed_of(l));
    let key = crate::cache_key::fingerprint_spec(scope, req);
    crate::cache_store::lemma_bucket_find_key(
        gw.store.buckets@[crate::cache_key::bucket_of(key, gw.store.buckets@.len() as int)]@,
        key,
    );
    match decision_spec(layer_view(l), gw.store, scope, req, now) {
        DecisionModel::Hit { response } => {
            let e = gw.store.find(key)->0;
            assert(gw.store.find(e.key) == Some(e) && crate::cache_store::fresh(e, now)
                && response == crate::cache_layer::hit_response(e));
        },
        _ => {},
    }
}

/// A cache hit is served from the store: phase one answers `CacheHit` only
/// with a stored, still-fresh entry, stamped HIT. Such a request produces
/// no pending call, so no upstream is contacted for it.
pub proof fn law_hit_is_from_store(gw: Gateway, req: RequestModel, now: u64, draw: u64)
    requires
        begin_spec(gw, req, now, draw) matches StepModel::CacheHit { .. },
    ensures
        begin_spec(gw, req, now, draw) matches StepModel::CacheHit { response } ==> exists|
            e: EntryModel,
        |
            {
                &&& #[trigger] gw.store.find(e.key) == Some(e)
                &&& crate::cache_store::fresh(e, now)
                &&& response == crate::cache_layer::hit_response(e)
            },
{
    let target = classify_spec(req.path);
    let auth_r = authorize_spec(
        gw.auth.app_state,
        req.authorization,
        kind_of(target),
        router_of(target),
    );
    match target {
        TargetModel::Router { id, .. } => {
            match auth_r {
                Ok(auth) => match router_index(gw.routers@, id) {
                    Some(i) => lemma_dispatch_hit_from_store(
                        gw,
                        shape_of(target),
                        Some(i),
                        auth,
                        req,
                        now,
                        draw,
                    ),
                    None => {},
                },
                Err(_) => {},
            }
        },
        TargetModel::UnifiedApi { .. } => {
            match auth_r {
                Ok(auth) => lemma_dispatch_hit_from_store(
                    gw,
                    shape_of(target),
                    None,
                    auth,
                    req,
                    now,
                    draw,
                ),
                Err(_) => {},
            }
        },
        TargetModel::DirectProxy { .. } => {
            match auth_r {
                Ok(auth) => lemma_dispatch_hit_from_store(
                    gw,
                    shape_of(target),
                    None,
                    auth,
                    req,
                    now,
                    draw,
                ),
                Err(_) => {},
            }
        },
        TargetModel::NotFound => {},
    }
}

/// A response that reaches the client through an upstream call is never
/// stamped HIT: the forward half of the cache layer stamps MISS or nothing.
pub proof fn law_upstream_response_never_hit(
    gw: Gateway,
    p: PendingModel,
    resp: ResponseModel,
    now: u64,
    draw: u64,
)
    requires
        crate::types::header_lookup(resp.headers, crate::cache_layer::cache_header_name())
            != Some(crate::cache_layer::hit_value()),
        finish_spec(gw, p, resp, now, draw) matches OutcomeModel::Done { .. },
    ensures
        finish_spec(gw, p, resp, now, draw) matches OutcomeModel::Done { response }
            ==> crate::types::header_lookup(
            response.headers,
            crate::cache_layer::cache_header_name(),
        ) != Some(crate::cache_layer::hit_value()),
{
    match decision_of_pending(p) {
        DecisionModel::Miss { .. } => {
            crate::types::lemma_header_lookup_push(
                resp.headers,
                crate::types::HeaderModel {
                    name: crate::cache_layer::cache_header_name(),
                    value: crate::cache_layer::miss_value(),
                },
                crate::cache_layer::cache_header_name(),
            );
            assert(crate::cache_layer::miss_value().len() == 4);
            assert(crate::cache_layer::hit_value().len() == 3);
        },
        _ => {},
    }
}

/// Two identical requests against an active cache, the first of which went
/// upstream, answered with a success and was stored: the second, made
/// within the first one's freshness window against the resulting state, is
/// served from the cache, byte-equal to what the upstream answered.
pub proof fn law_miss_then_hit(
    gw: Gateway,
    gw2: Gateway,
    req: RequestModel,
    upstream: ResponseModel,
    pending: PendingModel,
    now0: u64,
    now1: u64,
    draw0: u64,
    draw1: u64,
)
    requires
        begin_spec(gw, req, now0, draw0) == (StepModel::CallUpstream { pending }),
        pending.cache_key is Some,
        upstream.is_success(),
        gw2.auth == gw.auth,
        gw2.routers == gw.routers,
        gw2.direct_layer == gw.direct_layer,
        gw2.unified_layer == gw.unified_layer,
        gw2.unified_pool == gw.unified_pool,
        gw2.store.find(pending.cache_key->0) == Some(
            crate::cache_store::EntryModel {
                key: pending.cache_key->0,
                status: upstream.status,
                headers: upstream.headers,
                body: upstream.body,
                stored_at: now0,
                ttl: pending.ttl,
            },
        ),
        now1 <= now0 + pending.ttl,
    ensures
        begin_spec(gw2, req, now1, draw1) matches StepModel::CacheHit { response }
            && response.body == upstream.body && response.status == upstream.status,
{
    let target = classify_spec(req.path);
    match target {
        TargetModel::Router { id, .. } => {
            let i = router_index(gw.routers@, id)->0;
            assert(router_index(gw2.routers@, id) == router_index(gw.routers@, id));
            let l = gw.routers@[i].layer;
            let scope = scope_of(shape_of(target), seed_of(l));
            let key = crate::cache_key::fingerprint_spec(scope, req);
            assert(pending.cache_key == Some(key));
            assert(crate::cache_store::fresh(gw2.store.find(key)->0, now1));
        },
        TargetModel::UnifiedApi { .. } => {
            let l = gw.unified_layer;
            let scope = scope_of(shape_of(target), seed_of(l));
            let key = crate::cache_key::fingerprint_spec(scope, req);
            assert(pending.cache_key == Some(key));
            assert(crate::cache_store::fresh(gw2.store.find(key)->0, now1));
        },
        TargetModel::DirectProxy { .. } => {
            let l = gw.direct_layer;
            let scope = scope_of(shape_of(target), seed_of(l));
            let key = crate::cache_key::fingerprint_spec(scope, req);
            assert(pending.cache_key == Some(key));
            assert(crate::cache_store::fresh(gw2.store.find(key)->0, now1));
        },
        TargetModel::NotFound => {},
    }
}

/// With the façade's cache layer inactive, phase one never answers from
/// the cache and hands dispatch no store key: every such request goes
/// upstream.
pub proof fn law_inactive_layer_goes_upstream(gw: Gateway, req: RequestModel, now: u64, draw: u64)
    requires
        effective_layer(gw, req) matches Some(l) && layer_view(l) is None,
    ensures
        !(begin_spec(gw, req, now, draw) is CacheHit),
        begin_spec(gw, req, now, draw) matches StepModel::CallUpstream { pending }
            ==> pending.cache_key is None,
{
}

/// A missed response is stamped `helicone-cache: MISS` on its way out: of
/// two identical requests against an active cache, the first answers MISS
/// and the second — see `law_miss_then_hit` — answers HIT.
pub proof fn law_miss_response_is_marked(
    gw: Gateway,
    p: PendingModel,
    resp: ResponseModel,
    now: u64,
    draw: u64,
)
    requires
        p.cache_key is Some,
        !throttled(p, resp),
        crate::types::header_lookup(resp.headers, crate::cache_layer::cache_header_name())
            is None,
    ensures
        finish_spec(gw, p, resp, now, draw) matches OutcomeModel::Done { response }
            && crate::types::header_lookup(
            response.headers,
            crate::cache_layer::cache_header_name(),
        ) == Some(crate::cache_layer::miss_value()),
{
    crate::types::lemma_header_lookup_push(
        resp.headers,
        crate::types::HeaderModel {
            name: crate::cache_layer::cache_header_name(),
            value: crate::cache_layer::miss_value(),
        },
        crate::cache_layer::cache_header_name(),
    );
}

/// A pending call that carries no store key passes the upstream's response
/// through untouched: no header is stamped and (per the contract of phase
/// two) nothing is stored.
pub proof fn law_bypass_passthrough(
    gw: Gateway,
    p: PendingModel,
    resp: ResponseModel,
    now: u64,
    draw: u64,
)
    requires
        p.cache_key is None,
        !throttled(p, resp),
    ensures
        finish_spec(gw, p, resp, now, draw) == (OutcomeModel::Done { response: resp }),
{
}

/// The settings a cache config stands for, once active.
pub open spec fn settings_of_config(c: crate::config::CacheConfig) -> crate::cache_layer::SettingsModel {
    crate::cache_layer::SettingsModel {
        seed: opt_bytes_view(c.seed),
        default_max_age: c.default_max_age,
    }
}

/// A layer built for a router reflects the router's own cache config where
/// it has one, else the global one, else it is inactive.
pub open spec fn layer_matches(
    l: Layer,
    own: Option<crate::config::CacheConfig>,
    global: Option<crate::config::CacheConfig>,
) -> bool {
    match (own, global) {
        (Some(c), _) => layer_view(l) == Some(settings_of_config(c)),
        (None, Some(c)) => layer_view(l) == Some(settings_of_config(c)),
        (None, None) => layer_view(l) is None,
    }
}

/// A configuration the constructor turns away: a cache config with no
/// buckets, or an unusable provider weighting, wherever either appears.
pub open spec fn config_rejected(
    router_configs: Seq<RouterConfig>,
    global_cache: Option<crate::config::CacheConfig>,
    unified_providers: Seq<WeightedProvider>,
) -> bool {
    ||| (global_cache matches Some(c) && c.buckets == 0)
    ||| !balance_config_ok(unified_providers)
    ||| exists|i: int|
        0 <= i < router_configs.len() && (!balance_config_ok(
            (#[trigger] router_configs[i]).providers@,
        ) || (router_configs[i].cache matches Some(c) && c.buckets == 0))
}

/// A balance config the gateway accepts: at least one provider, positive
/// weights, no provider twice, and few enough entries that weight sums fit.
pub open spec fn balance_config_ok(ps: Seq<WeightedProvider>) -> bool {
    &&& ps.len() >= 1
    &&& ps.len() <= 0x1_0000_0000
    &&& forall|i: int| 0 <= i < ps.len() ==> (#[trigger] ps[i]).weight >= 1
    &&& forall|i: int, j: int| 0 <= i < j < ps.len() ==> ps[i].provider != ps[j].provider
}

/// Builds a pool from provider weights, every entry healthy — or says why
/// the config is unusable.
pub fn build_pool(providers: &Vec<WeightedProvider>) -> (r: Result<ProviderPool, InitError>)
    ensures
        match r {
            Ok(p) => {
                &&& balance_config_ok(providers@)
                &&& p.wf()
                &&& p.entries@.len() == providers@.len()
                &&& forall|i: int|
                    0 <= i < providers@.len() ==> (#[trigger] p.entries@[i]).provider
                        == providers@[i].provider && p.entries@[i].weight == providers@[i].weight
                        && p.entries@[i].state is Healthy
            },
            Err(e) => e == InitError::InvalidBalanceConfig && !balance_config_ok(providers@),
        },
{
    if providers.len() == 0 {
        return Err(InitError::InvalidBalanceConfig);
    }
    if providers.len() as u64 > 0x1_0000_0000u64 {
        return Err(InitError::InvalidBalanceConfig);
    }
    let mut entries: Vec<crate::balance::PoolEntry> = Vec::new();
    let mut i: usize = 0;
    while i < providers.len()
        invariant
            i <= providers@.len(),
            entries@.len() == i,
            forall|k: int| 0 <= k < i ==> (#[trigger] providers@[k]).weight >= 1,
            forall|k: int, j: int| 0 <= k < j < i ==> providers@[k].provider
                != providers@[j].provider,
            forall|k: int|
                0 <= k < i ==> (#[trigger] entries@[k]).provider == providers@[k].provider
                    && entries@[k].weight == providers@[k].weight && entries@[k].state is Healthy,
        decreases providers.len() - i,
    {
        let wp = providers[i];
        if wp.weight == 0 {
            return Err(InitError::InvalidBalanceConfig);
        }
        let mut j: usize = 0;
        while j < i
            invariant
                j <= i < providers@.len(),
                wp == providers@[i as int],
                forall|k: int| 0 <= k < j ==> providers@[k].provider != providers@[i as int].provider,
            decreases i - j,
        {
            if crate::monitor::provider_eq(providers[j].provider, wp.provider) {
                return Err(InitError::InvalidBalanceConfig);
            }
            j += 1;
        }
        entries.push(
            crate::balance::PoolEntry {
                provider: wp.provider,
                weight: wp.weight,
                state: crate::balance::ProviderState::Healthy,
            },
        );
        i += 1;
    }
    Ok(ProviderPool { entries })
}

impl Gateway {
    /// Builds a gateway: one pool and one cache layer per router, the
    /// global layers in front of the other two façades, and one shared
    /// store whose fan-out the global cache config chooses.
    pub fn new(
        app_state: AppState,
        router_configs: Vec<RouterConfig>,
        global_cache: Option<crate::config::CacheConfig>,
        unified_providers: Vec<WeightedProvider>,
        default_cooldown: u64,
        max_attempts: u8,
    ) -> (r: Result<Gateway, InitError>)
        requires
            1 <= max_attempts <= 3,
        ensures
            r is Err <==> config_rejected(router_configs@, global_cache, unified_providers@),
            r matches Ok(g) ==> {
                &&& g.wf()
                &&& g.auth.app_state == app_state
                &&& g.auth.metrics.auth_attempts == 0
                &&& g.auth.metrics.auth_rejections == 0
                &&& g.routers@.len() == router_configs@.len()
                &&& forall|i: int|
                    0 <= i < router_configs@.len() ==> (#[trigger] g.routers@[i]).id@
                        == router_configs@[i].id@ && g.routers@[i].signals@.len() == 0
                        && g.routers@[i].monitor.timers@.len() == 0
                &&& forall|i: int|
                    0 <= i < router_configs@.len() ==> layer_matches(
                        (#[trigger] g.routers@[i]).layer,
                        router_configs@[i].cache,
                        global_cache,
                    )
                &&& layer_matches(g.direct_layer, None, global_cache)
                &&& layer_matches(g.unified_layer, None, global_cache)
                &&& forall|k: Seq<u8>| g.store.find(k) is None
                &&& g.unified_signals@.len() == 0
                &&& g.unified_monitor.timers@.len() == 0
                &&& g.default_cooldown == default_cooldown
                &&& g.max_attempts == max_attempts
            },
    {
        let buckets: usize = match &global_cache {
            Some(c) => if c.buckets == 0 {
                return Err(InitError::InvalidCacheConfig);
            } else {
                c.buckets
            },
            None => 1,
        };
        let direct_layer = match Layer::global(global_cache.as_ref()) {
            Ok(l) => l,
            Err(e) => {
                return Err(e);
            },
        };
        let unified_layer = match Layer::unified_api(global_cache.as_ref()) {
            Ok(l) => l,
            Err(e) => {
                return Err(e);
            },
        };
        let unified_pool = match build_pool(&unified_providers) {
            Ok(p) => p,
            Err(e) => {
                return Err(e);
            },
        };
        let mut routers: Vec<RouterRuntime> = Vec::new();
        let mut i: usize = 0;
        while i < router_configs.len()
            invariant
                i <= router_configs@.len(),
                routers@.len() == i,
                global_cache matches Some(c) ==> c.buckets >= 1,
                forall|k: int|
                    0 <= k < i ==> balance_config_ok((#[trigger] router_configs@[k]).providers@)
                        && !(router_configs@[k].cache matches Some(c) && c.buckets == 0),
                forall|k: int|
                    0 <= k < i ==> (#[trigger] routers@[k]).pool.wf() && routers@[k].id@
                        == router_configs@[k].id@ && routers@[k].signals@.len() == 0
                        && routers@[k].monitor.timers@.len() == 0 && layer_matches(
                        routers@[k].layer,
                        router_configs@[k].cache,
                        global_cache,
                    ),
            decreases router_configs.len() - i,
        {
            let cfg = &router_configs[i];
            let layer = match Layer::for_router(global_cache.as_ref(), cfg) {
                Ok(l) => l,
                Err(e) => {
                    proof {
                        assert(router_configs@[i as int].cache matches Some(c) && c.buckets == 0);
                    }
                    return Err(e);
                },
            };
            let pool = match build_pool(&cfg.providers) {
                Ok(p) => p,
                Err(e) => {
                    assert(!balance_config_ok(router_configs@[i as int].providers@));
                    return Err(e);
                },
            };
            routers.push(
                RouterRuntime {
                    id: crate::bytes::clone_bytes(&cfg.id),
                    layer,
                    pool,
                    signals: Vec::new(),
                    monitor: Monitor::new(),
                },
            );
            i += 1;
        }
        assert(!config_rejected(router_configs@, global_cache, unified_providers@));
        Ok(
            Gateway {
                auth: AuthService::new(app_state),
                store: CacheStore::new(buckets),
                routers,
                direct_layer,
                unified_layer,
                unified_pool,
                unified_signals: Vec::new(),
                unified_monitor: Monitor::new(),
                default_cooldown,
                max_attempts,
            },
        )
    }

    /// One turn of the rate-limit monitor for the unified pool: consume the
    /// queued signals in arrival order, then fire every re-admission whose
    /// moment has come.
    pub fn monitor_tick_unified(&mut self, now: u64)
        requires
            old(self).wf(),
        ensures
            final(self).wf(),
            final(self).auth == old(self).auth,
            final(self).store == old(self).store,
            final(self).routers == old(self).routers,
            final(self).direct_layer == old(self).direct_layer,
            final(self).unified_layer == old(self).unified_layer,
            final(self).default_cooldown == old(self).default_cooldown,
            final(self).max_attempts == old(self).max_attempts,
            final(self).unified_signals@ == Seq::<RateLimitSignal>::empty(),
            final(self).unified_pool.entries@ == crate::monitor::tick_pool(
                crate::monitor::drain_pool(
                    old(self).unified_pool.entries@,
                    old(self).unified_signals@,
                ),
                crate::monitor::drain_timers(
                    old(self).unified_monitor.timers@,
                    old(self).unified_signals@,
                ),
                now,
            ),
            final(self).unified_monitor.timers@ == crate::monitor::keep_timers(
                crate::monitor::drain_timers(
                    old(self).unified_monitor.timers@,
                    old(self).unified_signals@,
                ),
                now,
            ),
    {
        self.unified_monitor.drain(&mut self.unified_pool, &self.unified_signals);
        self.unified_signals.clear();
        self.unified_monitor.tick(&mut self.unified_pool, now);
        proof {
            crate::monitor::lemma_transitions_keep_wf(
                old(self).unified_pool.entries@,
                old(self).unified_signals@,
                crate::monitor::drain_timers(
                    old(self).unified_monitor.timers@,
                    old(self).unified_signals@,
                ),
                now,
            );
        }
    }
}

} // verus!
