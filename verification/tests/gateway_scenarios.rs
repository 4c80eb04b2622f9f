use ai_gateway::auth::{ApiKeySnapshot, AppState, RouterOrg};
use ai_gateway::config::{CacheConfig, RouterConfig, WeightedProvider};
use ai_gateway::hashing::hash_bytes;
use ai_gateway::pipeline::{Gateway, PipelineStep, UpstreamOutcome};
use ai_gateway::types::{
    ApiError, AuthError, DeploymentTarget, GatewayRequest, GatewayResponse, Header, Provider,
};

fn bytes(s: &str) -> Vec<u8> {
    s.as_bytes().to_vec()
}

fn state_auth_disabled() -> AppState {
    AppState {
        deployment_target: DeploymentTarget::Cloud,
        auth_disabled: true,
        key_index: Vec::new(),
        router_orgs: Vec::new(),
        sidecar_org_id: Vec::new(),
    }
}

fn state_cloud() -> AppState {
    AppState {
        deployment_target: DeploymentTarget::Cloud,
        auth_disabled: false,
        key_index: vec![ApiKeySnapshot {
            key_hash: hash_bytes(&bytes("sk-helicone-test-key")),
            owner_id: bytes("user-1"),
            organization_id: bytes("org-1"),
        }],
        router_orgs: vec![
            RouterOrg { router_id: bytes("my-router"), organization_id: bytes("org-1") },
            RouterOrg { router_id: bytes("other-router"), organization_id: bytes("org-2") },
        ],
        sidecar_org_id: Vec::new(),
    }
}

fn openai_chat_pool() -> Vec<WeightedProvider> {
    vec![WeightedProvider { provider: Provider::OpenAi, weight: 1 }]
}

fn router(id: &str, cache: Option<CacheConfig>) -> RouterConfig {
    RouterConfig { id: bytes(id), cache, providers: openai_chat_pool() }
}

fn post(path: &str, cache_control: Option<&str>) -> GatewayRequest {
    GatewayRequest {
        method: bytes("POST"),
        path: bytes(path),
        authorization: Some(bytes("Bearer sk-helicone-test-key")),
        cache_control: cache_control.map(bytes),
        body: bytes("{\"model\":\"openai/gpt-4o-mini\",\"messages\":[{\"role\":\"user\",\"content\":\"Hello, world!\"}]}"),
    }
}

fn ok_response(body: &str) -> GatewayResponse {
    GatewayResponse { status: 200, headers: Vec::new(), body: bytes(body) }
}

fn throttle_response(retry_after: &str) -> GatewayResponse {
    GatewayResponse {
        status: 429,
        headers: vec![Header { name: bytes("retry-after"), value: bytes(retry_after) }],
        body: Vec::new(),
    }
}

fn cache_header(resp: &GatewayResponse) -> Option<String> {
    resp.get_header(&bytes("helicone-cache")).map(|v| String::from_utf8(v).unwrap())
}

/// Runs one request to completion against a stub upstream, counting the
/// calls the stub serves per provider.
fn run<F>(
    gw: &mut Gateway,
    req: &GatewayRequest,
    now: u64,
    draw: u64,
    upstream: &mut F,
    calls: &mut Vec<(Provider, u64)>,
) -> Result<GatewayResponse, ApiError>
where
    F: FnMut(Provider) -> GatewayResponse,
{
    match gw.begin_request(req, now, draw) {
        PipelineStep::Reject { error } => Err(error),
        PipelineStep::CacheHit { response } => Ok(response),
        PipelineStep::CallUpstream { mut pending } => {
            let mut retry_draw = draw;
            loop {
                calls.push((pending.provider, now));
                let resp = upstream(pending.provider);
                retry_draw = retry_draw.wrapping_add(1);
                match gw.on_upstream_response(pending, resp, now, retry_draw) {
                    UpstreamOutcome::Done { response } => return Ok(response),
                    UpstreamOutcome::Failed { error } => return Err(error),
                    UpstreamOutcome::Retry { pending: next } => pending = next,
                }
            }
        },
    }
}

fn tick_all(gw: &mut Gateway, now: u64) {
    for i in 0..gw.routers.len() {
        gw.monitor_tick_router(i, now);
    }
}

#[test]
fn cache_enabled_globally() {
    let global = CacheConfig { buckets: 4, seed: None, default_max_age: 60 };
    let mut gw = Gateway::new(
        state_auth_disabled(),
        vec![router("my-router", None)],
        Some(global),
        openai_chat_pool(),
        30,
        3,
    )
    .unwrap();
    let mut stub = |_p: Provider| ok_response("chat-completion-body");
    let mut calls = Vec::new();

    for path in [
        "/router/my-router/chat/completions",
        "/openai/v1/chat/completions",
        "/ai/chat/completions",
    ] {
        let req = post(path, Some("max-age=3600"));
        let first = run(&mut gw, &req, 10, 0, &mut stub, &mut calls).unwrap();
        assert_eq!(first.status, 200);
        assert_eq!(
            cache_header(&first).as_deref(),
            Some("MISS"),
            "First request should be a cache miss"
        );
        let second = run(&mut gw, &req, 11, 0, &mut stub, &mut calls).unwrap();
        assert_eq!(second.status, 200);
        assert_eq!(
            cache_header(&second).as_deref(),
            Some("HIT"),
            "Second request should be a cache hit"
        );
        assert_eq!(second.body, first.body);
    }
    assert_eq!(calls.len(), 3, "upstream must be called exactly once per endpoint");
}

#[test]
fn cache_disabled_globally() {
    let mut gw = Gateway::new(
        state_auth_disabled(),
        vec![router("my-router", None)],
        None,
        openai_chat_pool(),
        30,
        3,
    )
    .unwrap();
    let mut stub = |_p: Provider| ok_response("chat-completion-body");
    let mut calls = Vec::new();

    for path in [
        "/router/my-router/chat/completions",
        "/openai/v1/chat/completions",
        "/ai/chat/completions",
    ] {
        let req = post(path, Some("max-age=3600"));
        for now in [20u64, 21u64] {
            let resp = run(&mut gw, &req, now, 0, &mut stub, &mut calls).unwrap();
            assert_eq!(resp.status, 200);
            assert!(
                cache_header(&resp).is_none(),
                "Cache header should not be present when cache is disabled"
            );
        }
    }
    assert_eq!(calls.len(), 6, "every request must reach the upstream");
}

#[test]
fn cache_enabled_per_router() {
    let cached_cfg = CacheConfig {
        buckets: 1,
        seed: Some(bytes("router-cached-seed")),
        default_max_age: 60,
    };
    let mut gw = Gateway::new(
        state_auth_disabled(),
        vec![
            router("cached", Some(cached_cfg)),
            router("uncached", None),
            router("my-router", None),
        ],
        None,
        openai_chat_pool(),
        30,
        3,
    )
    .unwrap();
    let mut stub = |_p: Provider| ok_response("chat-completion-body");
    let mut calls = Vec::new();

    let req = post("/router/cached/chat/completions", Some("max-age=3600"));
    let first = run(&mut gw, &req, 30, 0, &mut stub, &mut calls).unwrap();
    assert_eq!(
        cache_header(&first).as_deref(),
        Some("MISS"),
        "First request should be a cache miss"
    );
    let second = run(&mut gw, &req, 31, 0, &mut stub, &mut calls).unwrap();
    assert_eq!(
        cache_header(&second).as_deref(),
        Some("HIT"),
        "Second request should be a cache hit"
    );

    for id in ["uncached", "my-router"] {
        let req = post(&format!("/router/{}/chat/completions", id), Some("max-age=3600"));
        for now in [32u64, 33u64] {
            let resp = run(&mut gw, &req, now, 0, &mut stub, &mut calls).unwrap();
            assert!(
                cache_header(&resp).is_none(),
                "Cache header should not be present when cache is disabled"
            );
        }
    }
    assert_eq!(calls.len(), 5);
}

#[test]
fn rate_limit_removes_provider_from_lb_pool() {
    let balanced = RouterConfig {
        id: bytes("my-router"),
        cache: None,
        providers: vec![
            WeightedProvider { provider: Provider::OpenAi, weight: 1 },
            WeightedProvider { provider: Provider::Anthropic, weight: 1 },
        ],
    };
    let mut gw = Gateway::new(state_cloud(), vec![balanced], None, openai_chat_pool(), 30, 3)
        .unwrap();
    let mut openai_throttles_left = 1u32;
    let mut stub = move |p: Provider| {
        if p == Provider::OpenAi && openai_throttles_left > 0 {
            openai_throttles_left -= 1;
            throttle_response("2")
        } else {
            ok_response("upstream-body")
        }
    };
    let mut calls = Vec::new();
    let req = post("/router/my-router/chat/completions", None);

    // Twenty requests; the very first draw lands on the provider that
    // throttles once, the in-request retry moves to the other one, and the
    // monitor then keeps the throttled provider out of the pool.
    for i in 0..20u64 {
        let resp = run(&mut gw, &req, 100 + i / 10, i, &mut stub, &mut calls).unwrap();
        assert_eq!(resp.status, 200);
        tick_all(&mut gw, 100 + i / 10);
    }
    let openai_calls = calls.iter().filter(|(p, _)| *p == Provider::OpenAi).count();
    let anthropic_calls = calls.iter().filter(|(p, _)| *p == Provider::Anthropic).count();
    assert_eq!(openai_calls, 1, "at most one request may reach the throttling provider");
    assert_eq!(anthropic_calls, 20, "every request must succeed via the healthy provider");

    // Re-admit after the cooldown: four seconds later the ejected provider
    // serves again, and with alternating draws the two providers split the
    // load evenly.
    tick_all(&mut gw, 106);
    calls.clear();
    for i in 0..50u64 {
        let resp = run(&mut gw, &req, 106, i, &mut stub, &mut calls).unwrap();
        assert_eq!(resp.status, 200);
    }
    let openai_calls = calls.iter().filter(|(p, _)| *p == Provider::OpenAi).count();
    let anthropic_calls = calls.iter().filter(|(p, _)| *p == Provider::Anthropic).count();
    assert!(openai_calls >= 15 && openai_calls <= 35, "share out of range: {openai_calls}");
    assert!(
        anthropic_calls >= 15 && anthropic_calls <= 35,
        "share out of range: {anthropic_calls}"
    );
    assert_eq!(openai_calls + anthropic_calls, 50);
}

#[test]
fn auth_rejection_taxonomy() {
    let mut gw = Gateway::new(
        state_cloud(),
        vec![router("my-router", None), router("other-router", None)],
        None,
        openai_chat_pool(),
        30,
        3,
    )
    .unwrap();
    let mut stub = |_p: Provider| ok_response("x");
    let mut calls = Vec::new();

    let mut req = post("/router/my-router/chat/completions", None);
    req.authorization = None;
    let err = run(&mut gw, &req, 1, 0, &mut stub, &mut calls).unwrap_err();
    assert_eq!(err, ApiError::Auth(AuthError::MissingAuthorizationHeader));
    assert_eq!(err.status_code(), 401);

    let mut req = post("/router/my-router/chat/completions", None);
    req.authorization = Some(bytes("Bearer sk-unknown-key"));
    let err = run(&mut gw, &req, 1, 0, &mut stub, &mut calls).unwrap_err();
    assert_eq!(err, ApiError::Auth(AuthError::InvalidCredentials));
    assert_eq!(err.status_code(), 401);

    let req = post("/router/other-router/chat/completions", None);
    let err = run(&mut gw, &req, 1, 0, &mut stub, &mut calls).unwrap_err();
    assert_eq!(
        err,
        ApiError::Auth(AuthError::InvalidCredentials),
        "a valid key for a router of another organization is invalid"
    );

    let req = post("/router/ghost/chat/completions", None);
    let err = run(&mut gw, &req, 1, 0, &mut stub, &mut calls).unwrap_err();
    assert_eq!(err, ApiError::Auth(AuthError::RouterNotFound));
    assert_eq!(err.status_code(), 404);

    assert_eq!(gw.auth.metrics.auth_attempts, 4);
    assert_eq!(gw.auth.metrics.auth_rejections, 4);
    assert_eq!(calls.len(), 0, "no rejected request may reach an upstream");
}

#[test]
fn all_ejected_fails_fast_and_budget_is_bounded() {
    let both = RouterConfig {
        id: bytes("my-router"),
        cache: None,
        providers: vec![
            WeightedProvider { provider: Provider::OpenAi, weight: 1 },
            WeightedProvider { provider: Provider::Anthropic, weight: 1 },
        ],
    };
    let mut gw = Gateway::new(state_auth_disabled(), vec![both], None, openai_chat_pool(), 30, 3)
        .unwrap();
    let mut stub = |_p: Provider| throttle_response("60");
    let mut calls = Vec::new();
    let req = post("/router/my-router/chat/completions", None);

    // Both providers throttle on every try: the retries alternate between
    // them until the budget of three tries runs out.
    let err = run(&mut gw, &req, 200, 0, &mut stub, &mut calls).unwrap_err();
    assert_eq!(err, ApiError::AllProvidersRejected);
    assert_eq!(err.status_code(), 502);
    assert_eq!(calls.len(), 3, "the budget is the first call plus two retries");
    assert_ne!(calls[0].0, calls[1].0, "a retry never goes back to the provider that throttled");
    assert_ne!(calls[1].0, calls[2].0);

    // Once the monitor consumed the signals, selection fails fast with a
    // retriable error and no upstream call at all.
    tick_all(&mut gw, 201);
    calls.clear();
    let err = run(&mut gw, &req, 202, 0, &mut stub, &mut calls).unwrap_err();
    assert_eq!(err, ApiError::NoHealthyProvider);
    assert_eq!(err.status_code(), 503);
    assert_eq!(calls.len(), 0);
}

#[test]
fn sole_throttling_provider_fails_without_a_second_call() {
    let mut gw = Gateway::new(
        state_auth_disabled(),
        vec![router("my-router", None)],
        None,
        openai_chat_pool(),
        30,
        3,
    )
    .unwrap();
    let mut stub = |_p: Provider| throttle_response("60");
    let mut calls = Vec::new();
    let req = post("/router/my-router/chat/completions", None);

    // The only provider throttled this very request; no remaining provider
    // exists to retry on, so the request fails at once.
    let err = run(&mut gw, &req, 300, 0, &mut stub, &mut calls).unwrap_err();
    assert_eq!(err, ApiError::AllProvidersRejected);
    assert_eq!(calls.len(), 1);
}

#[test]
fn unified_pool_throttling_is_monitored() {
    let mut gw = Gateway::new(
        state_auth_disabled(),
        vec![router("my-router", None)],
        None,
        vec![
            WeightedProvider { provider: Provider::OpenAi, weight: 1 },
            WeightedProvider { provider: Provider::Anthropic, weight: 1 },
        ],
        30,
        3,
    )
    .unwrap();
    let mut openai_throttles_left = 1u32;
    let mut stub = move |p: Provider| {
        if p == Provider::OpenAi && openai_throttles_left > 0 {
            openai_throttles_left -= 1;
            throttle_response("2")
        } else {
            ok_response("unified-body")
        }
    };
    let mut calls = Vec::new();
    let req = post("/ai/chat/completions", None);

    // The throttled provider is retried away from, its signal reaches the
    // unified monitor, and until the cooldown passes only the other
    // provider serves.
    for i in 0..10u64 {
        let resp = run(&mut gw, &req, 400, i, &mut stub, &mut calls).unwrap();
        assert_eq!(resp.status, 200);
        gw.monitor_tick_unified(400);
    }
    let openai_calls = calls.iter().filter(|(p, _)| *p == Provider::OpenAi).count();
    assert_eq!(openai_calls, 1, "at most one request may reach the throttling provider");

    // After the cooldown the monitor re-admits it and both serve again.
    gw.monitor_tick_unified(404);
    calls.clear();
    for i in 0..10u64 {
        let resp = run(&mut gw, &req, 404, i, &mut stub, &mut calls).unwrap();
        assert_eq!(resp.status, 200);
    }
    let openai_calls = calls.iter().filter(|(p, _)| *p == Provider::OpenAi).count();
    assert_eq!(openai_calls, 5, "alternating draws split the load evenly again");
}

#[test]
fn expired_entry_is_a_miss_again() {
    let global = CacheConfig { buckets: 2, seed: None, default_max_age: 60 };
    let mut gw = Gateway::new(
        state_auth_disabled(),
        vec![router("my-router", None)],
        Some(global),
        openai_chat_pool(),
        30,
        3,
    )
    .unwrap();
    let mut stub = |_p: Provider| ok_response("b");
    let mut calls = Vec::new();
    let req = post("/router/my-router/chat/completions", Some("max-age=1"));

    let first = run(&mut gw, &req, 1000, 0, &mut stub, &mut calls).unwrap();
    assert_eq!(cache_header(&first).as_deref(), Some("MISS"));
    let second = run(&mut gw, &req, 1001, 0, &mut stub, &mut calls).unwrap();
    assert_eq!(cache_header(&second).as_deref(), Some("HIT"));
    let third = run(&mut gw, &req, 1002, 0, &mut stub, &mut calls).unwrap();
    assert_eq!(cache_header(&third).as_deref(), Some("MISS"), "past max-age the entry is stale");
    assert_eq!(calls.len(), 2);
}

#[test]
fn errors_are_not_cached() {
    let global = CacheConfig { buckets: 2, seed: None, default_max_age: 60 };
    let mut gw = Gateway::new(
        state_auth_disabled(),
        vec![router("my-router", None)],
        Some(global),
        openai_chat_pool(),
        30,
        3,
    )
    .unwrap();
    let mut served = 0u32;
    let mut stub = move |_p: Provider| {
        served += 1;
        if served == 1 {
            GatewayResponse { status: 500, headers: Vec::new(), body: b"oops".to_vec() }
        } else {
            ok_response("fine")
        }
    };
    let mut calls = Vec::new();
    let req = post("/router/my-router/chat/completions", Some("max-age=3600"));

    let first = run(&mut gw, &req, 1, 0, &mut stub, &mut calls).unwrap();
    assert_eq!(first.status, 500);
    assert_eq!(cache_header(&first).as_deref(), Some("MISS"));
    let second = run(&mut gw, &req, 2, 0, &mut stub, &mut calls).unwrap();
    assert_eq!(second.status, 200, "a non-success response must not be served from the cache");
    assert_eq!(cache_header(&second).as_deref(), Some("MISS"));
    let third = run(&mut gw, &req, 3, 0, &mut stub, &mut calls).unwrap();
    assert_eq!(third.status, 200);
    assert_eq!(cache_header(&third).as_deref(), Some("HIT"));
    assert_eq!(calls.len(), 2);
}

#[test]
fn unknown_path_is_not_found() {
    let mut gw = Gateway::new(
        state_auth_disabled(),
        vec![router("my-router", None)],
        None,
        openai_chat_pool(),
        30,
        3,
    )
    .unwrap();
    let mut stub = |_p: Provider| ok_response("x");
    let mut calls = Vec::new();
    for path in ["", "/", "/nonsense/v1", "/router", "/router/"] {
        let req = post(path, None);
        let err = run(&mut gw, &req, 1, 0, &mut stub, &mut calls).unwrap_err();
        assert_eq!(err, ApiError::RouteNotFound, "path {:?} must 404", path);
        assert_eq!(err.status_code(), 404);
    }
    assert_eq!(gw.auth.metrics.auth_attempts, 0, "no auth attempt before a route matches");
}

#[test]
fn date_form_cooldown_ejects_until_the_named_moment() {
    // "Thu, 01 Jan 1970 00:16:40 GMT" is second 1000 of the epoch clock the
    // tests run on.
    let balanced = RouterConfig {
        id: bytes("my-router"),
        cache: None,
        providers: vec![
            WeightedProvider { provider: Provider::OpenAi, weight: 1 },
            WeightedProvider { provider: Provider::Anthropic, weight: 1 },
        ],
    };
    let mut gw = Gateway::new(
        state_auth_disabled(),
        vec![balanced],
        None,
        openai_chat_pool(),
        30,
        3,
    )
    .unwrap();
    let mut openai_throttles_left = 1u32;
    let mut stub = move |p: Provider| {
        if p == Provider::OpenAi && openai_throttles_left > 0 {
            openai_throttles_left -= 1;
            GatewayResponse {
                status: 429,
                headers: vec![Header {
                    name: bytes("retry-after"),
                    value: bytes("Thu, 01 Jan 1970 00:16:40 GMT"),
                }],
                body: Vec::new(),
            }
        } else {
            ok_response("ok")
        }
    };
    let mut calls = Vec::new();
    let req = post("/router/my-router/chat/completions", None);

    // The 429 at second 900 names second 1000: the provider sits out the
    // hundred seconds in between.
    let resp = run(&mut gw, &req, 900, 0, &mut stub, &mut calls).unwrap();
    assert_eq!(resp.status, 200);
    tick_all(&mut gw, 900);
    calls.clear();
    for i in 0..4u64 {
        run(&mut gw, &req, 950, i, &mut stub, &mut calls).unwrap();
        tick_all(&mut gw, 950);
    }
    assert!(calls.iter().all(|(p, _)| *p == Provider::Anthropic));
    tick_all(&mut gw, 1000);
    calls.clear();
    for i in 0..4u64 {
        run(&mut gw, &req, 1000, i, &mut stub, &mut calls).unwrap();
    }
    assert!(calls.iter().any(|(p, _)| *p == Provider::OpenAi), "re-admitted at the named moment");
}

#[test]
fn dispatch_carries_the_bound_identity() {
    let mut gw = Gateway::new(
        state_cloud(),
        vec![router("my-router", None)],
        None,
        openai_chat_pool(),
        30,
        3,
    )
    .unwrap();
    let req = post("/router/my-router/chat/completions", None);
    match gw.begin_request(&req, 1, 0) {
        PipelineStep::CallUpstream { pending } => {
            let ctx = pending.auth.expect("auth is enabled, an identity must be attached");
            assert_eq!(ctx.user_id, bytes("user-1"));
            assert_eq!(ctx.org_id, bytes("org-1"), "the identity belongs to the router's organization");
            assert_eq!(ctx.api_key.expose(), &bytes("sk-helicone-test-key"));
        }
        _ => panic!("an authenticated request over a healthy pool must dispatch"),
    }

    // With auth globally disabled no identity is read or attached.
    let mut gw = Gateway::new(
        state_auth_disabled(),
        vec![router("my-router", None)],
        None,
        openai_chat_pool(),
        30,
        3,
    )
    .unwrap();
    match gw.begin_request(&req, 1, 0) {
        PipelineStep::CallUpstream { pending } => assert!(pending.auth.is_none()),
        _ => panic!("the request must dispatch"),
    }
}
