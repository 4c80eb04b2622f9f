use ai_gateway::auth::{ApiKeySnapshot, AppState, AuthService, RouterOrg};
use ai_gateway::balance::{PoolEntry, ProviderPool, ProviderState};
use ai_gateway::cache_key::{fingerprint, CacheScope};
use ai_gateway::cache_layer::Layer;
use ai_gateway::cache_store::{CacheEntry, CacheStore};
use ai_gateway::classify::{classify, RouteTarget};
use ai_gateway::config::{CacheConfig, InitError, RouterConfig, WeightedProvider};
use ai_gateway::hashing::hash_bytes;
use ai_gateway::monitor::{eject, readmit, Monitor, RateLimitSignal};
use ai_gateway::parse::{parse_http_date, parse_max_age, parse_retry_after};
use ai_gateway::types::{
    AuthError, DeploymentTarget, GatewayRequest, GatewayResponse, Provider, RequestKind,
};

fn bytes(s: &str) -> Vec<u8> {
    s.as_bytes().to_vec()
}

#[test]
fn classifier_maps_prefixes() {
    match classify(&bytes("/router/my-router/chat/completions")) {
        RouteTarget::Router { id, rest } => {
            assert_eq!(id, bytes("my-router"));
            assert_eq!(rest, bytes("/chat/completions"));
        }
        _ => panic!("router path must classify as Router"),
    }
    match classify(&bytes("/ai/chat/completions")) {
        RouteTarget::UnifiedApi { rest } => assert_eq!(rest, bytes("/chat/completions")),
        _ => panic!("unified path must classify as UnifiedApi"),
    }
    match classify(&bytes("/openai/v1/chat/completions")) {
        RouteTarget::DirectProxy { provider, rest } => {
            assert_eq!(provider, Provider::OpenAi);
            assert_eq!(rest, bytes("/v1/chat/completions"));
        }
        _ => panic!("provider path must classify as DirectProxy"),
    }
    match classify(&bytes("/anthropic/v1/messages")) {
        RouteTarget::DirectProxy { provider, .. } => assert_eq!(provider, Provider::Anthropic),
        _ => panic!(),
    }
    match classify(&bytes("/ollama/api/chat")) {
        RouteTarget::DirectProxy { provider, .. } => assert_eq!(provider, Provider::Ollama),
        _ => panic!(),
    }
    assert!(matches!(classify(&bytes("")), RouteTarget::NotFound));
    assert!(matches!(classify(&bytes("nope")), RouteTarget::NotFound));
    assert!(matches!(classify(&bytes("/unknown/x")), RouteTarget::NotFound));
    assert!(matches!(classify(&bytes("/router")), RouteTarget::NotFound));
    assert!(matches!(classify(&bytes("/router//x")), RouteTarget::NotFound));
}

#[test]
fn max_age_directive_parses_exactly() {
    assert_eq!(parse_max_age(&bytes("max-age=3600")), Some(3600));
    assert_eq!(parse_max_age(&bytes("max-age=0")), Some(0));
    assert_eq!(parse_max_age(&bytes("max-age=")), None);
    assert_eq!(parse_max_age(&bytes("max-age=12a")), None);
    assert_eq!(parse_max_age(&bytes("no-store")), None);
    assert_eq!(
        parse_max_age(&bytes("max-age=9999999999999999999")),
        Some(9_999_999_999_999_999_999)
    );
    assert_eq!(parse_max_age(&bytes("max-age=99999999999999999990")), None);
}

#[test]
fn retry_after_parses_delta_seconds() {
    assert_eq!(parse_retry_after(&bytes("2")), Some(2));
    assert_eq!(parse_retry_after(&bytes("30")), Some(30));
    assert_eq!(parse_retry_after(&bytes("")), None);
    assert_eq!(parse_retry_after(&bytes("Wed, 21 Oct 2015 07:28:00 GMT")), None);
}

#[test]
fn retry_after_parses_http_dates() {
    assert_eq!(parse_http_date(&bytes("Thu, 01 Jan 1970 00:00:00 GMT")), Some(0));
    assert_eq!(parse_http_date(&bytes("Sun, 06 Nov 1994 08:49:37 GMT")), Some(784_111_777));
    assert_eq!(parse_http_date(&bytes("Wed, 21 Oct 2015 07:28:00 GMT")), Some(1_445_412_480));
    assert_eq!(parse_http_date(&bytes("Fri, 29 Feb 2016 12:00:00 GMT")), Some(1_456_747_200));
    assert_eq!(parse_http_date(&bytes("Wed, 21 Oct 2015 07:28:00 UTC")), None);
    assert_eq!(parse_http_date(&bytes("Wed, 21 Xxx 2015 07:28:00 GMT")), None);
    assert_eq!(parse_http_date(&bytes("Wed, 00 Oct 2015 07:28:00 GMT")), None);
    assert_eq!(parse_http_date(&bytes("Wed, 21 Oct 1899 07:28:00 GMT")), None, "pre-epoch dates wait nothing");
    assert_eq!(parse_http_date(&bytes("21 Oct 2015 07:28:00 GMT")), None);
}

#[test]
fn hash_is_deterministic_and_spreads() {
    // FNV-1a, 64 bits: the empty string hashes to the offset basis, and
    // one step folds a byte in before the prime multiplication.
    assert_eq!(hash_bytes(&Vec::new()), 0xcbf29ce484222325);
    assert_eq!(hash_bytes(&bytes("a")), 0xaf63dc4c8601ec8c);
    assert_eq!(hash_bytes(&bytes("sk-key")), hash_bytes(&bytes("sk-key")));
    assert_ne!(hash_bytes(&bytes("sk-key")), hash_bytes(&bytes("sk-kez")));
    assert_ne!(hash_bytes(&bytes("")), hash_bytes(&bytes("a")));
}

#[test]
fn fingerprints_are_scoped() {
    let req = GatewayRequest {
        method: bytes("POST"),
        path: bytes("/router/a/chat"),
        authorization: None,
        cache_control: None,
        body: bytes("{}"),
    };
    let a = fingerprint(&CacheScope::Router { id: bytes("a"), seed: None }, &req);
    let b = fingerprint(&CacheScope::Router { id: bytes("b"), seed: None }, &req);
    let a_seeded = fingerprint(
        &CacheScope::Router { id: bytes("a"), seed: Some(bytes("s1")) },
        &req,
    );
    let unified = fingerprint(&CacheScope::UnifiedApi, &req);
    let direct = fingerprint(&CacheScope::DirectProxy { provider: Provider::OpenAi }, &req);
    assert_ne!(a, b, "two routers never share a fingerprint");
    assert_ne!(a, a_seeded, "the seed salts the fingerprint");
    assert_ne!(a, unified);
    assert_ne!(unified, direct);
    assert_eq!(a, fingerprint(&CacheScope::Router { id: bytes("a"), seed: None }, &req));
}

#[test]
fn store_serves_fresh_and_shadows_old() {
    let mut store = CacheStore::new(2);
    let key = bytes("some-fingerprint");
    assert!(store.lookup(&key, 5).is_none());
    store.insert(CacheEntry {
        key: key.clone(),
        status: 200,
        headers: Vec::new(),
        body: bytes("v1"),
        stored_at: 5,
        ttl: 10,
    });
    assert_eq!(store.lookup(&key, 10).unwrap().body, bytes("v1"));
    assert!(store.lookup(&key, 16).is_none(), "stale entries are never served");
    store.insert(CacheEntry {
        key: key.clone(),
        status: 200,
        headers: Vec::new(),
        body: bytes("v2"),
        stored_at: 20,
        ttl: 10,
    });
    assert_eq!(store.lookup(&key, 21).unwrap().body, bytes("v2"), "newer entries shadow older");
    assert!(store.lookup(&bytes("other"), 21).is_none());
}

#[test]
fn store_does_not_keep_failures() {
    let mut store = CacheStore::new(1);
    let resp = GatewayResponse { status: 502, headers: Vec::new(), body: bytes("bad") };
    store.store_response(bytes("k"), &resp, 100, 0);
    assert!(store.lookup(&bytes("k"), 1).is_none());
    let ok = GatewayResponse { status: 204, headers: Vec::new(), body: Vec::new() };
    store.store_response(bytes("k"), &ok, 100, 0);
    assert_eq!(store.lookup(&bytes("k"), 1).unwrap().status, 204);
}

#[test]
fn selection_is_weight_proportional_over_healthy() {
    let pool = ProviderPool {
        entries: vec![
            PoolEntry { provider: Provider::OpenAi, weight: 1, state: ProviderState::Healthy },
            PoolEntry { provider: Provider::Anthropic, weight: 3, state: ProviderState::Healthy },
        ],
    };
    // Bands by insertion order: draw 0 lands on the first entry, draws 1-3
    // on the second; then it wraps.
    assert_eq!(pool.select(0).unwrap(), Provider::OpenAi);
    assert_eq!(pool.select(1).unwrap(), Provider::Anthropic);
    assert_eq!(pool.select(2).unwrap(), Provider::Anthropic);
    assert_eq!(pool.select(3).unwrap(), Provider::Anthropic);
    assert_eq!(pool.select(4).unwrap(), Provider::OpenAi);
}

#[test]
fn selection_skips_ejected_and_fails_fast_when_all_are() {
    let mut pool = ProviderPool {
        entries: vec![
            PoolEntry { provider: Provider::OpenAi, weight: 1, state: ProviderState::Healthy },
            PoolEntry { provider: Provider::Anthropic, weight: 1, state: ProviderState::Healthy },
        ],
    };
    eject(&mut pool, Provider::OpenAi, 50);
    for draw in 0..5u64 {
        assert_eq!(pool.select(draw).unwrap(), Provider::Anthropic);
    }
    eject(&mut pool, Provider::Anthropic, 50);
    assert!(pool.select(0).is_err(), "an all-ejected pool fails fast");
}

#[test]
fn monitor_takes_the_later_cooldown_and_readmits_once_due() {
    let mut pool = ProviderPool {
        entries: vec![PoolEntry {
            provider: Provider::OpenAi,
            weight: 1,
            state: ProviderState::Healthy,
        }],
    };
    let mut monitor = Monitor::new();
    monitor.on_signal(
        &mut pool,
        RateLimitSignal { provider: Provider::OpenAi, retry_after: 10, observed_at: 0 },
    );
    monitor.on_signal(
        &mut pool,
        RateLimitSignal { provider: Provider::OpenAi, retry_after: 3, observed_at: 2 },
    );
    assert_eq!(
        pool.entries[0].state,
        ProviderState::Ejected { until: 10 },
        "a shorter, newer cooldown never pulls the moment in"
    );
    // The second signal's timer fires first but must not re-admit early.
    monitor.tick(&mut pool, 6);
    assert_eq!(pool.entries[0].state, ProviderState::Ejected { until: 10 });
    monitor.tick(&mut pool, 10);
    assert_eq!(pool.entries[0].state, ProviderState::Healthy);
}

#[test]
fn readmit_ignores_stale_timers() {
    let mut pool = ProviderPool {
        entries: vec![PoolEntry {
            provider: Provider::OpenAi,
            weight: 1,
            state: ProviderState::Ejected { until: 20 },
        }],
    };
    readmit(&mut pool, Provider::OpenAi, 15);
    assert_eq!(
        pool.entries[0].state,
        ProviderState::Ejected { until: 20 },
        "a timer older than the ejection is discarded"
    );
    readmit(&mut pool, Provider::OpenAi, 20);
    assert_eq!(pool.entries[0].state, ProviderState::Healthy);
}

#[test]
fn layer_constructors_follow_the_configs() {
    let global = CacheConfig { buckets: 8, seed: None, default_max_age: 60 };
    assert!(Layer::global(Some(&global)).unwrap().inner.is_some());
    assert!(Layer::global(None).unwrap().inner.is_none());
    assert!(Layer::unified_api(Some(&global)).unwrap().inner.is_some());
    assert!(Layer::disabled().inner.is_none());

    let own = RouterConfig {
        id: bytes("r"),
        cache: Some(CacheConfig { buckets: 1, seed: Some(bytes("s")), default_max_age: 5 }),
        providers: vec![WeightedProvider { provider: Provider::OpenAi, weight: 1 }],
    };
    let without = RouterConfig { id: bytes("r"), cache: None, providers: Vec::new() };
    assert!(Layer::for_router(None, &own).unwrap().inner.is_some());
    assert!(Layer::for_router(Some(&global), &without).unwrap().inner.is_some());
    assert!(Layer::for_router(None, &without).unwrap().inner.is_none());

    let broken = CacheConfig { buckets: 0, seed: None, default_max_age: 60 };
    match Layer::global(Some(&broken)) {
        Err(e) => assert_eq!(e, InitError::InvalidCacheConfig),
        Ok(_) => panic!("a zero-bucket cache config must be rejected"),
    }
}

#[test]
fn sidecar_auth_uses_the_global_organization() {
    let state = AppState {
        deployment_target: DeploymentTarget::Sidecar,
        auth_disabled: false,
        key_index: vec![ApiKeySnapshot {
            key_hash: hash_bytes(&bytes("sk-local")),
            owner_id: bytes("user-7"),
            organization_id: bytes("ignored-in-sidecar"),
        }],
        router_orgs: Vec::new(),
        sidecar_org_id: bytes("org-local"),
    };
    let ctx = AuthService::authenticate_request_inner(
        &state,
        &bytes("Bearer sk-local"),
        Some(RequestKind::Router),
        Some(&bytes("any")),
    )
    .unwrap();
    assert_eq!(ctx.user_id, bytes("user-7"));
    assert_eq!(ctx.org_id, bytes("org-local"));
    assert_eq!(ctx.api_key.expose(), &bytes("sk-local"), "the scheme prefix is stripped");

    match AuthService::authenticate_request_inner(
        &state,
        &bytes("Bearer sk-wrong"),
        Some(RequestKind::Router),
        None,
    ) {
        Err(e) => assert_eq!(e, AuthError::InvalidCredentials),
        Ok(_) => panic!("an unknown key must be rejected"),
    }
}

#[test]
fn cloud_auth_binds_the_key_organization() {
    let state = AppState {
        deployment_target: DeploymentTarget::Cloud,
        auth_disabled: false,
        key_index: vec![ApiKeySnapshot {
            key_hash: hash_bytes(&bytes("sk-cloud")),
            owner_id: bytes("user-1"),
            organization_id: bytes("org-1"),
        }],
        router_orgs: vec![RouterOrg {
            router_id: bytes("my-router"),
            organization_id: bytes("org-1"),
        }],
        sidecar_org_id: Vec::new(),
    };
    let ctx = AuthService::authenticate_request_inner(
        &state,
        &bytes("Bearer sk-cloud"),
        Some(RequestKind::Router),
        Some(&bytes("my-router")),
    )
    .unwrap();
    assert_eq!(ctx.org_id, bytes("org-1"));

    let ctx = AuthService::authenticate_request_inner(
        &state,
        &bytes("sk-cloud"),
        Some(RequestKind::UnifiedApi),
        None,
    )
    .unwrap();
    assert_eq!(ctx.user_id, bytes("user-1"), "a bare token without the scheme also works");

    match AuthService::authenticate_request_inner(
        &state,
        &bytes("Bearer sk-cloud"),
        Some(RequestKind::Router),
        None,
    ) {
        Err(e) => assert_eq!(e, AuthError::RouterNotFound),
        Ok(_) => panic!("a router request without a router id must be rejected"),
    }
}
