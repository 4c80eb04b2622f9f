//! The authentication gate: validates the bearer credential against the
//! control-plane snapshot (cloud) or the local config snapshot (sidecar) and
//! binds an identity to the request, or rejects it with one of four errors.

use vstd::prelude::*;

use crate::bytes::is_prefix_of;
use crate::hashing::fnv1a;
use crate::types::{AuthContext, AuthContextModel, AuthError, DeploymentTarget, RequestKind, Secret};

verus! {

/// One credential the control plane (or the sidecar config) knows, indexed
/// by the hash of the key.
pub struct ApiKeySnapshot {
    pub key_hash: u64,
    pub owner_id: Vec<u8>,
    pub organization_id: Vec<u8>,
}

/// Mathematical image of an [`ApiKeySnapshot`].
pub ghost struct ApiKeyModel {
    pub key_hash: u64,
    pub owner_id: Seq<u8>,
    pub organization_id: Seq<u8>,
}

impl View for ApiKeySnapshot {
    type V = ApiKeyModel;

    open spec fn view(&self) -> ApiKeyModel {
        ApiKeyModel {
            key_hash: self.key_hash,
            owner_id: self.owner_id@,
            organization_id: self.organization_id@,
        }
    }
}

/// Which organization owns a configured router (cloud mode).
pub struct RouterOrg {
    pub router_id: Vec<u8>,
    pub organization_id: Vec<u8>,
}

/// Mathematical image of a [`RouterOrg`].
pub ghost struct RouterOrgModel {
    pub router_id: Seq<u8>,
    pub organization_id: Seq<u8>,
}

impl View for RouterOrg {
    type V = RouterOrgModel;

    open spec fn view(&self) -> RouterOrgModel {
        RouterOrgModel { router_id: self.router_id@, organization_id: self.organization_id@ }
    }
}

/// The shared application state the auth gate consults. Reads observe one
/// consistent snapshot; the control-plane refresher that swaps snapshots
/// lives outside this crate.
pub struct AppState {
    pub deployment_target: DeploymentTarget,
    /// True when global configuration disables auth; requests then pass
    /// through with no header read and no identity attached.
    pub auth_disabled: bool,
    /// The key index: the control-plane snapshot in cloud mode, the locally
    /// loaded config in sidecar mode.
    pub key_index: Vec<ApiKeySnapshot>,
    /// Router-to-organization ownership, cloud mode only.
    pub router_orgs: Vec<RouterOrg>,
    /// The process-global organization, sidecar mode only.
    pub sidecar_org_id: Vec<u8>,
}

pub open spec fn keys_view(v: Seq<ApiKeySnapshot>) -> Seq<ApiKeyModel> {
    Seq::new(v.len(), |i: int| v[i]@)
}

pub open spec fn routers_view(v: Seq<RouterOrg>) -> Seq<RouterOrgModel> {
    Seq::new(v.len(), |i: int| v[i]@)
}

/// The first key in the index whose stored hash is `h`.
pub open spec fn key_lookup(keys: Seq<ApiKeyModel>, h: u64) -> Option<ApiKeyModel>
    decreases keys.len(),
{
    if keys.len() == 0 {
        None
    } else if keys[0].key_hash == h {
        Some(keys[0])
    } else {
        key_lookup(keys.subrange(1, keys.len() as int), h)
    }
}

/// The organization that owns router `id`, if the router is configured.
pub open spec fn router_org_lookup(routers: Seq<RouterOrgModel>, id: Seq<u8>) -> Option<Seq<u8>>
    decreases routers.len(),
{
    if routers.len() == 0 {
        None
    } else if routers[0].router_id == id {
        Some(routers[0].organization_id)
    } else {
        router_org_lookup(routers.subrange(1, routers.len() as int), id)
    }
}

/// The literal `Bearer ` scheme prefix of an Authorization header.
pub open spec fn bearer_prefix() -> Seq<u8> {
    seq![
        ('B' as u8),
        ('e' as u8),
        ('a' as u8),
        ('r' as u8),
        ('e' as u8),
        ('r' as u8),
        (' ' as u8),
    ]
}

/// The credential with a leading `Bearer ` scheme stripped.
pub open spec fn strip_bearer(k: Seq<u8>) -> Seq<u8> {
    if is_prefix_of(bearer_prefix(), k) {
        k.subrange(bearer_prefix().len() as int, k.len() as int)
    } else {
        k
    }
}

/// What authenticating a credential returns: the identity it binds, or why
/// it is rejected. The checks run in this order: the key hash is looked up;
/// for a router request the router's organization is then looked up and must
/// equal the key's; unified-API and direct-proxy requests need no router
/// check. In sidecar mode the organization comes from the process-global
/// config field, not from the key.
pub open spec fn authenticate_spec(
    st: AppState,
    api_key: Seq<u8>,
    request_kind: Option<RequestKind>,
    router_id: Option<Seq<u8>>,
) -> Result<AuthContextModel, AuthError> {
    let stripped = strip_bearer(api_key);
    let found = key_lookup(keys_view(st.key_index@), fnv1a(stripped));
    match st.deployment_target {
        DeploymentTarget::Cloud => match found {
            None => Err(AuthError::InvalidCredentials),
            Some(key) => match request_kind {
                None => Err(AuthError::InvalidCredentials),
                Some(RequestKind::Router) => match router_id {
                    None => Err(AuthError::RouterNotFound),
                    Some(rid) => match router_org_lookup(routers_view(st.router_orgs@), rid) {
                        None => Err(AuthError::RouterNotFound),
                        Some(org) => if key.organization_id == org {
                            Ok(
                                AuthContextModel {
                                    api_key: stripped,
                                    user_id: key.owner_id,
                                    org_id: key.organization_id,
                                },
                            )
                        } else {
                            Err(AuthError::InvalidCredentials)
                        },
                    },
                },
                Some(RequestKind::UnifiedApi) | Some(RequestKind::DirectProxy) => Ok(
                    AuthContextModel {
                        api_key: stripped,
                        user_id: key.owner_id,
                        org_id: key.organization_id,
                    },
                ),
            },
        },
        DeploymentTarget::Sidecar => match found {
            None => Err(AuthError::InvalidCredentials),
            Some(key) => Ok(
                AuthContextModel {
                    api_key: stripped,
                    user_id: key.owner_id,
                    org_id: st.sidecar_org_id@,
                },
            ),
        },
    }
}

pub open spec fn auth_result_view(r: Result<AuthContext, AuthError>) -> Result<
    AuthContextModel,
    AuthError,
> {
    match r {
        Ok(c) => Ok(c@),
        Err(e) => Err(e),
    }
}

/// Side-effect counters: one attempt per request that reaches the check,
/// one rejection per failure of any kind. They saturate instead of
/// wrapping.
pub struct Metrics {
    pub auth_attempts: u64,
    pub auth_rejections: u64,
}

/// The authentication service: the state it consults plus its counters.
pub struct AuthService {
    pub app_state: AppState,
    pub metrics: Metrics,
}

/// What authorization as a whole returns: `Ok(None)` when auth is globally
/// disabled (no header read, no identity attached), otherwise the header is
/// required and the credential authenticated.
pub open spec fn authorize_spec(
    st: AppState,
    authorization: Option<Seq<u8>>,
    request_kind: Option<RequestKind>,
    router_id: Option<Seq<u8>>,
) -> Result<Option<AuthContextModel>, AuthError> {
    if st.auth_disabled {
        Ok(None)
    } else {
        match authorization {
            None => Err(AuthError::MissingAuthorizationHeader),
            Some(h) => match authenticate_spec(st, h, request_kind, router_id) {
                Ok(ctx) => Ok(Some(ctx)),
                Err(e) => Err(e),
            },
        }
    }
}

/// `n` clamped to the range of a `u64`; the counters saturate there.
pub open spec fn sat_u64(n: int) -> int {
    if n <= u64::MAX as int {
        n
    } else {
        u64::MAX as int
    }
}

/// How many attempts [`AuthService::authorize`] records for one request.
pub open spec fn attempts_delta(st: AppState) -> int {
    if st.auth_disabled {
        0
    } else {
        1
    }
}

/// How many rejections [`AuthService::authorize`] records for one request.
pub open spec fn rejections_delta(
    st: AppState,
    authorization: Option<Seq<u8>>,
    request_kind: Option<RequestKind>,
    router_id: Option<Seq<u8>>,
) -> int {
    if authorize_spec(st, authorization, request_kind, router_id) is Err {
        1
    } else {
        0
    }
}

/// With auth enabled, every request that reaches the check counts exactly
/// one attempt, and exactly the rejected requests — any of the four failure
/// kinds, the missing header included — count one rejection. Over any run
/// of requests the counters therefore advance by the number of attempts and
/// rejections, as long as they sit below their saturation point.
pub proof fn law_auth_counters(
    st: AppState,
    authorization: Option<Seq<u8>>,
    request_kind: Option<RequestKind>,
    router_id: Option<Seq<u8>>,
)
    requires
        !st.auth_disabled,
    ensures
        attempts_delta(st) == 1,
        rejections_delta(st, authorization, request_kind, router_id) == 1 <==> authorize_spec(
            st,
            authorization,
            request_kind,
            router_id,
        ) is Err,
        rejections_delta(st, authorization, request_kind, router_id) == 0 <==> authorize_spec(
            st,
            authorization,
            request_kind,
            router_id,
        ) is Ok,
{
}

pub open spec fn opt_router_view(o: Option<&Vec<u8>>) -> Option<Seq<u8>> {
    match o {
        Some(v) => Some(v@),
        None => None,
    }
}

fn key_index_lookup(keys: &Vec<ApiKeySnapshot>, h: u64) -> (r: Option<&ApiKeySnapshot>)
    ensures
        match r {
            Some(k) => key_lookup(keys_view(keys@), h) == Some(k@),
            None => key_lookup(keys_view(keys@), h) is None,
        },
{
    let ghost whole = keys_view(keys@);
    let mut i: usize = 0;
    assert(whole.subrange(0, whole.len() as int) =~= whole);
    while i < keys.len()
        invariant
            i <= keys.len(),
            whole == keys_view(keys@),
            key_lookup(whole, h) == key_lookup(whole.subrange(i as int, whole.len() as int), h),
        decreases keys.len() - i,
    {
        let ghost pre = whole.subrange(i as int, whole.len() as int);
        if keys[i].key_hash == h {
            return Some(&keys[i]);
        }
        assert(pre.subrange(1, pre.len() as int) =~= whole.subrange(
            i + 1 as int,
            whole.len() as int,
        ));
        i += 1;
    }
    None
}

fn router_org_index_lookup<'a>(routers: &'a Vec<RouterOrg>, id: &Vec<u8>) -> (r: Option<
    &'a Vec<u8>,
>)
    ensures
        match r {
            Some(org) => router_org_lookup(routers_view(routers@), id@) == Some(org@),
            None => router_org_lookup(routers_view(routers@), id@) is None,
        },
{
    let ghost whole = routers_view(routers@);
    let mut i: usize = 0;
    assert(whole.subrange(0, whole.len() as int) =~= whole);
    while i < routers.len()
        invariant
            i <= routers.len(),
            whole == routers_view(routers@),
            router_org_lookup(whole, id@) == router_org_lookup(
                whole.subrange(i as int, whole.len() as int),
                id@,
            ),
        decreases routers.len() - i,
    {
        let ghost pre = whole.subrange(i as int, whole.len() as int);
        if crate::bytes::bytes_eq(&routers[i].router_id, id) {
            return Some(&routers[i].organization_id);
        }
        assert(pre.subrange(1, pre.len() as int) =~= whole.subrange(
            i + 1 as int,
            whole.len() as int,
        ));
        i += 1;
    }
    None
}

fn bearer_prefix_vec() -> (r: Vec<u8>)
    ensures
        r@ == bearer_prefix(),
{
    let r = vec![
        ('B' as u8),
        ('e' as u8),
        ('a' as u8),
        ('r' as u8),
        ('e' as u8),
        ('r' as u8),
        (' ' as u8),
    ];
    assert(r@ =~= bearer_prefix());
    r
}

/// Strips a leading `Bearer ` scheme, if present.
pub fn strip_bearer_bytes(k: &Vec<u8>) -> (r: Vec<u8>)
    ensures
        r@ == strip_bearer(k@),
{
    let prefix = bearer_prefix_vec();
    if crate::bytes::starts_with(k, &prefix) {
        crate::bytes::subvec(k, prefix.len(), k.len())
    } else {
        crate::bytes::clone_bytes(k)
    }
}

impl AuthService {
    pub fn new(app_state: AppState) -> (s: Self)
        ensures
            s.app_state == app_state,
            s.metrics.auth_attempts == 0,
            s.metrics.auth_rejections == 0,
    {
        Self { app_state, metrics: Metrics { auth_attempts: 0, auth_rejections: 0 } }
    }

    /// Validates one credential against the snapshot. The checks and the
    /// errors they yield are exactly [`authenticate_spec`].
    #[verifier::rlimit(100)]
    pub fn authenticate_request_inner(
        app_state: &AppState,
        api_key: &Vec<u8>,
        request_kind: Option<RequestKind>,
        router_id: Option<&Vec<u8>>,
    ) -> (r: Result<AuthContext, AuthError>)
        ensures
            auth_result_view(r) == authenticate_spec(
                *app_state,
                api_key@,
                request_kind,
                opt_router_view(router_id),
            ),
    {
        let api_key_without_bearer = strip_bearer_bytes(api_key);
        let computed_hash = crate::hashing::hash_bytes(&api_key_without_bearer);

        match app_state.deployment_target {
            DeploymentTarget::Cloud => {
                let found = key_index_lookup(&app_state.key_index, computed_hash);
                match found {
                    None => Err(AuthError::InvalidCredentials),
                    Some(key) => match request_kind {
                        None => Err(AuthError::InvalidCredentials),
                        Some(RequestKind::Router) => match router_id {
                            None => Err(AuthError::RouterNotFound),
                            Some(rid) => {
                                match router_org_index_lookup(&app_state.router_orgs, rid) {
                                    None => Err(AuthError::RouterNotFound),
                                    Some(org) => {
                                        if crate::bytes::bytes_eq(&key.organization_id, org) {
                                            Ok(
                                                AuthContext {
                                                    api_key: Secret::from_bytes(
                                                        api_key_without_bearer,
                                                    ),
                                                    user_id: crate::bytes::clone_bytes(&key.owner_id),
                                                    org_id: crate::bytes::clone_bytes(&key.organization_id),
                                                },
                                            )
                                        } else {
                                            Err(AuthError::InvalidCredentials)
                                        }
                                    },
                                }
                            },
                        },
                        Some(RequestKind::UnifiedApi) | Some(RequestKind::DirectProxy) => Ok(
                            AuthContext {
                                api_key: Secret::from_bytes(api_key_without_bearer),
                                user_id: crate::bytes::clone_bytes(&key.owner_id),
                                org_id: crate::bytes::clone_bytes(&key.organization_id),
                            },
                        ),
                    },
                }
            },
            DeploymentTarget::Sidecar => {
                let found = key_index_lookup(&app_state.key_index, computed_hash);
                match found {
                    None => Err(AuthError::InvalidCredentials),
                    Some(key) => Ok(
                        AuthContext {
                            api_key: Secret::from_bytes(api_key_without_bearer),
                            user_id: crate::bytes::clone_bytes(&key.owner_id),
                            org_id: crate::bytes::clone_bytes(&app_state.sidecar_org_id),
                        },
                    ),
                }
            },
        }
    }

    /// Authorization, run once per request. When auth is globally disabled
    /// the request passes untouched; otherwise the `Authorization` header
    /// is required and authenticated, every attempt is counted, and every
    /// rejection of any kind is counted.
    pub fn authorize(
        &mut self,
        authorization: Option<&Vec<u8>>,
        request_kind: Option<RequestKind>,
        router_id: Option<&Vec<u8>>,
    ) -> (r: Result<Option<AuthContext>, AuthError>)
        ensures
            final(self).app_state == old(self).app_state,
            match (r, authorize_spec(
                old(self).app_state,
                opt_router_view(authorization),
                request_kind,
                opt_router_view(router_id),
            )) {
                (Ok(Some(c)), Ok(Some(m))) => c@ == m,
                (Ok(None), Ok(None)) => true,
                (Err(e), Err(f)) => e == f,
                _ => false,
            },
            final(self).metrics.auth_attempts as int == sat_u64(
                old(self).metrics.auth_attempts as int + attempts_delta(old(self).app_state),
            ),
            final(self).metrics.auth_rejections as int == sat_u64(
                old(self).metrics.auth_rejections as int + rejections_delta(
                    old(self).app_state,
                    opt_router_view(authorization),
                    request_kind,
                    opt_router_view(router_id),
                ),
            ),
    {
        if self.app_state.auth_disabled {
            return Ok(None);
        }
        self.metrics.auth_attempts = self.metrics.auth_attempts.saturating_add(1);
        let api_key = match authorization {
            Some(h) => h,
            None => {
                self.metrics.auth_rejections = self.metrics.auth_rejections.saturating_add(1);
                return Err(AuthError::MissingAuthorizationHeader);
            },
        };
        match Self::authenticate_request_inner(&self.app_state, api_key, request_kind, router_id) {
            Ok(auth_ctx) => Ok(Some(auth_ctx)),
            Err(e) => {
                self.metrics.auth_rejections = self.metrics.auth_rejections.saturating_add(1);
                Err(e)
            },
        }
    }
}

} // verus!
