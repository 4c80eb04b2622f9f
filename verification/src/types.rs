//! Plain data carried through the pipeline: façade kinds, providers,
//! credentials, requests, responses and the error taxonomy.

use vstd::prelude::*;

verus! {

/// An upstream inference provider the gateway can front.
#[derive(Clone, Copy, Debug, PartialEq, Eq, Structural, Hash)]
pub enum Provider {
    OpenAi,
    Anthropic,
    Ollama,
}

/// Which façade a request came in through; set by the route classifier
/// before authentication runs.
#[derive(Clone, Copy, Debug, PartialEq, Eq, Structural)]
pub enum RequestKind {
    Router,
    UnifiedApi,
    DirectProxy,
}

/// Where the gateway looks credentials up.
#[derive(Clone, Copy, Debug, PartialEq, Eq, Structural)]
pub enum DeploymentTarget {
    Cloud,
    Sidecar,
}

/// A byte string that must not leak into logs or error bodies; the pipeline
/// only ever moves it, never prints it.
#[derive(Clone)]
pub struct Secret {
    value: Vec<u8>,
}

impl View for Secret {
    type V = Seq<u8>;

    closed spec fn view(&self) -> Seq<u8> {
        self.value@
    }
}

impl Secret {
    pub fn from_bytes(value: Vec<u8>) -> (r: Secret)
        ensures
            r@ == value@,
    {
        Secret { value }
    }

    pub fn expose(&self) -> (r: &Vec<u8>)
        ensures
            r@ == self@,
    {
        &self.value
    }
}

/// The identity the auth gate binds to a request; immutable afterwards.
pub struct AuthContext {
    pub api_key: Secret,
    pub user_id: Vec<u8>,
    pub org_id: Vec<u8>,
}

/// Mathematical image of an [`AuthContext`].
pub ghost struct AuthContextModel {
    pub api_key: Seq<u8>,
    pub user_id: Seq<u8>,
    pub org_id: Seq<u8>,
}

impl View for AuthContext {
    type V = AuthContextModel;

    open spec fn view(&self) -> AuthContextModel {
        AuthContextModel { api_key: self.api_key@, user_id: self.user_id@, org_id: self.org_id@ }
    }
}

/// Why the auth gate turned a request away.
#[derive(Clone, Copy, Debug, PartialEq, Eq, Structural)]
pub enum AuthError {
    MissingAuthorizationHeader,
    InvalidCredentials,
    RouterNotFound,
    ProviderKeyNotFound,
}

impl AuthError {
    /// The HTTP status each rejection maps to.
    pub open spec fn status_spec(self) -> u16 {
        match self {
            AuthError::MissingAuthorizationHeader => 401,
            AuthError::InvalidCredentials => 401,
            AuthError::RouterNotFound => 404,
            AuthError::ProviderKeyNotFound => 401,
        }
    }

    pub fn status_code(&self) -> (c: u16)
        ensures
            c == self.status_spec(),
    {
        match self {
            AuthError::MissingAuthorizationHeader => 401,
            AuthError::InvalidCredentials => 401,
            AuthError::RouterNotFound => 404,
            AuthError::ProviderKeyNotFound => 401,
        }
    }
}

/// Everything the pipeline can answer a request with short of an upstream
/// response.
#[derive(Clone, Copy, Debug, PartialEq, Eq, Structural)]
pub enum ApiError {
    Auth(AuthError),
    /// The path matched no façade.
    RouteNotFound,
    /// Every provider in the pool is ejected; retriable.
    NoHealthyProvider,
    /// The in-gateway retry budget ran out on throttled providers.
    AllProvidersRejected,
    /// Network failure or timeout talking to the upstream.
    UpstreamTransport,
    Internal,
}

impl ApiError {
    pub open spec fn status_spec(self) -> u16 {
        match self {
            ApiError::Auth(e) => e.status_spec(),
            ApiError::RouteNotFound => 404,
            ApiError::NoHealthyProvider => 503,
            ApiError::AllProvidersRejected => 502,
            ApiError::UpstreamTransport => 502,
            ApiError::Internal => 500,
        }
    }

    pub fn status_code(&self) -> (c: u16)
        ensures
            c == self.status_spec(),
    {
        match self {
            ApiError::Auth(e) => e.status_code(),
            ApiError::RouteNotFound => 404,
            ApiError::NoHealthyProvider => 503,
            ApiError::AllProvidersRejected => 502,
            ApiError::UpstreamTransport => 502,
            ApiError::Internal => 500,
        }
    }
}

/// A client request, already read off the wire: only the parts the core
/// consults.
#[derive(Clone)]
pub struct GatewayRequest {
    pub method: Vec<u8>,
    /// URL path, beginning with `/`.
    pub path: Vec<u8>,
    /// The `Authorization` header, if the client sent one.
    pub authorization: Option<Vec<u8>>,
    /// The `Cache-Control` header, if the client sent one.
    pub cache_control: Option<Vec<u8>>,
    pub body: Vec<u8>,
}

/// Mathematical image of a [`GatewayRequest`].
pub ghost struct RequestModel {
    pub method: Seq<u8>,
    pub path: Seq<u8>,
    pub authorization: Option<Seq<u8>>,
    pub cache_control: Option<Seq<u8>>,
    pub body: Seq<u8>,
}

pub open spec fn opt_bytes_view(o: Option<Vec<u8>>) -> Option<Seq<u8>> {
    match o {
        Some(v) => Some(v@),
        None => None,
    }
}

impl View for GatewayRequest {
    type V = RequestModel;

    open spec fn view(&self) -> RequestModel {
        RequestModel {
            method: self.method@,
            path: self.path@,
            authorization: opt_bytes_view(self.authorization),
            cache_control: opt_bytes_view(self.cache_control),
            body: self.body@,
        }
    }
}

/// One response header.
#[derive(Clone, Debug)]
pub struct Header {
    pub name: Vec<u8>,
    pub value: Vec<u8>,
}

/// Mathematical image of a [`Header`].
pub ghost struct HeaderModel {
    pub name: Seq<u8>,
    pub value: Seq<u8>,
}

impl View for Header {
    type V = HeaderModel;

    open spec fn view(&self) -> HeaderModel {
        HeaderModel { name: self.name@, value: self.value@ }
    }
}

/// A response as the pipeline hands it back: status, headers in order, body.
#[derive(Clone, Debug)]
pub struct GatewayResponse {
    pub status: u16,
    pub headers: Vec<Header>,
    pub body: Vec<u8>,
}

/// Mathematical image of a [`GatewayResponse`].
pub ghost struct ResponseModel {
    pub status: u16,
    pub headers: Seq<HeaderModel>,
    pub body: Seq<u8>,
}

pub open spec fn headers_view(hs: Seq<Header>) -> Seq<HeaderModel> {
    Seq::new(hs.len(), |i: int| hs[i]@)
}

impl View for GatewayResponse {
    type V = ResponseModel;

    open spec fn view(&self) -> ResponseModel {
        ResponseModel {
            status: self.status,
            headers: headers_view(self.headers@),
            body: self.body@,
        }
    }
}

/// A copy of a header list with the same names and values.
pub fn clone_headers(h: &Vec<Header>) -> (r: Vec<Header>)
    ensures
        headers_view(r@) == headers_view(h@),
{
    let mut r: Vec<Header> = Vec::new();
    let mut i: usize = 0;
    while i < h.len()
        invariant
            i <= h.len(),
            r@.len() == i,
            headers_view(r@) == headers_view(h@).subrange(0, i as int),
        decreases h.len() - i,
    {
        let name = crate::bytes::clone_bytes(&h[i].name);
        let value = crate::bytes::clone_bytes(&h[i].value);
        r.push(Header { name, value });
        assert(headers_view(r@) =~= headers_view(h@).subrange(0, i + 1 as int));
        i += 1;
    }
    assert(headers_view(h@).subrange(0, h@.len() as int) =~= headers_view(h@));
    r
}

/// The value of the first header named `name`, if any.
pub open spec fn header_lookup(hs: Seq<HeaderModel>, name: Seq<u8>) -> Option<Seq<u8>>
    decreases hs.len(),
{
    if hs.len() == 0 {
        None
    } else if hs[0].name == name {
        Some(hs[0].value)
    } else {
        header_lookup(hs.subrange(1, hs.len() as int), name)
    }
}

impl ResponseModel {
    /// A success in the HTTP sense; only these are cached.
    pub open spec fn is_success(self) -> bool {
        200 <= self.status < 300
    }
}

/// Looking a name up after appending a header: an earlier header still
/// wins; the appended one is found only where the name was absent.
pub proof fn lemma_header_lookup_push(hs: Seq<HeaderModel>, h: HeaderModel, name: Seq<u8>)
    ensures
        header_lookup(hs.push(h), name) == match header_lookup(hs, name) {
            Some(v) => Some(v),
            None => if h.name == name {
                Some(h.value)
            } else {
                None
            },
        },
    decreases hs.len(),
{
    let whole = hs.push(h);
    if hs.len() == 0 {
        assert(whole[0] == h);
        assert(whole.subrange(1, whole.len() as int) =~= Seq::<HeaderModel>::empty());
        assert(header_lookup(whole.subrange(1, whole.len() as int), name) is None);
    } else {
        let tail = hs.subrange(1, hs.len() as int);
        assert(whole[0] == hs[0]);
        assert(whole.subrange(1, whole.len() as int) =~= tail.push(h));
        lemma_header_lookup_push(tail, h, name);
        if hs[0].name == name {
            assert(header_lookup(whole, name) == Some(hs[0].value));
            assert(header_lookup(hs, name) == Some(hs[0].value));
        } else {
            assert(header_lookup(whole, name) == header_lookup(tail.push(h), name));
            assert(header_lookup(hs, name) == header_lookup(tail, name));
        }
    }
}

impl GatewayResponse {
    /// The value of the first header named `name`, copied out.
    pub fn get_header(&self, name: &Vec<u8>) -> (r: Option<Vec<u8>>)
        ensures
            opt_bytes_view(r) == header_lookup(self@.headers, name@),
    {
        let mut i: usize = 0;
        assert(self@.headers.subrange(0, self@.headers.len() as int) =~= self@.headers);
        while i < self.headers.len()
            invariant
                i <= self.headers.len(),
                header_lookup(self@.headers, name@) == header_lookup(
                    self@.headers.subrange(i as int, self@.headers.len() as int),
                    name@,
                ),
            decreases self.headers.len() - i,
        {
            let ghost pre = self@.headers.subrange(i as int, self@.headers.len() as int);
            if crate::bytes::bytes_eq(&self.headers[i].name, name) {
                return Some(crate::bytes::clone_bytes(&self.headers[i].value));
            }
            assert(pre.subrange(1, pre.len() as int) =~= self@.headers.subrange(
                i + 1 as int,
                self@.headers.len() as int,
            ));
            i += 1;
        }
        assert(self@.headers.subrange(i as int, self@.headers.len() as int).len() == 0);
        None
    }

    /// Appends a header.
    pub fn push_header(&mut self, name: Vec<u8>, value: Vec<u8>)
        ensures
            final(self)@.headers == old(self)@.headers.push(HeaderModel { name: name@, value: value@ }),
            final(self)@.status == old(self)@.status,
            final(self)@.body == old(self)@.body,
    {
        self.headers.push(Header { name, value });
        assert(self@.headers =~= old(self)@.headers.push(
            HeaderModel { name: self.headers@[self.headers@.len() - 1].name@, value: self.headers@[self.headers@.len() - 1].value@ },
        ));
    }
}

} // verus!
