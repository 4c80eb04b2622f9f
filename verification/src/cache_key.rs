//! Cache keys: a fingerprint is the scope discriminator (with the optional
//! per-router seed) followed by the canonicalized request bytes. The
//! encoding is length-prefixed, so distinct scopes can never produce the
//! same fingerprint, whatever the request looks like.

use vstd::prelude::*;

use crate::classify::provider_segment;
use crate::types::{Provider, RequestModel};

verus! {

/// The scope a cache entry is keyed under; per-router entries carry the
/// router's optional seed so routers never share entries.
pub enum CacheScope {
    Router { id: Vec<u8>, seed: Option<Vec<u8>> },
    UnifiedApi,
    DirectProxy { provider: Provider },
}

/// Mathematical image of a [`CacheScope`].
pub ghost enum ScopeModel {
    Router { id: Seq<u8>, seed: Option<Seq<u8>> },
    UnifiedApi,
    DirectProxy { provider: Provider },
}

impl View for CacheScope {
    type V = ScopeModel;

    open spec fn view(&self) -> ScopeModel {
        match self {
            CacheScope::Router { id, seed } => ScopeModel::Router {
                id: id@,
                seed: crate::types::opt_bytes_view(*seed),
            },
            CacheScope::UnifiedApi => ScopeModel::UnifiedApi,
            CacheScope::DirectProxy { provider } => ScopeModel::DirectProxy {
                provider: *provider,
            },
        }
    }
}

/// A length as eight big-endian bytes.
pub open spec fn enc64(n: u64) -> Seq<u8> {
    seq![
        ((n >> 56) & 0xff) as u8,
        ((n >> 48) & 0xff) as u8,
        ((n >> 40) & 0xff) as u8,
        ((n >> 32) & 0xff) as u8,
        ((n >> 24) & 0xff) as u8,
        ((n >> 16) & 0xff) as u8,
        ((n >> 8) & 0xff) as u8,
        (n & 0xff) as u8,
    ]
}

/// A byte string, length-prefixed so that concatenations parse back
/// unambiguously.
pub open spec fn enc_bytes(s: Seq<u8>) -> Seq<u8>
    recommends
        s.len() <= u64::MAX,
{
    enc64(s.len() as u64) + s
}

/// The seed part of a router scope.
pub open spec fn seed_bytes(seed: Option<Seq<u8>>) -> Seq<u8> {
    match seed {
        None => seq![0u8],
        Some(s) => seq![1u8] + enc_bytes(s),
    }
}

/// The scope discriminator that prefixes every fingerprint.
pub open spec fn scope_bytes(scope: ScopeModel) -> Seq<u8> {
    match scope {
        ScopeModel::Router { id, seed } => seq![1u8] + enc_bytes(id) + seed_bytes(seed),
        ScopeModel::UnifiedApi => seq![2u8],
        ScopeModel::DirectProxy { provider } => seq![3u8] + enc_bytes(provider_segment(provider)),
    }
}

/// The canonicalized request: method, URL path and body, each
/// length-prefixed. The header whitelist that may additionally salt the
/// key is empty here: no request header besides those three parts takes
/// part in the fingerprint.
pub open spec fn canonical_bytes(req: RequestModel) -> Seq<u8> {
    enc_bytes(req.method) + enc_bytes(req.path) + enc_bytes(req.body)
}

/// The cache key: scope discriminator, then canonical request bytes.
pub open spec fn fingerprint_spec(scope: ScopeModel, req: RequestModel) -> Seq<u8> {
    scope_bytes(scope) + canonical_bytes(req)
}

/// Which bucket a fingerprint falls in, for a cache with `n` buckets.
pub open spec fn bucket_of(key: Seq<u8>, n: int) -> int
    recommends
        n >= 1,
{
    crate::hashing::fnv1a(key) as int % n
}

proof fn lemma_enc64_injective(x: u64, y: u64)
    requires
        enc64(x) == enc64(y),
    ensures
        x == y,
{
    assert(forall|v: u64| #[trigger] (v & 0xff) < 256) by (bit_vector);
    assert(enc64(x)[0] == enc64(y)[0]);
    assert(enc64(x)[1] == enc64(y)[1]);
    assert(enc64(x)[2] == enc64(y)[2]);
    assert(enc64(x)[3] == enc64(y)[3]);
    assert(enc64(x)[4] == enc64(y)[4]);
    assert(enc64(x)[5] == enc64(y)[5]);
    assert(enc64(x)[6] == enc64(y)[6]);
    assert(enc64(x)[7] == enc64(y)[7]);
    assert((x >> 56) & 0xff == (y >> 56) & 0xff);
    assert((x >> 48) & 0xff == (y >> 48) & 0xff);
    assert((x >> 40) & 0xff == (y >> 40) & 0xff);
    assert((x >> 32) & 0xff == (y >> 32) & 0xff);
    assert((x >> 24) & 0xff == (y >> 24) & 0xff);
    assert((x >> 16) & 0xff == (y >> 16) & 0xff);
    assert((x >> 8) & 0xff == (y >> 8) & 0xff);
    assert(x & 0xff == y & 0xff);
    assert((x >> 56) & 0xff == (y >> 56) & 0xff && (x >> 48) & 0xff == (y >> 48) & 0xff && (x >> 40)
        & 0xff == (y >> 40) & 0xff && (x >> 32) & 0xff == (y >> 32) & 0xff && (x >> 24) & 0xff == (y
        >> 24) & 0xff && (x >> 16) & 0xff == (y >> 16) & 0xff && (x >> 8) & 0xff == (y >> 8) & 0xff
        && x & 0xff == y & 0xff ==> x == y) by (bit_vector);
}

/// A length-prefixed byte string determines its contents.
proof fn lemma_enc_bytes_injective(a: Seq<u8>, b: Seq<u8>)
    requires
        a.len() <= u64::MAX,
        b.len() <= u64::MAX,
        enc_bytes(a) == enc_bytes(b),
    ensures
        a == b,
{
    assert(enc64(a.len() as u64) =~= enc_bytes(a).subrange(0, 8));
    assert(enc64(b.len() as u64) =~= enc_bytes(b).subrange(0, 8));
    lemma_enc64_injective(a.len() as u64, b.len() as u64);
    assert(a =~= enc_bytes(a).subrange(8, enc_bytes(a).len() as int));
    assert(b =~= enc_bytes(b).subrange(8, enc_bytes(b).len() as int));
}

/// The seed encoding determines the seed.
proof fn lemma_seed_bytes_injective(a: Option<Seq<u8>>, b: Option<Seq<u8>>)
    requires
        (a matches Some(s) ==> s.len() <= u64::MAX),
        (b matches Some(s) ==> s.len() <= u64::MAX),
        seed_bytes(a) == seed_bytes(b),
    ensures
        a == b,
{
    match (a, b) {
        (None, None) => {},
        (Some(x), Some(y)) => {
            assert(enc_bytes(x) =~= seed_bytes(a).subrange(1, seed_bytes(a).len() as int));
            assert(enc_bytes(y) =~= seed_bytes(b).subrange(1, seed_bytes(b).len() as int));
            lemma_enc_bytes_injective(x, y);
        },
        (None, Some(y)) => {
            assert(seed_bytes(a)[0] == 0u8);
            assert(seed_bytes(b)[0] == 1u8);
        },
        (Some(x), None) => {
            assert(seed_bytes(a)[0] == 1u8);
            assert(seed_bytes(b)[0] == 0u8);
        },
    }
}

/// Two concatenations with equally long heads are equal only piecewise.
proof fn lemma_unappend(x1: Seq<u8>, y1: Seq<u8>, x2: Seq<u8>, y2: Seq<u8>)
    requires
        x1.len() == x2.len(),
        x1 + y1 == x2 + y2,
    ensures
        x1 == x2,
        y1 == y2,
{
    assert(x1 =~= (x1 + y1).subrange(0, x1.len() as int));
    assert(x2 =~= (x2 + y2).subrange(0, x2.len() as int));
    assert(y1 =~= (x1 + y1).subrange(x1.len() as int, (x1 + y1).len() as int));
    assert(y2 =~= (x2 + y2).subrange(x2.len() as int, (x2 + y2).len() as int));
}

/// True of every scope a gateway can build: its byte strings fit in the
/// length prefix.
pub open spec fn scope_sized(s: ScopeModel) -> bool {
    match s {
        ScopeModel::Router { id, seed } => id.len() <= u64::MAX && (seed matches Some(x)
            ==> x.len() <= u64::MAX),
        _ => true,
    }
}

/// The scope discriminator determines the scope: two scopes that differ —
/// other routers, other seeds, other façades — never share a prefix.
pub proof fn lemma_scope_bytes_injective(a: ScopeModel, b: ScopeModel)
    requires
        scope_sized(a),
        scope_sized(b),
        scope_bytes(a) == scope_bytes(b),
    ensures
        a == b,
{
    match (a, b) {
        (ScopeModel::Router { id: ia, seed: sa }, ScopeModel::Router { id: ib, seed: sb }) => {
            let ta = seq![1u8] + enc64(ia.len() as u64);
            let tb = seq![1u8] + enc64(ib.len() as u64);
            assert(scope_bytes(a) =~= ta + (ia + seed_bytes(sa)));
            assert(scope_bytes(b) =~= tb + (ib + seed_bytes(sb)));
            lemma_unappend(ta, ia + seed_bytes(sa), tb, ib + seed_bytes(sb));
            assert(enc64(ia.len() as u64) =~= ta.subrange(1, 9));
            assert(enc64(ib.len() as u64) =~= tb.subrange(1, 9));
            lemma_enc64_injective(ia.len() as u64, ib.len() as u64);
            assert(ia.len() == ib.len());
            lemma_unappend(ia, seed_bytes(sa), ib, seed_bytes(sb));
            lemma_seed_bytes_injective(sa, sb);
            assert(a == b);
        },
        (ScopeModel::DirectProxy { provider: pa }, ScopeModel::DirectProxy { provider: pb }) => {
            assert(enc_bytes(provider_segment(pa)) =~= scope_bytes(a).subrange(
                1,
                scope_bytes(a).len() as int,
            ));
            assert(enc_bytes(provider_segment(pb)) =~= scope_bytes(b).subrange(
                1,
                scope_bytes(b).len() as int,
            ));
            lemma_enc_bytes_injective(provider_segment(pa), provider_segment(pb));
            assert(provider_segment(pa) == provider_segment(pb));
            match (pa, pb) {
                (Provider::OpenAi, Provider::Anthropic) => {
                    assert(provider_segment(pa).len() != provider_segment(pb).len());
                },
                (Provider::Anthropic, Provider::OpenAi) => {
                    assert(provider_segment(pa).len() != provider_segment(pb).len());
                },
                (Provider::OpenAi, Provider::Ollama) => {
                    assert(provider_segment(pa)[1] != provider_segment(pb)[1]);
                },
                (Provider::Ollama, Provider::OpenAi) => {
                    assert(provider_segment(pa)[1] != provider_segment(pb)[1]);
                },
                (Provider::Anthropic, Provider::Ollama) => {
                    assert(provider_segment(pa).len() != provider_segment(pb).len());
                },
                (Provider::Ollama, Provider::Anthropic) => {
                    assert(provider_segment(pa).len() != provider_segment(pb).len());
                },
                _ => {},
            }
        },
        (ScopeModel::UnifiedApi, ScopeModel::UnifiedApi) => {},
        _ => {
            assert(scope_bytes(a)[0] == scope_bytes(b)[0]);
            match a {
                ScopeModel::Router { .. } => assert(scope_bytes(a)[0] == 1u8),
                ScopeModel::UnifiedApi => assert(scope_bytes(a)[0] == 2u8),
                ScopeModel::DirectProxy { .. } => assert(scope_bytes(a)[0] == 3u8),
            }
            match b {
                ScopeModel::Router { .. } => assert(scope_bytes(b)[0] == 1u8),
                ScopeModel::UnifiedApi => assert(scope_bytes(b)[0] == 2u8),
                ScopeModel::DirectProxy { .. } => assert(scope_bytes(b)[0] == 3u8),
            }
            assert(a == b);
        },
    }
}

/// Appending the same suffix keeps distinct sequences distinct.
proof fn lemma_append_keeps_distinct(a: Seq<u8>, b: Seq<u8>, c: Seq<u8>)
    requires
        a != b,
    ensures
        a + c != b + c,
{
    if a.len() != b.len() {
        assert((a + c).len() != (b + c).len());
    } else {
        assert(!(a =~= b));
        let i = choose|i: int| 0 <= i < a.len() && a[i] != b[i];
        assert((a + c)[i] != (b + c)[i]);
    }
}

/// Requests with identical canonical bytes but different scopes have
/// different fingerprints: cache entries never leak across scopes.
pub proof fn law_fingerprint_scope_isolation(a: ScopeModel, b: ScopeModel, req: RequestModel)
    requires
        scope_sized(a),
        scope_sized(b),
        a != b,
    ensures
        fingerprint_spec(a, req) != fingerprint_spec(b, req),
{
    if scope_bytes(a) == scope_bytes(b) {
        lemma_scope_bytes_injective(a, b);
    }
    lemma_append_keeps_distinct(scope_bytes(a), scope_bytes(b), canonical_bytes(req));
}

/// In particular, two routers with different ids (or different seeds) never
/// collide, whatever the request bytes are.
pub proof fn law_fingerprint_router_isolation(
    id_a: Seq<u8>,
    seed_a: Option<Seq<u8>>,
    id_b: Seq<u8>,
    seed_b: Option<Seq<u8>>,
    req: RequestModel,
)
    requires
        id_a.len() <= u64::MAX,
        id_b.len() <= u64::MAX,
        (seed_a matches Some(s) ==> s.len() <= u64::MAX),
        (seed_b matches Some(s) ==> s.len() <= u64::MAX),
        id_a != id_b || seed_a != seed_b,
    ensures
        fingerprint_spec(ScopeModel::Router { id: id_a, seed: seed_a }, req)
            != fingerprint_spec(ScopeModel::Router { id: id_b, seed: seed_b }, req),
{
    law_fingerprint_scope_isolation(
        ScopeModel::Router { id: id_a, seed: seed_a },
        ScopeModel::Router { id: id_b, seed: seed_b },
        req,
    );
}

/// `n` as eight big-endian bytes.
fn enc64_vec(n: u64) -> (r: Vec<u8>)
    ensures
        r@ == enc64(n),
{
    let mut r: Vec<u8> = Vec::new();
    r.push(((n >> 56) & 0xff) as u8);
    r.push(((n >> 48) & 0xff) as u8);
    r.push(((n >> 40) & 0xff) as u8);
    r.push(((n >> 32) & 0xff) as u8);
    r.push(((n >> 24) & 0xff) as u8);
    r.push(((n >> 16) & 0xff) as u8);
    r.push(((n >> 8) & 0xff) as u8);
    r.push((n & 0xff) as u8);
    assert(r@ =~= enc64(n));
    r
}

/// Appends the length-prefixed bytes of `s` to `out`.
fn push_enc_bytes(out: &mut Vec<u8>, s: &Vec<u8>)
    ensures
        final(out)@ == old(out)@ + enc_bytes(s@),
{
    let len_bytes = enc64_vec(s.len() as u64);
    crate::bytes::extend_bytes(out, &len_bytes);
    crate::bytes::extend_bytes(out, s);
    assert(old(out)@ + enc64(s@.len() as u64) + s@ =~= old(out)@ + enc_bytes(s@));
}

/// Computes the fingerprint of a request under a scope.
pub fn fingerprint(scope: &CacheScope, req: &crate::types::GatewayRequest) -> (r: Vec<u8>)
    ensures
        r@ == fingerprint_spec(scope@, req@),
{
    let mut out: Vec<u8> = Vec::new();
    match scope {
        CacheScope::Router { id, seed } => {
            out.push(1u8);
            assert(out@ =~= seq![1u8]);
            push_enc_bytes(&mut out, id);
            match seed {
                None => {
                    out.push(0u8);
                    assert(out@ =~= seq![1u8] + enc_bytes(id@) + seed_bytes(None));
                },
                Some(s) => {
                    out.push(1u8);
                    push_enc_bytes(&mut out, s);
                    assert(out@ =~= seq![1u8] + enc_bytes(id@) + seed_bytes(Some(s@)));
                },
            }
            assert(out@ == scope_bytes(scope@));
        },
        CacheScope::UnifiedApi => {
            out.push(2u8);
            assert(out@ =~= scope_bytes(scope@));
        },
        CacheScope::DirectProxy { provider } => {
            out.push(3u8);
            let seg = crate::classify::provider_segment_vec(*provider);
            push_enc_bytes(&mut out, &seg);
            assert(out@ =~= scope_bytes(scope@));
        },
    }
    let ghost sb = out@;
    push_enc_bytes(&mut out, &req.method);
    push_enc_bytes(&mut out, &req.path);
    push_enc_bytes(&mut out, &req.body);
    assert(out@ =~= sb + canonical_bytes(req@));
    out
}

} // verus!
