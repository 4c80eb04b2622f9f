//! The route classifier: maps a URL path to the façade it addresses.
//! Classification is pure and stateless; a path that matches no façade is
//! answered 404 with no further processing.

use vstd::prelude::*;

use crate::types::Provider;

verus! {

/// Which façade a path addresses, together with the provider-relative rest
/// of the path.
pub enum RouteTarget {
    /// `/router/{id}/...`: the per-tenant router façade.
    Router { id: Vec<u8>, rest: Vec<u8> },
    /// `/ai/...`: the provider-agnostic unified API.
    UnifiedApi { rest: Vec<u8> },
    /// `/{provider}/...`: the pass-through direct proxy.
    DirectProxy { provider: Provider, rest: Vec<u8> },
    /// No façade matches.
    NotFound,
}

/// Mathematical image of a [`RouteTarget`].
pub ghost enum TargetModel {
    Router { id: Seq<u8>, rest: Seq<u8> },
    UnifiedApi { rest: Seq<u8> },
    DirectProxy { provider: Provider, rest: Seq<u8> },
    NotFound,
}

impl View for RouteTarget {
    type V = TargetModel;

    open spec fn view(&self) -> TargetModel {
        match self {
            RouteTarget::Router { id, rest } => TargetModel::Router { id: id@, rest: rest@ },
            RouteTarget::UnifiedApi { rest } => TargetModel::UnifiedApi { rest: rest@ },
            RouteTarget::DirectProxy { provider, rest } => TargetModel::DirectProxy {
                provider: *provider,
                rest: rest@,
            },
            RouteTarget::NotFound => TargetModel::NotFound,
        }
    }
}

pub const SLASH: u8 = 47;

/// The index of the first `/` at or after `from`, or the length of `s`.
pub open spec fn seg_end(s: Seq<u8>, from: int) -> int
    recommends
        0 <= from <= s.len(),
    decreases s.len() - from when 0 <= from <= s.len()
{
    if from >= s.len() {
        s.len() as int
    } else if s[from] == SLASH {
        from
    } else {
        seg_end(s, from + 1)
    }
}

pub open spec fn segment_router() -> Seq<u8> {
    seq![('r' as u8), ('o' as u8), ('u' as u8), ('t' as u8), ('e' as u8), ('r' as u8)]
}

pub open spec fn segment_ai() -> Seq<u8> {
    seq![('a' as u8), ('i' as u8)]
}

/// The path segment under which a provider is directly proxied.
pub open spec fn provider_segment(p: Provider) -> Seq<u8> {
    match p {
        Provider::OpenAi => seq![('o' as u8), ('p' as u8), ('e' as u8), ('n' as u8), ('a' as u8), ('i' as u8)],
        Provider::Anthropic => seq![
            ('a' as u8),
            ('n' as u8),
            ('t' as u8),
            ('h' as u8),
            ('r' as u8),
            ('o' as u8),
            ('p' as u8),
            ('i' as u8),
            ('c' as u8),
        ],
        Provider::Ollama => seq![('o' as u8), ('l' as u8), ('l' as u8), ('a' as u8), ('m' as u8), ('a' as u8)],
    }
}

/// What [`classify`] returns: the façade the path addresses.
pub open spec fn classify_spec(p: Seq<u8>) -> TargetModel {
    if p.len() == 0 || p[0] != SLASH {
        TargetModel::NotFound
    } else {
        let e1 = seg_end(p, 1);
        let seg1 = p.subrange(1, e1);
        if seg1 == segment_router() {
            if e1 >= p.len() {
                TargetModel::NotFound
            } else {
                let e2 = seg_end(p, e1 + 1);
                let id = p.subrange(e1 + 1, e2);
                if id.len() == 0 {
                    TargetModel::NotFound
                } else {
                    TargetModel::Router { id, rest: p.subrange(e2, p.len() as int) }
                }
            }
        } else if seg1 == segment_ai() {
            TargetModel::UnifiedApi { rest: p.subrange(e1, p.len() as int) }
        } else if seg1 == provider_segment(Provider::OpenAi) {
            TargetModel::DirectProxy {
                provider: Provider::OpenAi,
                rest: p.subrange(e1, p.len() as int),
            }
        } else if seg1 == provider_segment(Provider::Anthropic) {
            TargetModel::DirectProxy {
                provider: Provider::Anthropic,
                rest: p.subrange(e1, p.len() as int),
            }
        } else if seg1 == provider_segment(Provider::Ollama) {
            TargetModel::DirectProxy {
                provider: Provider::Ollama,
                rest: p.subrange(e1, p.len() as int),
            }
        } else {
            TargetModel::NotFound
        }
    }
}

/// The index of the first `/` in `s` at or after `from`, or `s.len()`.
fn find_seg_end(s: &Vec<u8>, from: usize) -> (e: usize)
    requires
        from <= s@.len(),
    ensures
        e == seg_end(s@, from as int),
        from <= e <= s@.len(),
{
    let mut i: usize = from;
    while i < s.len()
        invariant
            from <= i <= s@.len(),
            seg_end(s@, from as int) == seg_end(s@, i as int),
        decreases s.len() - i,
    {
        if s[i] == SLASH {
            return i;
        }
        assert(seg_end(s@, i as int) == seg_end(s@, i + 1 as int));
        i += 1;
    }
    i
}

/// Compares `s[from..to]` with `lit`.
fn seg_eq(s: &Vec<u8>, from: usize, to: usize, lit: &Vec<u8>) -> (r: bool)
    requires
        from <= to <= s@.len(),
    ensures
        r == (s@.subrange(from as int, to as int) == lit@),
{
    if to - from != lit.len() {
        assert(s@.subrange(from as int, to as int).len() != lit@.len());
        return false;
    }
    let mut i: usize = 0;
    while i < lit.len()
        invariant
            i <= lit.len(),
            from <= to <= s@.len(),
            to - from == lit@.len(),
            forall|j: int| 0 <= j < i ==> s@[from + j] == lit@[j],
        decreases lit.len() - i,
    {
        if s[from + i] != lit[i] {
            assert(s@.subrange(from as int, to as int)[i as int] != lit@[i as int]);
            return false;
        }
        i += 1;
    }
    assert(s@.subrange(from as int, to as int) =~= lit@);
    true
}

fn segment_router_vec() -> (r: Vec<u8>)
    ensures
        r@ == segment_router(),
{
    let r = vec![('r' as u8), ('o' as u8), ('u' as u8), ('t' as u8), ('e' as u8), ('r' as u8)];
    assert(r@ =~= segment_router());
    r
}

fn segment_ai_vec() -> (r: Vec<u8>)
    ensures
        r@ == segment_ai(),
{
    let r = vec![('a' as u8), ('i' as u8)];
    assert(r@ =~= segment_ai());
    r
}

/// The path segment a provider is proxied under, as bytes.
pub fn provider_segment_vec(p: Provider) -> (r: Vec<u8>)
    ensures
        r@ == provider_segment(p),
{
    match p {
        Provider::OpenAi => {
            let r = vec![('o' as u8), ('p' as u8), ('e' as u8), ('n' as u8), ('a' as u8), ('i' as u8)];
            assert(r@ =~= provider_segment(Provider::OpenAi));
            r
        },
        Provider::Anthropic => {
            let r = vec![('a' as u8), ('n' as u8), ('t' as u8), ('h' as u8), ('r' as u8), ('o' as u8), ('p' as u8), ('i' as u8), ('c' as u8)];
            assert(r@ =~= provider_segment(Provider::Anthropic));
            r
        },
        Provider::Ollama => {
            let r = vec![('o' as u8), ('l' as u8), ('l' as u8), ('a' as u8), ('m' as u8), ('a' as u8)];
            assert(r@ =~= provider_segment(Provider::Ollama));
            r
        },
    }
}

/// Classifies a path to the façade it addresses.
pub fn classify(path: &Vec<u8>) -> (t: RouteTarget)
    ensures
        t@ == classify_spec(path@),
{
    if path.len() == 0 {
        return RouteTarget::NotFound;
    }
    if path[0] != SLASH {
        return RouteTarget::NotFound;
    }
    let e1 = find_seg_end(path, 1);
    if seg_eq(path, 1, e1, &segment_router_vec()) {
        if e1 >= path.len() {
            return RouteTarget::NotFound;
        }
        let e2 = find_seg_end(path, e1 + 1);
        if e2 == e1 + 1 {
            assert(path@.subrange(e1 + 1 as int, e2 as int).len() == 0);
            return RouteTarget::NotFound;
        }
        let id = crate::bytes::subvec(path, e1 + 1, e2);
        let rest = crate::bytes::subvec(path, e2, path.len());
        return RouteTarget::Router { id, rest };
    }
    if seg_eq(path, 1, e1, &segment_ai_vec()) {
        let rest = crate::bytes::subvec(path, e1, path.len());
        return RouteTarget::UnifiedApi { rest };
    }
    if seg_eq(path, 1, e1, &provider_segment_vec(Provider::OpenAi)) {
        let rest = crate::bytes::subvec(path, e1, path.len());
        return RouteTarget::DirectProxy { provider: Provider::OpenAi, rest };
    }
    if seg_eq(path, 1, e1, &provider_segment_vec(Provider::Anthropic)) {
        let rest = crate::bytes::subvec(path, e1, path.len());
        return RouteTarget::DirectProxy { provider: Provider::Anthropic, rest };
    }
    if seg_eq(path, 1, e1, &provider_segment_vec(Provider::Ollama)) {
        let rest = crate::bytes::subvec(path, e1, path.len());
        return RouteTarget::DirectProxy { provider: Provider::Ollama, rest };
    }
    RouteTarget::NotFound
}

} // verus!
