//! The load balancer's provider pool: weight-proportional selection over the
//! healthy providers only, in insertion order, with the all-ejected case
//! answered by a retriable error and no upstream call.

use vstd::prelude::*;

use crate::types::{ApiError, Provider};

verus! {

/// Whether a provider may be selected, or until when it is ejected.
#[derive(Clone, Copy, Debug, PartialEq, Eq, Structural)]
pub enum ProviderState {
    Healthy,
    Ejected { until: u64 },
}

/// One provider in a pool, with its selection weight.
#[derive(Clone, Copy, Debug, PartialEq, Eq, Structural)]
pub struct PoolEntry {
    pub provider: Provider,
    pub weight: u32,
    pub state: ProviderState,
}

/// The pool for one (router, endpoint type): an ordered set of weighted
/// providers. Only the rate-limit monitor writes the states.
pub struct ProviderPool {
    pub entries: Vec<PoolEntry>,
}

/// A pool the balancer can select from: nonempty, positive weights, one
/// entry per provider, and few enough entries that weight sums fit in 64
/// bits.
pub open spec fn pool_wf_seq(s: Seq<PoolEntry>) -> bool {
    &&& s.len() >= 1
    &&& s.len() <= 0x1_0000_0000
    &&& forall|i: int| 0 <= i < s.len() ==> s[i].weight >= 1
    &&& forall|i: int, j: int| 0 <= i < j < s.len() ==> s[i].provider != s[j].provider
}

/// The combined weight of the healthy entries.
pub open spec fn healthy_total(s: Seq<PoolEntry>) -> int
    decreases s.len(),
{
    if s.len() == 0 {
        0
    } else {
        (if s[0].state is Healthy {
            s[0].weight as int
        } else {
            0
        }) + healthy_total(s.subrange(1, s.len() as int))
    }
}

/// The provider a draw of `x` lands on: entries are walked in insertion
/// order, each healthy one covering a band as wide as its weight.
pub open spec fn pick_healthy(s: Seq<PoolEntry>, x: int) -> Provider
    recommends
        0 <= x < healthy_total(s),
    decreases s.len(),
{
    if s.len() == 0 {
        Provider::OpenAi
    } else if s[0].state is Healthy && x < s[0].weight {
        s[0].provider
    } else {
        pick_healthy(
            s.subrange(1, s.len() as int),
            x - (if s[0].state is Healthy {
                s[0].weight as int
            } else {
                0
            }),
        )
    }
}

/// What selection returns on a pool: the draw lands on a healthy provider,
/// or every provider is ejected and the balancer fails fast.
pub open spec fn select_spec(s: Seq<PoolEntry>, draw: u64) -> Result<Provider, ApiError> {
    if healthy_total(s) == 0 {
        Err(ApiError::NoHealthyProvider)
    } else {
        Ok(pick_healthy(s, draw as int % healthy_total(s)))
    }
}

/// The healthy weight never exceeds the entry count times the largest
/// weight.
proof fn lemma_healthy_total_bound(s: Seq<PoolEntry>)
    ensures
        0 <= healthy_total(s) <= s.len() * 0xffff_ffff,
    decreases s.len(),
{
    if s.len() > 0 {
        lemma_healthy_total_bound(s.subrange(1, s.len() as int));
    }
}

/// The picked provider belongs to a healthy entry of the pool.
pub proof fn lemma_pick_healthy_is_healthy(s: Seq<PoolEntry>, x: int)
    requires
        0 <= x < healthy_total(s),
    ensures
        exists|i: int|
            0 <= i < s.len() && s[i].provider == pick_healthy(s, x) && s[i].state is Healthy,
    decreases s.len(),
{
    if s.len() == 0 {
    } else if s[0].state is Healthy && x < s[0].weight {
        assert(s[0].provider == pick_healthy(s, x) && s[0].state is Healthy);
    } else {
        let rest = s.subrange(1, s.len() as int);
        let x2 = x - (if s[0].state is Healthy {
            s[0].weight as int
        } else {
            0
        });
        lemma_pick_healthy_is_healthy(rest, x2);
        let i = choose|i: int|
            0 <= i < rest.len() && rest[i].provider == pick_healthy(rest, x2)
                && rest[i].state is Healthy;
        assert(s[i + 1].provider == pick_healthy(s, x) && s[i + 1].state is Healthy);
    }
}

/// A provider that sits ejected in the pool is never the one selection
/// lands on, whatever the draw: selection filters to healthy entries first.
pub proof fn law_ejected_never_selected(s: Seq<PoolEntry>, x: int, i: int, now: u64)
    requires
        pool_wf_seq(s),
        0 <= i < s.len(),
        s[i].state matches ProviderState::Ejected { until } && now < until,
        0 <= x < healthy_total(s),
    ensures
        pick_healthy(s, x) != s[i].provider,
{
    lemma_pick_healthy_is_healthy(s, x);
    let j = choose|j: int|
        0 <= j < s.len() && s[j].provider == pick_healthy(s, x) && s[j].state is Healthy;
    assert(j != i);
}

/// An entry as retry re-selection sees it when `p` is set aside: `p`'s own
/// entry counts as unavailable, every other entry is unchanged.
pub open spec fn mask_entry(e: PoolEntry, p: Provider) -> PoolEntry {
    if e.provider == p {
        PoolEntry { state: ProviderState::Ejected { until: 0 }, ..e }
    } else {
        e
    }
}

/// The pool with `p` set aside.
pub open spec fn mask_pool(s: Seq<PoolEntry>, p: Provider) -> Seq<PoolEntry> {
    Seq::new(s.len(), |i: int| mask_entry(s[i], p))
}

/// Selection over the remaining healthy providers, with `p` set aside: what
/// the balancer retries on after `p` throttled.
pub open spec fn select_excluding_spec(s: Seq<PoolEntry>, draw: u64, p: Provider) -> Result<
    Provider,
    ApiError,
> {
    select_spec(mask_pool(s, p), draw)
}

/// Selection with a provider set aside never returns that provider,
/// whatever the draw.
pub proof fn law_excluded_never_picked(s: Seq<PoolEntry>, draw: u64, p: Provider)
    requires
        select_excluding_spec(s, draw, p) matches Ok(_),
    ensures
        select_excluding_spec(s, draw, p) matches Ok(q) ==> q != p,
{
    let m = mask_pool(s, p);
    if healthy_total(m) != 0 {
        let x = draw as int % healthy_total(m);
        lemma_healthy_total_bound(m);
        lemma_pick_healthy_is_healthy(m, x);
        let i = choose|i: int|
            0 <= i < m.len() && m[i].provider == pick_healthy(m, x) && m[i].state is Healthy;
        assert(m[i] == mask_entry(s[i], p));
    }
}

impl ProviderPool {
    pub open spec fn wf(&self) -> bool {
        pool_wf_seq(self.entries@)
    }

    /// Weight-proportional selection with one provider set aside: the
    /// throttled provider is no longer a remaining provider for the retry
    /// that follows its own 429.
    pub fn select_excluding(&self, draw: u64, excluded: Provider) -> (r: Result<
        Provider,
        ApiError,
    >)
        requires
            self.wf(),
        ensures
            r == select_excluding_spec(self.entries@, draw, excluded),
    {
        let ghost whole = self.entries@;
        let mut entries: Vec<PoolEntry> = Vec::new();
        let mut i: usize = 0;
        while i < self.entries.len()
            invariant
                i <= self.entries@.len(),
                whole == self.entries@,
                entries@.len() == i,
                forall|k: int| 0 <= k < i ==> entries@[k] == mask_entry(whole[k], excluded),
            decreases self.entries.len() - i,
        {
            let e = self.entries[i];
            if crate::monitor::provider_eq(e.provider, excluded) {
                entries.push(
                    PoolEntry {
                        provider: e.provider,
                        weight: e.weight,
                        state: ProviderState::Ejected { until: 0 },
                    },
                );
            } else {
                entries.push(e);
            }
            i += 1;
        }
        let masked = ProviderPool { entries };
        assert(masked.entries@ =~= mask_pool(whole, excluded));
        assert(masked.wf()) by {
            assert(forall|k: int|
                0 <= k < whole.len() ==> (#[trigger] mask_pool(whole, excluded)[k]).provider
                    == whole[k].provider && mask_pool(whole, excluded)[k].weight
                    == whole[k].weight);
        }
        masked.select(draw)
    }

    /// The combined weight of the healthy entries, computed.
    pub fn healthy_weight(&self) -> (t: u64)
        requires
            self.wf(),
        ensures
            t == healthy_total(self.entries@),
    {
        let ghost whole = self.entries@;
        proof {
            lemma_healthy_total_bound(whole);
        }
        let mut acc: u64 = 0;
        let mut i: usize = 0;
        assert(whole.subrange(0, whole.len() as int) =~= whole);
        while i < self.entries.len()
            invariant
                i <= self.entries.len(),
                whole == self.entries@,
                pool_wf_seq(whole),
                acc <= i * 0xffff_ffff,
                healthy_total(whole) == acc + healthy_total(
                    whole.subrange(i as int, whole.len() as int),
                ),
            decreases self.entries.len() - i,
        {
            let ghost pre = whole.subrange(i as int, whole.len() as int);
            let e = self.entries[i];
            proof {
                assert(pre[0] == whole[i as int]);
                assert(pre.subrange(1, pre.len() as int) =~= whole.subrange(
                    i + 1 as int,
                    whole.len() as int,
                ));
            }
            if matches!(e.state, ProviderState::Healthy) {
                acc = acc + (e.weight as u64);
            }
            i += 1;
        }
        assert(whole.subrange(i as int, whole.len() as int).len() == 0);
        acc
    }

    /// Weight-proportional selection over the healthy entries, using the
    /// caller's draw; ties resolve by insertion order. With every provider
    /// ejected it fails fast with a retriable error and no upstream call.
    pub fn select(&self, draw: u64) -> (r: Result<Provider, ApiError>)
        requires
            self.wf(),
        ensures
            r == select_spec(self.entries@, draw),
    {
        let total = self.healthy_weight();
        if total == 0 {
            return Err(ApiError::NoHealthyProvider);
        }
        let ghost whole = self.entries@;
        let ghost x0 = draw as int % healthy_total(whole);
        let mut x: u64 = draw % total;
        let mut i: usize = 0;
        assert(whole.subrange(0, whole.len() as int) =~= whole);
        while i < self.entries.len()
            invariant
                i <= self.entries.len(),
                whole == self.entries@,
                x0 == draw as int % healthy_total(whole),
                0 <= x0 < healthy_total(whole),
                x <= x0,
                x < healthy_total(whole.subrange(i as int, whole.len() as int)),
                pick_healthy(whole, x0) == pick_healthy(
                    whole.subrange(i as int, whole.len() as int),
                    x as int,
                ),
            decreases self.entries.len() - i,
        {
            let ghost pre = whole.subrange(i as int, whole.len() as int);
            let e = self.entries[i];
            proof {
                assert(pre[0] == whole[i as int]);
                assert(pre.subrange(1, pre.len() as int) =~= whole.subrange(
                    i + 1 as int,
                    whole.len() as int,
                ));
            }
            if matches!(e.state, ProviderState::Healthy) {
                if x < e.weight as u64 {
                    return Ok(e.provider);
                }
                x = x - (e.weight as u64);
            }
            i += 1;
        }
        proof {
            assert(whole.subrange(i as int, whole.len() as int).len() == 0);
            assert(false);
        }
        Err(ApiError::Internal)
    }
}

} // verus!
