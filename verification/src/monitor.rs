//! The rate-limit monitor: the single writer of provider states. Dispatch
//! only emits signals; the monitor ejects the named provider until its
//! cooldown passes and re-admits it when the scheduled moment arrives —
//! unless a newer signal pushed the moment further out.

use vstd::prelude::*;

use crate::balance::{PoolEntry, ProviderPool, ProviderState};
use crate::types::Provider;

verus! {

/// What dispatch sends the monitor when an upstream throttles: who, how
/// long to back off, and when it was seen. Times are in seconds.
#[derive(Clone, Copy, Debug, PartialEq, Eq, Structural)]
pub struct RateLimitSignal {
    pub provider: Provider,
    pub retry_after: u64,
    pub observed_at: u64,
}

/// A scheduled re-admission: at `until`, the provider goes back to healthy
/// if no newer signal moved its ejection forward.
#[derive(Clone, Copy, Debug, PartialEq, Eq, Structural)]
pub struct ReadmitTimer {
    pub provider: Provider,
    pub until: u64,
}

/// `a + b`, clamped at the top of the clock.
pub open spec fn sat_add_u64(a: u64, b: u64) -> u64 {
    if a + b <= u64::MAX {
        (a + b) as u64
    } else {
        u64::MAX
    }
}

/// How one entry reacts to an ejection of `p` until `until`: an already
/// ejected provider keeps the later of the two moments.
pub open spec fn eject_entry(e: PoolEntry, p: Provider, until: u64) -> PoolEntry {
    if e.provider == p {
        match e.state {
            ProviderState::Healthy => PoolEntry { state: ProviderState::Ejected { until }, ..e },
            ProviderState::Ejected { until: u } => PoolEntry {
                state: ProviderState::Ejected {
                    until: if u >= until {
                        u
                    } else {
                        until
                    },
                },
                ..e
            },
        }
    } else {
        e
    }
}

/// The pool after ejecting `p` until `until`.
pub open spec fn eject_pool(s: Seq<PoolEntry>, p: Provider, until: u64) -> Seq<PoolEntry> {
    Seq::new(s.len(), |i: int| eject_entry(s[i], p, until))
}

/// How one entry reacts to a re-admission of `p` scheduled for `sched`: it
/// returns to healthy only if no newer signal pushed its ejection past the
/// timer that fired.
pub open spec fn readmit_entry(e: PoolEntry, p: Provider, sched: u64) -> PoolEntry {
    if e.provider == p {
        match e.state {
            ProviderState::Ejected { until: u } => if u <= sched {
                PoolEntry { state: ProviderState::Healthy, ..e }
            } else {
                e
            },
            ProviderState::Healthy => e,
        }
    } else {
        e
    }
}

/// The pool after a re-admission of `p` scheduled for `sched`.
pub open spec fn readmit_pool(s: Seq<PoolEntry>, p: Provider, sched: u64) -> Seq<PoolEntry> {
    Seq::new(s.len(), |i: int| readmit_entry(s[i], p, sched))
}

/// One timer applied to the pool, if it is due at `now`.
pub open spec fn apply_timer(s: Seq<PoolEntry>, t: ReadmitTimer, now: u64) -> Seq<PoolEntry> {
    if t.until <= now {
        readmit_pool(s, t.provider, t.until)
    } else {
        s
    }
}

/// The pool after every due timer fired, in order.
pub open spec fn tick_pool(s: Seq<PoolEntry>, ts: Seq<ReadmitTimer>, now: u64) -> Seq<PoolEntry>
    decreases ts.len(),
{
    if ts.len() == 0 {
        s
    } else {
        tick_pool(apply_timer(s, ts[0], now), ts.subrange(1, ts.len() as int), now)
    }
}

/// The timers that have not fired yet at `now`.
pub open spec fn keep_timers(ts: Seq<ReadmitTimer>, now: u64) -> Seq<ReadmitTimer>
    decreases ts.len(),
{
    if ts.len() == 0 {
        Seq::empty()
    } else if ts[0].until > now {
        seq![ts[0]] + keep_timers(ts.subrange(1, ts.len() as int), now)
    } else {
        keep_timers(ts.subrange(1, ts.len() as int), now)
    }
}

/// Ejections and re-admissions touch exactly one provider's state; weights,
/// providers and order never change.
pub proof fn lemma_pool_shape_kept(s: Seq<PoolEntry>, s2: Seq<PoolEntry>)
    requires
        s2.len() == s.len(),
        forall|i: int|
            0 <= i < s.len() ==> (#[trigger] s2[i]).provider == s[i].provider && s2[i].weight
                == s[i].weight,
        crate::balance::pool_wf_seq(s),
    ensures
        crate::balance::pool_wf_seq(s2),
{
}

/// Sets the state of `p`, if present, to ejected until `until` (or the
/// later moment it already holds).
pub fn eject(pool: &mut ProviderPool, p: Provider, until: u64)
    ensures
        final(pool).entries@ == eject_pool(old(pool).entries@, p, until),
{
    let ghost whole = pool.entries@;
    let n = pool.entries.len();
    let mut i: usize = 0;
    while i < n
        invariant
            i <= n,
            n == pool.entries@.len(),
            whole.len() == n,
            forall|j: int| i <= j < n ==> pool.entries@[j] == whole[j],
            forall|j: int| 0 <= j < i ==> pool.entries@[j] == eject_entry(whole[j], p, until),
        decreases n - i,
    {
        let e = pool.entries[i];
        if provider_eq(e.provider, p) {
            let new_state = match e.state {
                ProviderState::Healthy => ProviderState::Ejected { until },
                ProviderState::Ejected { until: u } => ProviderState::Ejected {
                    until: if u >= until {
                        u
                    } else {
                        until
                    },
                },
            };
            pool.entries.set(i, PoolEntry { provider: e.provider, weight: e.weight, state: new_state });
        }
        i += 1;
    }
    assert(pool.entries@ =~= eject_pool(whole, p, until));
}

/// Returns `p`, if present and not pushed further out, to healthy.
pub fn readmit(pool: &mut ProviderPool, p: Provider, sched: u64)
    ensures
        final(pool).entries@ == readmit_pool(old(pool).entries@, p, sched),
{
    let ghost whole = pool.entries@;
    let n = pool.entries.len();
    let mut i: usize = 0;
    while i < n
        invariant
            i <= n,
            n == pool.entries@.len(),
            whole.len() == n,
            forall|j: int| i <= j < n ==> pool.entries@[j] == whole[j],
            forall|j: int| 0 <= j < i ==> pool.entries@[j] == readmit_entry(whole[j], p, sched),
        decreases n - i,
    {
        let e = pool.entries[i];
        if provider_eq(e.provider, p) {
            match e.state {
                ProviderState::Ejected { until: u } => {
                    if u <= sched {
                        pool.entries.set(
                            i,
                            PoolEntry {
                                provider: e.provider,
                                weight: e.weight,
                                state: ProviderState::Healthy,
                            },
                        );
                    }
                },
                ProviderState::Healthy => {},
            }
        }
        i += 1;
    }
    assert(pool.entries@ =~= readmit_pool(whole, p, sched));
}

/// Provider equality, decided by variant.
pub fn provider_eq(a: Provider, b: Provider) -> (r: bool)
    ensures
        r == (a == b),
{
    match (a, b) {
        (Provider::OpenAi, Provider::OpenAi) => true,
        (Provider::Anthropic, Provider::Anthropic) => true,
        (Provider::Ollama, Provider::Ollama) => true,
        _ => false,
    }
}


/// When a signal ejects its provider until.
pub open spec fn signal_until(sig: RateLimitSignal) -> u64 {
    sat_add_u64(sig.observed_at, sig.retry_after)
}

/// The pool after a batch of signals was consumed, in arrival order.
pub open spec fn drain_pool(s: Seq<PoolEntry>, sigs: Seq<RateLimitSignal>) -> Seq<PoolEntry>
    decreases sigs.len(),
{
    if sigs.len() == 0 {
        s
    } else {
        drain_pool(
            eject_pool(s, sigs[0].provider, signal_until(sigs[0])),
            sigs.subrange(1, sigs.len() as int),
        )
    }
}

/// The timers after a batch of signals was consumed.
pub open spec fn drain_timers(ts: Seq<ReadmitTimer>, sigs: Seq<RateLimitSignal>) -> Seq<
    ReadmitTimer,
>
    decreases sigs.len(),
{
    if sigs.len() == 0 {
        ts
    } else {
        drain_timers(
            ts.push(ReadmitTimer { provider: sigs[0].provider, until: signal_until(sigs[0]) }),
            sigs.subrange(1, sigs.len() as int),
        )
    }
}

/// A re-admission timer never fires before its moment: until then it
/// leaves the pool exactly as it is.
pub proof fn law_no_early_readmit(s: Seq<PoolEntry>, t: ReadmitTimer, now: u64)
    requires
        now < t.until,
    ensures
        apply_timer(s, t, now) == s,
{
}

/// State transitions never touch providers, weights, length or order.
pub open spec fn same_shape(s: Seq<PoolEntry>, s2: Seq<PoolEntry>) -> bool {
    s2.len() == s.len() && forall|i: int|
        0 <= i < s.len() ==> (#[trigger] s2[i]).provider == s[i].provider && s2[i].weight
            == s[i].weight
}

pub proof fn lemma_tick_pool_shape(s: Seq<PoolEntry>, ts: Seq<ReadmitTimer>, now: u64)
    ensures
        same_shape(s, tick_pool(s, ts, now)),
    decreases ts.len(),
{
    if ts.len() > 0 {
        lemma_tick_pool_shape(apply_timer(s, ts[0], now), ts.subrange(1, ts.len() as int), now);
    }
}

pub proof fn lemma_drain_pool_shape(s: Seq<PoolEntry>, sigs: Seq<RateLimitSignal>)
    ensures
        same_shape(s, drain_pool(s, sigs)),
    decreases sigs.len(),
{
    if sigs.len() > 0 {
        lemma_drain_pool_shape(
            eject_pool(s, sigs[0].provider, signal_until(sigs[0])),
            sigs.subrange(1, sigs.len() as int),
        );
    }
}

/// A pool fit for selection stays fit through any run of signals and
/// timers: only states move.
pub proof fn lemma_transitions_keep_wf(
    s: Seq<PoolEntry>,
    sigs: Seq<RateLimitSignal>,
    ts: Seq<ReadmitTimer>,
    now: u64,
)
    requires
        crate::balance::pool_wf_seq(s),
    ensures
        crate::balance::pool_wf_seq(tick_pool(drain_pool(s, sigs), ts, now)),
{
    lemma_drain_pool_shape(s, sigs);
    lemma_tick_pool_shape(drain_pool(s, sigs), ts, now);
    lemma_pool_shape_kept(s, tick_pool(drain_pool(s, sigs), ts, now));
}

/// The monitor's own state: the re-admissions it has scheduled.
pub struct Monitor {
    pub timers: Vec<ReadmitTimer>,
}

impl Monitor {
    pub fn new() -> (m: Monitor)
        ensures
            m.timers@ == Seq::<ReadmitTimer>::empty(),
    {
        Monitor { timers: Vec::new() }
    }

    /// Consumes one signal: ejects the provider until `observed_at +
    /// retry_after` and schedules the matching re-admission.
    pub fn on_signal(&mut self, pool: &mut ProviderPool, sig: RateLimitSignal)
        ensures
            final(pool).entries@ == eject_pool(
                old(pool).entries@,
                sig.provider,
                sat_add_u64(sig.observed_at, sig.retry_after),
            ),
            final(self).timers@ == old(self).timers@.push(
                ReadmitTimer {
                    provider: sig.provider,
                    until: sat_add_u64(sig.observed_at, sig.retry_after),
                },
            ),
    {
        let until = sig.observed_at.saturating_add(sig.retry_after);
        eject(pool, sig.provider, until);
        self.timers.push(ReadmitTimer { provider: sig.provider, until });
    }


    /// Consumes a batch of signals, oldest first.
    pub fn drain(&mut self, pool: &mut ProviderPool, signals: &Vec<RateLimitSignal>)
        ensures
            final(pool).entries@ == drain_pool(old(pool).entries@, signals@),
            final(self).timers@ == drain_timers(old(self).timers@, signals@),
    {
        let ghost all = signals@;
        let ghost pool0 = pool.entries@;
        let ghost timers0 = self.timers@;
        let mut i: usize = 0;
        assert(all.subrange(0, all.len() as int) =~= all);
        while i < signals.len()
            invariant
                i <= signals.len(),
                all == signals@,
                drain_pool(pool0, all) == drain_pool(
                    pool.entries@,
                    all.subrange(i as int, all.len() as int),
                ),
                drain_timers(timers0, all) == drain_timers(
                    self.timers@,
                    all.subrange(i as int, all.len() as int),
                ),
            decreases signals.len() - i,
        {
            let ghost pre = all.subrange(i as int, all.len() as int);
            let sig = signals[i];
            proof {
                assert(pre[0] == all[i as int]);
                assert(pre.subrange(1, pre.len() as int) =~= all.subrange(
                    i + 1 as int,
                    all.len() as int,
                ));
            }
            self.on_signal(pool, sig);
            i += 1;
        }
        assert(all.subrange(i as int, all.len() as int).len() == 0);
    }

    /// Fires every timer that is due at `now`, in arrival order, and keeps
    /// the rest. A timer never fires before its moment.
    pub fn tick(&mut self, pool: &mut ProviderPool, now: u64)
        ensures
            final(pool).entries@ == tick_pool(old(pool).entries@, old(self).timers@, now),
            final(self).timers@ == keep_timers(old(self).timers@, now),
    {
        let ghost all = self.timers@;
        let ghost pool0 = pool.entries@;
        let mut kept: Vec<ReadmitTimer> = Vec::new();
        let mut i: usize = 0;
        assert(all.subrange(0, all.len() as int) =~= all);
        while i < self.timers.len()
            invariant
                i <= self.timers.len(),
                all == self.timers@,
                tick_pool(pool0, all, now) == tick_pool(
                    pool.entries@,
                    all.subrange(i as int, all.len() as int),
                    now,
                ),
                keep_timers(all, now) == kept@ + keep_timers(
                    all.subrange(i as int, all.len() as int),
                    now,
                ),
            decreases self.timers.len() - i,
        {
            let ghost pre = all.subrange(i as int, all.len() as int);
            let t = self.timers[i];
            proof {
                assert(pre[0] == all[i as int]);
                assert(pre.subrange(1, pre.len() as int) =~= all.subrange(
                    i + 1 as int,
                    all.len() as int,
                ));
            }
            if t.until <= now {
                readmit(pool, t.provider, t.until);
            } else {
                kept.push(t);
                assert(kept@ + keep_timers(pre.subrange(1, pre.len() as int), now) =~= kept@.drop_last()
                    + (seq![t] + keep_timers(pre.subrange(1, pre.len() as int), now)));
            }
            i += 1;
        }
        assert(all.subrange(i as int, all.len() as int).len() == 0);
        assert(kept@ + keep_timers(all.subrange(i as int, all.len() as int), now) =~= kept@);
        self.timers = kept;
    }
}

} // verus!
