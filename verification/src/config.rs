//! Configuration the gateway is built from: per-scope cache settings and
//! per-router provider weights.

use vstd::prelude::*;

use crate::types::Provider;

verus! {

/// A cache configuration for one scope: the bucket fan-out, the optional
/// per-router seed that salts the fingerprint, and the freshness window
/// used when a request carries no `max-age` directive.
pub struct CacheConfig {
    pub buckets: usize,
    pub seed: Option<Vec<u8>>,
    pub default_max_age: u64,
}

/// One provider and its selection weight. Weights are relative; any
/// positive total works.
#[derive(Clone, Copy, Debug, PartialEq, Eq, Structural)]
pub struct WeightedProvider {
    pub provider: Provider,
    pub weight: u32,
}

/// One router: its id, its optional cache, its provider weights.
pub struct RouterConfig {
    pub id: Vec<u8>,
    pub cache: Option<CacheConfig>,
    pub providers: Vec<WeightedProvider>,
}

/// Why a gateway could not be built from its configuration.
#[derive(Clone, Copy, Debug, PartialEq, Eq, Structural)]
pub enum InitError {
    /// A cache config with no buckets.
    InvalidCacheConfig,
    /// A balance config with no providers, a zero weight, or a provider
    /// listed twice.
    InvalidBalanceConfig,
}

impl CacheConfig {
    /// A copy with the same settings.
    pub fn duplicate(&self) -> (r: CacheConfig)
        ensures
            r.buckets == self.buckets,
            crate::types::opt_bytes_view(r.seed) == crate::types::opt_bytes_view(self.seed),
            r.default_max_age == self.default_max_age,
    {
        let seed = match &self.seed {
            Some(s) => Some(crate::bytes::clone_bytes(s)),
            None => None,
        };
        CacheConfig { buckets: self.buckets, seed, default_max_age: self.default_max_age }
    }
}

} // verus!
