//! The fixed hash the gateway indexes credentials with, and the cache layer
//! uses to pick a bucket: FNV-1a over bytes, 64 bits wide.

use vstd::prelude::*;

verus! {

pub const FNV_OFFSET: u64 = 0xcbf29ce484222325;

pub const FNV_PRIME: u64 = 0x100000001b3;

/// FNV-1a over the first `n` bytes of `s`.
pub open spec fn fnv1a_upto(s: Seq<u8>, n: int) -> u64
    recommends
        0 <= n <= s.len(),
    decreases n,
{
    if n <= 0 {
        FNV_OFFSET
    } else {
        vstd::wrapping::u64_specs::wrapping_mul(fnv1a_upto(s, n - 1) ^ (s[n - 1] as u64), FNV_PRIME)
    }
}

/// FNV-1a over all of `s`.
pub open spec fn fnv1a(s: Seq<u8>) -> u64 {
    fnv1a_upto(s, s.len() as int)
}

/// Hashes a byte string; the same bytes always give the same hash.
pub fn hash_bytes(s: &Vec<u8>) -> (h: u64)
    ensures
        h == fnv1a(s@),
{
    let mut h: u64 = FNV_OFFSET;
    let mut i: usize = 0;
    while i < s.len()
        invariant
            i <= s.len(),
            h == fnv1a_upto(s@, i as int),
        decreases s.len() - i,
    {
        h = (h ^ (s[i] as u64)).wrapping_mul(FNV_PRIME);
        i += 1;
    }
    h
}

} // verus!
