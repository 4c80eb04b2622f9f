//! The keyed response store behind the cache layer: a fixed fan-out of
//! buckets, each an ordered shard; the fingerprint picks the bucket by
//! modulo. A newer entry for a key shadows an older one; stale entries are
//! never served. Eviction beyond that is the backing store's business.

use vstd::prelude::*;

use crate::cache_key::bucket_of;
use crate::types::{headers_view, GatewayResponse};

verus! {

/// One stored response, under its fingerprint, with its freshness window.
pub struct CacheEntry {
    pub key: Vec<u8>,
    pub status: u16,
    pub headers: Vec<crate::types::Header>,
    pub body: Vec<u8>,
    /// When the entry was stored, in seconds.
    pub stored_at: u64,
    /// How long the entry stays fresh, in seconds.
    pub ttl: u64,
}

/// Mathematical image of a [`CacheEntry`].
pub ghost struct EntryModel {
    pub key: Seq<u8>,
    pub status: u16,
    pub headers: Seq<crate::types::HeaderModel>,
    pub body: Seq<u8>,
    pub stored_at: u64,
    pub ttl: u64,
}

impl View for CacheEntry {
    type V = EntryModel;

    open spec fn view(&self) -> EntryModel {
        EntryModel {
            key: self.key@,
            status: self.status,
            headers: headers_view(self.headers@),
            body: self.body@,
            stored_at: self.stored_at,
            ttl: self.ttl,
        }
    }
}

/// An entry still within its freshness window at `now`.
pub open spec fn fresh(e: EntryModel, now: u64) -> bool {
    now <= e.stored_at + e.ttl
}

/// The newest entry for `k` in one bucket.
pub open spec fn bucket_find(b: Seq<CacheEntry>, k: Seq<u8>) -> Option<EntryModel>
    decreases b.len(),
{
    if b.len() == 0 {
        None
    } else if b[0]@.key == k {
        Some(b[0]@)
    } else {
        bucket_find(b.subrange(1, b.len() as int), k)
    }
}

/// What a bucket yields for `k` is keyed by `k`.
pub proof fn lemma_bucket_find_key(b: Seq<CacheEntry>, k: Seq<u8>)
    ensures
        bucket_find(b, k) matches Some(e) ==> e.key == k,
    decreases b.len(),
{
    if b.len() > 0 {
        lemma_bucket_find_key(b.subrange(1, b.len() as int), k);
    }
}

/// The keyed store.
pub struct CacheStore {
    pub buckets: Vec<Vec<CacheEntry>>,
}

impl CacheStore {
    /// A store is usable as long as it has at least one bucket.
    pub open spec fn wf(&self) -> bool {
        self.buckets@.len() >= 1
    }

    /// The newest entry stored for `k`.
    pub open spec fn find(&self, k: Seq<u8>) -> Option<EntryModel> {
        bucket_find(self.buckets@[bucket_of(k, self.buckets@.len() as int)]@, k)
    }

    /// An empty store with `buckets` shards.
    pub fn new(buckets: usize) -> (s: CacheStore)
        requires
            buckets >= 1,
        ensures
            s.wf(),
            s.buckets@.len() == buckets,
            forall|k: Seq<u8>| s.find(k) is None,
    {
        let mut v: Vec<Vec<CacheEntry>> = Vec::new();
        let mut i: usize = 0;
        while i < buckets
            invariant
                i <= buckets,
                v@.len() == i,
                forall|j: int| 0 <= j < i ==> v@[j]@.len() == 0,
            decreases buckets - i,
        {
            v.push(Vec::new());
            i += 1;
        }
        let s = CacheStore { buckets: v };
        assert forall|k: Seq<u8>| s.find(k) is None by {
            assert(s.buckets@[bucket_of(k, s.buckets@.len() as int)]@.len() == 0);
        }
        s
    }

    /// Serves the stored response for `key` if one exists and is still
    /// fresh at `now`; a stale or missing entry yields nothing.
    pub fn lookup(&self, key: &Vec<u8>, now: u64) -> (r: Option<GatewayResponse>)
        requires
            self.wf(),
        ensures
            match self.find(key@) {
                Some(e) => if fresh(e, now) {
                    match r {
                        Some(resp) => resp@.status == e.status && resp@.headers == e.headers
                            && resp@.body == e.body,
                        None => false,
                    }
                } else {
                    r is None
                },
                None => r is None,
            },
    {
        let h = crate::hashing::hash_bytes(key);
        let idx = (h % (self.buckets.len() as u64)) as usize;
        assert(idx == bucket_of(key@, self.buckets@.len() as int));
        let bucket = &self.buckets[idx];
        let ghost whole = bucket@;
        assert(whole.subrange(0, whole.len() as int) =~= whole);
        let mut i: usize = 0;
        while i < bucket.len()
            invariant
                i <= bucket.len(),
                self.wf(),
                idx < self.buckets@.len(),
                idx as int == bucket_of(key@, self.buckets@.len() as int),
                whole == bucket@,
                whole == self.buckets@[idx as int]@,
                bucket_find(whole, key@) == bucket_find(
                    whole.subrange(i as int, whole.len() as int),
                    key@,
                ),
            decreases bucket.len() - i,
        {
            let ghost pre = whole.subrange(i as int, whole.len() as int);
            if crate::bytes::bytes_eq(&bucket[i].key, key) {
                let e = &bucket[i];
                proof {
                    assert(pre[0] == whole[i as int]);
                    assert(pre[0]@.key == key@);
                    assert(bucket_find(pre, key@) == Some(pre[0]@));
                    assert(bucket_find(whole, key@) == Some(whole[i as int]@));
                    assert(whole == self.buckets@[bucket_of(
                        key@,
                        self.buckets@.len() as int,
                    )]@);
                    assert(self.find(key@) == Some(whole[i as int]@));
                }
                if now <= e.stored_at.saturating_add(e.ttl) {
                    return Some(
                        GatewayResponse {
                            status: e.status,
                            headers: crate::types::clone_headers(&e.headers),
                            body: crate::bytes::clone_bytes(&e.body),
                        },
                    );
                } else {
                    return None;
                }
            }
            assert(pre.subrange(1, pre.len() as int) =~= whole.subrange(
                i + 1 as int,
                whole.len() as int,
            ));
            i += 1;
        }
        None
    }

    /// Stores `e`, shadowing any older entry for the same key; entries for
    /// every other key are untouched.
    pub fn insert(&mut self, e: CacheEntry)
        requires
            old(self).wf(),
        ensures
            final(self).wf(),
            final(self).buckets@.len() == old(self).buckets@.len(),
            final(self).find(e@.key) == Some(e@),
            forall|k: Seq<u8>| k != e@.key ==> final(self).find(k) == old(self).find(k),
    {
        let ghost n = self.buckets@.len() as int;
        let h = crate::hashing::hash_bytes(&e.key);
        let idx = (h % (self.buckets.len() as u64)) as usize;
        assert(idx == bucket_of(e@.key, n));
        let ghost old_bucket = self.buckets@[idx as int]@;
        let ghost em = e@;
        self.buckets[idx].insert(0, e);
        assert(self.buckets@[idx as int]@ =~= seq![self.buckets@[idx as int]@[0]] + old_bucket);
        proof {
            let nb = self.buckets@[idx as int]@;
            assert(nb[0]@ == em);
            assert(nb.subrange(1, nb.len() as int) =~= old_bucket);
            assert(bucket_find(nb, em.key) == Some(em));
            assert forall|k: Seq<u8>| k != em.key implies self.find(k) == old(self).find(k) by {
                if bucket_of(k, n) == idx as int {
                    assert(bucket_find(nb, k) == bucket_find(
                        nb.subrange(1, nb.len() as int),
                        k,
                    ));
                } else {
                    assert(self.buckets@[bucket_of(k, n)] == old(self).buckets@[bucket_of(k, n)]);
                }
            }
        }
    }

    /// Stores a response under `key` with the given freshness window —
    /// unless it is not a success, in which case nothing is stored.
    pub fn store_response(&mut self, key: Vec<u8>, resp: &GatewayResponse, ttl: u64, now: u64)
        requires
            old(self).wf(),
        ensures
            final(self).wf(),
            final(self).buckets@.len() == old(self).buckets@.len(),
            if resp@.is_success() {
                final(self).find(key@) == Some(
                    EntryModel {
                        key: key@,
                        status: resp@.status,
                        headers: resp@.headers,
                        body: resp@.body,
                        stored_at: now,
                        ttl: ttl,
                    },
                ) && forall|k: Seq<u8>| k != key@ ==> final(self).find(k) == old(self).find(k)
            } else {
                *final(self) == *old(self)
            },
    {
        if 200 <= resp.status && resp.status < 300 {
            let entry = CacheEntry {
                key,
                status: resp.status,
                headers: crate::types::clone_headers(&resp.headers),
                body: crate::bytes::clone_bytes(&resp.body),
                stored_at: now,
                ttl,
            };
            self.insert(entry);
        }
    }
}

} // verus!
