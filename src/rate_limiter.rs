//! Per-client token buckets, created on first sight of a client and reclaimed once idle.
use vstd::prelude::*;

use governor::{DefaultDirectRateLimiter, Quota};
use std::collections::HashMap;
use std::num::NonZeroU32;

verus! {

broadcast use vstd::std_specs::hash::group_hash_axioms;

/// One client's token bucket: a governor direct rate limiter (GCRA on the default
/// monotonic clock) and its burst size. Proofs see it as an opaque value; its state changes
/// only through governor's own atomics.
#[verifier::external_body]
pub struct TokenBucket {
    limiter: DefaultDirectRateLimiter,
    burst: NonZeroU32,
}

/// Relies on `governor::Quota::per_minute` and `governor::RateLimiter::direct` for a bucket of
/// `requests_per_minute` cells refilled at that many per minute, and on
/// `RateLimiter::check` for its first cell: a fresh bucket has no stored state, starts at
/// `t0 + t` and conforms while `t <= tau`, which every quota meets, so the first check of a
/// fresh bucket is admitted whatever the clock reads.
#[verifier::external_body]
fn open_bucket(requests_per_minute: u32) -> (r: (TokenBucket, bool))
    requires
        requests_per_minute > 0,
    ensures
        r.1,
{
    let burst = NonZeroU32::new(requests_per_minute).unwrap();
    let bucket = TokenBucket {
        limiter: governor::RateLimiter::direct(Quota::per_minute(burst)),
        burst,
    };
    let admitted = bucket.limiter.check().is_ok();
    (bucket, admitted)
}

/// Relies on `governor::RateLimiter::check`: `Ok` when one cell conforms now, which then
/// spends it. The answer depends on the clock, so nothing is stated of it.
#[verifier::external_body]
fn bucket_admits(bucket: &TokenBucket) -> (r: bool) {
    bucket.limiter.check().is_ok()
}

/// Relies on `governor::RateLimiter::check_n` with the bucket's own burst size: `Ok(Ok(_))`
/// only when the whole burst conforms now, that is when the bucket is fully refilled; a
/// failed check spends nothing. The answer depends on the clock, so nothing is stated of it.
#[verifier::external_body]
fn bucket_full(bucket: &TokenBucket) -> (r: bool) {
    matches!(bucket.limiter.check_n(bucket.burst), Ok(Ok(_)))
}

/// `probes` holds one answer for each key of `m`, and no other key.
pub open spec fn probes_each_key(probes: Seq<(u128, bool)>, m: Map<u128, TokenBucket>) -> bool {
    forall|k: u128| m.contains_key(k) <==> exists|i: int| 0 <= i < probes.len() && #[trigger] probes[i].0 == k
}

/// The keys that `probes` answers as fully refilled.
pub open spec fn full_keys(probes: Seq<(u128, bool)>) -> Set<u128> {
    Set::new(|k: u128| exists|i: int| 0 <= i < probes.len() && probes[i] == (k, true))
}

/// The registry after an admission check for `key`: the key is tracked, and the entry of
/// every other key is left as it was.
pub open spec fn admission_step(
    before: Map<u128, TokenBucket>,
    after: Map<u128, TokenBucket>,
    key: u128,
) -> bool {
    &&& after.dom() == before.dom().insert(key)
    &&& after.remove(key) == before.remove(key)
}

/// A registry of token buckets, one per client key (a client address as a 128-bit number).
/// Buckets share one quota of `capacity()` requests per minute, with a burst of the same size.
/// Nothing here reclaims idle buckets by itself: the owner calls `cleanup_stale_limiters`
/// periodically, or the registry grows with every new client.
pub struct RateLimiter {
    requests_per_minute: u32,
    limiters: HashMap<u128, TokenBucket>,
}

impl View for RateLimiter {
    type V = Map<u128, TokenBucket>;

    closed spec fn view(&self) -> Map<u128, TokenBucket> {
        self.limiters@
    }
}

impl RateLimiter {
    /// Requests per minute allowed to each key, and the size of each bucket.
    pub closed spec fn capacity(&self) -> u32 {
        self.requests_per_minute
    }

    /// The registry's invariant: its quota is non-zero and it tracks finitely many keys.
    pub open spec fn wf(&self) -> bool {
        &&& self.capacity() > 0
        &&& self@.dom().finite()
    }

    /// An empty registry whose buckets admit `requests_per_minute` requests per minute.
    pub fn new(requests_per_minute: u32) -> (r: Self)
        requires
            requests_per_minute > 0,
        ensures
            r.wf(),
            r.capacity() == requests_per_minute,
            r@ == Map::<u128, TokenBucket>::empty(),
    {
        RateLimiter {
            requests_per_minute,
            limiters: HashMap::new(),
        }
    }

    /// Gives `key` a fresh bucket, with its first request admitted, when the key has none
    /// or when `full` (the probe's answer that its bucket is fully refilled). A governor
    /// bucket that refilled while idle would let one request more than its capacity
    /// through; a fresh one does not. Otherwise nothing changes.
    pub fn settle_bucket(&mut self, key: u128, full: bool) -> (r: Option<bool>)
        requires
            old(self).wf(),
        ensures
            final(self).wf(),
            final(self).capacity() == old(self).capacity(),
            r is Some <==> (!old(self)@.contains_key(key) || full),
            r is Some ==> r == Some(true) && admission_step(old(self)@, final(self)@, key),
            r is None ==> final(self)@ == old(self)@,
    {
        if self.limiters.contains_key(&key) && !full {
            return None;
        }
        let (bucket, admitted) = open_bucket(self.requests_per_minute);
        self.limiters.insert(key, bucket);
        assert(self@.dom() =~= old(self)@.dom().insert(key));
        assert(self@.remove(key) =~= old(self)@.remove(key));
        Some(admitted)
    }

    /// Admits or rejects one request of `key`. A key without a bucket, or whose bucket
    /// reads fully refilled, gets a fresh one and is admitted; otherwise its own bucket
    /// decides. Only the entry of `key` is touched, and a rejection touches nothing.
    pub fn check(&mut self, key: u128) -> (admitted: bool)
        requires
            old(self).wf(),
        ensures
            final(self).wf(),
            final(self).capacity() == old(self).capacity(),
            admission_step(old(self)@, final(self)@, key),
            !old(self)@.contains_key(key) ==> admitted,
            !admitted ==> final(self)@ == old(self)@,
            final(self)@.len() == old(self)@.len() + if old(self)@.contains_key(key) {
                0int
            } else {
                1int
            },
    {
        let full = match self.limiters.get(&key) {
            Some(bucket) => bucket_full(bucket),
            None => false,
        };
        let admitted = match self.settle_bucket(key, full) {
            Some(a) => a,
            None => {
                assert(old(self)@.dom().insert(key) =~= old(self)@.dom());
                match self.limiters.get(&key) {
                    Some(bucket) => bucket_admits(bucket),
                    None => false,
                }
            },
        };
        admitted
    }

    /// How many keys have a bucket.
    pub fn tracked_ips(&self) -> (r: usize)
        ensures
            r == self@.len(),
    {
        self.limiters.len()
    }

    /// Drops the bucket of every key that `probes` answers as fully refilled; keys
    /// without a bucket are ignored.
    pub fn drop_full(&mut self, probes: &Vec<(u128, bool)>)
        requires
            old(self).wf(),
        ensures
            final(self).wf(),
            final(self).capacity() == old(self).capacity(),
            final(self)@ == old(self)@.remove_keys(full_keys(probes@)),
    {
        let mut i: usize = 0;
        while i < probes.len()
            invariant
                i <= probes.len(),
                self.wf(),
                self.capacity() == old(self).capacity(),
                self@ == old(self)@.remove_keys(full_keys(probes@.take(i as int))),
            decreases probes.len() - i,
        {
            let (k, full) = probes[i];
            if full {
                self.limiters.remove(&k);
            }
            proof {
                let before = probes@.take(i as int);
                let after = probes@.take(i as int + 1);
                assert(after == before.push((k, full)));
                assert forall|x: u128| #[trigger] full_keys(after).contains(x) == (full_keys(
                    before,
                ).contains(x) || (full && x == k)) by {
                    if full_keys(after).contains(x) {
                        let j = choose|j: int| 0 <= j < after.len() && after[j] == (x, true);
                        if j < before.len() {
                            assert(before[j] == after[j]);
                        }
                    }
                    if full_keys(before).contains(x) {
                        let j = choose|j: int| 0 <= j < before.len() && before[j] == (x, true);
                        assert(after[j] == before[j]);
                    }
                    if full && x == k {
                        assert(after[i as int] == (x, true));
                    }
                }
                assert(self@ =~= old(self)@.remove_keys(full_keys(after)));
            }
            i = i + 1;
        }
        proof {
            assert(probes@.take(i as int) == probes@);
        }
    }

    /// Reclaims the bucket of every key whose bucket is fully refilled, that is, untouched
    /// for at least one full refill interval. Each tracked key is probed once, and exactly
    /// the keys answered full are dropped (see `drop_full`). A reclaimed key that returns
    /// gets a fresh full bucket, so no throttling state is lost. The buckets that stay are
    /// left untouched.
    pub fn cleanup_stale_limiters(&mut self)
        requires
            old(self).wf(),
        ensures
            final(self).wf(),
            final(self).capacity() == old(self).capacity(),
            final(self)@.submap_of(old(self)@),
            exists|probes: Seq<(u128, bool)>|
                probes_each_key(probes, old(self)@) && final(self)@ == old(self)@.remove_keys(
                    full_keys(probes),
                ),
    {
        let mut probes: Vec<(u128, bool)> = Vec::new();
        for entry in it: self.limiters.iter()
            invariant
                self.wf(),
                probes@.len() == it.index(),
                forall|i: int|
                    0 <= i < probes@.len() ==> #[trigger] probes@[i].0 == *it.seq()[i].0,
                forall|i: int|
                    0 <= i < probes@.len() ==> self@.contains_key(#[trigger] probes@[i].0),
                forall|k: u128|
                    #[trigger] self@.contains_key(k) ==> it.seq().contains((&k, &self@[k])),
                probes@.len() == it.seq().len() ==> probes_each_key(probes@, self@),
        {
            let (k, bucket) = entry;
            let full = bucket_full(bucket);
            probes.push((*k, full));
            assert forall|k: u128|
                probes@.len() == it.seq().len() && self@.contains_key(k) implies exists|i: int|
                0 <= i < probes@.len() && #[trigger] probes@[i].0 == k by {
                let j = choose|j: int| 0 <= j < it.seq().len() && it.seq()[j] == (&k, &self@[k]);
                assert(probes@[j].0 == k);
            }
        }
        self.drop_full(&probes);

    }
}

/// The shard, out of `shards`, that holds the bucket of `key`.
pub fn shard_for(key: u128, shards: usize) -> (r: usize)
    requires
        shards > 0,
    ensures
        r == (key as int) % (shards as int),
        r < shards,
{
    (key % (shards as u128)) as usize
}

/// Admission checks never disturb another key: along any run of checks for keys other
/// than `key`, the entry of `key` (its absence, or its very bucket) stays as it was.
pub proof fn lemma_other_keys_untouched(
    states: Seq<Map<u128, TokenBucket>>,
    keys: Seq<u128>,
    key: u128,
)
    requires
        states.len() == keys.len() + 1,
        forall|i: int| 0 <= i < keys.len() ==> admission_step(states[i], states[i + 1], keys[i]),
        forall|i: int| 0 <= i < keys.len() ==> keys[i] != key,
    ensures
        states.last().contains_key(key) == states[0].contains_key(key),
        states[0].contains_key(key) ==> states.last()[key] == states[0][key],
    decreases keys.len(),
{
    if keys.len() > 0 {
        let n = keys.len() - 1;
        lemma_other_keys_untouched(states.take(n + 1), keys.take(n), key);
        assert(admission_step(states[n], states[n + 1], keys[n]));
        assert(states[n].remove(keys[n]).contains_key(key) == states[n].contains_key(key));
        assert(states[n + 1].remove(keys[n]).contains_key(key) == states[n + 1].contains_key(key));
        if states[n].contains_key(key) {
            assert(states[n].remove(keys[n])[key] == states[n][key]);
            assert(states[n + 1].remove(keys[n])[key] == states[n + 1][key]);
        }
    }
}

} // verus!
