//! A key-value store keyed by hashes.
//!
//! Keys are spread over buckets by their eight-byte prefix. Hashes are
//! uniformly distributed, so a bucket holds one entry in all but rare cases
//! and every operation touches a constant number of entries on average.

use crate::primitives::H256;
use std::collections::HashMap;
use vstd::prelude::*;

verus! {

broadcast use vstd::std_specs::hash::group_hash_axioms;

/// A map from hashes to values of type `V`.
pub struct HashStore<V> {
    buckets: HashMap<u64, Vec<(H256, V)>>,
    contents: Ghost<Map<H256, V>>,
}

/// The position of `key` in `bucket`, if it occurs there.
fn position<V>(bucket: &Vec<(H256, V)>, key: &H256) -> (r: Option<usize>)
    ensures
        match r {
            Some(i) => i < bucket@.len() && bucket@[i as int].0 == *key,
            None => forall|j: int| 0 <= j < bucket@.len() ==> bucket@[j].0 != *key,
        },
{
    let mut i: usize = 0;
    while i < bucket.len()
        invariant
            i <= bucket@.len(),
            forall|j: int| 0 <= j < i ==> bucket@[j].0 != *key,
        decreases bucket@.len() - i,
    {
        if bucket[i].0.same(key) {
            return Some(i);
        }
        i += 1;
    }
    None
}

/// Every entry of `bucket` has a key with prefix `b`, is recorded in `m`, and
/// no key occurs twice.
spec fn bucket_ok<V>(bucket: Seq<(H256, V)>, b: u64, m: Map<H256, V>) -> bool {
    &&& forall|i: int|
        0 <= i < bucket.len() ==> {
            let entry = #[trigger] bucket[i];
            &&& entry.0.spec_prefix() == b
            &&& m.contains_key(entry.0)
            &&& m[entry.0] == entry.1
        }
    &&& forall|i: int, j: int|
        0 <= i < bucket.len() && 0 <= j < bucket.len() && i != j ==> (#[trigger] bucket[i]).0 != (
        #[trigger] bucket[j]).0
}

/// Whether `key` occurs in `bucket`.
spec fn bucket_has<V>(bucket: Seq<(H256, V)>, key: H256) -> bool {
    exists|i: int| 0 <= i < bucket.len() && (#[trigger] bucket[i]).0 == key
}

/// Writing `key` into its bucket keeps the bucket in order and loses no other
/// key.
proof fn lemma_bucket_put<V>(
    before: Seq<(H256, V)>,
    after: Seq<(H256, V)>,
    m: Map<H256, V>,
    key: H256,
    value: V,
    at: Option<usize>,
)
    requires
        bucket_ok(before, key.spec_prefix(), m),
        match at {
            Some(i) => i < before.len() && before[i as int].0 == key && after == before.update(
                i as int,
                (key, value),
            ),
            None => !bucket_has(before, key) && after == before.push((key, value)),
        },
    ensures
        bucket_ok(after, key.spec_prefix(), m.insert(key, value)),
        bucket_has(after, key),
        forall|k: H256| k != key && bucket_has(before, k) ==> bucket_has(after, k),
{
    let m2 = m.insert(key, value);
    assert forall|i: int| 0 <= i < after.len() implies ({
        let entry = #[trigger] after[i];
        &&& entry.0.spec_prefix() == key.spec_prefix()
        &&& m2.contains_key(entry.0)
        &&& m2[entry.0] == entry.1
    }) by {
        if i < before.len() {
            assert(before[i].0 == after[i].0);
            if before[i].0 != key {
                assert(after[i] == before[i]);
            } else {
                match at {
                    Some(p) => {
                        assert(p == i);
                    },
                    None => {
                        assert(bucket_has(before, key));
                    },
                }
            }
        }
    }
    assert forall|i: int, j: int|
        0 <= i < after.len() && 0 <= j < after.len() && i != j implies (#[trigger] after[i]).0 != (
    #[trigger] after[j]).0 by {
        if i < before.len() && j < before.len() {
            assert(before[i].0 == after[i].0);
            assert(before[j].0 == after[j].0);
        } else if i < before.len() {
            assert(before[i].0 == after[i].0);
        } else {
            assert(before[j].0 == after[j].0);
        }
    }
    match at {
        Some(p) => {
            assert(after[p as int].0 == key);
        },
        None => {
            assert(after[before.len() as int].0 == key);
        },
    }
    assert forall|k: H256| k != key && bucket_has(before, k) implies bucket_has(after, k) by {
        let i = choose|i: int| 0 <= i < before.len() && (#[trigger] before[i]).0 == k;
        assert(after[i].0 == k);
    }
}

/// Taking `key` out of its bucket by moving the last entry into its place
/// keeps the bucket in order and loses no other key.
proof fn lemma_bucket_take<V>(
    before: Seq<(H256, V)>,
    after: Seq<(H256, V)>,
    m: Map<H256, V>,
    key: H256,
    at: Option<usize>,
)
    requires
        bucket_ok(before, key.spec_prefix(), m),
        match at {
            Some(i) => i < before.len() && before[i as int].0 == key && after == before.update(
                i as int,
                before.last(),
            ).drop_last(),
            None => !bucket_has(before, key) && after == before,
        },
    ensures
        bucket_ok(after, key.spec_prefix(), m.remove(key)),
        !bucket_has(after, key),
        forall|k: H256| k != key && bucket_has(before, k) ==> bucket_has(after, k),
{
    let m2 = m.remove(key);
    let last = before.len() - 1;
    // Where the entry at `i` in `after` stood in `before`.
    let origin = |i: int|
        match at {
            Some(p) => if i == p {
                last
            } else {
                i
            },
            None => i,
        };
    assert forall|i: int| 0 <= i < after.len() implies 0 <= origin(i) < before.len() && after[i]
        == before[origin(i)] && before[origin(i)].0 != key by {
        match at {
            Some(p) => {
                if origin(i) != p as int {
                    assert(before[origin(i)].0 != before[p as int].0);
                }
            },
            None => {
                assert(before[i].0 != key);
            },
        }
    }
    assert forall|i: int| 0 <= i < after.len() implies ({
        let entry = #[trigger] after[i];
        &&& entry.0.spec_prefix() == key.spec_prefix()
        &&& m2.contains_key(entry.0)
        &&& m2[entry.0] == entry.1
    }) by {
        assert(after[i] == before[origin(i)]);
    }
    assert forall|i: int, j: int|
        0 <= i < after.len() && 0 <= j < after.len() && i != j implies (#[trigger] after[i]).0 != (
    #[trigger] after[j]).0 by {
        assert(after[i] == before[origin(i)]);
        assert(after[j] == before[origin(j)]);
    }
    assert(!bucket_has(after, key)) by {
        if bucket_has(after, key) {
            let i = choose|i: int| 0 <= i < after.len() && (#[trigger] after[i]).0 == key;
            assert(after[i] == before[origin(i)]);
        }
    }
    assert forall|k: H256| k != key && bucket_has(before, k) implies bucket_has(after, k) by {
        let i = choose|i: int| 0 <= i < before.len() && (#[trigger] before[i]).0 == k;
        match at {
            Some(p) => {
                if i == last {
                    assert(after[p as int].0 == k);
                } else {
                    assert(after[i].0 == k);
                }
            },
            None => {
                assert(after[i].0 == k);
            },
        }
    }
}

impl<V: Copy> View for HashStore<V> {
    type V = Map<H256, V>;

    closed spec fn view(&self) -> Map<H256, V> {
        self.contents@
    }
}

impl<V: Copy> HashStore<V> {
    /// Every entry lies in the bucket of its key's prefix, no bucket holds a
    /// key twice, and the entries are exactly the contents.
    pub closed spec fn wf(&self) -> bool {
        &&& forall|b: u64| #[trigger]
            self.buckets@.contains_key(b) ==> bucket_ok(self.buckets@[b]@, b, self.contents@)
        &&& forall|k: H256| #[trigger]
            self.contents@.contains_key(k) ==> self.buckets@.contains_key(k.spec_prefix())
                && bucket_has(self.buckets@[k.spec_prefix()]@, k)
    }

    /// An empty store.
    pub fn new() -> (s: Self)
        ensures
            s.wf(),
            s@ == Map::<H256, V>::empty(),
    {
        HashStore { buckets: HashMap::new(), contents: Ghost(Map::empty()) }
    }

    /// The value stored under `key`, if any.
    pub fn get(&self, key: &H256) -> (r: Option<V>)
        requires
            self.wf(),
        ensures
            r == (if self@.contains_key(*key) {
                Some(self@[*key])
            } else {
                None
            }),
    {
        let b = key.prefix();
        match self.buckets.get(&b) {
            Some(bucket) => {
                assert(bucket_ok(bucket@, b, self.contents@));
                match position(bucket, key) {
                    Some(i) => {
                        assert(bucket@[i as int].0 == *key);
                        Some(bucket[i].1)
                    },
                    None => {
                        assert(!bucket_has(bucket@, *key));
                        None
                    },
                }
            },
            None => None,
        }
    }

    /// Whether a value is stored under `key`.
    pub fn contains(&self, key: &H256) -> (r: bool)
        requires
            self.wf(),
        ensures
            r == self@.contains_key(*key),
    {
        self.get(key).is_some()
    }

    /// Stores `value` under `key`, replacing what was there.
    pub fn insert(&mut self, key: H256, value: V)
        requires
            old(self).wf(),
        ensures
            final(self).wf(),
            final(self)@ == old(self)@.insert(key, value),
    {
        let b = key.prefix();
        let ghost m = self.contents@;
        let ghost old_buckets = self.buckets@;
        let mut bucket: Vec<(H256, V)> = match self.buckets.remove(&b) {
            Some(found) => found,
            None => Vec::new(),
        };
        let ghost before = bucket@;
        assert(bucket_ok(before, b, m));
        let at = position(&bucket, &key);
        match at {
            Some(i) => {
                bucket[i] = (key, value);
            },
            None => {
                bucket.push((key, value));
            },
        }
        proof {
            lemma_bucket_put(before, bucket@, m, key, value, at);
        }
        let ghost after = bucket@;
        self.buckets.insert(b, bucket);
        self.contents = Ghost(m.insert(key, value));
        proof {
            let m2 = m.insert(key, value);
            assert(self.buckets@ == old_buckets.remove(b).insert(b, bucket));
            assert forall|c: u64| #[trigger] self.buckets@.contains_key(c) implies bucket_ok(
                self.buckets@[c]@,
                c,
                m2,
            ) by {
                if c != b {
                    assert(old_buckets.contains_key(c));
                    let other = old_buckets[c]@;
                    assert(bucket_ok(other, c, m));
                    assert forall|i: int| 0 <= i < other.len() implies (#[trigger] other[i]).0
                        != key by {}
                }
            }
            assert forall|k: H256| #[trigger] m2.contains_key(k) implies self.buckets@.contains_key(
                k.spec_prefix(),
            ) && bucket_has(self.buckets@[k.spec_prefix()]@, k) by {
                if k != key {
                    assert(m.contains_key(k));
                    if k.spec_prefix() == b {
                        assert(old_buckets[b]@ == before);
                    }
                }
            }
        }
    }

    /// Removes what is stored under `key`, if anything.
    pub fn remove(&mut self, key: &H256)
        requires
            old(self).wf(),
        ensures
            final(self).wf(),
            final(self)@ == old(self)@.remove(*key),
    {
        let b = key.prefix();
        let ghost m = self.contents@;
        let ghost old_buckets = self.buckets@;
        let mut bucket: Vec<(H256, V)> = match self.buckets.remove(&b) {
            Some(found) => found,
            None => Vec::new(),
        };
        let ghost before = bucket@;
        assert(bucket_ok(before, b, m));
        let at = position(&bucket, key);
        match at {
            Some(i) => {
                bucket.swap_remove(i);
            },
            None => {},
        }
        proof {
            lemma_bucket_take(before, bucket@, m, *key, at);
        }
        let ghost after = bucket@;
        if bucket.len() > 0 {
            self.buckets.insert(b, bucket);
        }
        self.contents = Ghost(m.remove(*key));
        proof {
            let m2 = m.remove(*key);
            assert forall|c: u64| #[trigger] self.buckets@.contains_key(c) implies bucket_ok(
                self.buckets@[c]@,
                c,
                m2,
            ) by {
                if c != b {
                    assert(old_buckets.contains_key(c));
                    let other = old_buckets[c]@;
                    assert(bucket_ok(other, c, m));
                    assert forall|i: int| 0 <= i < other.len() implies (#[trigger] other[i]).0
                        != *key by {}
                }
            }
            assert forall|k: H256| #[trigger] m2.contains_key(k) implies self.buckets@.contains_key(
                k.spec_prefix(),
            ) && bucket_has(self.buckets@[k.spec_prefix()]@, k) by {
                assert(m.contains_key(k));
                if k.spec_prefix() == b {
                    assert(old_buckets[b]@ == before);
                    assert(bucket_has(after, k));
                    assert(after.len() > 0);
                }
            }
        }
    }
}

} // verus!
