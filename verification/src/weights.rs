//! The table of effect weights, keyed by normalized chromosome label and
//! 1-based position.
//!
//! A weight is carried as the bit pattern of a single-precision number. The
//! table stores and returns the pattern untouched and never computes with it.

use crate::text::{same_text, to_chars};
use std::collections::HashMap;
use vstd::prelude::*;

verus! {

/// What a table holds: the weight bit pattern under each (chromosome label,
/// position).
pub type WeightMap = Map<(Seq<char>, u32), u32>;

/// One weight of a position, with the chromosome it belongs to.
pub struct WeightEntry {
    pub chromosome: Vec<char>,
    pub weight_bits: u32,
}

/// The weight that `bucket` holds for `chromosome`: that of the last entry
/// with this label, if there is one.
pub open spec fn bucket_weight(bucket: Seq<WeightEntry>, chromosome: Seq<char>) -> Option<u32>
    decreases bucket.len(),
{
    if bucket.len() == 0 {
        None
    } else if bucket.last().chromosome@ == chromosome {
        Some(bucket.last().weight_bits)
    } else {
        bucket_weight(bucket.drop_last(), chromosome)
    }
}

/// No two entries of `bucket` carry the same chromosome label.
pub open spec fn distinct_labels(bucket: Seq<WeightEntry>) -> bool {
    forall|i: int, j: int|
        0 <= i < j < bucket.len() ==> (#[trigger] bucket[i]).chromosome@ != (
        #[trigger] bucket[j]).chromosome@
}

/// Taking out an entry changes nothing for the other labels.
pub proof fn lemma_bucket_weight_remove(bucket: Seq<WeightEntry>, at: int, chromosome: Seq<char>)
    requires
        0 <= at < bucket.len(),
        bucket[at].chromosome@ != chromosome,
    ensures
        bucket_weight(bucket.remove(at), chromosome) == bucket_weight(bucket, chromosome),
    decreases bucket.len(),
{
    if at == bucket.len() - 1 {
        assert(bucket.remove(at) =~= bucket.drop_last());
    } else {
        assert(bucket.remove(at).drop_last() =~= bucket.drop_last().remove(at));
        assert(bucket.remove(at).last() == bucket.last());
        if bucket.last().chromosome@ != chromosome {
            lemma_bucket_weight_remove(bucket.drop_last(), at, chromosome);
        }
    }
}

/// Effect weights by (chromosome label, position).
///
/// The entries are grouped by position; within a group each chromosome label
/// occurs once.
pub struct WeightTable {
    buckets: HashMap<u32, Vec<WeightEntry>>,
}

impl View for WeightTable {
    type V = WeightMap;

    closed spec fn view(&self) -> WeightMap {
        Map::new(
            |key: (Seq<char>, u32)| self.weight_at(key.0, key.1) is Some,
            |key: (Seq<char>, u32)| self.weight_at(key.0, key.1)->0,
        )
    }
}

impl WeightTable {
    /// The weight stored under a key, read off the groups.
    pub closed spec fn weight_at(&self, chromosome: Seq<char>, position: u32) -> Option<u32> {
        if self.buckets@.contains_key(position) {
            bucket_weight(self.buckets@[position]@, chromosome)
        } else {
            None
        }
    }

    /// Within every group each chromosome label occurs once.
    pub closed spec fn wf(&self) -> bool {
        forall|position: u32| #[trigger]
            self.buckets@.contains_key(position) ==> distinct_labels(self.buckets@[position]@)
    }

    /// A table without weights.
    pub fn new() -> (table: WeightTable)
        ensures
            table@ == WeightMap::empty(),
            table.wf(),
    {
        let table = WeightTable { buckets: HashMap::new() };
        proof {
            assert(table@ =~= WeightMap::empty());
        }
        table
    }

    /// Stores `weight_bits` under (`chromosome`, `position`), replacing the
    /// weight that the key had, if any.
    pub fn insert(&mut self, chromosome: &str, position: u32, weight_bits: u32)
        ensures
            final(self)@ == old(self)@.insert((chromosome@, position), weight_bits),
            old(self).wf() ==> final(self).wf(),
    {
        broadcast use vstd::std_specs::hash::group_hash_axioms;

        let label = to_chars(chromosome);
        let mut bucket: Vec<WeightEntry> = match self.buckets.remove(&position) {
            Some(found) => found,
            None => Vec::new(),
        };
        let ghost before = bucket@;
        assert(old(self).wf() ==> distinct_labels(before));
        let mut i: usize = 0;
        let mut at: Option<usize> = None;
        while i < bucket.len()
            invariant
                i <= bucket@.len(),
                bucket@ == before,
                match at {
                    Some(k) => k < i && bucket@[k as int].chromosome@ == label@,
                    None => forall|j: int|
                        0 <= j < i ==> (#[trigger] bucket@[j]).chromosome@ != label@,
                },
            decreases bucket@.len() - i,
        {
            if same_text(bucket[i].chromosome.as_slice(), label.as_slice()) {
                at = Some(i);
            }
            i = i + 1;
        }
        match at {
            Some(k) => {
                let _ = bucket.remove(k);
                proof {
                    assert forall|c: Seq<char>| c != label@ implies bucket_weight(bucket@, c)
                        == bucket_weight(before, c) by {
                        lemma_bucket_weight_remove(before, k as int, c);
                    }
                    assert forall|a: int|
                        distinct_labels(before) && 0 <= a < bucket@.len() implies (
                    #[trigger] bucket@[a]).chromosome@ != label@ by {
                        let a0 = if a < k { a } else { a + 1 };
                        assert(bucket@[a] == before[a0]);
                    }
                    assert(distinct_labels(before) ==> distinct_labels(bucket@)) by {
                        assert forall|a: int, b: int|
                            distinct_labels(before) && 0 <= a < b < bucket@.len() implies (
                        #[trigger] bucket@[a]).chromosome@ != (#[trigger] bucket@[b]).chromosome@ by {
                            let a0 = if a < k { a } else { a + 1 };
                            let b0 = if b < k { b } else { b + 1 };
                            assert(bucket@[a] == before[a0]);
                            assert(bucket@[b] == before[b0]);
                        }
                    }
                }
            },
            None => {},
        }
        let ghost trimmed = bucket@;
        assert(distinct_labels(before) ==> distinct_labels(trimmed) && forall|a: int|
            0 <= a < trimmed.len() ==> (#[trigger] trimmed[a]).chromosome@ != label@);
        bucket.push(WeightEntry { chromosome: label, weight_bits });
        proof {
            assert(bucket@.drop_last() =~= trimmed);
            assert(distinct_labels(before) ==> distinct_labels(bucket@)) by {
                assert forall|a: int, b: int|
                    distinct_labels(before) && 0 <= a < b < bucket@.len() implies (
                #[trigger] bucket@[a]).chromosome@ != (#[trigger] bucket@[b]).chromosome@ by {
                    assert(bucket@[a] == trimmed[a]);
                    if b < trimmed.len() {
                        assert(bucket@[b] == trimmed[b]);
                    }
                }
            }
        }
        let ghost after = bucket@;
        let _ = self.buckets.insert(position, bucket);
        proof {
            assert(self.buckets@ == old(self).buckets@.remove(position).insert(position, bucket));
            assert forall|key: (Seq<char>, u32)|
                self.weight_at(key.0, key.1) == (if key == (chromosome@, position) {
                    Some(weight_bits)
                } else {
                    old(self).weight_at(key.0, key.1)
                }) by {
                if key.1 == position && key.0 != label@ {
                    assert(bucket_weight(after, key.0) == bucket_weight(trimmed, key.0));
                }
            }
            assert(self@ =~= old(self)@.insert((chromosome@, position), weight_bits));
        }
    }

    /// Looks up the weight stored under (`chromosome`, `position`).
    pub fn get(&self, chromosome: &[char], position: u32) -> (weight: Option<u32>)
        ensures
            weight == (if self@.contains_key((chromosome@, position)) {
                Some(self@[(chromosome@, position)])
            } else {
                None::<u32>
            }),
    {
        broadcast use vstd::std_specs::hash::group_hash_axioms;

        match self.buckets.get(&position) {
            None => None,
            Some(bucket) => {
                let mut weight: Option<u32> = None;
                let mut i: usize = 0;
                proof {
                    assert(bucket@.take(0) =~= Seq::<WeightEntry>::empty());
                }
                while i < bucket.len()
                    invariant
                        i <= bucket@.len(),
                        weight == bucket_weight(bucket@.take(i as int), chromosome@),
                    decreases bucket@.len() - i,
                {
                    proof {
                        assert(bucket@.take(i + 1).drop_last() =~= bucket@.take(i as int));
                    }
                    if same_text(bucket[i].chromosome.as_slice(), chromosome) {
                        weight = Some(bucket[i].weight_bits);
                    }
                    i = i + 1;
                }
                proof {
                    assert(bucket@.take(i as int) =~= bucket@);
                }
                weight
            },
        }
    }
}

} // verus!
