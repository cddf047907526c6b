use vstd::prelude::*;

use crate::assoc::{
    assoc_distinct, assoc_map, lemma_assoc_index, lemma_assoc_push, lemma_assoc_update,
};
use crate::bitmap::{rb_new, rb_insert, rb_union, rb_view};
use crate::values::{prim_sat, MetaVal, MetadataValue, PrimitiveOperator};
use crate::values::value_matches;

verus! {

impl MetadataValue {
    /// A copy with the same view.
    pub fn duplicate(&self) -> (r: MetadataValue)
        ensures
            r@ == self@,
    {
        match self {
            MetadataValue::Bool(b) => MetadataValue::Bool(*b),
            MetadataValue::Int(i) => MetadataValue::Int(*i),
            MetadataValue::Float(f) => MetadataValue::Float(*f),
            MetadataValue::Str(s) => MetadataValue::Str(s.clone()),
        }
    }
}

/// An inverted index from metadata value to the set of offsets whose record
/// carries that value, for a single metadata key.
pub struct ValueBitmaps {
    pub entries: Vec<(MetadataValue, roaring::RoaringBitmap)>,
}

/// The map an entry sequence of `ValueBitmaps` describes.
pub open spec fn vb_map(s: Seq<(MetadataValue, roaring::RoaringBitmap)>) -> Map<MetaVal, Set<u32>> {
    assoc_map(
        s,
        |p: (MetadataValue, roaring::RoaringBitmap)| p.0@,
        |p: (MetadataValue, roaring::RoaringBitmap)| rb_view(p.1),
    )
}

impl View for ValueBitmaps {
    type V = Map<MetaVal, Set<u32>>;

    closed spec fn view(&self) -> Map<MetaVal, Set<u32>> {
        vb_map(self.entries@)
    }
}

/// Adding an offset under a value: the value's set gains the offset, every
/// other binding stays.
pub open spec fn map_set_add(m: Map<MetaVal, Set<u32>>, k: MetaVal, o: u32) -> Map<
    MetaVal,
    Set<u32>,
> {
    m.insert(
        k,
        if m.contains_key(k) {
            m[k].insert(o)
        } else {
            Set::empty().insert(o)
        },
    )
}

/// The offsets of every binding whose value satisfies `op` against `q`.
pub open spec fn vb_query(m: Map<MetaVal, Set<u32>>, op: PrimitiveOperator, q: MetaVal) -> Set<
    u32,
> {
    Set::new(
        |o: u32|
            exists|v: MetaVal| #[trigger] m.contains_key(v) && prim_sat(v, op, q) && m[v].contains(
                o,
            ),
    )
}

/// The same query restricted to the first `n` entries of the sequence.
spec fn vb_query_prefix(
    s: Seq<(MetadataValue, roaring::RoaringBitmap)>,
    op: PrimitiveOperator,
    q: MetaVal,
    n: int,
) -> Set<u32> {
    Set::new(
        |o: u32|
            exists|i: int|
                0 <= i < n && prim_sat((#[trigger] s[i]).0@, op, q) && rb_view(s[i].1).contains(o),
    )
}

impl ValueBitmaps {
    pub closed spec fn wf(&self) -> bool {
        &&& assoc_distinct(self.entries@, |p: (MetadataValue, roaring::RoaringBitmap)| p.0@)
        &&& forall|i: int|
            0 <= i < self.entries@.len() ==> rb_view((#[trigger] self.entries@[i]).1).finite()
    }

    pub fn new() -> (r: ValueBitmaps)
        ensures
            r.wf(),
            r@ == Map::<MetaVal, Set<u32>>::empty(),
    {
        let r = ValueBitmaps { entries: Vec::new() };
        proof {
            assert(r@ =~= Map::<MetaVal, Set<u32>>::empty());
        }
        r
    }

    /// The position of the entry for this value, if the index has one.
    fn find(&self, v: &MetadataValue) -> (r: Option<usize>)
        ensures
            match r {
                Some(i) => i < self.entries@.len() && self.entries@[i as int].0@ == v@,
                None => forall|i: int|
                    0 <= i < self.entries@.len() ==> (#[trigger] self.entries@[i]).0@ != v@,
            },
    {
        let n = self.entries.len();
        let mut i: usize = 0;
        while i < n
            invariant
                i <= n,
                n == self.entries@.len(),
                forall|j: int| 0 <= j < i ==> (#[trigger] self.entries@[j]).0@ != v@,
            decreases n - i,
        {
            let p = &self.entries[i];
            if value_matches(&p.0, PrimitiveOperator::Equal, v) {
                return Some(i);
            }
            i += 1;
        }
        None
    }

    /// Insert an offset under a value.
    pub fn add(&mut self, v: &MetadataValue, o: u32)
        requires
            old(self).wf(),
        ensures
            final(self).wf(),
            final(self)@ == map_set_add(old(self)@, v@, o),
    {
        let ghost s0 = self.entries@;
        match self.find(v) {
            Some(i) => {
                proof {
                    lemma_assoc_index(
                        s0,
                        |p: (MetadataValue, roaring::RoaringBitmap)| p.0@,
                        |p: (MetadataValue, roaring::RoaringBitmap)| rb_view(p.1),
                        i as int,
                    );
                }
                let p = &mut self.entries[i];
                rb_insert(&mut p.1, o);
                proof {
                    lemma_assoc_update(
                        s0,
                        |p: (MetadataValue, roaring::RoaringBitmap)| p.0@,
                        |p: (MetadataValue, roaring::RoaringBitmap)| rb_view(p.1),
                        i as int,
                        self.entries@[i as int],
                    );
                }
            },
            None => {
                let mut bm = rb_new();
                rb_insert(&mut bm, o);
                self.entries.push((v.duplicate(), bm));
                proof {
                    lemma_assoc_push(
                        s0,
                        |p: (MetadataValue, roaring::RoaringBitmap)| p.0@,
                        |p: (MetadataValue, roaring::RoaringBitmap)| rb_view(p.1),
                        self.entries@.last(),
                    );
                    assert(final(self)@ =~= map_set_add(old(self)@, v@, o));
                }
            },
        }
    }

    /// The union of the offset sets of every value satisfying `op` against
    /// the queried value.
    pub fn collect_matching(&self, op: PrimitiveOperator, query: &MetadataValue) -> (r:
        roaring::RoaringBitmap)
        requires
            self.wf(),
            !(op is NotEqual),
        ensures
            rb_view(r) == vb_query(self@, op, query@),
            rb_view(r).finite(),
    {
        let mut acc = rb_new();
        let n = self.entries.len();
        let mut i: usize = 0;
        proof {
            assert(rb_view(acc) =~= vb_query_prefix(self.entries@, op, query@, 0));
        }
        while i < n
            invariant
                i <= n,
                n == self.entries@.len(),
                self.wf(),
                !(op is NotEqual),
                rb_view(acc).finite(),
                rb_view(acc) == vb_query_prefix(self.entries@, op, query@, i as int),
            decreases n - i,
        {
            let p = &self.entries[i];
            if value_matches(&p.0, op, query) {
                acc = rb_union(&acc, &p.1);
            }
            proof {
                assert(vb_query_prefix(self.entries@, op, query@, i + 1) =~= if prim_sat(
                    self.entries@[i as int].0@,
                    op,
                    query@,
                ) {
                    vb_query_prefix(self.entries@, op, query@, i as int).union(
                        rb_view(self.entries@[i as int].1),
                    )
                } else {
                    vb_query_prefix(self.entries@, op, query@, i as int)
                });
            }
            i += 1;
        }
        proof {
            let s = self.entries@;
            let kf = |p: (MetadataValue, roaring::RoaringBitmap)| p.0@;
            let vf = |p: (MetadataValue, roaring::RoaringBitmap)| rb_view(p.1);
            assert forall|o: u32| vb_query_prefix(s, op, query@, n as int).contains(o)
                implies vb_query(self@, op, query@).contains(o) by {
                let i = choose|i: int|
                    0 <= i < n && prim_sat((#[trigger] s[i]).0@, op, query@) && rb_view(
                        s[i].1,
                    ).contains(o);
                lemma_assoc_index(s, kf, vf, i);
                assert(self@.contains_key(s[i].0@));
            }
            assert forall|o: u32| vb_query(self@, op, query@).contains(o)
                implies vb_query_prefix(s, op, query@, n as int).contains(o) by {
                let v = choose|v: MetaVal|
                    #[trigger] self@.contains_key(v) && prim_sat(v, op, query@)
                        && self@[v].contains(o);
                let w = choose|w: int| 0 <= w < s.len() && kf(#[trigger] s[w]) == v;
                lemma_assoc_index(s, kf, vf, w);
                assert(prim_sat(s[w].0@, op, query@) && rb_view(s[w].1).contains(o));
            }
            assert(rb_view(acc) =~= vb_query(self@, op, query@));
        }
        acc
    }
}

/// A two-level inverted index: metadata key to value to the set of offsets
/// whose record carries that key-value pair.
pub struct KeyValueIndex {
    pub entries: Vec<(String, ValueBitmaps)>,
}

/// The map an entry sequence of `KeyValueIndex` describes.
pub open spec fn kv_map(s: Seq<(String, ValueBitmaps)>) -> Map<Seq<char>, Map<MetaVal, Set<u32>>> {
    assoc_map(s, |p: (String, ValueBitmaps)| p.0@, |p: (String, ValueBitmaps)| p.1@)
}

impl View for KeyValueIndex {
    type V = Map<Seq<char>, Map<MetaVal, Set<u32>>>;

    closed spec fn view(&self) -> Map<Seq<char>, Map<MetaVal, Set<u32>>> {
        kv_map(self.entries@)
    }
}

/// Adding an offset under a key-value pair: the pair's set gains the offset,
/// every other binding stays.
pub open spec fn kv_add(
    m: Map<Seq<char>, Map<MetaVal, Set<u32>>>,
    k: Seq<char>,
    v: MetaVal,
    o: u32,
) -> Map<Seq<char>, Map<MetaVal, Set<u32>>> {
    m.insert(
        k,
        map_set_add(
            if m.contains_key(k) {
                m[k]
            } else {
                Map::empty()
            },
            v,
            o,
        ),
    )
}

/// The offsets matching `op` against `q` under the key, or nothing when the
/// index has no entry for the key.
pub open spec fn kv_query(
    m: Map<Seq<char>, Map<MetaVal, Set<u32>>>,
    k: Seq<char>,
    op: PrimitiveOperator,
    q: MetaVal,
) -> Set<u32> {
    if m.contains_key(k) {
        vb_query(m[k], op, q)
    } else {
        Set::empty()
    }
}

impl KeyValueIndex {
    pub closed spec fn wf(&self) -> bool {
        &&& assoc_distinct(self.entries@, |p: (String, ValueBitmaps)| p.0@)
        &&& forall|i: int| 0 <= i < self.entries@.len() ==> (#[trigger] self.entries@[i]).1.wf()
    }

    pub fn new() -> (r: KeyValueIndex)
        ensures
            r.wf(),
            r@ == Map::<Seq<char>, Map<MetaVal, Set<u32>>>::empty(),
    {
        let r = KeyValueIndex { entries: Vec::new() };
        proof {
            assert(r@ =~= Map::<Seq<char>, Map<MetaVal, Set<u32>>>::empty());
        }
        r
    }

    /// The position of the entry for this key, if the index has one.
    fn find(&self, key: &String) -> (r: Option<usize>)
        ensures
            match r {
                Some(i) => i < self.entries@.len() && self.entries@[i as int].0@ == key@,
                None => forall|i: int|
                    0 <= i < self.entries@.len() ==> (#[trigger] self.entries@[i]).0@ != key@,
            },
    {
        let n = self.entries.len();
        let mut i: usize = 0;
        while i < n
            invariant
                i <= n,
                n == self.entries@.len(),
                forall|j: int| 0 <= j < i ==> (#[trigger] self.entries@[j]).0@ != key@,
            decreases n - i,
        {
            if self.entries[i].0.eq(key) {
                return Some(i);
            }
            i += 1;
        }
        None
    }

    /// Insert an offset under a key-value pair.
    pub fn add(&mut self, key: &String, v: &MetadataValue, o: u32)
        requires
            old(self).wf(),
        ensures
            final(self).wf(),
            final(self)@ == kv_add(old(self)@, key@, v@, o),
    {
        let ghost s0 = self.entries@;
        let ghost kf = |p: (String, ValueBitmaps)| p.0@;
        let ghost vf = |p: (String, ValueBitmaps)| p.1@;
        match self.find(key) {
            Some(i) => {
                proof {
                    lemma_assoc_index(s0, kf, vf, i as int);
                }
                let p = &mut self.entries[i];
                p.1.add(v, o);
                proof {
                    lemma_assoc_update(s0, kf, vf, i as int, self.entries@[i as int]);
                }
            },
            None => {
                let mut vb = ValueBitmaps::new();
                vb.add(v, o);
                self.entries.push((key.clone(), vb));
                proof {
                    lemma_assoc_push(s0, kf, vf, self.entries@.last());
                    assert(map_set_add(Map::empty(), v@, o) =~= final(self)@[key@]);
                    assert(final(self)@ =~= kv_add(old(self)@, key@, v@, o));
                }
            },
        }
    }

    /// The offsets whose record has the key set to a value satisfying `op`
    /// against the queried value. An unknown key matches nothing.
    pub fn get(&self, key: &String, op: PrimitiveOperator, query: &MetadataValue) -> (r:
        roaring::RoaringBitmap)
        requires
            self.wf(),
            !(op is NotEqual),
        ensures
            rb_view(r) == kv_query(self@, key@, op, query@),
            rb_view(r).finite(),
    {
        let ghost kf = |p: (String, ValueBitmaps)| p.0@;
        let ghost vf = |p: (String, ValueBitmaps)| p.1@;
        match self.find(key) {
            Some(i) => {
                proof {
                    lemma_assoc_index(self.entries@, kf, vf, i as int);
                }
                self.entries[i].1.collect_matching(op, query)
            },
            None => {
                let r = rb_new();
                proof {
                    if self@.contains_key(key@) {
                        let w = choose|w: int|
                            0 <= w < self.entries@.len() && kf(#[trigger] self.entries@[w]) == key@;
                        assert(self.entries@[w].0@ == key@);
                    }
                }
                r
            },
        }
    }
}

} // verus!
