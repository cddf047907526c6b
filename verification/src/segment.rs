use vstd::prelude::*;

use crate::assoc::{assoc_distinct, assoc_map, lemma_assoc_dom, lemma_assoc_index};
use crate::bitmap::{rb_contains, rb_insert, rb_new, rb_to_vec, rb_view};
use crate::index::{kv_query, KeyValueIndex};
use crate::pattern::{regex_matches, Pattern};
use crate::text::{is_substring, str_contains};
use crate::values::{MetaVal, MetadataValue, PrimitiveOperator};

verus! {

/// A committed record as the record segment exposes it: its user id and its
/// optional document.
pub struct SegmentRecord {
    pub user_id: String,
    pub document: Option<String>,
}

/// The mathematical counterpart of `SegmentRecord`.
pub struct SegmentRecordView {
    pub user_id: Seq<char>,
    pub document: Option<Seq<char>>,
}

impl View for SegmentRecord {
    type V = SegmentRecordView;

    open spec fn view(&self) -> SegmentRecordView {
        SegmentRecordView {
            user_id: self.user_id@,
            document: match self.document {
                Some(d) => Some(d@),
                None => None,
            },
        }
    }
}

/// The map an offset-keyed record sequence describes.
pub open spec fn rec_map(s: Seq<(u32, SegmentRecord)>) -> Map<u32, SegmentRecordView> {
    assoc_map(s, |p: (u32, SegmentRecord)| p.0, |p: (u32, SegmentRecord)| p.1@)
}

/// Whether the record at offset `o` exists, has a document, and that
/// document matches the pattern.
pub open spec fn record_doc_matches(m: Map<u32, SegmentRecordView>, pat: Seq<char>, o: u32) -> bool {
    m.contains_key(o) && m[o].document is Some && regex_matches(pat, m[o].document->0)
}

/// Read access to the committed record segment: records keyed by offset.
pub struct RecordSegmentReader {
    pub records: Vec<(u32, SegmentRecord)>,
}

impl View for RecordSegmentReader {
    type V = Map<u32, SegmentRecordView>;

    open spec fn view(&self) -> Map<u32, SegmentRecordView> {
        rec_map(self.records@)
    }
}

impl RecordSegmentReader {
    /// One record per offset, one live record per user id.
    pub open spec fn wf(&self) -> bool {
        &&& assoc_distinct(self.records@, |p: (u32, SegmentRecord)| p.0)
        &&& forall|i: int, j: int|
            0 <= i < j < self.records@.len() ==> (#[trigger] self.records@[i]).1.user_id@ != (
            #[trigger] self.records@[j]).1.user_id@
    }

    /// The number of committed records.
    pub fn count(&self) -> (r: u64)
        requires
            self.wf(),
        ensures
            r == self.records@.len(),
            r == self@.dom().len(),
    {
        proof {
            lemma_assoc_dom(
                self.records@,
                |p: (u32, SegmentRecord)| p.0,
                |p: (u32, SegmentRecord)| p.1@,
            );
        }
        self.records.len() as u64
    }

    /// The record at an offset, if the segment has one.
    pub fn get_data_for_offset_id(&self, o: u32) -> (r: Option<&SegmentRecord>)
        requires
            self.wf(),
        ensures
            (r is Some) == self@.contains_key(o),
            r is Some ==> r.unwrap()@ == self@[o],
    {
        let n = self.records.len();
        let mut i: usize = 0;
        while i < n
            invariant
                i <= n,
                n == self.records@.len(),
                self.wf(),
                forall|t: int| 0 <= t < i ==> (#[trigger] self.records@[t]).0 != o,
            decreases n - i,
        {
            if self.records[i].0 == o {
                proof {
                    lemma_assoc_index(
                        self.records@,
                        |p: (u32, SegmentRecord)| p.0,
                        |p: (u32, SegmentRecord)| p.1@,
                        i as int,
                    );
                }
                return Some(&self.records[i].1);
            }
            i += 1;
        }
        proof {
            if self@.contains_key(o) {
                let w = choose|w: int|
                    0 <= w < self.records@.len() && (#[trigger] self.records@[w]).0 == o;
            }
        }
        None
    }

    /// The offset of the live record with this user id, if any.
    pub fn get_offset_id_for_user_id(&self, uid: &String) -> (r: Option<u32>)
        requires
            self.wf(),
        ensures
            match r {
                Some(o) => self@.contains_key(o) && self@[o].user_id == uid@,
                None => forall|o: u32|
                    self@.contains_key(o) ==> (#[trigger] self@[o]).user_id != uid@,
            },
    {
        let n = self.records.len();
        let mut i: usize = 0;
        while i < n
            invariant
                i <= n,
                n == self.records@.len(),
                self.wf(),
                forall|t: int| 0 <= t < i ==> (#[trigger] self.records@[t]).1.user_id@ != uid@,
            decreases n - i,
        {
            if self.records[i].1.user_id.eq(uid) {
                proof {
                    lemma_assoc_index(
                        self.records@,
                        |p: (u32, SegmentRecord)| p.0,
                        |p: (u32, SegmentRecord)| p.1@,
                        i as int,
                    );
                }
                return Some(self.records[i].0);
            }
            i += 1;
        }
        proof {
            assert forall|o: u32| self@.contains_key(o) implies (#[trigger] self@[o]).user_id
                != uid@ by {
                let w = choose|w: int|
                    0 <= w < self.records@.len() && (#[trigger] self.records@[w]).0 == o;
                lemma_assoc_index(
                    self.records@,
                    |p: (u32, SegmentRecord)| p.0,
                    |p: (u32, SegmentRecord)| p.1@,
                    w,
                );
            }
        }
        None
    }

    /// Every committed offset, as a bitmap.
    pub fn all_offsets(&self) -> (r: roaring::RoaringBitmap)
        requires
            self.wf(),
        ensures
            rb_view(r) == self@.dom(),
            rb_view(r).finite(),
    {
        let mut acc = rb_new();
        let n = self.records.len();
        let mut i: usize = 0;
        proof {
            assert(rb_view(acc) =~= Set::new(
                |o: u32| exists|t: int| 0 <= t < 0 && (#[trigger] self.records@[t]).0 == o,
            ));
        }
        while i < n
            invariant
                i <= n,
                n == self.records@.len(),
                self.wf(),
                rb_view(acc).finite(),
                rb_view(acc) == Set::new(
                    |o: u32| exists|t: int| 0 <= t < i && (#[trigger] self.records@[t]).0 == o,
                ),
            decreases n - i,
        {
            rb_insert(&mut acc, self.records[i].0);
            proof {
                assert(rb_view(acc) =~= Set::new(
                    |o: u32|
                        exists|t: int| 0 <= t < i + 1 && (#[trigger] self.records@[t]).0 == o,
                ));
            }
            i += 1;
        }
        proof {
            assert(rb_view(acc) =~= self@.dom());
        }
        acc
    }

    /// The candidates whose committed document matches the pattern, found
    /// by a point lookup of each candidate offset.
    pub fn matching_by_lookup(&self, p: &Pattern, cands: &roaring::RoaringBitmap) -> (r:
        roaring::RoaringBitmap)
        requires
            self.wf(),
            p.wf(),
        ensures
            rb_view(r) == Set::new(
                |o: u32|
                    rb_view(*cands).contains(o) && record_doc_matches(self@, p.text_view(), o),
            ),
            rb_view(r).finite(),
    {
        let ids = rb_to_vec(cands);
        let mut acc = rb_new();
        let n = ids.len();
        let mut i: usize = 0;
        proof {
            assert(rb_view(acc) =~= Set::new(
                |o: u32|
                    exists|t: int|
                        0 <= t < 0 && ids@[t] == o && record_doc_matches(self@, p.text_view(), o),
            ));
        }
        while i < n
            invariant
                i <= n,
                n == ids@.len(),
                self.wf(),
                p.wf(),
                forall|t: int| 0 <= t < n ==> rb_view(*cands).contains(#[trigger] ids@[t]),
                forall|o: u32| rb_view(*cands).contains(o) ==> ids@.contains(o),
                rb_view(acc).finite(),
                rb_view(acc) == Set::new(
                    |o: u32|
                        exists|t: int|
                            0 <= t < i && ids@[t] == o && record_doc_matches(
                                self@,
                                p.text_view(),
                                o,
                            ),
                ),
            decreases n - i,
        {
            let o = ids[i];
            let mut hit = false;
            match self.get_data_for_offset_id(o) {
                Some(rec) => match &rec.document {
                    Some(d) => {
                        if p.matches(d.as_str()) {
                            hit = true;
                        }
                    },
                    None => {},
                },
                None => {},
            }
            if hit {
                rb_insert(&mut acc, o);
            }
            proof {
                assert(rb_view(acc) =~= Set::new(
                    |o: u32|
                        exists|t: int|
                            0 <= t < i + 1 && ids@[t] == o && record_doc_matches(
                                self@,
                                p.text_view(),
                                o,
                            ),
                ));
            }
            i += 1;
        }
        proof {
            assert forall|o: u32|
                rb_view(*cands).contains(o) && record_doc_matches(self@, p.text_view(), o)
                implies rb_view(acc).contains(o) by {
                let t = choose|t: int| 0 <= t < ids@.len() && ids@[t] == o;
            }
            assert(rb_view(acc) =~= Set::new(
                |o: u32|
                    rb_view(*cands).contains(o) && record_doc_matches(self@, p.text_view(), o),
            ));
        }
        acc
    }

    /// The candidates whose committed document matches the pattern, found
    /// by streaming every record and testing each.
    pub fn matching_by_scan(&self, p: &Pattern, cands: &roaring::RoaringBitmap) -> (r:
        roaring::RoaringBitmap)
        requires
            self.wf(),
            p.wf(),
        ensures
            rb_view(r) == Set::new(
                |o: u32|
                    rb_view(*cands).contains(o) && record_doc_matches(self@, p.text_view(), o),
            ),
            rb_view(r).finite(),
    {
        let mut acc = rb_new();
        let n = self.records.len();
        let mut i: usize = 0;
        proof {
            assert(rb_view(acc) =~= Set::new(
                |o: u32|
                    exists|t: int|
                        0 <= t < 0 && (#[trigger] self.records@[t]).0 == o && rb_view(
                            *cands,
                        ).contains(o) && record_doc_matches(self@, p.text_view(), o),
            ));
        }
        while i < n
            invariant
                i <= n,
                n == self.records@.len(),
                self.wf(),
                p.wf(),
                rb_view(acc).finite(),
                rb_view(acc) == Set::new(
                    |o: u32|
                        exists|t: int|
                            0 <= t < i && (#[trigger] self.records@[t]).0 == o && rb_view(
                                *cands,
                            ).contains(o) && record_doc_matches(self@, p.text_view(), o),
                ),
            decreases n - i,
        {
            let o = self.records[i].0;
            proof {
                lemma_assoc_index(
                    self.records@,
                    |p: (u32, SegmentRecord)| p.0,
                    |p: (u32, SegmentRecord)| p.1@,
                    i as int,
                );
            }
            if rb_contains(cands, o) {
                match &self.records[i].1.document {
                    Some(d) => {
                        if p.matches(d.as_str()) {
                            rb_insert(&mut acc, o);
                        }
                    },
                    None => {},
                }
            }
            proof {
                assert(rb_view(acc) =~= Set::new(
                    |o: u32|
                        exists|t: int|
                            0 <= t < i + 1 && (#[trigger] self.records@[t]).0 == o && rb_view(
                                *cands,
                            ).contains(o) && record_doc_matches(self@, p.text_view(), o),
                ));
            }
            i += 1;
        }
        proof {
            assert forall|o: u32|
                rb_view(*cands).contains(o) && record_doc_matches(self@, p.text_view(), o)
                implies rb_view(acc).contains(o) by {
                let w = choose|w: int|
                    0 <= w < self.records@.len() && (#[trigger] self.records@[w]).0 == o;
            }
            assert(rb_view(acc) =~= Set::new(
                |o: u32|
                    rb_view(*cands).contains(o) && record_doc_matches(self@, p.text_view(), o),
            ));
        }
        acc
    }
}

/// The full-text index over the committed documents. This in-memory index
/// stores each document whole, so a substring search is exact and a pattern
/// can always be evaluated against the indexed documents themselves.
pub struct FullTextIndex {
    pub documents: Vec<(u32, String)>,
}

/// The map a document sequence describes.
pub open spec fn ft_map(s: Seq<(u32, String)>) -> Map<u32, Seq<char>> {
    assoc_map(s, |p: (u32, String)| p.0, |p: (u32, String)| p.1@)
}

impl View for FullTextIndex {
    type V = Map<u32, Seq<char>>;

    open spec fn view(&self) -> Map<u32, Seq<char>> {
        ft_map(self.documents@)
    }
}

impl FullTextIndex {
    pub open spec fn wf(&self) -> bool {
        assoc_distinct(self.documents@, |p: (u32, String)| p.0)
    }

    /// The offsets whose indexed document contains the query as a
    /// substring.
    pub fn search(&self, query: &str) -> (r: roaring::RoaringBitmap)
        requires
            self.wf(),
        ensures
            rb_view(r) == Set::new(
                |o: u32| self@.contains_key(o) && is_substring(query@, self@[o]),
            ),
            rb_view(r).finite(),
    {
        let mut acc = rb_new();
        let n = self.documents.len();
        let mut i: usize = 0;
        proof {
            assert(rb_view(acc) =~= Set::new(
                |o: u32|
                    exists|t: int|
                        0 <= t < 0 && (#[trigger] self.documents@[t]).0 == o && is_substring(
                            query@,
                            self.documents@[t].1@,
                        ),
            ));
        }
        while i < n
            invariant
                i <= n,
                n == self.documents@.len(),
                self.wf(),
                rb_view(acc).finite(),
                rb_view(acc) == Set::new(
                    |o: u32|
                        exists|t: int|
                            0 <= t < i && (#[trigger] self.documents@[t]).0 == o && is_substring(
                                query@,
                                self.documents@[t].1@,
                            ),
                ),
            decreases n - i,
        {
            if str_contains(self.documents[i].1.as_str(), query) {
                rb_insert(&mut acc, self.documents[i].0);
            }
            proof {
                assert(rb_view(acc) =~= Set::new(
                    |o: u32|
                        exists|t: int|
                            0 <= t < i + 1 && (#[trigger] self.documents@[t]).0 == o
                                && is_substring(query@, self.documents@[t].1@),
                ));
            }
            i += 1;
        }
        proof {
            let kf = |p: (u32, String)| p.0;
            let vf = |p: (u32, String)| p.1@;
            assert forall|o: u32| self@.contains_key(o) && is_substring(query@, self@[o])
                implies rb_view(acc).contains(o) by {
                let w = choose|w: int|
                    0 <= w < self.documents@.len() && kf(#[trigger] self.documents@[w]) == o;
                lemma_assoc_index(self.documents@, kf, vf, w);
            }
            assert forall|o: u32| rb_view(acc).contains(o) implies self@.contains_key(o)
                && is_substring(query@, self@[o]) by {
                let t = choose|t: int|
                    0 <= t < self.documents@.len() && (#[trigger] self.documents@[t]).0 == o
                        && is_substring(query@, self.documents@[t].1@);
                lemma_assoc_index(self.documents@, kf, vf, t);
            }
            assert(rb_view(acc) =~= Set::new(
                |o: u32| self@.contains_key(o) && is_substring(query@, self@[o]),
            ));
        }
        acc
    }

    /// The candidate offsets for a pattern. The index evaluates the pattern
    /// against each stored document, so the candidates are exactly the
    /// matches among the indexed documents.
    pub fn regex_candidates(&self, p: &Pattern) -> (r: roaring::RoaringBitmap)
        requires
            self.wf(),
            p.wf(),
        ensures
            rb_view(r) == Set::new(
                |o: u32| self@.contains_key(o) && regex_matches(p.text_view(), self@[o]),
            ),
            rb_view(r).finite(),
    {
        let mut acc = rb_new();
        let n = self.documents.len();
        let mut i: usize = 0;
        proof {
            assert(rb_view(acc) =~= Set::new(
                |o: u32|
                    exists|t: int|
                        0 <= t < 0 && (#[trigger] self.documents@[t]).0 == o && regex_matches(
                            p.text_view(),
                            self.documents@[t].1@,
                        ),
            ));
        }
        while i < n
            invariant
                i <= n,
                n == self.documents@.len(),
                self.wf(),
                p.wf(),
                rb_view(acc).finite(),
                rb_view(acc) == Set::new(
                    |o: u32|
                        exists|t: int|
                            0 <= t < i && (#[trigger] self.documents@[t]).0 == o && regex_matches(
                                p.text_view(),
                                self.documents@[t].1@,
                            ),
                ),
            decreases n - i,
        {
            if p.matches(self.documents[i].1.as_str()) {
                rb_insert(&mut acc, self.documents[i].0);
            }
            proof {
                assert(rb_view(acc) =~= Set::new(
                    |o: u32|
                        exists|t: int|
                            0 <= t < i + 1 && (#[trigger] self.documents@[t]).0 == o
                                && regex_matches(p.text_view(), self.documents@[t].1@),
                ));
            }
            i += 1;
        }
        proof {
            let kf = |p: (u32, String)| p.0;
            let vf = |p: (u32, String)| p.1@;
            assert forall|o: u32|
                self@.contains_key(o) && regex_matches(p.text_view(), self@[o]) implies rb_view(
                acc,
            ).contains(o) by {
                let w = choose|w: int|
                    0 <= w < self.documents@.len() && kf(#[trigger] self.documents@[w]) == o;
                lemma_assoc_index(self.documents@, kf, vf, w);
            }
            assert forall|o: u32| rb_view(acc).contains(o) implies self@.contains_key(o)
                && regex_matches(p.text_view(), self@[o]) by {
                let t = choose|t: int|
                    0 <= t < self.documents@.len() && (#[trigger] self.documents@[t]).0 == o
                        && regex_matches(p.text_view(), self.documents@[t].1@);
                lemma_assoc_index(self.documents@, kf, vf, t);
            }
            assert(rb_view(acc) =~= Set::new(
                |o: u32| self@.contains_key(o) && regex_matches(p.text_view(), self@[o]),
            ));
        }
        acc
    }
}

/// Read access to the committed metadata segment: one optional typed column
/// index per value variant, and an optional full-text index. An absent
/// index matches nothing.
pub struct MetadataSegmentReader {
    pub bool_index: Option<KeyValueIndex>,
    pub int_index: Option<KeyValueIndex>,
    pub float_index: Option<KeyValueIndex>,
    pub string_index: Option<KeyValueIndex>,
    pub full_text_index: Option<FullTextIndex>,
}

impl MetadataSegmentReader {
    pub open spec fn wf(&self) -> bool {
        &&& (self.bool_index matches Some(ix) ==> ix.wf())
        &&& (self.int_index matches Some(ix) ==> ix.wf())
        &&& (self.float_index matches Some(ix) ==> ix.wf())
        &&& (self.string_index matches Some(ix) ==> ix.wf())
        &&& (self.full_text_index matches Some(ft) ==> ft.wf())
    }

    /// The column index the variant of the queried value dispatches to.
    pub open spec fn column_view(&self, q: MetaVal) -> Option<KeyValueIndex> {
        match q {
            MetaVal::Bool(_) => self.bool_index,
            MetaVal::Int(_) => self.int_index,
            MetaVal::Float(_) => self.float_index,
            MetaVal::Str(_) => self.string_index,
        }
    }

    /// What a comparison lookup returns: the matching offsets of the
    /// value's typed column, or nothing when that column is absent.
    pub open spec fn compare_view(&self, k: Seq<char>, op: PrimitiveOperator, q: MetaVal) -> Set<
        u32,
    > {
        match self.column_view(q) {
            Some(ix) => kv_query(ix@, k, op, q),
            None => Set::empty(),
        }
    }

    /// Comparison lookup on typed metadata: dispatch by the value's variant
    /// to the segment's per-type column index.
    pub fn compare(&self, key: &String, val: &MetadataValue, op: PrimitiveOperator) -> (r:
        roaring::RoaringBitmap)
        requires
            self.wf(),
            !(op is NotEqual),
        ensures
            rb_view(r) == self.compare_view(key@, op, val@),
            rb_view(r).finite(),
    {
        let col: &Option<KeyValueIndex> = match val {
            MetadataValue::Bool(_) => &self.bool_index,
            MetadataValue::Int(_) => &self.int_index,
            MetadataValue::Float(_) => &self.float_index,
            MetadataValue::Str(_) => &self.string_index,
        };
        match col {
            Some(ix) => ix.get(key, op, val),
            None => rb_new(),
        }
    }
}

} // verus!
