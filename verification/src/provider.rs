use vstd::prelude::*;

use crate::bitmap::{rb_len, rb_new, rb_view};
use crate::errors::FilterError;
use crate::index::kv_query;
use crate::logview::{
    doc_matches, log_doc, log_kv, log_wf, meta_matches, LogEntry, MetadataLogReader,
};
use crate::pattern::{regex_accepted, regex_matches, Pattern};
use crate::segment::{
    record_doc_matches, MetadataSegmentReader, RecordSegmentReader, SegmentRecordView,
};
use crate::text::is_substring;
use crate::values::{prim_sat, MetaVal, MetadataValue, PrimitiveOperator};

verus! {

/// What a provider answers, mathematically: a comparison lookup, a
/// substring lookup and a regular-expression lookup, each a set of offsets.
pub struct ProviderSpec {
    pub compare: spec_fn(Seq<char>, PrimitiveOperator, MetaVal) -> Set<u32>,
    pub contains: spec_fn(Seq<char>) -> Set<u32>,
    pub regex: spec_fn(Seq<char>) -> Set<u32>,
}

/// The full-text index indexes exactly the committed documents: it holds an
/// offset exactly when the record segment has a record with a document
/// there, and then it stores that document.
pub open spec fn ft_matches_records(
    ft: Map<u32, Seq<char>>,
    rm: Map<u32, SegmentRecordView>,
) -> bool {
    &&& forall|o: u32| #[trigger]
        ft.contains_key(o) <==> (rm.contains_key(o) && rm[o].document is Some)
    &&& forall|o: u32| ft.contains_key(o) ==> #[trigger] ft[o] == rm[o].document->0
}

/// The polymorphic metadata façade: the same three lookups answered either
/// from the committed segment's indexes and records, or from the log view.
pub enum MetadataProvider<'me> {
    CompactData(&'me MetadataSegmentReader, &'me Option<RecordSegmentReader>),
    Log(&'me MetadataLogReader),
}

impl<'me> MetadataProvider<'me> {
    pub open spec fn wf(self) -> bool {
        match self {
            MetadataProvider::Log(lr) => lr.wf(),
            MetadataProvider::CompactData(ms, rr) => {
                &&& ms.wf()
                &&& (*rr matches Some(r) ==> r.wf())
                &&& match (ms.full_text_index, *rr) {
                    (Some(ft), Some(r)) => ft_matches_records(ft@, r@),
                    _ => true,
                }
            },
        }
    }

    /// The provider's mathematical behavior. Both variants honor the same
    /// shape; an absent segment index answers the empty set.
    pub open spec fn model(self) -> ProviderSpec {
        match self {
            MetadataProvider::Log(lr) => ProviderSpec {
                compare: |k: Seq<char>, op: PrimitiveOperator, q: MetaVal|
                    kv_query(lr.meta_view(), k, op, q),
                contains: |q: Seq<char>|
                    Set::new(
                        |o: u32|
                            lr.doc_view().contains_key(o) && is_substring(q, lr.doc_view()[o]),
                    ),
                regex: |q: Seq<char>|
                    Set::new(
                        |o: u32|
                            lr.doc_view().contains_key(o) && regex_matches(q, lr.doc_view()[o]),
                    ),
            },
            MetadataProvider::CompactData(ms, rr) => ProviderSpec {
                compare: |k: Seq<char>, op: PrimitiveOperator, q: MetaVal|
                    ms.compare_view(k, op, q),
                contains: |q: Seq<char>|
                    match ms.full_text_index {
                        Some(ft) => Set::new(
                            |o: u32| ft@.contains_key(o) && is_substring(q, ft@[o]),
                        ),
                        None => Set::empty(),
                    },
                regex: |q: Seq<char>|
                    match (ms.full_text_index, *rr) {
                        (Some(_), Some(rec)) => Set::new(
                            |o: u32| record_doc_matches(rec@, q, o),
                        ),
                        _ => Set::empty(),
                    },
            },
        }
    }

    /// Comparison lookup on typed metadata: the offsets whose record has
    /// the key set to a value satisfying `op` relative to `val`. `NotEqual`
    /// is desugared at the evaluator and never reaches this level.
    pub fn filter_by_metadata(&self, key: &String, val: &MetadataValue, op: PrimitiveOperator) -> (r:
        roaring::RoaringBitmap)
        requires
            self.wf(),
            !(op is NotEqual),
        ensures
            rb_view(r) == (self.model().compare)(key@, op, val@),
            rb_view(r).finite(),
    {
        match self {
            MetadataProvider::CompactData(ms, _) => ms.compare(key, val, op),
            MetadataProvider::Log(lr) => lr.get(key, val, op),
        }
    }

    /// Substring lookup: the offsets whose document contains the query.
    /// The segment side asks its full-text index and answers the empty set
    /// without one; the log side scans its document map.
    pub fn filter_by_document_contains(&self, query: &str) -> (r: roaring::RoaringBitmap)
        requires
            self.wf(),
        ensures
            rb_view(r) == (self.model().contains)(query@),
            rb_view(r).finite(),
    {
        match self {
            MetadataProvider::CompactData(ms, _) => match &ms.full_text_index {
                Some(ft) => ft.search(query),
                None => rb_new(),
            },
            MetadataProvider::Log(lr) => lr.documents_containing(query),
        }
    }

    /// Regular-expression lookup: the offsets whose document matches the
    /// pattern, or the parse failure. The log side scans its document map.
    /// The segment side asks the full-text index for candidates, returns
    /// them outright when the pattern is an exact predicate (no look-around
    /// assertions; this in-memory index always matches its literal
    /// expression exactly), and otherwise verifies them: by point lookups
    /// when the candidates are fewer than a tenth of the record count, by a
    /// full stream otherwise. Without the index and the record reader it
    /// answers the empty set.
    pub fn filter_by_document_regex(&self, query: &str) -> (r: Result<
        roaring::RoaringBitmap,
        FilterError,
    >)
        requires
            self.wf(),
        ensures
            (r is Ok) == regex_accepted(query@),
            r is Ok ==> rb_view(r.unwrap()) == (self.model().regex)(query@) && rb_view(
                r.unwrap(),
            ).finite(),
            r is Err ==> r->Err_0 is Regex,
    {
        let p = match Pattern::compile(query) {
            Ok(p) => p,
            Err(msg) => {
                return Err(FilterError::Regex(msg));
            },
        };
        match self {
            MetadataProvider::CompactData(ms, rr) => {
                match (&ms.full_text_index, rr) {
                    (Some(ft), Some(rec)) => {
                        let candidates = ft.regex_candidates(&p);
                        let is_exact = !p.uses_look();
                        if is_exact {
                            proof {
                                assert(rb_view(candidates) =~= Set::new(
                                    |o: u32| record_doc_matches(rec@, query@, o),
                                ));
                            }
                            Ok(candidates)
                        } else {
                            let candidate_count = rb_len(&candidates);
                            let total = rec.count();
                            let res = if candidate_count < total / 10 {
                                rec.matching_by_lookup(&p, &candidates)
                            } else {
                                rec.matching_by_scan(&p, &candidates)
                            };
                            proof {
                                assert(rb_view(res) =~= Set::new(
                                    |o: u32| record_doc_matches(rec@, query@, o),
                                ));
                            }
                            Ok(res)
                        }
                    },
                    _ => Ok(rb_new()),
                }
            },
            MetadataProvider::Log(lr) => Ok(lr.documents_matching(&p)),
        }
    }
}

/// Two provider behaviors that agree pointwise.
pub open spec fn provider_equiv(m1: ProviderSpec, m2: ProviderSpec) -> bool {
    &&& forall|k: Seq<char>, op: PrimitiveOperator, q: MetaVal|
        #![trigger (m1.compare)(k, op, q)]
        #![trigger (m2.compare)(k, op, q)]
        (m1.compare)(k, op, q) == (m2.compare)(k, op, q)
    &&& forall|q: Seq<char>|
        #![trigger (m1.contains)(q)]
        #![trigger (m2.contains)(q)]
        (m1.contains)(q) == (m2.contains)(q)
    &&& forall|q: Seq<char>|
        #![trigger (m1.regex)(q)]
        #![trigger (m2.regex)(q)]
        (m1.regex)(q) == (m2.regex)(q)
}

/// The log provider's behavior, stated over the log entries themselves: a
/// comparison returns the offsets of live entries carrying a satisfying
/// value under the key, and the document lookups scan the live documents.
pub open spec fn log_model(logs: Seq<LogEntry>) -> ProviderSpec {
    ProviderSpec {
        compare: |k: Seq<char>, op: PrimitiveOperator, q: MetaVal|
            Set::new(
                |o: u32|
                    exists|v: MetaVal| #[trigger] log_kv(logs, k, v, o) && prim_sat(v, op, q),
            ),
        contains: |q: Seq<char>|
            Set::new(
                |o: u32|
                    exists|d: Seq<char>| #[trigger] log_doc(logs, o, d) && is_substring(q, d),
            ),
        regex: |q: Seq<char>|
            Set::new(
                |o: u32|
                    exists|d: Seq<char>| #[trigger] log_doc(logs, o, d) && regex_matches(q, d),
            ),
    }
}

/// A log-backed provider whose view matches these entries behaves as
/// `log_model` of the entries.
pub proof fn lemma_log_model_agrees(p: MetadataProvider, logs: Seq<LogEntry>)
    requires
        p matches MetadataProvider::Log(lr) && lr.wf() && doc_matches(lr.doc_view(), logs)
            && meta_matches(lr.meta_view(), logs),
        log_wf(logs),
    ensures
        provider_equiv(p.model(), log_model(logs)),
{
    let lr = p->Log_0;
    let m1 = p.model();
    let m2 = log_model(logs);
    let mv = lr.meta_view();
    let r = |k: Seq<char>, v: MetaVal, o: u32| log_kv(logs, k, v, o);
    assert forall|k: Seq<char>, op: PrimitiveOperator, q: MetaVal| #[trigger] (m1.compare)(
        k,
        op,
        q,
    ) == (m2.compare)(k, op, q) by {
        assert forall|o: u32| #![trigger (m1.compare)(k, op, q).contains(o)]
            (m1.compare)(k, op, q).contains(o) implies (m2.compare)(k, op, q).contains(o) by {
            let v = choose|v: MetaVal|
                #[trigger] mv[k].contains_key(v) && prim_sat(v, op, q) && mv[k][v].contains(o);
            assert(mv.contains_key(k) && mv[k].contains_key(v));
            assert(log_kv(logs, k, v, o));
        }
        assert forall|o: u32| #![trigger (m2.compare)(k, op, q).contains(o)]
            (m2.compare)(k, op, q).contains(o) implies (m1.compare)(k, op, q).contains(o) by {
            let v = choose|v: MetaVal| #[trigger] log_kv(logs, k, v, o) && prim_sat(v, op, q);
            assert(r(k, v, o));
            assert(exists|vv: MetaVal, oo: u32| #[trigger] r(k, vv, oo));
            assert(mv.contains_key(k));
            assert(exists|oo: u32| #[trigger] r(k, v, oo));
            assert(mv[k].contains_key(v));
            assert(mv[k][v].contains(o));
        }
        assert((m1.compare)(k, op, q) =~= (m2.compare)(k, op, q));
    }
    assert forall|q: Seq<char>| #[trigger] (m1.contains)(q) == (m2.contains)(q) by {
        assert forall|o: u32| #![trigger (m1.contains)(q).contains(o)]
            (m1.contains)(q).contains(o) implies (m2.contains)(q).contains(o) by {
            assert(lr.doc_view().contains_pair(o, lr.doc_view()[o]));
            assert(log_doc(logs, o, lr.doc_view()[o]));
        }
        assert forall|o: u32| #![trigger (m2.contains)(q).contains(o)]
            (m2.contains)(q).contains(o) implies (m1.contains)(q).contains(o) by {
            let d = choose|d: Seq<char>| #[trigger] log_doc(logs, o, d) && is_substring(q, d);
            assert(lr.doc_view().contains_pair(o, d));
        }
        assert((m1.contains)(q) =~= (m2.contains)(q));
    }
    assert forall|q: Seq<char>| #[trigger] (m1.regex)(q) == (m2.regex)(q) by {
        assert forall|o: u32| #![trigger (m1.regex)(q).contains(o)]
            (m1.regex)(q).contains(o) implies (m2.regex)(q).contains(o) by {
            assert(lr.doc_view().contains_pair(o, lr.doc_view()[o]));
            assert(log_doc(logs, o, lr.doc_view()[o]));
        }
        assert forall|o: u32| #![trigger (m2.regex)(q).contains(o)]
            (m2.regex)(q).contains(o) implies (m1.regex)(q).contains(o) by {
            let d = choose|d: Seq<char>| #[trigger] log_doc(logs, o, d) && regex_matches(q, d);
            assert(lr.doc_view().contains_pair(o, d));
        }
        assert((m1.regex)(q) =~= (m2.regex)(q));
    }
}

/// The segment provider's behavior, stated over the two readers as values.
pub open spec fn segment_model(
    ms: MetadataSegmentReader,
    rr: Option<RecordSegmentReader>,
) -> ProviderSpec {
    ProviderSpec {
        compare: |k: Seq<char>, op: PrimitiveOperator, q: MetaVal| ms.compare_view(k, op, q),
        contains: |q: Seq<char>|
            match ms.full_text_index {
                Some(ft) => Set::new(|o: u32| ft@.contains_key(o) && is_substring(q, ft@[o])),
                None => Set::empty(),
            },
        regex: |q: Seq<char>|
            match (ms.full_text_index, rr) {
                (Some(_), Some(rec)) => Set::new(|o: u32| record_doc_matches(rec@, q, o)),
                _ => Set::empty(),
            },
    }
}

/// A segment-backed provider behaves as `segment_model` of its two readers.
pub proof fn lemma_segment_model_agrees(
    p: MetadataProvider,
    ms: MetadataSegmentReader,
    rr: Option<RecordSegmentReader>,
)
    requires
        p matches MetadataProvider::CompactData(pms, prr) && *pms == ms && *prr == rr,
    ensures
        provider_equiv(p.model(), segment_model(ms, rr)),
{
    let m1 = p.model();
    let m2 = segment_model(ms, rr);
    assert forall|k: Seq<char>, op: PrimitiveOperator, q: MetaVal| #[trigger] (m1.compare)(
        k,
        op,
        q,
    ) == (m2.compare)(k, op, q) by {}
    assert forall|q: Seq<char>| #[trigger] (m1.contains)(q) == (m2.contains)(q) by {}
    assert forall|q: Seq<char>| #[trigger] (m1.regex)(q) == (m2.regex)(q) by {}
}

} // verus!
