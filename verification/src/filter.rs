use vstd::prelude::*;

use crate::bitmap::{rb_clone, rb_insert, rb_new, rb_view};
use crate::errors::FilterError;
use crate::expression::{eval_where, lemma_eval_equiv, where_regex_ok, Where};
use crate::logview::{log_user, log_wf, shadowed_set, LogEntry, MetadataLogReader};
use crate::provider::{
    ft_matches_records, lemma_log_model_agrees, lemma_segment_model_agrees, log_model,
    segment_model, MetadataProvider,
};
use crate::segment::{
    MetadataSegmentReader, RecordSegmentReader, SegmentRecordView,
};
use crate::signed::{SignedRoaringBitmap, SignedSet};

verus! {

/// The filter operator: configured with an optional whitelist of user ids,
/// which bounds the domain of the filter, and an optional predicate on the
/// individual record.
pub struct FilterOperator {
    pub query_ids: Option<Vec<String>>,
    pub where_clause: Option<Where>,
}

/// One run's inputs: the materialized, hydrated log of the collection, the
/// committed metadata segment, and the committed record segment — `None`
/// when that segment is uninitialized.
pub struct FilterInput {
    pub logs: Vec<LogEntry>,
    pub metadata_segment: MetadataSegmentReader,
    pub record_segment: Option<RecordSegmentReader>,
}

/// One run's outputs: the offsets to include or exclude among the log's
/// records, and among the committed records. Every offset the log touches
/// is excluded from the committed side.
#[derive(PartialEq, Debug)]
pub struct FilterOutput {
    pub log_offset_ids: SignedRoaringBitmap,
    pub compact_offset_ids: SignedRoaringBitmap,
}

impl FilterInput {
    /// What the collaborators guarantee: a collapsed, hydrated log; sound
    /// readers; and a full-text index holding exactly the committed
    /// documents.
    pub open spec fn wf(&self) -> bool {
        &&& log_wf(self.logs@)
        &&& self.metadata_segment.wf()
        &&& (self.record_segment matches Some(r) ==> r.wf())
        &&& match (self.metadata_segment.full_text_index, self.record_segment) {
            (Some(ft), Some(r)) => ft_matches_records(ft@, r@),
            _ => true,
        }
    }
}

/// The offsets of live log records whose user id is in the whitelist.
pub open spec fn log_allowed(logs: Seq<LogEntry>, ids: Seq<String>) -> Set<u32> {
    Set::new(
        |o: u32| exists|i: int| 0 <= i < ids.len() && log_user(logs, (#[trigger] ids[i])@, o),
    )
}

/// The offsets of committed records whose user id is in the whitelist.
pub open spec fn segment_allowed(rm: Map<u32, SegmentRecordView>, ids: Seq<String>) -> Set<u32> {
    Set::new(
        |o: u32|
            rm.contains_key(o) && exists|i: int|
                0 <= i < ids.len() && rm[o].user_id == (#[trigger] ids[i])@,
    )
}

/// No two committed records carry the same user id.
proof fn lemma_record_user_unique(rec: RecordSegmentReader)
    requires
        rec.wf(),
    ensures
        forall|o1: u32, o2: u32|
            rec@.contains_key(o1) && rec@.contains_key(o2) && #[trigger] rec@[o1].user_id
                == #[trigger] rec@[o2].user_id ==> o1 == o2,
{
    let kf = |p: (u32, crate::segment::SegmentRecord)| p.0;
    let vf = |p: (u32, crate::segment::SegmentRecord)| p.1@;
    assert forall|o1: u32, o2: u32|
        rec@.contains_key(o1) && rec@.contains_key(o2) && #[trigger] rec@[o1].user_id
            == #[trigger] rec@[o2].user_id implies o1 == o2 by {
        let w1 = choose|w: int| 0 <= w < rec.records@.len() && kf(#[trigger] rec.records@[w]) == o1;
        let w2 = choose|w: int| 0 <= w < rec.records@.len() && kf(#[trigger] rec.records@[w]) == o2;
        crate::assoc::lemma_assoc_index(rec.records@, kf, vf, w1);
        crate::assoc::lemma_assoc_index(rec.records@, kf, vf, w2);
        if w1 != w2 {
            assert(rec.records@[w1].1.user_id@ != rec.records@[w2].1.user_id@);
        }
    }
}

/// Appending a whitelisted id extends the allowed committed offsets by that
/// id's offset, if the segment has one.
proof fn lemma_segment_allowed_push(
    rm: Map<u32, SegmentRecordView>,
    ids: Seq<String>,
    id: String,
    found: Option<u32>,
)
    requires
        match found {
            Some(o) => rm.contains_key(o) && rm[o].user_id == id@,
            None => forall|o: u32| rm.contains_key(o) ==> (#[trigger] rm[o]).user_id != id@,
        },
        forall|o1: u32, o2: u32|
            rm.contains_key(o1) && rm.contains_key(o2) && #[trigger] rm[o1].user_id
                == #[trigger] rm[o2].user_id ==> o1 == o2,
    ensures
        match found {
            Some(o) => segment_allowed(rm, ids.push(id)) == segment_allowed(rm, ids).insert(o),
            None => segment_allowed(rm, ids.push(id)) == segment_allowed(rm, ids),
        },
{
    let t = ids.push(id);
    assert forall|o: u32| segment_allowed(rm, t).contains(o) implies segment_allowed(
        rm,
        ids,
    ).contains(o) || (found matches Some(f) && o == f) by {
        let i = choose|i: int| 0 <= i < t.len() && rm[o].user_id == (#[trigger] t[i])@;
        if i < ids.len() {
            assert(ids[i] == t[i]);
        } else {
            assert(t[i] == id);
        }
    }
    assert forall|o: u32| segment_allowed(rm, ids).contains(o) implies segment_allowed(
        rm,
        t,
    ).contains(o) by {
        let i = choose|i: int| 0 <= i < ids.len() && rm[o].user_id == (#[trigger] ids[i])@;
        assert(t[i] == ids[i]);
    }
    match found {
        Some(o) => {
            assert(t[ids.len() as int] == id);
            assert(segment_allowed(rm, t).contains(o));
            assert(segment_allowed(rm, t) =~= segment_allowed(rm, ids).insert(o));
        },
        None => {
            assert(segment_allowed(rm, t) =~= segment_allowed(rm, ids));
        },
    }
}

impl FilterOperator {
    /// The log-side whitelist mask: everything without a whitelist, else
    /// the offsets of whitelisted live log records.
    pub open spec fn log_allowed_spec(self, input: FilterInput) -> SignedSet {
        match self.query_ids {
            Some(ids) => SignedSet::Include(log_allowed(input.logs@, ids@)),
            None => SignedSet::full_spec(),
        }
    }

    /// The segment-side whitelist mask: everything without a whitelist or
    /// without a record reader, else the offsets of whitelisted committed
    /// records.
    pub open spec fn segment_allowed_spec(self, input: FilterInput) -> SignedSet {
        match self.query_ids {
            Some(ids) => match input.record_segment {
                Some(rec) => SignedSet::Include(segment_allowed(rec@, ids@)),
                None => SignedSet::full_spec(),
            },
            None => SignedSet::full_spec(),
        }
    }

    /// The log half of the output: the predicate evaluated against the
    /// log's records, intersected with the log-side whitelist mask.
    pub open spec fn log_output_spec(self, input: FilterInput) -> SignedSet {
        match self.where_clause {
            Some(w) => eval_where(w, log_model(input.logs@)).and_spec(self.log_allowed_spec(input)),
            None => self.log_allowed_spec(input),
        }
    }

    /// The committed half of the output: the predicate evaluated against
    /// the committed segment, intersected with the segment-side whitelist
    /// mask, always minus every offset the log shadows.
    pub open spec fn compact_output_spec(self, input: FilterInput) -> SignedSet {
        let masked = self.segment_allowed_spec(input).and_spec(
            SignedSet::Exclude(shadowed_set(input.logs@)),
        );
        match self.where_clause {
            Some(w) => eval_where(
                w,
                segment_model(input.metadata_segment, input.record_segment),
            ).and_spec(masked),
            None => masked,
        }
    }

    /// Run the filter: build the log view, resolve the whitelist against
    /// both sides, evaluate the predicate against each provider, and
    /// combine. The committed side always excludes the offsets the log
    /// shadows, so no record is counted twice and the log wins wherever
    /// both have an opinion. Fails exactly when the predicate holds a
    /// regular expression that does not parse.
    pub fn run(&self, input: &FilterInput) -> (r: Result<FilterOutput, FilterError>)
        requires
            input.wf(),
        ensures
            (r is Ok) == (self.where_clause matches Some(w) ==> where_regex_ok(w)),
            r is Ok ==> r.unwrap().log_offset_ids@ == self.log_output_spec(*input),
            r is Ok ==> r.unwrap().compact_offset_ids@ == self.compact_output_spec(*input),
            r is Ok ==> r.unwrap().compact_offset_ids@.interp().disjoint(
                shadowed_set(input.logs@),
            ),
            r is Err ==> r->Err_0 is Regex,
    {
        let metadata_log_reader = MetadataLogReader::create(&input.logs);
        let log_provider = MetadataProvider::Log(&metadata_log_reader);
        let compact_provider = MetadataProvider::CompactData(
            &input.metadata_segment,
            &input.record_segment,
        );

        // Resolve the whitelist to offsets on each side.
        let (user_allowed_log, user_allowed_compact) = match &self.query_ids {
            Some(ids) => {
                let log_side = SignedRoaringBitmap::Include(
                    metadata_log_reader.search_user_ids(ids),
                );
                proof {
                    assert forall|o: u32|
                        crate::logview::user_allowed_set(
                            metadata_log_reader.user_view(),
                            ids@,
                        ).contains(o) == log_allowed(input.logs@, ids@).contains(o) by {
                        if crate::logview::user_allowed_set(
                            metadata_log_reader.user_view(),
                            ids@,
                        ).contains(o) {
                            let i = choose|i: int|
                                0 <= i < ids@.len()
                                    && metadata_log_reader.user_view().contains_pair(
                                    (#[trigger] ids@[i])@,
                                    o,
                                );
                            assert(log_user(input.logs@, ids@[i]@, o));
                        }
                        if log_allowed(input.logs@, ids@).contains(o) {
                            let i = choose|i: int|
                                0 <= i < ids@.len() && log_user(
                                    input.logs@,
                                    (#[trigger] ids@[i])@,
                                    o,
                                );
                            assert(metadata_log_reader.user_view().contains_pair(ids@[i]@, o));
                        }
                    }
                    assert(log_side@ == self.log_allowed_spec(*input)) by {
                        assert(crate::logview::user_allowed_set(
                            metadata_log_reader.user_view(),
                            ids@,
                        ) =~= log_allowed(input.logs@, ids@));
                    }
                }
                let compact_side = match &input.record_segment {
                    Some(reader) => {
                        let mut offset_ids = rb_new();
                        let n = ids.len();
                        let mut i: usize = 0;
                        proof {
                            lemma_record_user_unique(*reader);
                            assert(rb_view(offset_ids) =~= segment_allowed(reader@, ids@.take(0)));
                        }
                        while i < n
                            invariant
                                i <= n,
                                n == ids@.len(),
                                reader.wf(),
                                forall|o1: u32, o2: u32|
                                    reader@.contains_key(o1) && reader@.contains_key(o2)
                                        && #[trigger] reader@[o1].user_id
                                        == #[trigger] reader@[o2].user_id ==> o1 == o2,
                                rb_view(offset_ids).finite(),
                                rb_view(offset_ids) == segment_allowed(reader@, ids@.take(i as int)),
                            decreases n - i,
                        {
                            let ghost pre = ids@.take(i as int);
                            proof {
                                assert(ids@.take(i as int + 1) =~= pre.push(ids@[i as int]));
                            }
                            let found = reader.get_offset_id_for_user_id(&ids[i]);
                            match found {
                                Some(offset_id) => {
                                    rb_insert(&mut offset_ids, offset_id);
                                },
                                None => {},
                            }
                            proof {
                                lemma_segment_allowed_push(reader@, pre, ids@[i as int], found);
                            }
                            i += 1;
                        }
                        proof {
                            assert(ids@.take(n as int) =~= ids@);
                        }
                        SignedRoaringBitmap::Include(offset_ids)
                    },
                    None => SignedRoaringBitmap::full(),
                };
                (log_side, compact_side)
            },
            None => (SignedRoaringBitmap::full(), SignedRoaringBitmap::full()),
        };
        proof {
            assert(user_allowed_log@ == self.log_allowed_spec(*input));
            assert(user_allowed_compact@ == self.segment_allowed_spec(*input));
        }

        // Filter the log's offsets by the predicate, if one is given.
        let log_offset_ids = match &self.where_clause {
            Some(clause) => {
                let ev = match clause.eval(&log_provider) {
                    Ok(v) => v,
                    Err(e) => {
                        return Err(e);
                    },
                };
                proof {
                    lemma_log_model_agrees(log_provider, input.logs@);
                    lemma_eval_equiv(*clause, log_provider.model(), log_model(input.logs@));
                }
                ev.and(&user_allowed_log)
            },
            None => user_allowed_log,
        };

        // Filter the committed offsets by the predicate, always excluding
        // every offset present in the materialized log.
        let shadow_mask = SignedRoaringBitmap::Exclude(
            rb_clone(&metadata_log_reader.updated_offset_ids),
        );
        let compact_offset_ids = match &self.where_clause {
            Some(clause) => {
                let ev = match clause.eval(&compact_provider) {
                    Ok(v) => v,
                    Err(e) => {
                        return Err(e);
                    },
                };
                proof {
                    lemma_segment_model_agrees(
                        compact_provider,
                        input.metadata_segment,
                        input.record_segment,
                    );
                    lemma_eval_equiv(
                        *clause,
                        compact_provider.model(),
                        segment_model(input.metadata_segment, input.record_segment),
                    );
                }
                ev.and(&user_allowed_compact.and(&shadow_mask))
            },
            None => user_allowed_compact.and(&shadow_mask),
        };
        proof {
            let sh = shadowed_set(input.logs@);
            assert forall|o: u32| compact_offset_ids@.interp().contains(o) implies !sh.contains(
                o,
            ) by {}
        }
        Ok(FilterOutput { log_offset_ids, compact_offset_ids })
    }
}

} // verus!
