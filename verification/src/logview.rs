use vstd::prelude::*;

use crate::assoc::{assoc_distinct, assoc_map, lemma_assoc_index, lemma_assoc_push};
use crate::bitmap::{rb_insert, rb_new, rb_view};
use crate::index::{kv_add, kv_query, map_set_add, KeyValueIndex};
use crate::pattern::{regex_matches, Pattern};
use crate::text::{is_substring, str_contains};
use crate::values::{MetaVal, MetadataValue, PrimitiveOperator};

verus! {

/// The operation a materialized log entry records for its offset, after the
/// materializer has collapsed all operations on one offset into one entry.
#[derive(Clone, Copy, PartialEq, Eq, Structural, Debug)]
pub enum MaterializedLogOperation {
    Initial,
    AddNew,
    UpdateExisting,
    OverwriteExisting,
    DeleteExisting,
}

/// One hydrated, materialized log entry: the final observable state of an
/// offset after this log batch, with the merged metadata map, the user
/// identifier and the merged document.
pub struct LogEntry {
    pub offset_id: u32,
    pub operation: MaterializedLogOperation,
    pub user_id: String,
    pub metadata: Vec<(String, MetadataValue)>,
    pub document: Option<String>,
}

/// Whether the operation shadows a segment-side offset: everything but
/// `Initial` and `AddNew`.
pub open spec fn op_shadows_spec(op: MaterializedLogOperation) -> bool {
    !(op is Initial || op is AddNew)
}

/// Whether the entry leaves a live record: everything but `DeleteExisting`.
pub open spec fn op_live_spec(op: MaterializedLogOperation) -> bool {
    !(op is DeleteExisting)
}

pub open spec fn entry_shadowed(e: LogEntry) -> bool {
    op_shadows_spec(e.operation)
}

pub open spec fn entry_live(e: LogEntry) -> bool {
    op_live_spec(e.operation)
}

pub fn op_shadows(op: MaterializedLogOperation) -> (r: bool)
    ensures
        r == op_shadows_spec(op),
{
    !matches!(op, MaterializedLogOperation::Initial | MaterializedLogOperation::AddNew)
}

pub fn op_live(op: MaterializedLogOperation) -> (r: bool)
    ensures
        r == op_live_spec(op),
{
    !matches!(op, MaterializedLogOperation::DeleteExisting)
}

/// The offsets the log shadows: those whose final operation touches an
/// offset that already exists in the segment.
pub open spec fn shadowed_set(s: Seq<LogEntry>) -> Set<u32> {
    Set::new(
        |o: u32|
            exists|i: int|
                0 <= i < s.len() && (#[trigger] s[i]).offset_id == o && entry_shadowed(s[i]),
    )
}

/// Whether some live entry of the log leaves offset `o` with document `d`.
pub open spec fn log_doc(s: Seq<LogEntry>, o: u32, d: Seq<char>) -> bool {
    exists|i: int|
        0 <= i < s.len() && entry_live(#[trigger] s[i]) && s[i].offset_id == o && s[i].document
            is Some && s[i].document->0@ == d
}

/// Whether some live entry of the log binds user id `u` to offset `o`.
pub open spec fn log_user(s: Seq<LogEntry>, u: Seq<char>, o: u32) -> bool {
    exists|i: int|
        0 <= i < s.len() && entry_live(#[trigger] s[i]) && s[i].offset_id == o && s[i].user_id@
            == u
}

/// Whether one of the first `j` metadata pairs of a live entry carries the
/// key-value pair `(k, v)` for the entry's offset `o`.
pub open spec fn entry_prefix_kv(e: LogEntry, j: int, k: Seq<char>, v: MetaVal, o: u32) -> bool {
    entry_live(e) && o == e.offset_id && exists|t: int|
        0 <= t < j && (#[trigger] e.metadata@[t]).0@ == k && e.metadata@[t].1@ == v
}

/// Whether a live entry carries the key-value pair `(k, v)` for offset `o`.
pub open spec fn entry_kv(e: LogEntry, k: Seq<char>, v: MetaVal, o: u32) -> bool {
    entry_prefix_kv(e, e.metadata@.len() as int, k, v, o)
}

/// Whether some live entry of the log carries `(k, v)` for offset `o`.
pub open spec fn log_kv(s: Seq<LogEntry>, k: Seq<char>, v: MetaVal, o: u32) -> bool {
    exists|i: int| 0 <= i < s.len() && entry_kv(#[trigger] s[i], k, v, o)
}

/// The document map matches the log: it binds exactly the offsets of live
/// entries with a document, each to that document.
pub open spec fn doc_matches(m: Map<u32, Seq<char>>, s: Seq<LogEntry>) -> bool {
    forall|o: u32, d: Seq<char>|
        #![trigger m.contains_pair(o, d)]
        #![trigger log_doc(s, o, d)]
        m.contains_pair(o, d) <==> log_doc(s, o, d)
}

/// The user map matches the log: it binds exactly the user ids of live
/// entries, each to its entry's offset.
pub open spec fn user_matches(m: Map<Seq<char>, u32>, s: Seq<LogEntry>) -> bool {
    forall|u: Seq<char>, o: u32|
        #![trigger m.contains_pair(u, o)]
        #![trigger log_user(s, u, o)]
        m.contains_pair(u, o) <==> log_user(s, u, o)
}

/// The two-level index matches the relation `r`: it has a key exactly when
/// `r` relates it to something, under it a value exactly when `r` relates
/// the pair to something, and there exactly the offsets `r` gives.
pub open spec fn index_matches(
    m: Map<Seq<char>, Map<MetaVal, Set<u32>>>,
    r: spec_fn(Seq<char>, MetaVal, u32) -> bool,
) -> bool {
    &&& forall|k: Seq<char>| #[trigger]
        m.contains_key(k) <==> exists|v: MetaVal, o: u32| #[trigger] r(k, v, o)
    &&& forall|k: Seq<char>, v: MetaVal|
        #![trigger m[k].contains_key(v)]
        (m.contains_key(k) && m[k].contains_key(v)) <==> exists|o: u32| #[trigger] r(k, v, o)
    &&& forall|k: Seq<char>, v: MetaVal, o: u32|
        #![trigger m[k][v].contains(o)]
        #![trigger r(k, v, o)]
        (m.contains_key(k) && m[k].contains_key(v)) ==> (m[k][v].contains(o) <==> r(k, v, o))
}

/// The metadata index matches the log.
pub open spec fn meta_matches(m: Map<Seq<char>, Map<MetaVal, Set<u32>>>, s: Seq<LogEntry>) -> bool {
    index_matches(m, |k: Seq<char>, v: MetaVal, o: u32| log_kv(s, k, v, o))
}

/// What the materializer guarantees of a collapsed log: one entry per
/// offset, one live entry per user id, and unique keys in each merged
/// metadata map.
pub open spec fn log_wf(s: Seq<LogEntry>) -> bool {
    &&& forall|i: int, j: int|
        0 <= i < j < s.len() ==> (#[trigger] s[i]).offset_id != (#[trigger] s[j]).offset_id
    &&& forall|i: int, j: int|
        0 <= i < j < s.len() && entry_live(#[trigger] s[i]) && entry_live(#[trigger] s[j])
            ==> s[i].user_id@ != s[j].user_id@
    &&& forall|i: int|
        0 <= i < s.len() ==> assoc_distinct(
            (#[trigger] s[i]).metadata@,
            |p: (String, MetadataValue)| p.0@,
        )
}

/// Matching an extended relation is matching a pointwise-equal one.
proof fn lemma_index_matches_equiv(
    m: Map<Seq<char>, Map<MetaVal, Set<u32>>>,
    r1: spec_fn(Seq<char>, MetaVal, u32) -> bool,
    r2: spec_fn(Seq<char>, MetaVal, u32) -> bool,
)
    requires
        index_matches(m, r1),
        forall|k: Seq<char>, v: MetaVal, o: u32| #[trigger] r1(k, v, o) == #[trigger] r2(k, v, o),
    ensures
        index_matches(m, r2),
{
    assert forall|k: Seq<char>| #[trigger] m.contains_key(k) implies exists|v: MetaVal, o: u32|
        #[trigger] r2(k, v, o) by {
        let (v, o) = choose|v: MetaVal, o: u32| #[trigger] r1(k, v, o);
        assert(r2(k, v, o));
    }
    assert forall|k: Seq<char>| (exists|v: MetaVal, o: u32| #[trigger] r2(k, v, o)) implies
        m.contains_key(k) by {
        let (v, o) = choose|v: MetaVal, o: u32| #[trigger] r2(k, v, o);
        assert(r1(k, v, o));
    }
    assert forall|k: Seq<char>, v: MetaVal|
        m.contains_key(k) && m[k].contains_key(v) implies exists|o: u32| #[trigger] r2(k, v, o) by {
        let o = choose|o: u32| #[trigger] r1(k, v, o);
        assert(r2(k, v, o));
    }
    assert forall|k: Seq<char>, v: MetaVal| (exists|o: u32| #[trigger] r2(k, v, o)) implies
        m.contains_key(k) && m[k].contains_key(v) by {
        let o = choose|o: u32| #[trigger] r2(k, v, o);
        assert(r1(k, v, o));
    }
}

/// Adding one offset under one key-value pair extends the matched relation
/// by exactly that triple: `r2` must be `r` plus the triple, pointwise.
proof fn lemma_index_matches_add(
    m: Map<Seq<char>, Map<MetaVal, Set<u32>>>,
    r: spec_fn(Seq<char>, MetaVal, u32) -> bool,
    k0: Seq<char>,
    v0: MetaVal,
    o0: u32,
    r2: spec_fn(Seq<char>, MetaVal, u32) -> bool,
)
    requires
        index_matches(m, r),
        forall|k: Seq<char>, v: MetaVal, o: u32| #[trigger]
            r2(k, v, o) == (r(k, v, o) || (k == k0 && v == v0 && o == o0)),
    ensures
        index_matches(kv_add(m, k0, v0, o0), r2),
{
    let m2 = kv_add(m, k0, v0, o0);
    assert forall|k: Seq<char>| #[trigger] m2.contains_key(k) implies exists|v: MetaVal, o: u32|
        #[trigger] r2(k, v, o) by {
        if k == k0 {
            assert(r2(k0, v0, o0));
        } else {
            assert(m.contains_key(k));
            let (v, o) = choose|v: MetaVal, o: u32| #[trigger] r(k, v, o);
            assert(r2(k, v, o));
        }
    }
    assert forall|k: Seq<char>| (exists|v: MetaVal, o: u32| #[trigger] r2(k, v, o)) implies
        m2.contains_key(k) by {
        if k != k0 {
            let (v, o) = choose|v: MetaVal, o: u32| #[trigger] r2(k, v, o);
            assert(r(k, v, o));
            assert(m.contains_key(k));
        }
    }
    assert forall|k: Seq<char>, v: MetaVal|
        m2.contains_key(k) && m2[k].contains_key(v) implies exists|o: u32|
        #[trigger] r2(k, v, o) by {
        if k == k0 && v == v0 {
            assert(r2(k0, v0, o0));
        } else if k == k0 {
            // v differs from v0, so the binding comes from the old inner map
            assert(m.contains_key(k0) && m[k0].contains_key(v));
            let o = choose|o: u32| #[trigger] r(k, v, o);
            assert(r2(k, v, o));
        } else {
            assert(m.contains_key(k) && m[k].contains_key(v));
            let o = choose|o: u32| #[trigger] r(k, v, o);
            assert(r2(k, v, o));
        }
    }
    assert forall|k: Seq<char>, v: MetaVal| (exists|o: u32| #[trigger] r2(k, v, o)) implies
        m2.contains_key(k) && m2[k].contains_key(v) by {
        let o = choose|o: u32| #[trigger] r2(k, v, o);
        if k == k0 && v == v0 {
        } else {
            assert(r(k, v, o));
            assert(m.contains_key(k) && m[k].contains_key(v));
        }
    }
    assert forall|k: Seq<char>, v: MetaVal, o: u32|
        (m2.contains_key(k) && m2[k].contains_key(v)) implies (m2[k][v].contains(o) <==> r2(
        k,
        v,
        o,
    )) by {
        if k == k0 && v == v0 {
            if o != o0 {
                if m.contains_key(k0) && m[k0].contains_key(v0) {
                    assert(m2[k0][v0].contains(o) == m[k0][v0].contains(o));
                } else {
                    assert(!m2[k0][v0].contains(o));
                    if r(k0, v0, o) {
                        assert(m.contains_key(k0) && m[k0].contains_key(v0));
                    }
                }
            }
        } else if k == k0 {
            assert(m.contains_key(k0) && m[k0].contains_key(v));
            assert(m2[k0][v] == m[k0][v]);
        } else {
            assert(m.contains_key(k) && m[k].contains_key(v));
        }
    }
}

/// Appending an entry extends the shadowed set by its offset exactly when
/// its operation shadows.
proof fn lemma_shadowed_push(s: Seq<LogEntry>, e: LogEntry)
    ensures
        entry_shadowed(e) ==> shadowed_set(s.push(e)) == shadowed_set(s).insert(e.offset_id),
        !entry_shadowed(e) ==> shadowed_set(s.push(e)) == shadowed_set(s),
{
    let t = s.push(e);
    assert forall|o: u32| shadowed_set(t).contains(o) implies shadowed_set(s).contains(o) || (
    entry_shadowed(e) && o == e.offset_id) by {
        let i = choose|i: int|
            0 <= i < t.len() && (#[trigger] t[i]).offset_id == o && entry_shadowed(t[i]);
        if i < s.len() {
            assert(s[i] == t[i]);
        } else {
            assert(t[i] == e);
        }
    }
    assert forall|o: u32| shadowed_set(s).contains(o) implies shadowed_set(t).contains(o) by {
        let i = choose|i: int|
            0 <= i < s.len() && (#[trigger] s[i]).offset_id == o && entry_shadowed(s[i]);
        assert(t[i] == s[i]);
    }
    if entry_shadowed(e) {
        assert(t[s.len() as int] == e);
        assert(shadowed_set(t).contains(e.offset_id));
        assert(shadowed_set(t) =~= shadowed_set(s).insert(e.offset_id));
    } else {
        assert(shadowed_set(t) =~= shadowed_set(s));
    }
}

/// Appending an entry extends the document relation by its offset and
/// document exactly when it is live and has one.
proof fn lemma_log_doc_push(s: Seq<LogEntry>, e: LogEntry)
    ensures
        forall|o: u32, d: Seq<char>| #[trigger]
            log_doc(s.push(e), o, d) == (log_doc(s, o, d) || (entry_live(e) && e.document is Some
                && o == e.offset_id && e.document->0@ == d)),
{
    let t = s.push(e);
    assert forall|o: u32, d: Seq<char>| #[trigger] log_doc(t, o, d) implies (log_doc(s, o, d) || (
    entry_live(e) && e.document is Some && o == e.offset_id && e.document->0@ == d)) by {
        let i = choose|i: int|
            0 <= i < t.len() && entry_live(#[trigger] t[i]) && t[i].offset_id == o && t[i].document
                is Some && t[i].document->0@ == d;
        if i < s.len() {
            assert(s[i] == t[i]);
            assert(log_doc(s, o, d));
        } else {
            assert(t[i] == e);
        }
    }
    assert forall|o: u32, d: Seq<char>| log_doc(s, o, d) implies #[trigger] log_doc(t, o, d) by {
        let i = choose|i: int|
            0 <= i < s.len() && entry_live(#[trigger] s[i]) && s[i].offset_id == o && s[i].document
                is Some && s[i].document->0@ == d;
        assert(t[i] == s[i]);
    }
    if entry_live(e) && e.document is Some {
        assert(t[s.len() as int] == e);
        assert(log_doc(t, e.offset_id, e.document->0@));
    }
}

/// Appending an entry extends the user relation by its user id and offset
/// exactly when it is live.
proof fn lemma_log_user_push(s: Seq<LogEntry>, e: LogEntry)
    ensures
        forall|u: Seq<char>, o: u32| #[trigger]
            log_user(s.push(e), u, o) == (log_user(s, u, o) || (entry_live(e) && u == e.user_id@
                && o == e.offset_id)),
{
    let t = s.push(e);
    assert forall|u: Seq<char>, o: u32| #[trigger] log_user(t, u, o) implies (log_user(s, u, o)
        || (entry_live(e) && u == e.user_id@ && o == e.offset_id)) by {
        let i = choose|i: int|
            0 <= i < t.len() && entry_live(#[trigger] t[i]) && t[i].offset_id == o && t[i].user_id@
                == u;
        if i < s.len() {
            assert(s[i] == t[i]);
            assert(log_user(s, u, o));
        } else {
            assert(t[i] == e);
        }
    }
    assert forall|u: Seq<char>, o: u32| log_user(s, u, o) implies #[trigger] log_user(t, u, o) by {
        let i = choose|i: int|
            0 <= i < s.len() && entry_live(#[trigger] s[i]) && s[i].offset_id == o && s[i].user_id@
                == u;
        assert(t[i] == s[i]);
    }
    if entry_live(e) {
        assert(t[s.len() as int] == e);
        assert(log_user(t, e.user_id@, e.offset_id));
    }
}

/// Appending an entry extends the key-value relation by the entry's pairs.
proof fn lemma_log_kv_push(s: Seq<LogEntry>, e: LogEntry)
    ensures
        forall|k: Seq<char>, v: MetaVal, o: u32| #[trigger]
            log_kv(s.push(e), k, v, o) == (log_kv(s, k, v, o) || entry_kv(e, k, v, o)),
{
    let t = s.push(e);
    assert forall|k: Seq<char>, v: MetaVal, o: u32| #[trigger] log_kv(t, k, v, o) implies (log_kv(
        s,
        k,
        v,
        o,
    ) || entry_kv(e, k, v, o)) by {
        let i = choose|i: int| 0 <= i < t.len() && entry_kv(#[trigger] t[i], k, v, o);
        if i < s.len() {
            assert(s[i] == t[i]);
            assert(log_kv(s, k, v, o));
        } else {
            assert(t[i] == e);
        }
    }
    assert forall|k: Seq<char>, v: MetaVal, o: u32| log_kv(s, k, v, o) implies #[trigger] log_kv(
        t,
        k,
        v,
        o,
    ) by {
        let i = choose|i: int| 0 <= i < s.len() && entry_kv(#[trigger] s[i], k, v, o);
        assert(t[i] == s[i]);
    }
    assert forall|k: Seq<char>, v: MetaVal, o: u32| entry_kv(e, k, v, o) implies #[trigger] log_kv(
        t,
        k,
        v,
        o,
    ) by {
        assert(t[s.len() as int] == e);
    }
}

/// A view of the materialized in-memory log shaped like the committed
/// metadata segment: a key-to-value-to-offsets index, a document map, a
/// user-id-to-offset map, and the set of offsets the log shadows.
pub struct MetadataLogReader {
    pub compact_metadata: KeyValueIndex,
    pub document: Vec<(u32, String)>,
    pub updated_offset_ids: roaring::RoaringBitmap,
    pub user_id_to_offset_id: Vec<(String, u32)>,
}

impl MetadataLogReader {
    pub open spec fn doc_view(&self) -> Map<u32, Seq<char>> {
        assoc_map(self.document@, |p: (u32, String)| p.0, |p: (u32, String)| p.1@)
    }

    pub open spec fn user_view(&self) -> Map<Seq<char>, u32> {
        assoc_map(self.user_id_to_offset_id@, |p: (String, u32)| p.0@, |p: (String, u32)| p.1)
    }

    pub open spec fn meta_view(&self) -> Map<Seq<char>, Map<MetaVal, Set<u32>>> {
        self.compact_metadata@
    }

    pub open spec fn shadowed_view(&self) -> Set<u32> {
        rb_view(self.updated_offset_ids)
    }

    pub open spec fn wf(&self) -> bool {
        &&& self.compact_metadata.wf()
        &&& assoc_distinct(self.document@, |p: (u32, String)| p.0)
        &&& assoc_distinct(self.user_id_to_offset_id@, |p: (String, u32)| p.0@)
        &&& rb_view(self.updated_offset_ids).finite()
    }

    /// One pass over the collapsed log entries. Shadowing operations mark
    /// their offset; live entries contribute their user id, their metadata
    /// pairs and their document.
    pub fn create(logs: &Vec<LogEntry>) -> (r: MetadataLogReader)
        requires
            log_wf(logs@),
        ensures
            r.wf(),
            r.shadowed_view() == shadowed_set(logs@),
            doc_matches(r.doc_view(), logs@),
            user_matches(r.user_view(), logs@),
            meta_matches(r.meta_view(), logs@),
    {
        let mut compact_metadata = KeyValueIndex::new();
        let mut document: Vec<(u32, String)> = Vec::new();
        let mut updated_offset_ids = rb_new();
        let mut user_id_to_offset_id: Vec<(String, u32)> = Vec::new();
        let n = logs.len();
        let mut i: usize = 0;
        proof {
            let s0 = logs@.take(0);
            assert(rb_view(updated_offset_ids) =~= shadowed_set(s0));
            assert(doc_matches(assoc_map(document@, |p: (u32, String)| p.0, |p: (u32, String)| p.1@), s0));
            assert(user_matches(
                assoc_map(user_id_to_offset_id@, |p: (String, u32)| p.0@, |p: (String, u32)| p.1),
                s0,
            ));
        }
        while i < n
            invariant
                i <= n,
                n == logs@.len(),
                log_wf(logs@),
                compact_metadata.wf(),
                assoc_distinct(document@, |p: (u32, String)| p.0),
                assoc_distinct(user_id_to_offset_id@, |p: (String, u32)| p.0@),
                rb_view(updated_offset_ids).finite(),
                rb_view(updated_offset_ids) == shadowed_set(logs@.take(i as int)),
                doc_matches(
                    assoc_map(document@, |p: (u32, String)| p.0, |p: (u32, String)| p.1@),
                    logs@.take(i as int),
                ),
                user_matches(
                    assoc_map(
                        user_id_to_offset_id@,
                        |p: (String, u32)| p.0@,
                        |p: (String, u32)| p.1,
                    ),
                    logs@.take(i as int),
                ),
                meta_matches(compact_metadata@, logs@.take(i as int)),
            decreases n - i,
        {
            let ghost pre = logs@.take(i as int);
            let ghost post = logs@.take(i as int + 1);
            let e = &logs[i];
            let ghost entry = logs@[i as int];
            proof {
                assert(post =~= pre.push(entry));
                // every earlier entry carries another offset, and another
                // user id where both are live
                assert forall|t: int| 0 <= t < pre.len() implies (#[trigger] pre[t]).offset_id
                    != entry.offset_id by {
                    assert(pre[t] == logs@[t]);
                }
                assert forall|t: int|
                    0 <= t < pre.len() && entry_live(#[trigger] pre[t]) && entry_live(entry)
                    implies pre[t].user_id@ != entry.user_id@ by {
                    assert(pre[t] == logs@[t]);
                }
            }
            if op_shadows(e.operation) {
                rb_insert(&mut updated_offset_ids, e.offset_id);
            }
            proof {
                lemma_shadowed_push(pre, entry);
            }
            if op_live(e.operation) {
                // user id binding
                let ghost users0 = user_id_to_offset_id@;
                proof {
                    assert forall|t: int| 0 <= t < users0.len() implies (#[trigger] users0[t]).0@
                        != entry.user_id@ by {
                        lemma_assoc_index(
                            users0,
                            |p: (String, u32)| p.0@,
                            |p: (String, u32)| p.1,
                            t,
                        );
                        if users0[t].0@ == entry.user_id@ {
                            assert(log_user(pre, users0[t].0@, users0[t].1));
                        }
                    }
                }
                user_id_to_offset_id.push((e.user_id.clone(), e.offset_id));
                proof {
                    lemma_assoc_push(
                        users0,
                        |p: (String, u32)| p.0@,
                        |p: (String, u32)| p.1,
                        user_id_to_offset_id@.last(),
                    );
                    lemma_log_user_push(pre, entry);
                    assert(user_matches(
                        assoc_map(
                            user_id_to_offset_id@,
                            |p: (String, u32)| p.0@,
                            |p: (String, u32)| p.1,
                        ),
                        post,
                    ));
                }
                // metadata pairs
                let m = e.metadata.len();
                let mut j: usize = 0;
                proof {
                    assert forall|k: Seq<char>, v: MetaVal, o: u32|
                        #[trigger] log_kv(pre, k, v, o) == (log_kv(pre, k, v, o)
                            || entry_prefix_kv(entry, 0, k, v, o)) by {}
                    lemma_index_matches_equiv(
                        compact_metadata@,
                        |k: Seq<char>, v: MetaVal, o: u32| log_kv(pre, k, v, o),
                        |k: Seq<char>, v: MetaVal, o: u32|
                            log_kv(pre, k, v, o) || entry_prefix_kv(entry, 0, k, v, o),
                    );
                }
                while j < m
                    invariant
                        j <= m,
                        m == entry.metadata@.len(),
                        *e == entry,
                        entry_live(entry),
                        compact_metadata.wf(),
                        index_matches(
                            compact_metadata@,
                            |k: Seq<char>, v: MetaVal, o: u32|
                                log_kv(pre, k, v, o) || entry_prefix_kv(entry, j as int, k, v, o),
                        ),
                    decreases m - j,
                {
                    let p = &e.metadata[j];
                    proof {
                        assert forall|k: Seq<char>, v: MetaVal, o: u32|
                            (log_kv(pre, k, v, o) || #[trigger] entry_prefix_kv(
                                entry,
                                j as int + 1,
                                k,
                                v,
                                o,
                            )) == ((log_kv(pre, k, v, o) || entry_prefix_kv(entry, j as int, k, v, o))
                                || (k == entry.metadata@[j as int].0@ && v
                                == entry.metadata@[j as int].1@ && o == entry.offset_id)) by {
                            if entry_prefix_kv(entry, j as int + 1, k, v, o) {
                                let t = choose|t: int|
                                    0 <= t < j as int + 1 && (#[trigger] entry.metadata@[t]).0@
                                        == k && entry.metadata@[t].1@ == v;
                                if t < j {
                                    assert(entry_prefix_kv(entry, j as int, k, v, o));
                                }
                            }
                            if k == entry.metadata@[j as int].0@ && v == entry.metadata@[j as int].1@
                                && o == entry.offset_id {
                                assert(entry_prefix_kv(entry, j as int + 1, k, v, o));
                            }
                        }
                        lemma_index_matches_add(
                            compact_metadata@,
                            |k: Seq<char>, v: MetaVal, o: u32|
                                log_kv(pre, k, v, o) || entry_prefix_kv(entry, j as int, k, v, o),
                            p.0@,
                            p.1@,
                            entry.offset_id,
                            |k: Seq<char>, v: MetaVal, o: u32|
                                log_kv(pre, k, v, o) || entry_prefix_kv(
                                    entry,
                                    j as int + 1,
                                    k,
                                    v,
                                    o,
                                ),
                        );
                    }
                    compact_metadata.add(&p.0, &p.1, e.offset_id);
                    j += 1;
                }
                proof {
                    lemma_log_kv_push(pre, entry);
                    assert forall|k: Seq<char>, v: MetaVal, o: u32|
                        (log_kv(pre, k, v, o) || #[trigger] entry_prefix_kv(
                            entry,
                            m as int,
                            k,
                            v,
                            o,
                        )) == #[trigger] log_kv(post, k, v, o) by {
                        assert(entry_kv(entry, k, v, o) == entry_prefix_kv(
                            entry,
                            entry.metadata@.len() as int,
                            k,
                            v,
                            o,
                        ));
                    }
                    lemma_index_matches_equiv(
                        compact_metadata@,
                        |k: Seq<char>, v: MetaVal, o: u32|
                            log_kv(pre, k, v, o) || entry_prefix_kv(entry, m as int, k, v, o),
                        |k: Seq<char>, v: MetaVal, o: u32| log_kv(post, k, v, o),
                    );
                }
                // document binding
                let ghost docs0 = document@;
                proof {
                    assert forall|t: int| 0 <= t < docs0.len() implies (#[trigger] docs0[t]).0
                        != entry.offset_id by {
                        lemma_assoc_index(docs0, |p: (u32, String)| p.0, |p: (u32, String)| p.1@, t);
                        if docs0[t].0 == entry.offset_id {
                            assert(log_doc(pre, docs0[t].0, docs0[t].1@));
                        }
                    }
                    lemma_log_doc_push(pre, entry);
                }
                match &e.document {
                    Some(doc) => {
                        document.push((e.offset_id, doc.clone()));
                        proof {
                            lemma_assoc_push(
                                docs0,
                                |p: (u32, String)| p.0,
                                |p: (u32, String)| p.1@,
                                document@.last(),
                            );
                            assert(doc_matches(
                                assoc_map(
                                    document@,
                                    |p: (u32, String)| p.0,
                                    |p: (u32, String)| p.1@,
                                ),
                                post,
                            ));
                        }
                    },
                    None => {
                        proof {
                            assert(doc_matches(
                                assoc_map(
                                    document@,
                                    |p: (u32, String)| p.0,
                                    |p: (u32, String)| p.1@,
                                ),
                                post,
                            ));
                        }
                    },
                }
            } else {
                proof {
                    lemma_log_doc_push(pre, entry);
                    lemma_log_user_push(pre, entry);
                    lemma_log_kv_push(pre, entry);
                    assert(doc_matches(
                        assoc_map(document@, |p: (u32, String)| p.0, |p: (u32, String)| p.1@),
                        post,
                    ));
                    assert(user_matches(
                        assoc_map(
                            user_id_to_offset_id@,
                            |p: (String, u32)| p.0@,
                            |p: (String, u32)| p.1,
                        ),
                        post,
                    ));
                    assert forall|k: Seq<char>, v: MetaVal, o: u32|
                        #[trigger] log_kv(pre, k, v, o) == #[trigger] log_kv(post, k, v, o) by {
                        assert(!entry_kv(entry, k, v, o));
                    }
                    lemma_index_matches_equiv(
                        compact_metadata@,
                        |k: Seq<char>, v: MetaVal, o: u32| log_kv(pre, k, v, o),
                        |k: Seq<char>, v: MetaVal, o: u32| log_kv(post, k, v, o),
                    );
                }
            }
            i += 1;
        }
        proof {
            assert(logs@.take(n as int) =~= logs@);
        }
        MetadataLogReader { compact_metadata, document, updated_offset_ids, user_id_to_offset_id }
    }

    /// Range lookup on the log's metadata index: the offsets whose live
    /// record has the key set to a value satisfying `op` against `val`.
    pub fn get(&self, key: &String, val: &MetadataValue, op: PrimitiveOperator) -> (r:
        roaring::RoaringBitmap)
        requires
            self.wf(),
            !(op is NotEqual),
        ensures
            rb_view(r) == kv_query(self.meta_view(), key@, op, val@),
            rb_view(r).finite(),
    {
        self.compact_metadata.get(key, op, val)
    }

    /// The offset bound to a user id among live records, if any.
    pub fn user_offset(&self, uid: &String) -> (r: Option<u32>)
        requires
            self.wf(),
        ensures
            match r {
                Some(o) => self.user_view().contains_pair(uid@, o),
                None => !self.user_view().contains_key(uid@),
            },
    {
        let n = self.user_id_to_offset_id.len();
        let mut i: usize = 0;
        while i < n
            invariant
                i <= n,
                n == self.user_id_to_offset_id@.len(),
                self.wf(),
                forall|t: int|
                    0 <= t < i ==> (#[trigger] self.user_id_to_offset_id@[t]).0@ != uid@,
            decreases n - i,
        {
            if self.user_id_to_offset_id[i].0.eq(uid) {
                proof {
                    lemma_assoc_index(
                        self.user_id_to_offset_id@,
                        |p: (String, u32)| p.0@,
                        |p: (String, u32)| p.1,
                        i as int,
                    );
                }
                return Some(self.user_id_to_offset_id[i].1);
            }
            i += 1;
        }
        proof {
            if self.user_view().contains_key(uid@) {
                let w = choose|w: int|
                    0 <= w < self.user_id_to_offset_id@.len() && (#[trigger] self.user_id_to_offset_id@[w]).0@ == uid@;
            }
        }
        None
    }

    /// The offsets of live log records whose document contains the query as
    /// a substring: a linear scan of the document map.
    pub fn documents_containing(&self, query: &str) -> (r: roaring::RoaringBitmap)
        requires
            self.wf(),
        ensures
            rb_view(r) == Set::new(
                |o: u32|
                    self.doc_view().contains_key(o) && is_substring(query@, self.doc_view()[o]),
            ),
            rb_view(r).finite(),
    {
        let mut acc = rb_new();
        let n = self.document.len();
        let mut i: usize = 0;
        proof {
            assert(rb_view(acc) =~= Set::new(
                |o: u32|
                    exists|t: int|
                        0 <= t < 0 && (#[trigger] self.document@[t]).0 == o && is_substring(
                            query@,
                            self.document@[t].1@,
                        ),
            ));
        }
        while i < n
            invariant
                i <= n,
                n == self.document@.len(),
                self.wf(),
                rb_view(acc).finite(),
                rb_view(acc) == Set::new(
                    |o: u32|
                        exists|t: int|
                            0 <= t < i && (#[trigger] self.document@[t]).0 == o && is_substring(
                                query@,
                                self.document@[t].1@,
                            ),
                ),
            decreases n - i,
        {
            if str_contains(self.document[i].1.as_str(), query) {
                rb_insert(&mut acc, self.document[i].0);
            }
            proof {
                assert(rb_view(acc) =~= Set::new(
                    |o: u32|
                        exists|t: int|
                            0 <= t < i + 1 && (#[trigger] self.document@[t]).0 == o && is_substring(
                                query@,
                                self.document@[t].1@,
                            ),
                ));
            }
            i += 1;
        }
        proof {
            let kf = |p: (u32, String)| p.0;
            let vf = |p: (u32, String)| p.1@;
            assert forall|o: u32|
                self.doc_view().contains_key(o) && is_substring(query@, self.doc_view()[o])
                implies rb_view(acc).contains(o) by {
                let w = choose|w: int|
                    0 <= w < self.document@.len() && kf(#[trigger] self.document@[w]) == o;
                lemma_assoc_index(self.document@, kf, vf, w);
            }
            assert forall|o: u32| rb_view(acc).contains(o) implies self.doc_view().contains_key(o)
                && is_substring(query@, self.doc_view()[o]) by {
                let t = choose|t: int|
                    0 <= t < self.document@.len() && (#[trigger] self.document@[t]).0 == o
                        && is_substring(query@, self.document@[t].1@);
                lemma_assoc_index(self.document@, kf, vf, t);
            }
            assert(rb_view(acc) =~= Set::new(
                |o: u32|
                    self.doc_view().contains_key(o) && is_substring(query@, self.doc_view()[o]),
            ));
        }
        acc
    }

    /// The offsets of live log records whose document the pattern matches:
    /// a linear scan of the document map, testing each with the compiled
    /// pattern.
    pub fn documents_matching(&self, p: &Pattern) -> (r: roaring::RoaringBitmap)
        requires
            self.wf(),
            p.wf(),
        ensures
            rb_view(r) == Set::new(
                |o: u32|
                    self.doc_view().contains_key(o) && regex_matches(
                        p.text_view(),
                        self.doc_view()[o],
                    ),
            ),
            rb_view(r).finite(),
    {
        let mut acc = rb_new();
        let n = self.document.len();
        let mut i: usize = 0;
        proof {
            assert(rb_view(acc) =~= Set::new(
                |o: u32|
                    exists|t: int|
                        0 <= t < 0 && (#[trigger] self.document@[t]).0 == o && regex_matches(
                            p.text_view(),
                            self.document@[t].1@,
                        ),
            ));
        }
        while i < n
            invariant
                i <= n,
                n == self.document@.len(),
                self.wf(),
                p.wf(),
                rb_view(acc).finite(),
                rb_view(acc) == Set::new(
                    |o: u32|
                        exists|t: int|
                            0 <= t < i && (#[trigger] self.document@[t]).0 == o && regex_matches(
                                p.text_view(),
                                self.document@[t].1@,
                            ),
                ),
            decreases n - i,
        {
            if p.matches(self.document[i].1.as_str()) {
                rb_insert(&mut acc, self.document[i].0);
            }
            proof {
                assert(rb_view(acc) =~= Set::new(
                    |o: u32|
                        exists|t: int|
                            0 <= t < i + 1 && (#[trigger] self.document@[t]).0 == o
                                && regex_matches(p.text_view(), self.document@[t].1@),
                ));
            }
            i += 1;
        }
        proof {
            let kf = |p: (u32, String)| p.0;
            let vf = |p: (u32, String)| p.1@;
            assert forall|o: u32|
                self.doc_view().contains_key(o) && regex_matches(
                    p.text_view(),
                    self.doc_view()[o],
                ) implies rb_view(acc).contains(o) by {
                let w = choose|w: int|
                    0 <= w < self.document@.len() && kf(#[trigger] self.document@[w]) == o;
                lemma_assoc_index(self.document@, kf, vf, w);
            }
            assert forall|o: u32| rb_view(acc).contains(o) implies self.doc_view().contains_key(o)
                && regex_matches(p.text_view(), self.doc_view()[o]) by {
                let t = choose|t: int|
                    0 <= t < self.document@.len() && (#[trigger] self.document@[t]).0 == o
                        && regex_matches(p.text_view(), self.document@[t].1@);
                lemma_assoc_index(self.document@, kf, vf, t);
            }
            assert(rb_view(acc) =~= Set::new(
                |o: u32|
                    self.doc_view().contains_key(o) && regex_matches(
                        p.text_view(),
                        self.doc_view()[o],
                    ),
            ));
        }
        acc
    }

    /// The set of offsets bound to any of the given user ids.
    pub fn search_user_ids(&self, user_ids: &Vec<String>) -> (r: roaring::RoaringBitmap)
        requires
            self.wf(),
        ensures
            rb_view(r) == user_allowed_set(self.user_view(), user_ids@),
            rb_view(r).finite(),
    {
        let mut acc = rb_new();
        let n = user_ids.len();
        let mut i: usize = 0;
        proof {
            assert(rb_view(acc) =~= user_allowed_set(self.user_view(), user_ids@.take(0)));
        }
        while i < n
            invariant
                i <= n,
                n == user_ids@.len(),
                self.wf(),
                rb_view(acc).finite(),
                rb_view(acc) == user_allowed_set(self.user_view(), user_ids@.take(i as int)),
            decreases n - i,
        {
            let ghost pre = user_ids@.take(i as int);
            let ghost post = user_ids@.take(i as int + 1);
            proof {
                assert(post =~= pre.push(user_ids@[i as int]));
            }
            match self.user_offset(&user_ids[i]) {
                Some(o) => {
                    rb_insert(&mut acc, o);
                    proof {
                        lemma_user_allowed_push(self.user_view(), pre, user_ids@[i as int]);
                    }
                },
                None => {
                    proof {
                        lemma_user_allowed_push(self.user_view(), pre, user_ids@[i as int]);
                    }
                },
            }
            i += 1;
        }
        proof {
            assert(user_ids@.take(n as int) =~= user_ids@);
        }
        acc
    }
}

/// The offsets bound to any of the given user ids.
pub open spec fn user_allowed_set(m: Map<Seq<char>, u32>, ids: Seq<String>) -> Set<u32> {
    Set::new(
        |o: u32| exists|i: int| 0 <= i < ids.len() && m.contains_pair((#[trigger] ids[i])@, o),
    )
}

/// Appending a user id extends the allowed set by its binding, if any.
proof fn lemma_user_allowed_push(m: Map<Seq<char>, u32>, ids: Seq<String>, id: String)
    ensures
        m.contains_key(id@) ==> user_allowed_set(m, ids.push(id)) == user_allowed_set(
            m,
            ids,
        ).insert(m[id@]),
        !m.contains_key(id@) ==> user_allowed_set(m, ids.push(id)) == user_allowed_set(m, ids),
{
    let t = ids.push(id);
    assert forall|o: u32| user_allowed_set(m, t).contains(o) implies user_allowed_set(
        m,
        ids,
    ).contains(o) || (m.contains_key(id@) && o == m[id@]) by {
        let i = choose|i: int| 0 <= i < t.len() && m.contains_pair((#[trigger] t[i])@, o);
        if i < ids.len() {
            assert(ids[i] == t[i]);
        } else {
            assert(t[i] == id);
        }
    }
    assert forall|o: u32| user_allowed_set(m, ids).contains(o) implies user_allowed_set(
        m,
        t,
    ).contains(o) by {
        let i = choose|i: int| 0 <= i < ids.len() && m.contains_pair((#[trigger] ids[i])@, o);
        assert(t[i] == ids[i]);
    }
    if m.contains_key(id@) {
        assert(t[ids.len() as int] == id);
        assert(m.contains_pair(id@, m[id@]));
        assert(user_allowed_set(m, t).contains(m[id@]));
        assert(user_allowed_set(m, t) =~= user_allowed_set(m, ids).insert(m[id@]));
    } else {
        assert(user_allowed_set(m, t) =~= user_allowed_set(m, ids));
    }
}

} // verus!
