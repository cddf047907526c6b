use vstd::prelude::*;

verus! {

/// The finite map described by an association sequence: `kf` extracts the
/// key of an entry and `vf` its value. Meaningful when the keys are
/// distinct; the map binds each key of the sequence to the value of its
/// entry.
pub open spec fn assoc_map<A, K, V>(s: Seq<A>, kf: spec_fn(A) -> K, vf: spec_fn(A) -> V) -> Map<
    K,
    V,
> {
    Map::new(
        |k: K| exists|i: int| 0 <= i < s.len() && kf(#[trigger] s[i]) == k,
        |k: K| vf(s[choose|i: int| 0 <= i < s.len() && kf(#[trigger] s[i]) == k]),
    )
}

/// Whether the entries of the sequence carry pairwise distinct keys.
pub open spec fn assoc_distinct<A, K>(s: Seq<A>, kf: spec_fn(A) -> K) -> bool {
    forall|i: int, j: int|
        0 <= i < j < s.len() ==> kf(#[trigger] s[i]) != kf(#[trigger] s[j])
}

/// With distinct keys, the map binds the key of each entry to its value.
pub proof fn lemma_assoc_index<A, K, V>(s: Seq<A>, kf: spec_fn(A) -> K, vf: spec_fn(A) -> V, i: int)
    requires
        assoc_distinct(s, kf),
        0 <= i < s.len(),
    ensures
        assoc_map(s, kf, vf).contains_key(kf(s[i])),
        assoc_map(s, kf, vf)[kf(s[i])] == vf(s[i]),
{
    let j = choose|j: int| 0 <= j < s.len() && kf(#[trigger] s[j]) == kf(s[i]);
    assert(kf(s[i]) == kf(s[i]));
    assert(0 <= j < s.len() && kf(s[j]) == kf(s[i]));
    assert(j == i);
}

/// Replacing one entry by another with the same key updates exactly that
/// key's binding.
pub proof fn lemma_assoc_update<A, K, V>(
    s: Seq<A>,
    kf: spec_fn(A) -> K,
    vf: spec_fn(A) -> V,
    i: int,
    a: A,
)
    requires
        assoc_distinct(s, kf),
        0 <= i < s.len(),
        kf(a) == kf(s[i]),
    ensures
        assoc_distinct(s.update(i, a), kf),
        assoc_map(s.update(i, a), kf, vf) == assoc_map(s, kf, vf).insert(kf(a), vf(a)),
{
    let t = s.update(i, a);
    assert forall|p: int, q: int| 0 <= p < q < t.len() implies kf(#[trigger] t[p]) != kf(
        #[trigger] t[q],
    ) by {
        assert(kf(t[p]) == kf(s[p]) && kf(t[q]) == kf(s[q]));
    }
    let m1 = assoc_map(t, kf, vf);
    let m2 = assoc_map(s, kf, vf).insert(kf(a), vf(a));
    assert forall|k: K| m1.contains_key(k) implies m2.contains_key(k) by {
        let w = choose|w: int| 0 <= w < t.len() && kf(#[trigger] t[w]) == k;
        if w != i {
            assert(kf(s[w]) == k);
        }
    }
    assert forall|k: K| m2.contains_key(k) implies m1.contains_key(k) by {
        if k == kf(a) {
            assert(kf(t[i]) == k);
        } else {
            let w = choose|w: int| 0 <= w < s.len() && kf(#[trigger] s[w]) == k;
            assert(kf(t[w]) == k);
        }
    }
    assert forall|k: K| m1.contains_key(k) implies m1[k] == m2[k] by {
        let w = choose|w: int| 0 <= w < t.len() && kf(#[trigger] t[w]) == k;
        lemma_assoc_index(t, kf, vf, w);
        if k == kf(a) {
            lemma_assoc_index(t, kf, vf, i);
            assert(w == i);
        } else {
            assert(w != i);
            assert(kf(s[w]) == k);
            lemma_assoc_index(s, kf, vf, w);
        }
    }
    assert(m1 =~= m2);
}

/// Appending an entry with a fresh key adds exactly that binding.
pub proof fn lemma_assoc_push<A, K, V>(s: Seq<A>, kf: spec_fn(A) -> K, vf: spec_fn(A) -> V, a: A)
    requires
        assoc_distinct(s, kf),
        forall|i: int| 0 <= i < s.len() ==> kf(#[trigger] s[i]) != kf(a),
    ensures
        assoc_distinct(s.push(a), kf),
        assoc_map(s.push(a), kf, vf) == assoc_map(s, kf, vf).insert(kf(a), vf(a)),
{
    let t = s.push(a);
    assert forall|p: int, q: int| 0 <= p < q < t.len() implies kf(#[trigger] t[p]) != kf(
        #[trigger] t[q],
    ) by {
        assert(kf(t[p]) == kf(s[p]));
        if q < s.len() {
            assert(kf(t[q]) == kf(s[q]));
        } else {
            assert(t[q] == a);
        }
    }
    let m1 = assoc_map(t, kf, vf);
    let m2 = assoc_map(s, kf, vf).insert(kf(a), vf(a));
    assert forall|k: K| m1.contains_key(k) implies m2.contains_key(k) by {
        let w = choose|w: int| 0 <= w < t.len() && kf(#[trigger] t[w]) == k;
        if w < s.len() {
            assert(kf(s[w]) == k);
        } else {
            assert(t[w] == a);
        }
    }
    assert forall|k: K| m2.contains_key(k) implies m1.contains_key(k) by {
        if k == kf(a) {
            assert(kf(t[s.len() as int]) == k);
        } else {
            let w = choose|w: int| 0 <= w < s.len() && kf(#[trigger] s[w]) == k;
            assert(kf(t[w]) == k);
        }
    }
    assert forall|k: K| m1.contains_key(k) implies m1[k] == m2[k] by {
        let w = choose|w: int| 0 <= w < t.len() && kf(#[trigger] t[w]) == k;
        lemma_assoc_index(t, kf, vf, w);
        if k == kf(a) {
            lemma_assoc_index(t, kf, vf, s.len() as int);
            assert(w == s.len() as int);
        } else {
            assert(w < s.len());
            assert(kf(s[w]) == k);
            lemma_assoc_index(s, kf, vf, w);
        }
    }
    assert(m1 =~= m2);
}

/// With distinct keys the map's domain is finite and has one key per entry.
pub proof fn lemma_assoc_dom<A, K, V>(s: Seq<A>, kf: spec_fn(A) -> K, vf: spec_fn(A) -> V)
    requires
        assoc_distinct(s, kf),
    ensures
        assoc_map(s, kf, vf).dom().finite(),
        assoc_map(s, kf, vf).dom().len() == s.len(),
    decreases s.len(),
{
    if s.len() == 0 {
        assert(assoc_map(s, kf, vf) =~= Map::<K, V>::empty());
    } else {
        let front = s.drop_last();
        let a = s.last();
        assert(assoc_distinct(front, kf)) by {
            assert(forall|i: int| 0 <= i < front.len() ==> front[i] == s[i]);
        }
        assert(forall|i: int| 0 <= i < front.len() ==> kf(#[trigger] front[i]) != kf(a)) by {
            assert(forall|i: int| 0 <= i < front.len() ==> front[i] == s[i]);
        }
        lemma_assoc_dom(front, kf, vf);
        lemma_assoc_push(front, kf, vf, a);
        assert(front.push(a) =~= s);
        assert(!assoc_map(front, kf, vf).dom().contains(kf(a))) by {
            if assoc_map(front, kf, vf).contains_key(kf(a)) {
                let w = choose|w: int| 0 <= w < front.len() && kf(#[trigger] front[w]) == kf(a);
                assert(front[w] == s[w]);
            }
        }
        assert(assoc_map(s, kf, vf).dom() =~= assoc_map(front, kf, vf).dom().insert(kf(a)));
    }
}

} // verus!
