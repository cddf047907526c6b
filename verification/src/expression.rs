use vstd::prelude::*;

use crate::errors::FilterError;
use crate::pattern::regex_accepted;
use crate::provider::{provider_equiv, MetadataProvider, ProviderSpec};
use crate::signed::{lemma_identity, SignedRoaringBitmap, SignedSet};
use crate::values::{MetaVal, MetadataValue, PrimitiveOperator};

verus! {

/// The set-membership operators of a metadata predicate.
#[derive(Clone, Copy, PartialEq, Eq, Structural, Debug)]
pub enum SetOperator {
    In,
    NotIn,
}

/// The boolean connectives of a composite predicate.
#[derive(Clone, Copy, PartialEq, Eq, Structural, Debug)]
pub enum BooleanOperator {
    And,
    Or,
}

/// The document operators of a document predicate.
#[derive(Clone, Copy, PartialEq, Eq, Structural, Debug)]
pub enum DocumentOperator {
    Contains,
    NotContains,
    Regex,
    NotRegex,
}

/// The homogeneous value list of a set-membership predicate.
#[derive(PartialEq, Debug)]
pub enum MetadataSetValue {
    Bool(Vec<bool>),
    Int(Vec<i64>),
    Float(Vec<u64>),
    Str(Vec<String>),
}

/// The values of a set-membership predicate, as one sequence.
pub open spec fn set_values_view(sv: MetadataSetValue) -> Seq<MetaVal> {
    match sv {
        MetadataSetValue::Bool(v) => v@.map_values(|b: bool| MetaVal::Bool(b)),
        MetadataSetValue::Int(v) => v@.map_values(|x: i64| MetaVal::Int(x as int)),
        MetadataSetValue::Float(v) => v@.map_values(|x: u64| MetaVal::Float(x)),
        MetadataSetValue::Str(v) => v@.map_values(|s: String| MetaVal::Str(s@)),
    }
}

/// A comparison against one value, or membership in a list of values.
#[derive(PartialEq, Debug)]
pub enum MetadataComparison {
    Primitive(PrimitiveOperator, MetadataValue),
    ValueSet(SetOperator, MetadataSetValue),
}

/// A metadata predicate: a comparison on one key.
#[derive(PartialEq, Debug)]
pub struct MetadataExpression {
    pub key: String,
    pub comparison: MetadataComparison,
}

/// A document predicate: a substring or regular-expression test.
#[derive(PartialEq, Debug)]
pub struct DocumentExpression {
    pub operator: DocumentOperator,
    pub pattern: String,
}

/// A boolean combination of child predicates.
#[derive(PartialEq, Debug)]
pub struct CompositeExpression {
    pub operator: BooleanOperator,
    pub children: Vec<Where>,
}

/// A predicate over a record's metadata and document.
#[derive(PartialEq, Debug)]
pub enum Where {
    Metadata(MetadataExpression),
    Document(DocumentExpression),
    Composite(CompositeExpression),
}

/// What a metadata predicate evaluates to against a provider. An
/// inequality is desugared into the complement of the equality set, so
/// records missing the key are selected by it.
pub open spec fn eval_metadata(me: MetadataExpression, m: ProviderSpec) -> SignedSet {
    match me.comparison {
        MetadataComparison::Primitive(op, v) => {
            if op is NotEqual {
                SignedSet::Exclude((m.compare)(me.key@, PrimitiveOperator::Equal, v@))
            } else {
                SignedSet::Include((m.compare)(me.key@, op, v@))
            }
        },
        MetadataComparison::ValueSet(sop, sv) => eval_set_list(m, me.key@, sop, set_values_view(sv)),
    }
}

/// What a set-membership predicate evaluates to: the fold, in order, of the
/// per-value equality sets — unions of inclusions from the empty set for
/// `In`, intersections of exclusions from the universe for `NotIn`.
pub open spec fn eval_set_list(
    m: ProviderSpec,
    key: Seq<char>,
    sop: SetOperator,
    vals: Seq<MetaVal>,
) -> SignedSet
    decreases vals.len(),
{
    if vals.len() == 0 {
        match sop {
            SetOperator::In => SignedSet::empty_spec(),
            SetOperator::NotIn => SignedSet::full_spec(),
        }
    } else {
        let prev = eval_set_list(m, key, sop, vals.drop_last());
        let cur = (m.compare)(key, PrimitiveOperator::Equal, vals.last());
        match sop {
            SetOperator::In => prev.or_spec(SignedSet::Include(cur)),
            SetOperator::NotIn => prev.and_spec(SignedSet::Exclude(cur)),
        }
    }
}

/// What a document predicate evaluates to against a provider.
pub open spec fn eval_document(de: DocumentExpression, m: ProviderSpec) -> SignedSet {
    match de.operator {
        DocumentOperator::Contains => SignedSet::Include((m.contains)(de.pattern@)),
        DocumentOperator::NotContains => SignedSet::Exclude((m.contains)(de.pattern@)),
        DocumentOperator::Regex => SignedSet::Include((m.regex)(de.pattern@)),
        DocumentOperator::NotRegex => SignedSet::Exclude((m.regex)(de.pattern@)),
    }
}

/// What a predicate evaluates to against a provider.
pub open spec fn eval_where(w: Where, m: ProviderSpec) -> SignedSet
    decreases w,
{
    match w {
        Where::Metadata(me) => eval_metadata(me, m),
        Where::Document(de) => eval_document(de, m),
        Where::Composite(ce) => eval_composite_list(m, ce.operator, ce.children@),
    }
}

/// What a composite predicate evaluates to: the fold, in order, of the
/// children's results — intersections from the universe for `And`, unions
/// from the empty set for `Or`.
pub open spec fn eval_composite_list(
    m: ProviderSpec,
    bop: BooleanOperator,
    children: Seq<Where>,
) -> SignedSet
    decreases children, 0int,
{
    if children.len() == 0 {
        match bop {
            BooleanOperator::And => SignedSet::full_spec(),
            BooleanOperator::Or => SignedSet::empty_spec(),
        }
    } else {
        let prev = eval_composite_list(m, bop, children.drop_last());
        let cur = eval_where(children.last(), m);
        match bop {
            BooleanOperator::And => prev.and_spec(cur),
            BooleanOperator::Or => prev.or_spec(cur),
        }
    }
}

/// Whether every regular-expression pattern in the predicate is accepted:
/// exactly then evaluation succeeds.
pub open spec fn where_regex_ok(w: Where) -> bool
    decreases w,
{
    match w {
        Where::Metadata(_) => true,
        Where::Document(de) => (de.operator is Regex || de.operator is NotRegex)
            ==> regex_accepted(de.pattern@),
        Where::Composite(ce) => forall|i: int|
            0 <= i < ce.children@.len() ==> where_regex_ok(#[trigger] ce.children@[i]),
    }
}

impl MetadataSetValue {
    /// The values of the list, each as a tagged value.
    fn items(&self) -> (r: Vec<MetadataValue>)
        ensures
            r@.len() == set_values_view(*self).len(),
            forall|i: int| 0 <= i < r@.len() ==> (#[trigger] r@[i])@ == set_values_view(*self)[i],
    {
        let mut out: Vec<MetadataValue> = Vec::new();
        match self {
            MetadataSetValue::Bool(v) => {
                let n = v.len();
                let mut i: usize = 0;
                while i < n
                    invariant
                        i <= n,
                        n == v@.len(),
                        set_values_view(*self) == v@.map_values(|b: bool| MetaVal::Bool(b)),
                        out@.len() == i,
                        forall|t: int|
                            0 <= t < i ==> (#[trigger] out@[t])@ == set_values_view(*self)[t],
                    decreases n - i,
                {
                    out.push(MetadataValue::Bool(v[i]));
                    i += 1;
                }
            },
            MetadataSetValue::Int(v) => {
                let n = v.len();
                let mut i: usize = 0;
                while i < n
                    invariant
                        i <= n,
                        n == v@.len(),
                        set_values_view(*self) == v@.map_values(|x: i64| MetaVal::Int(x as int)),
                        out@.len() == i,
                        forall|t: int|
                            0 <= t < i ==> (#[trigger] out@[t])@ == set_values_view(*self)[t],
                    decreases n - i,
                {
                    out.push(MetadataValue::Int(v[i]));
                    i += 1;
                }
            },
            MetadataSetValue::Float(v) => {
                let n = v.len();
                let mut i: usize = 0;
                while i < n
                    invariant
                        i <= n,
                        n == v@.len(),
                        set_values_view(*self) == v@.map_values(|x: u64| MetaVal::Float(x)),
                        out@.len() == i,
                        forall|t: int|
                            0 <= t < i ==> (#[trigger] out@[t])@ == set_values_view(*self)[t],
                    decreases n - i,
                {
                    out.push(MetadataValue::Float(v[i]));
                    i += 1;
                }
            },
            MetadataSetValue::Str(v) => {
                let n = v.len();
                let mut i: usize = 0;
                while i < n
                    invariant
                        i <= n,
                        n == v@.len(),
                        set_values_view(*self) == v@.map_values(|s: String| MetaVal::Str(s@)),
                        out@.len() == i,
                        forall|t: int|
                            0 <= t < i ==> (#[trigger] out@[t])@ == set_values_view(*self)[t],
                    decreases n - i,
                {
                    out.push(MetadataValue::Str(v[i].clone()));
                    i += 1;
                }
            },
        }
        out
    }
}

impl MetadataExpression {
    /// Evaluate a metadata predicate against a provider. Inequality is
    /// rewritten into the complement of an equality lookup; a
    /// set-membership predicate folds per-value equality lookups.
    pub fn eval(&self, provider: &MetadataProvider) -> (r: Result<SignedRoaringBitmap, FilterError>)
        requires
            provider.wf(),
        ensures
            r is Ok,
            r is Ok ==> r.unwrap()@ == eval_metadata(*self, provider.model()),
    {
        match &self.comparison {
            MetadataComparison::Primitive(op, v) => {
                if matches!(op, PrimitiveOperator::NotEqual) {
                    Ok(
                        SignedRoaringBitmap::Exclude(
                            provider.filter_by_metadata(&self.key, v, PrimitiveOperator::Equal),
                        ),
                    )
                } else {
                    Ok(
                        SignedRoaringBitmap::Include(
                            provider.filter_by_metadata(&self.key, v, *op),
                        ),
                    )
                }
            },
            MetadataComparison::ValueSet(sop, sv) => {
                let vals = sv.items();
                let ghost vs = set_values_view(*sv);
                let mut acc = match sop {
                    SetOperator::In => SignedRoaringBitmap::empty(),
                    SetOperator::NotIn => SignedRoaringBitmap::full(),
                };
                let n = vals.len();
                let mut i: usize = 0;
                proof {
                    assert(vs.take(0) =~= Seq::<MetaVal>::empty());
                }
                while i < n
                    invariant
                        i <= n,
                        n == vals@.len(),
                        n == vs.len(),
                        provider.wf(),
                        vs == set_values_view(*sv),
                        forall|t: int| 0 <= t < n ==> (#[trigger] vals@[t])@ == vs[t],
                        acc@ == eval_set_list(provider.model(), self.key@, *sop, vs.take(i as int)),
                    decreases n - i,
                {
                    let c = provider.filter_by_metadata(
                        &self.key,
                        &vals[i],
                        PrimitiveOperator::Equal,
                    );
                    acc = match sop {
                        SetOperator::In => acc.or(&SignedRoaringBitmap::Include(c)),
                        SetOperator::NotIn => acc.and(&SignedRoaringBitmap::Exclude(c)),
                    };
                    proof {
                        assert(vs.take(i as int + 1).drop_last() =~= vs.take(i as int));
                        assert(vs.take(i as int + 1).last() == vs[i as int]);
                    }
                    i += 1;
                }
                proof {
                    assert(vs.take(n as int) =~= vs);
                }
                Ok(acc)
            },
        }
    }
}

impl DocumentExpression {
    /// Evaluate a document predicate against a provider. A negative
    /// operator wraps the lookup in an exclusion.
    pub fn eval(&self, provider: &MetadataProvider) -> (r: Result<SignedRoaringBitmap, FilterError>)
        requires
            provider.wf(),
        ensures
            (r is Ok) == where_regex_ok(Where::Document(*self)),
            r is Ok ==> r.unwrap()@ == eval_document(*self, provider.model()),
            r is Err ==> r->Err_0 is Regex,
    {
        match self.operator {
            DocumentOperator::Contains => Ok(
                SignedRoaringBitmap::Include(
                    provider.filter_by_document_contains(self.pattern.as_str()),
                ),
            ),
            DocumentOperator::NotContains => Ok(
                SignedRoaringBitmap::Exclude(
                    provider.filter_by_document_contains(self.pattern.as_str()),
                ),
            ),
            DocumentOperator::Regex => match provider.filter_by_document_regex(
                self.pattern.as_str(),
            ) {
                Ok(b) => Ok(SignedRoaringBitmap::Include(b)),
                Err(e) => Err(e),
            },
            DocumentOperator::NotRegex => match provider.filter_by_document_regex(
                self.pattern.as_str(),
            ) {
                Ok(b) => Ok(SignedRoaringBitmap::Exclude(b)),
                Err(e) => Err(e),
            },
        }
    }
}

impl CompositeExpression {
    /// Evaluate a composite predicate: evaluate the children in order and
    /// fold their results under the connective.
    pub fn eval(&self, provider: &MetadataProvider) -> (r: Result<SignedRoaringBitmap, FilterError>)
        requires
            provider.wf(),
        ensures
            (r is Ok) == where_regex_ok(Where::Composite(*self)),
            r is Ok ==> r.unwrap()@ == eval_composite_list(
                provider.model(),
                self.operator,
                self.children@,
            ),
            r is Err ==> r->Err_0 is Regex,
        decreases *self, 1int,
    {
        let mut acc = match self.operator {
            BooleanOperator::And => SignedRoaringBitmap::full(),
            BooleanOperator::Or => SignedRoaringBitmap::empty(),
        };
        let n = self.children.len();
        let mut i: usize = 0;
        proof {
            assert(self.children@.take(0) =~= Seq::<Where>::empty());
        }
        while i < n
            invariant
                i <= n,
                n == self.children@.len(),
                provider.wf(),
                forall|t: int| 0 <= t < i ==> where_regex_ok(#[trigger] self.children@[t]),
                acc@ == eval_composite_list(
                    provider.model(),
                    self.operator,
                    self.children@.take(i as int),
                ),
            decreases n - i,
        {
            let c = match self.children[i].eval(provider) {
                Ok(c) => c,
                Err(e) => {
                    proof {
                        assert(!where_regex_ok(self.children@[i as int]));
                    }
                    return Err(e);
                },
            };
            acc = match self.operator {
                BooleanOperator::And => acc.and(&c),
                BooleanOperator::Or => acc.or(&c),
            };
            proof {
                assert(self.children@.take(i as int + 1).drop_last() =~= self.children@.take(
                    i as int,
                ));
                assert(self.children@.take(i as int + 1).last() == self.children@[i as int]);
            }
            i += 1;
        }
        proof {
            assert(self.children@.take(n as int) =~= self.children@);
        }
        Ok(acc)
    }
}

/// Providers that agree pointwise evaluate every set-membership fold alike.
proof fn lemma_eval_set_list_equiv(
    m1: ProviderSpec,
    m2: ProviderSpec,
    key: Seq<char>,
    sop: SetOperator,
    vals: Seq<MetaVal>,
)
    requires
        provider_equiv(m1, m2),
    ensures
        eval_set_list(m1, key, sop, vals) == eval_set_list(m2, key, sop, vals),
    decreases vals.len(),
{
    if vals.len() > 0 {
        lemma_eval_set_list_equiv(m1, m2, key, sop, vals.drop_last());
    }
}

/// Providers that agree pointwise evaluate every predicate alike.
pub proof fn lemma_eval_equiv(w: Where, m1: ProviderSpec, m2: ProviderSpec)
    requires
        provider_equiv(m1, m2),
    ensures
        eval_where(w, m1) == eval_where(w, m2),
    decreases w, 1int,
{
    match w {
        Where::Metadata(me) => match me.comparison {
            MetadataComparison::Primitive(_, _) => {},
            MetadataComparison::ValueSet(sop, sv) => {
                lemma_eval_set_list_equiv(m1, m2, me.key@, sop, set_values_view(sv));
            },
        },
        Where::Document(_) => {},
        Where::Composite(ce) => {
            lemma_eval_composite_equiv(m1, m2, ce.operator, ce.children@);
        },
    }
}

/// Providers that agree pointwise evaluate every composite fold alike.
proof fn lemma_eval_composite_equiv(
    m1: ProviderSpec,
    m2: ProviderSpec,
    bop: BooleanOperator,
    children: Seq<Where>,
)
    requires
        provider_equiv(m1, m2),
    ensures
        eval_composite_list(m1, bop, children) == eval_composite_list(m2, bop, children),
    decreases children, 0int,
{
    if children.len() > 0 {
        lemma_eval_composite_equiv(m1, m2, bop, children.drop_last());
        lemma_eval_equiv(children.last(), m1, m2);
    }
}

/// Complementing an evaluation result twice gives it back unchanged, for
/// any predicate and any provider.
pub proof fn lemma_eval_double_complement(w: Where, m: ProviderSpec)
    ensures
        eval_where(w, m).not_spec().not_spec() == eval_where(w, m),
{
}

/// Conjoining a predicate with one that evaluates to the universe leaves
/// its result unchanged, for any provider.
pub proof fn lemma_eval_and_universe(c: CompositeExpression, w: Where, t: Where, m: ProviderSpec)
    requires
        c.operator is And,
        c.children@ == seq![w, t],
        eval_where(t, m) == SignedSet::full_spec(),
    ensures
        eval_where(Where::Composite(c), m) == eval_where(w, m),
{
    let ch = c.children@;
    assert(ch.drop_last() =~= seq![w]);
    assert(ch.last() == t);
    assert(seq![w].drop_last() =~= Seq::<Where>::empty());
    assert(seq![w].last() == w);
    let base = eval_composite_list(m, BooleanOperator::And, Seq::<Where>::empty());
    assert(base == SignedSet::full_spec());
    let one = eval_composite_list(m, BooleanOperator::And, seq![w]);
    assert(one == SignedSet::full_spec().and_spec(eval_where(w, m)));
    assert(SignedSet::full_spec().and_spec(eval_where(w, m)) =~~= eval_where(w, m).and_spec(
        SignedSet::full_spec(),
    ));
    lemma_identity(eval_where(w, m));
    lemma_identity(one);
}

/// Disjoining a predicate with one that evaluates to the empty set leaves
/// its result unchanged, for any provider.
pub proof fn lemma_eval_or_empty(c: CompositeExpression, w: Where, t: Where, m: ProviderSpec)
    requires
        c.operator is Or,
        c.children@ == seq![w, t],
        eval_where(t, m) == SignedSet::empty_spec(),
    ensures
        eval_where(Where::Composite(c), m) == eval_where(w, m),
{
    let ch = c.children@;
    assert(ch.drop_last() =~= seq![w]);
    assert(ch.last() == t);
    assert(seq![w].drop_last() =~= Seq::<Where>::empty());
    assert(seq![w].last() == w);
    let base = eval_composite_list(m, BooleanOperator::Or, Seq::<Where>::empty());
    assert(base == SignedSet::empty_spec());
    let one = eval_composite_list(m, BooleanOperator::Or, seq![w]);
    assert(one == SignedSet::empty_spec().or_spec(eval_where(w, m)));
    assert(SignedSet::empty_spec().or_spec(eval_where(w, m)) =~~= eval_where(w, m).or_spec(
        SignedSet::empty_spec(),
    ));
    lemma_identity(eval_where(w, m));
    lemma_identity(one);
}

/// An inequality predicate evaluates to exactly the complement of the
/// equality predicate on the same key and value, for any provider.
pub proof fn lemma_not_equal_is_complement(
    ne: MetadataExpression,
    eq: MetadataExpression,
    m: ProviderSpec,
)
    requires
        ne.key@ == eq.key@,
        ne.comparison matches MetadataComparison::Primitive(nop, nv) && nop is NotEqual && (
        eq.comparison matches MetadataComparison::Primitive(eop, ev) && eop is Equal && ev@ == nv@),
    ensures
        eval_metadata(ne, m) == eval_metadata(eq, m).not_spec(),
{
}

/// A membership predicate over no values evaluates to the empty set.
pub proof fn lemma_eval_in_empty(me: MetadataExpression, m: ProviderSpec)
    requires
        me.comparison matches MetadataComparison::ValueSet(sop, sv) && sop is In
            && set_values_view(sv).len() == 0,
    ensures
        eval_metadata(me, m) == SignedSet::empty_spec(),
{
}

/// An exclusion predicate over no values evaluates to the universe.
pub proof fn lemma_eval_not_in_empty(me: MetadataExpression, m: ProviderSpec)
    requires
        me.comparison matches MetadataComparison::ValueSet(sop, sv) && sop is NotIn
            && set_values_view(sv).len() == 0,
    ensures
        eval_metadata(me, m) == SignedSet::full_spec(),
{
}

impl Where {
    /// Evaluate the predicate tree against a provider: recursive descent
    /// producing a symbolic offset set, or the first regular-expression
    /// failure.
    pub fn eval(&self, provider: &MetadataProvider) -> (r: Result<SignedRoaringBitmap, FilterError>)
        requires
            provider.wf(),
        ensures
            (r is Ok) == where_regex_ok(*self),
            r is Ok ==> r.unwrap()@ == eval_where(*self, provider.model()),
            r is Err ==> r->Err_0 is Regex,
        decreases *self, 2int,
    {
        match self {
            Where::Metadata(me) => me.eval(provider),
            Where::Document(de) => de.eval(provider),
            Where::Composite(ce) => ce.eval(provider),
        }
    }
}

} // verus!
