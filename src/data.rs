//! Scalar values, rows and signed row deltas.
use vstd::prelude::*;

verus! {

/// A scalar value stored in a row.
#[derive(Debug, Clone, PartialEq)]
pub enum DataType {
    Null,
    Int(i64),
    Text(String),
}

/// The mathematical value of a `DataType`.
pub enum Datum {
    Null,
    Int(i64),
    Text(Seq<char>),
}

impl View for DataType {
    type V = Datum;

    open spec fn view(&self) -> Datum {
        match self {
            DataType::Null => Datum::Null,
            DataType::Int(i) => Datum::Int(*i),
            DataType::Text(s) => Datum::Text(s@),
        }
    }
}

impl DataType {
    /// A copy that holds the same value.
    pub fn duplicate(&self) -> (r: DataType)
        ensures
            r@ == self@,
    {
        match self {
            DataType::Null => DataType::Null,
            DataType::Int(i) => DataType::Int(*i),
            DataType::Text(s) => DataType::Text(s.clone()),
        }
    }
}

/// A row as a sequence of values.
pub open spec fn row_view(r: Seq<DataType>) -> Seq<Datum> {
    r.map_values(|d: DataType| d@)
}

/// A sequence of rows, each as a sequence of values.
pub open spec fn table_view(t: Seq<Vec<DataType>>) -> Seq<Seq<Datum>> {
    t.map_values(|r: Vec<DataType>| row_view(r@))
}

/// Compares two values by what they hold.
pub fn data_eq(a: &DataType, b: &DataType) -> (r: bool)
    ensures
        r == (a@ == b@),
{
    match (a, b) {
        (DataType::Null, DataType::Null) => true,
        (DataType::Int(x), DataType::Int(y)) => *x == *y,
        (DataType::Text(x), DataType::Text(y)) => x.eq(y),
        _ => false,
    }
}

/// Filtering the first `i + 1` items adds the last of them exactly when it passes.
pub(crate) proof fn lemma_filter_step<A>(s: Seq<A>, i: int, pred: spec_fn(A) -> bool)
    requires
        0 <= i < s.len(),
    ensures
        s.take(i + 1).filter(pred) == if pred(s[i]) {
            s.take(i).filter(pred).push(s[i])
        } else {
            s.take(i).filter(pred)
        },
{
    reveal(Seq::filter);
    assert(s.take(i + 1).drop_last() =~= s.take(i));
}

/// Every item of a filtered sequence meets the predicate and comes from the
/// sequence.
pub(crate) proof fn lemma_filter_from<A>(s: Seq<A>, pred: spec_fn(A) -> bool)
    ensures
        forall|i: int|
            0 <= i < s.filter(pred).len() ==> pred(#[trigger] s.filter(pred)[i]) && s.contains(
                s.filter(pred)[i],
            ),
    decreases s.len(),
{
    reveal(Seq::filter);
    if s.len() > 0 {
        let rest = s.drop_last();
        lemma_filter_from(rest, pred);
        let out = s.filter(pred);
        assert forall|i: int| 0 <= i < out.len() implies pred(#[trigger] out[i]) && s.contains(
            out[i],
        ) by {
            if i < rest.filter(pred).len() {
                assert(out[i] == rest.filter(pred)[i]);
                let j = choose|j: int| 0 <= j < rest.len() && rest[j] == out[i];
                assert(s[j] == out[i]);
            } else {
                assert(out[i] == s[s.len() - 1]);
            }
        }
    }
}

/// Two predicates that agree on every item filter alike.
pub(crate) proof fn lemma_filter_agree<A>(s: Seq<A>, p: spec_fn(A) -> bool, q: spec_fn(A) -> bool)
    requires
        forall|i: int| 0 <= i < s.len() ==> p(s[i]) == q(s[i]),
    ensures
        s.filter(p) == s.filter(q),
    decreases s.len(),
{
    reveal(Seq::filter);
    if s.len() > 0 {
        assert forall|i: int| 0 <= i < s.drop_last().len() implies p(s.drop_last()[i]) == q(
            s.drop_last()[i],
        ) by {
            assert(s.drop_last()[i] == s[i]);
        }
        lemma_filter_agree(s.drop_last(), p, q);
    }
}

/// Filtering with a predicate that every item meets keeps the sequence.
pub(crate) proof fn lemma_filter_keeps_all<A>(s: Seq<A>, pred: spec_fn(A) -> bool)
    requires
        forall|i: int| 0 <= i < s.len() ==> pred(s[i]),
    ensures
        s.filter(pred) == s,
    decreases s.len(),
{
    reveal(Seq::filter);
    if s.len() > 0 {
        assert forall|i: int| 0 <= i < s.drop_last().len() implies pred(s.drop_last()[i]) by {
            assert(s.drop_last()[i] == s[i]);
        }
        lemma_filter_keeps_all(s.drop_last(), pred);
        assert(s.drop_last().push(s.last()) =~= s);
    }
}

/// Copies a row value by value.
pub fn copy_row(r: &Vec<DataType>) -> (c: Vec<DataType>)
    ensures
        row_view(c@) == row_view(r@),
{
    let mut c: Vec<DataType> = Vec::new();
    let mut i: usize = 0;
    while i < r.len()
        invariant
            i <= r.len(),
            c@.len() == i,
            forall|j: int| 0 <= j < i ==> c@[j]@ == r@[j]@,
        decreases r.len() - i,
    {
        c.push(r[i].duplicate());
        i = i + 1;
    }
    assert(row_view(c@) =~= row_view(r@));
    c
}

/// Compares two rows value by value.
pub fn rows_eq(a: &Vec<DataType>, b: &Vec<DataType>) -> (r: bool)
    ensures
        r == (row_view(a@) == row_view(b@)),
{
    if a.len() != b.len() {
        assert(row_view(a@).len() != row_view(b@).len());
        return false;
    }
    let mut i: usize = 0;
    while i < a.len()
        invariant
            i <= a.len(),
            a.len() == b.len(),
            forall|j: int| 0 <= j < i ==> a@[j]@ == b@[j]@,
        decreases a.len() - i,
    {
        if !data_eq(&a[i], &b[i]) {
            assert(row_view(a@)[i as int] != row_view(b@)[i as int]);
            return false;
        }
        i = i + 1;
    }
    assert(row_view(a@) =~= row_view(b@));
    true
}

/// One signed change: a row that is inserted (`positive`) or deleted.
#[derive(Debug, Clone, PartialEq)]
pub struct Record {
    pub row: Vec<DataType>,
    pub positive: bool,
}

impl View for Record {
    type V = (Seq<Datum>, bool);

    open spec fn view(&self) -> (Seq<Datum>, bool) {
        (row_view(self.row@), self.positive)
    }
}

/// A batch of records as a sequence of (row, is-insert) pairs.
pub open spec fn batch_view(rs: Seq<Record>) -> Seq<(Seq<Datum>, bool)> {
    rs.map_values(|r: Record| r@)
}

impl Record {
    /// A record that inserts `row`.
    pub fn insert(row: Vec<DataType>) -> (r: Record)
        ensures
            r@ == (row_view(row@), true),
    {
        Record { row, positive: true }
    }

    /// A record that deletes `row`.
    pub fn delete(row: Vec<DataType>) -> (r: Record)
        ensures
            r@ == (row_view(row@), false),
    {
        Record { row, positive: false }
    }
}

} // verus!
