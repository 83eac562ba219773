//! The Guard operator: admits or suppresses each row of a base table by the
//! consent record that its own durable state holds for the row's subject.
use vstd::prelude::*;

use crate::data::{
    batch_view, copy_row, lemma_filter_agree, lemma_filter_from, lemma_filter_keeps_all,
    lemma_filter_step, DataType, Datum, Record,
};
use crate::graph::{Graph, IndexPair, LocalNodeIndex, NodeIndex, StateMap};
use crate::state::{apply_batch, has_key, lemma_matching_push, matching, PersistentState};

verus! {

/// The flag value of a consent row whose subject does not object.
pub open spec fn not_objected() -> Datum {
    Datum::Int(0)
}

/// The consent rows held for `subject` break the one-row-per-subject rule,
/// or the one row lacks its flag column.
pub open spec fn consent_corrupt(
    rows: Seq<Seq<Datum>>,
    key_column: int,
    value_column: int,
    subject: Datum,
) -> bool {
    let m = matching(rows, key_column, subject);
    m.len() > 1 || (m.len() == 1 && !(0 <= value_column < m[0].len()))
}

/// The consent rows allowed `subject`: there are none, or the one row's flag
/// is the not-objected value.
pub open spec fn consent_admits(
    rows: Seq<Seq<Datum>>,
    key_column: int,
    value_column: int,
    subject: Datum,
) -> bool {
    let m = matching(rows, key_column, subject);
    m.len() == 0 || (m.len() == 1 && has_key(m[0], value_column, not_objected()))
}

/// The configuration of a guard.
pub struct GuardView {
    pub us: Option<IndexPair>,
    pub src: IndexPair,
    pub user_column: Option<usize>,
    pub key_column: usize,
    pub value_column: usize,
}

/// The guard `g`, consulting consent rows `rows`, lets `rec` through.
pub open spec fn passes(g: GuardView, rows: Seq<Seq<Datum>>, rec: (Seq<Datum>, bool)) -> bool {
    match g.user_column {
        None => true,
        Some(uc) => consent_admits(rows, g.key_column as int, g.value_column as int, rec.0[uc as int]),
    }
}

/// The consent rows for the subject of `rec` are corrupt.
pub open spec fn faults(g: GuardView, rows: Seq<Seq<Datum>>, rec: (Seq<Datum>, bool)) -> bool {
    match g.user_column {
        None => false,
        Some(uc) => consent_corrupt(rows, g.key_column as int, g.value_column as int, rec.0[uc as int]),
    }
}

/// The consent rows of the guard `g` among `states`.
pub open spec fn own_rows(g: GuardView, states: Map<LocalNodeIndex, PersistentState>) -> Seq<
    Seq<Datum>,
> {
    states[g.us->Some_0.local->Some_0].rows()
}

/// What `on_input` needs of a filtering guard: its local index, its own
/// state, and a subject value in every row.
pub open spec fn ready(
    g: GuardView,
    states: Map<LocalNodeIndex, PersistentState>,
    batch: Seq<(Seq<Datum>, bool)>,
) -> bool {
    match g.user_column {
        None => true,
        Some(uc) => {
            &&& g.us is Some
            &&& g.us->Some_0.local is Some
            &&& states.contains_key(g.us->Some_0.local->Some_0)
            &&& forall|i: int| 0 <= i < batch.len() ==> uc < (#[trigger] batch[i]).0.len()
        },
    }
}

/// A Guard operator.
#[derive(Debug, Clone, Copy)]
pub struct Guard {
    us: Option<IndexPair>,
    src: IndexPair,
    user_column: Option<usize>,
    // Column of the subject in the consent state.
    key_column: usize,
    // Column of the objection flag in the consent state.
    value_column: usize,
}

/// The operators that a node can run.
#[derive(Debug, Clone, Copy)]
pub enum NodeOperator {
    Guard(Guard),
}

/// Why wiring a node failed.
#[derive(Debug, Clone, Copy, PartialEq, Eq, Structural)]
pub enum WiringError {
    /// The ancestor is not in the graph.
    UnknownAncestor,
    /// The ancestor is not a base table.
    NotBaseAncestor,
}

/// Why processing a batch failed: fatal to the domain.
#[derive(Debug, Clone, Copy, PartialEq, Eq, Structural)]
pub enum GuardError {
    /// A subject has more than one consent row, or its row has no flag.
    CorruptConsent,
}

/// The outgoing batch of an operator.
#[derive(Debug)]
pub struct ProcessingResult {
    pub results: Vec<Record>,
}

impl View for Guard {
    type V = GuardView;

    closed spec fn view(&self) -> GuardView {
        GuardView {
            us: self.us,
            src: self.src,
            user_column: self.user_column,
            key_column: self.key_column,
            value_column: self.value_column,
        }
    }
}

impl Guard {
    /// A guard below the base node `src`.
    pub fn new(src: NodeIndex) -> (r: Guard)
        ensures
            r@.us is None,
            r@.src == IndexPair::new_spec(src),
            r@.user_column is None,
            r@.key_column == 0,
            r@.value_column == 1,
    {
        Guard { us: None, src: IndexPair::new(src), user_column: None, key_column: 0, value_column: 1 }
    }

    /// The node operator that runs this guard.
    pub fn take(&mut self) -> (r: NodeOperator)
        ensures
            *final(self) == *old(self),
            r == NodeOperator::Guard(*old(self)),
    {
        NodeOperator::Guard(*self)
    }

    /// The single base node above this guard.
    pub fn ancestors(&self) -> (r: Vec<NodeIndex>)
        ensures
            r@ == seq![self@.src.global],
    {
        vec![self.src.as_global()]
    }

    /// A guard asks for no index of its own ancestor.
    pub fn suggest_indexes(&self, _you: NodeIndex) -> (r: std::collections::HashMap<
        NodeIndex,
        Vec<usize>,
    >)
        ensures
            r@ == Map::<NodeIndex, Vec<usize>>::empty(),
    {
        std::collections::HashMap::new()
    }

    /// Every column comes unchanged from the same column of the ancestor.
    pub fn resolve(&self, col: usize) -> (r: Option<Vec<(NodeIndex, usize)>>)
        ensures
            r is Some,
            r->Some_0@ == seq![(self@.src.global, col)],
    {
        Some(vec![(self.src.as_global(), col)])
    }

    /// The short name of this operator.
    pub fn description(&self, _detailed: bool) -> (r: String)
        ensures
            r@ == seq!['G'],
    {
        let r = String::from_str("G");
        proof {
            reveal_strlit("G");
        }
        r
    }

    /// Takes the user column of the base node above; fails, changing nothing,
    /// where that node is missing or is not a base table.
    pub fn on_connected(&mut self, graph: &Graph) -> (r: Result<(), WiringError>)
        ensures
            old(self)@.src.global >= graph.nodes@.len() ==> r == Err::<(), WiringError>(
                WiringError::UnknownAncestor,
            ) && *final(self) == *old(self),
            old(self)@.src.global < graph.nodes@.len() && graph.nodes@[old(
                self,
            )@.src.global as int].base is None ==> r == Err::<(), WiringError>(
                WiringError::NotBaseAncestor,
            ) && *final(self) == *old(self),
            old(self)@.src.global < graph.nodes@.len() && graph.nodes@[old(
                self,
            )@.src.global as int].base is Some ==> r is Ok && final(self)@ == (GuardView {
                user_column: graph.nodes@[old(self)@.src.global as int].base->Some_0.user_column,
                ..old(self)@
            }),
    {
        let idx = self.src.as_global();
        if idx >= graph.nodes.len() {
            return Err(WiringError::UnknownAncestor);
        }
        match &graph.nodes[idx].base {
            Some(base) => {
                self.user_column = base.user_column;
                Ok(())
            },
            None => Err(WiringError::NotBaseAncestor),
        }
    }

    /// Fixes this guard's references to their committed form through `remap`.
    pub fn on_commit(&mut self, us: NodeIndex, remap: &std::collections::HashMap<NodeIndex, IndexPair>)
        requires
            remap@.contains_key(old(self)@.src.global),
            remap@.contains_key(us),
        ensures
            final(self)@ == (GuardView {
                us: Some(remap@[us]),
                src: remap@[old(self)@.src.global],
                ..old(self)@
            }),
    {
        self.src.remap(remap);
        match remap.get(&us) {
            Some(p) => {
                self.us = Some(*p);
            },
            None => {},
        }
    }

    /// Lookups may not bypass a guard: its decision rests on its own state.
    pub fn can_query_through(&self) -> (r: bool)
        ensures
            !r,
    {
        false
    }

    /// Every column has the same column of the ancestor as its parent.
    pub fn parent_columns(&self, column: usize) -> (r: Vec<(NodeIndex, Option<usize>)>)
        ensures
            r@ == seq![(self@.src.global, Some(column))],
    {
        vec![(self.src.as_global(), Some(column))]
    }

    /// Decides, from the consent rows in `db`, whether rows of `subject` are
    /// admitted; fails where those rows are corrupt.
    pub fn check_consent(&self, db: &PersistentState, subject: &DataType) -> (r: Result<
        bool,
        GuardError,
    >)
        ensures
            match r {
                Ok(allowed) => {
                    &&& !consent_corrupt(
                        db.rows(),
                        self@.key_column as int,
                        self@.value_column as int,
                        subject@,
                    )
                    &&& allowed == consent_admits(
                        db.rows(),
                        self@.key_column as int,
                        self@.value_column as int,
                        subject@,
                    )
                },
                Err(e) => consent_corrupt(
                    db.rows(),
                    self@.key_column as int,
                    self@.value_column as int,
                    subject@,
                ),
            },
    {
        let rows = db.lookup(self.key_column, subject);
        let ghost m = matching(db.rows(), self.key_column as int, subject@);
        assert(m.len() == rows@.len());
        if rows.len() == 0 {
            Ok(true)
        } else if rows.len() == 1 {
            let row = &rows[0];
            assert(m[0] == crate::data::row_view(row@));
            if self.value_column < row.len() {
                let flag = &row[self.value_column];
                assert(m[0][self.value_column as int] == flag@);
                let allowed = match flag {
                    DataType::Int(v) => *v == 0,
                    _ => false,
                };
                Ok(allowed)
            } else {
                Err(GuardError::CorruptConsent)
            }
        } else {
            Err(GuardError::CorruptConsent)
        }
    }

    /// Filters one batch from the base table: each row passes or not by the
    /// consent of its subject; inserts and deletes alike. Without a user
    /// column every row passes. Fails if any row's subject has corrupt
    /// consent rows.
    pub fn on_input(&mut self, rs: Vec<Record>, states: &StateMap) -> (r: Result<
        ProcessingResult,
        GuardError,
    >)
        requires
            ready(old(self)@, states@, batch_view(rs@)),
        ensures
            *final(self) == *old(self),
            match r {
                Ok(out) => {
                    &&& forall|i: int|
                        0 <= i < rs@.len() ==> !faults(
                            old(self)@,
                            own_rows(old(self)@, states@),
                            #[trigger] batch_view(rs@)[i],
                        )
                    &&& batch_view(out.results@) == batch_view(rs@).filter(
                        |x: (Seq<Datum>, bool)| passes(old(self)@, own_rows(old(self)@, states@), x),
                    )
                },
                Err(e) => exists|i: int|
                    0 <= i < rs@.len() && faults(
                        old(self)@,
                        own_rows(old(self)@, states@),
                        #[trigger] batch_view(rs@)[i],
                    ),
            },
    {
        let ghost g = self@;
        let ghost rows = own_rows(g, states@);
        let ghost bv = batch_view(rs@);
        let ghost pred = |x: (Seq<Datum>, bool)| passes(g, rows, x);
        match self.user_column {
            None => {
                proof {
                    lemma_filter_keeps_all(bv, pred);
                }
                Ok(ProcessingResult { results: rs })
            },
            Some(uc) => {
                let db = states.get(self.us.unwrap().local.unwrap()).unwrap();
                let mut out: Vec<Record> = Vec::new();
                let mut i: usize = 0;
                while i < rs.len()
                    invariant
                        i <= rs.len(),
                        g == self@,
                        g == old(self)@,
                        *self == *old(self),
                        rows == own_rows(g, states@),
                        pred == (|x: (Seq<Datum>, bool)| passes(g, rows, x)),
                        self@.user_column == Some(uc),
                        bv == batch_view(rs@),
                        db.rows() == rows,
                        ready(g, states@, bv),
                        forall|j: int| 0 <= j < i ==> !faults(g, rows, #[trigger] bv[j]),
                        batch_view(out@) == bv.take(i as int).filter(pred),
                    decreases rs.len() - i,
                {
                    proof {
                        lemma_filter_step(bv, i as int, pred);
                    }
                    let rec = &rs[i];
                    assert(bv[i as int] == rec@);
                    assert(uc < rec.row@.len());
                    let subject = &rec.row[uc];
                    assert(rec@.0[uc as int] == subject@);
                    match self.check_consent(db, subject) {
                        Ok(allowed) => {
                            assert(pred(bv[i as int]) == allowed);
                            assert(!faults(g, rows, bv[i as int]));
                            if allowed {
                                out.push(Record { row: copy_row(&rec.row), positive: rec.positive });
                                assert(batch_view(out@) =~= bv.take(i as int).filter(pred).push(
                                    bv[i as int],
                                ));
                            }
                        },
                        Err(e) => {
                            assert(faults(g, rows, bv[i as int]));
                            return Err(e);
                        },
                    }
                    i = i + 1;
                }
                assert(bv.take(rs.len() as int) =~= bv);
                Ok(ProcessingResult { results: out })
            },
        }
    }
}

/// Default admission: where no subject of a batch has a consent row, the
/// guard passes the whole batch, inserts and deletes alike, in order, and
/// none of its rows fails.
pub proof fn lemma_default_admission(
    g: GuardView,
    rows: Seq<Seq<Datum>>,
    batch: Seq<(Seq<Datum>, bool)>,
)
    requires
        forall|i: int|
            0 <= i < batch.len() ==> match g.user_column {
                None => true,
                Some(uc) => matching(rows, g.key_column as int, (#[trigger] batch[i]).0[uc as int]).len()
                    == 0,
            },
    ensures
        batch.filter(|x: (Seq<Datum>, bool)| passes(g, rows, x)) == batch,
        forall|i: int| 0 <= i < batch.len() ==> !faults(g, rows, #[trigger] batch[i]),
{
    assert forall|i: int| 0 <= i < batch.len() implies passes(g, rows, #[trigger] batch[i])
        && !faults(g, rows, batch[i]) by {}
    lemma_filter_keeps_all(batch, |x: (Seq<Datum>, bool)| passes(g, rows, x));
}

/// Objection suppression: once a consent row that objects is recorded for
/// `subject` (who had none), the guard drops every row of `subject`, insert
/// or delete, and decides every other row as before.
pub proof fn lemma_objection_suppresses(
    g: GuardView,
    rows: Seq<Seq<Datum>>,
    objection: Seq<Datum>,
    subject: Datum,
    batch: Seq<(Seq<Datum>, bool)>,
)
    requires
        g.user_column is Some,
        matching(rows, g.key_column as int, subject).len() == 0,
        has_key(objection, g.key_column as int, subject),
        g.value_column < objection.len(),
        objection[g.value_column as int] != not_objected(),
    ensures
        ({
            let after = apply_batch(rows, seq![(objection, true)]);
            let uc = g.user_column->Some_0 as int;
            let out = batch.filter(|x: (Seq<Datum>, bool)| passes(g, after, x));
            &&& forall|i: int| 0 <= i < out.len() ==> (#[trigger] out[i]).0[uc] != subject
            &&& out == batch.filter(
                |x: (Seq<Datum>, bool)| x.0[uc] != subject && passes(g, rows, x),
            )
        }),
{
    let after = apply_batch(rows, seq![(objection, true)]);
    let uc = g.user_column->Some_0 as int;
    let kc = g.key_column as int;
    assert(seq![(objection, true)].drop_last() =~= Seq::<(Seq<Datum>, bool)>::empty());
    reveal_with_fuel(apply_batch, 2);
    assert(after == rows.push(objection));
    let p = |x: (Seq<Datum>, bool)| passes(g, after, x);
    let q = |x: (Seq<Datum>, bool)| x.0[uc] != subject && passes(g, rows, x);
    assert forall|i: int| 0 <= i < batch.len() implies p(batch[i]) == q(batch[i]) by {
        let v = batch[i].0[uc];
        lemma_matching_push(rows, objection, kc, v);
        if v == subject {
            assert(matching(after, kc, v) == seq![objection]);
        }
    }
    lemma_filter_agree(batch, p, q);
    lemma_filter_from(batch, q);
}

/// Pass-through shape: every row that the guard lets out is one of the rows
/// that came in, unchanged in width, order of columns and values, and one
/// that passes.
pub proof fn lemma_output_rows_are_input_rows(
    g: GuardView,
    rows: Seq<Seq<Datum>>,
    batch: Seq<(Seq<Datum>, bool)>,
)
    ensures
        ({
            let out = batch.filter(|x: (Seq<Datum>, bool)| passes(g, rows, x));
            forall|i: int|
                0 <= i < out.len() ==> batch.contains(#[trigger] out[i]) && passes(g, rows, out[i])
        }),
{
    lemma_filter_from(batch, |x: (Seq<Datum>, bool)| passes(g, rows, x));
}

/// Corruption detection: after two consent rows for one subject are
/// written, every row of that subject makes the guard fail.
pub proof fn lemma_duplicate_consent_is_fatal(
    g: GuardView,
    rows: Seq<Seq<Datum>>,
    first: Seq<Datum>,
    second: Seq<Datum>,
    subject: Datum,
    rec: (Seq<Datum>, bool),
)
    requires
        g.user_column is Some,
        has_key(first, g.key_column as int, subject),
        has_key(second, g.key_column as int, subject),
        rec.0[g.user_column->Some_0 as int] == subject,
    ensures
        faults(g, apply_batch(rows, seq![(first, true), (second, true)]), rec),
{
    let kc = g.key_column as int;
    let b = seq![(first, true), (second, true)];
    assert(b.drop_last() =~= seq![(first, true)]);
    assert(b.drop_last().drop_last() =~= Seq::<(Seq<Datum>, bool)>::empty());
    reveal_with_fuel(apply_batch, 3);
    assert(apply_batch(rows, b) == rows.push(first).push(second));
    lemma_matching_push(rows, first, kc, subject);
    lemma_matching_push(rows.push(first), second, kc, subject);
}

} // verus!
