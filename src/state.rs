//! Keyed state: rows indexed by a key column, held in memory and, in
//! permanent mode, also on stable storage that outlives a restart.
use vstd::prelude::*;

use crate::data::{lemma_filter_step, batch_view, copy_row, row_view, rows_eq, table_view, DataType, Datum, Record};

verus! {

/// Whether `row` holds `key` at `column`.
pub open spec fn has_key(row: Seq<Datum>, column: int, key: Datum) -> bool {
    0 <= column < row.len() && row[column] == key
}

/// The rows, in order, that hold `key` at `column`.
pub open spec fn matching(rows: Seq<Seq<Datum>>, column: int, key: Datum) -> Seq<Seq<Datum>> {
    rows.filter(|r: Seq<Datum>| has_key(r, column, key))
}

/// `rows` without the first occurrence of `row`; unchanged if there is none.
pub open spec fn remove_first(rows: Seq<Seq<Datum>>, row: Seq<Datum>) -> Seq<Seq<Datum>>
    decreases rows.len(),
{
    if rows.len() == 0 {
        rows
    } else if rows[0] == row {
        rows.drop_first()
    } else {
        seq![rows[0]] + remove_first(rows.drop_first(), row)
    }
}

/// The rows after one record: an insert appends its row, a delete removes
/// one equal row if there is one.
pub open spec fn apply_record(rows: Seq<Seq<Datum>>, rec: (Seq<Datum>, bool)) -> Seq<Seq<Datum>> {
    if rec.1 {
        rows.push(rec.0)
    } else {
        remove_first(rows, rec.0)
    }
}

/// The rows after a batch of records, applied in order.
pub open spec fn apply_batch(rows: Seq<Seq<Datum>>, batch: Seq<(Seq<Datum>, bool)>) -> Seq<
    Seq<Datum>,
>
    decreases batch.len(),
{
    if batch.len() == 0 {
        rows
    } else {
        apply_record(apply_batch(rows, batch.drop_last()), batch.last())
    }
}

/// Adding a row adds it to the rows that match exactly when it holds the key.
pub(crate) proof fn lemma_matching_push(rows: Seq<Seq<Datum>>, row: Seq<Datum>, column: int, key: Datum)
    ensures
        matching(rows.push(row), column, key) == if has_key(row, column, key) {
            matching(rows, column, key).push(row)
        } else {
            matching(rows, column, key)
        },
{
    reveal(Seq::filter);
    assert(rows.push(row).drop_last() =~= rows);
}

proof fn lemma_remove_first_at(rows: Seq<Seq<Datum>>, row: Seq<Datum>, i: int)
    requires
        0 <= i < rows.len(),
        rows[i] == row,
        forall|j: int| 0 <= j < i ==> rows[j] != row,
    ensures
        remove_first(rows, row) == rows.remove(i),
    decreases i,
{
    if i > 0 {
        lemma_remove_first_at(rows.drop_first(), row, i - 1);
        assert(seq![rows[0]] + rows.drop_first().remove(i - 1) =~= rows.remove(i));
    } else {
        assert(rows.drop_first() =~= rows.remove(0));
    }
}

proof fn lemma_remove_first_absent(rows: Seq<Seq<Datum>>, row: Seq<Datum>)
    requires
        forall|j: int| 0 <= j < rows.len() ==> rows[j] != row,
    ensures
        remove_first(rows, row) == rows,
    decreases rows.len(),
{
    if rows.len() > 0 {
        lemma_remove_first_absent(rows.drop_first(), row);
        assert(seq![rows[0]] + rows.drop_first() =~= rows);
    }
}

/// How long written state lives.
#[derive(Debug, Clone, Copy, PartialEq, Eq, Structural)]
pub enum DurabilityMode {
    /// Held in memory only; lost on restart.
    Ephemeral,
    /// Written to stable storage before a write returns; survives restart.
    Permanent,
}

/// Settings for a keyed state.
#[derive(Debug, Clone, Copy)]
pub struct PersistenceParameters {
    pub mode: DurabilityMode,
}

impl Default for PersistenceParameters {
    fn default() -> (r: Self)
        ensures
            r.mode == DurabilityMode::Ephemeral,
    {
        PersistenceParameters { mode: DurabilityMode::Ephemeral }
    }
}

/// Rows indexed by a key column, in memory and, in permanent mode, on storage.
#[derive(Debug)]
pub struct PersistentState {
    name: String,
    key_column: usize,
    mode: DurabilityMode,
    memory: Vec<Vec<DataType>>,
    stored: Vec<Vec<DataType>>,
}

/// Copies the whole of `t`.
fn copy_table(t: &Vec<Vec<DataType>>) -> (c: Vec<Vec<DataType>>)
    ensures
        table_view(c@) == table_view(t@),
{
    let mut c: Vec<Vec<DataType>> = Vec::new();
    let mut i: usize = 0;
    while i < t.len()
        invariant
            i <= t.len(),
            c@.len() == i,
            forall|j: int| 0 <= j < i ==> row_view(#[trigger] c@[j]@) == row_view(t@[j]@),
        decreases t.len() - i,
    {
        c.push(copy_row(&t[i]));
        i = i + 1;
    }
    assert(table_view(c@) =~= table_view(t@));
    c
}

/// Applies one record to the rows of `t`.
fn apply_to(t: &mut Vec<Vec<DataType>>, rec: &Record)
    ensures
        table_view(final(t)@) == apply_record(table_view(old(t)@), rec@),
{
    if rec.positive {
        t.push(copy_row(&rec.row));
        assert(table_view(t@) =~= table_view(old(t)@).push(row_view(rec.row@)));
    } else {
        let ghost rows = table_view(t@);
        let mut i: usize = 0;
        while i < t.len()
            invariant
                i <= t.len(),
                t@ == old(t)@,
                rows == table_view(t@),
                !rec.positive,
                forall|j: int| 0 <= j < i ==> rows[j] != row_view(rec.row@),
            decreases t.len() - i,
        {
            if rows_eq(&t[i], &rec.row) {
                proof {
                    lemma_remove_first_at(rows, row_view(rec.row@), i as int);
                }
                t.remove(i);
                assert(table_view(t@) =~= rows.remove(i as int));
                return;
            }
            i = i + 1;
        }
        proof {
            lemma_remove_first_absent(rows, row_view(rec.row@));
        }
    }
}

impl PersistentState {
    /// The rows held in memory, in order of insertion.
    pub closed spec fn rows(&self) -> Seq<Seq<Datum>> {
        table_view(self.memory@)
    }

    /// The rows held on stable storage.
    pub closed spec fn stored(&self) -> Seq<Seq<Datum>> {
        table_view(self.stored@)
    }

    pub closed spec fn mode(&self) -> DurabilityMode {
        self.mode
    }

    pub closed spec fn key_column(&self) -> nat {
        self.key_column as nat
    }

    pub closed spec fn name(&self) -> Seq<char> {
        self.name@
    }

    /// Storage mirrors memory in permanent mode and is unused in ephemeral mode.
    pub open spec fn wf(&self) -> bool {
        match self.mode() {
            DurabilityMode::Permanent => self.stored() == self.rows(),
            DurabilityMode::Ephemeral => self.stored().len() == 0,
        }
    }

    /// `after` is `before` with `batch` applied.
    pub open spec fn applied(
        before: PersistentState,
        after: PersistentState,
        batch: Seq<(Seq<Datum>, bool)>,
    ) -> bool {
        &&& after.wf()
        &&& after.mode() == before.mode()
        &&& after.key_column() == before.key_column()
        &&& after.name() == before.name()
        &&& after.rows() == apply_batch(before.rows(), batch)
        &&& after.stored() == if before.mode() == DurabilityMode::Permanent {
            apply_batch(before.stored(), batch)
        } else {
            before.stored()
        }
    }

    /// `after` is `before` after a crash and restart: memory is rebuilt from storage.
    pub open spec fn restarted(before: PersistentState, after: PersistentState) -> bool {
        &&& after.wf()
        &&& after.mode() == before.mode()
        &&& after.key_column() == before.key_column()
        &&& after.name() == before.name()
        &&& after.stored() == before.stored()
        &&& after.rows() == if before.mode() == DurabilityMode::Permanent {
            before.stored()
        } else {
            Seq::<Seq<Datum>>::empty()
        }
    }

    /// An empty state named `name`, keyed on `key_column`.
    pub fn new(name: String, key_column: usize, params: &PersistenceParameters) -> (r: Self)
        ensures
            r.wf(),
            r.rows() == Seq::<Seq<Datum>>::empty(),
            r.stored() == Seq::<Seq<Datum>>::empty(),
            r.mode() == params.mode,
            r.key_column() == key_column,
            r.name() == name@,
    {
        let r = PersistentState {
            name,
            key_column,
            mode: params.mode,
            memory: Vec::new(),
            stored: Vec::new(),
        };
        assert(r.rows() =~= Seq::<Seq<Datum>>::empty());
        assert(r.stored() =~= Seq::<Seq<Datum>>::empty());
        r
    }

    /// The column that this state is keyed on.
    pub fn key(&self) -> (r: usize)
        ensures
            r == self.key_column(),
    {
        self.key_column
    }

    /// Applies `records` in order; in permanent mode each is written to
    /// storage before memory changes.
    pub fn process_records(&mut self, records: &Vec<Record>)
        requires
            old(self).wf(),
        ensures
            Self::applied(*old(self), *final(self), batch_view(records@)),
    {
        let ghost batch = batch_view(records@);
        let mut i: usize = 0;
        while i < records.len()
            invariant
                i <= records.len(),
                batch == batch_view(records@),
                Self::applied(*old(self), *self, batch.take(i as int)),
            decreases records.len() - i,
        {
            assert(batch.take(i + 1).drop_last() =~= batch.take(i as int));
            if self.mode == DurabilityMode::Permanent {
                apply_to(&mut self.stored, &records[i]);
            }
            apply_to(&mut self.memory, &records[i]);
            i = i + 1;
        }
        assert(batch.take(records.len() as int) =~= batch);
    }

    /// The rows that hold `key` at `column`, in order.
    pub fn lookup(&self, column: usize, key: &DataType) -> (r: Vec<Vec<DataType>>)
        ensures
            table_view(r@) == matching(self.rows(), column as int, key@),
    {
        let ghost rows = self.rows();
        let mut out: Vec<Vec<DataType>> = Vec::new();
        let mut i: usize = 0;
        while i < self.memory.len()
            invariant
                i <= self.memory.len(),
                rows == self.rows(),
                table_view(out@) == matching(rows.take(i as int), column as int, key@),
            decreases self.memory.len() - i,
        {
            proof {
                lemma_filter_step(rows, i as int, |r: Seq<Datum>| has_key(r, column as int, key@));
            }
            let row = &self.memory[i];
            if column < row.len() && data_eq_at(row, column, key) {
                out.push(copy_row(row));
                assert(table_view(out@) =~= matching(rows.take(i as int), column as int, key@).push(
                    rows[i as int],
                ));
            } else {
                assert(rows[i as int] == row_view(row@));
                assert(!has_key(rows[i as int], column as int, key@));
            }
            i = i + 1;
        }
        assert(rows.take(self.memory.len() as int) =~= rows);
        out
    }

    /// Loses memory as a crash would, then rebuilds it from storage.
    pub fn restart(&mut self)
        requires
            old(self).wf(),
        ensures
            Self::restarted(*old(self), *final(self)),
    {
        if self.mode == DurabilityMode::Permanent {
            self.memory = copy_table(&self.stored);
        } else {
            self.memory = Vec::new();
            assert(self.rows() =~= Seq::<Seq<Datum>>::empty());
        }
    }
}

/// Durability: a batch applied to a permanent state survives a crash and
/// restart. The restarted state holds the rows as they were after the
/// batch, so every lookup answers as before the crash, and a row just
/// inserted is found under its key.
pub proof fn lemma_durable_writes(
    before: PersistentState,
    written: PersistentState,
    after_restart: PersistentState,
    batch: Seq<(Seq<Datum>, bool)>,
)
    requires
        before.wf(),
        before.mode() == DurabilityMode::Permanent,
        PersistentState::applied(before, written, batch),
        PersistentState::restarted(written, after_restart),
    ensures
        after_restart.rows() == apply_batch(before.rows(), batch),
        forall|column: int, key: Datum|
            #[trigger] matching(after_restart.rows(), column, key) == matching(
                written.rows(),
                column,
                key,
            ),
        batch.len() > 0 && batch.last().1 ==> forall|column: int|
            0 <= column < batch.last().0.len() ==> #[trigger] matching(
                after_restart.rows(),
                column,
                batch.last().0[column],
            ).last() == batch.last().0,
{
    if batch.len() > 0 && batch.last().1 {
        let rows = apply_batch(before.rows(), batch.drop_last());
        assert forall|column: int| 0 <= column < batch.last().0.len() implies #[trigger] matching(
            after_restart.rows(),
            column,
            batch.last().0[column],
        ).last() == batch.last().0 by {
            lemma_matching_push(rows, batch.last().0, column, batch.last().0[column]);
        }
    }
}

/// Whether `row` holds `key` at `column`.
fn data_eq_at(row: &Vec<DataType>, column: usize, key: &DataType) -> (r: bool)
    requires
        column < row.len(),
    ensures
        r == (row[column as int]@ == key@),
{
    crate::data::data_eq(&row[column], key)
}

} // verus!
