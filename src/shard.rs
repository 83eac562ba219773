//! User shards: every row of one data subject across the tables that name a
//! subject column, collected for export and turned back into inserts on import.
use vstd::prelude::*;

use crate::data::{batch_view, copy_row, table_view, DataType, Datum, Record};
use crate::state::{apply_batch, matching, PersistentState};

verus! {

/// A table as export sees it.
#[derive(Debug)]
pub struct Table {
    pub name: String,
    /// The column that names the data subject of each row, if any.
    pub user_column: Option<usize>,
    pub state: PersistentState,
}

/// The rows of one table that belong to the subject.
#[derive(Debug, Clone, PartialEq)]
pub struct ShardPart {
    pub table: String,
    pub rows: Vec<Vec<DataType>>,
}

/// The rows of one subject, by table.
#[derive(Debug, Clone, PartialEq)]
pub struct UserShard {
    pub parts: Vec<ShardPart>,
}

/// A batch of inserts for one table, made from a shard.
#[derive(Debug)]
pub struct ImportBatch {
    pub table: String,
    pub records: Vec<Record>,
}

/// A shard as (table name, rows) pairs.
pub open spec fn shard_view(parts: Seq<ShardPart>) -> Seq<(Seq<char>, Seq<Seq<Datum>>)> {
    parts.map_values(|p: ShardPart| (p.table@, table_view(p.rows@)))
}

/// What export collects for `subject` from `tables`: for each table with a
/// subject column, in order, its name and its rows that hold `subject` there.
pub open spec fn exported(tables: Seq<Table>, subject: Datum) -> Seq<(Seq<char>, Seq<Seq<Datum>>)>
    decreases tables.len(),
{
    if tables.len() == 0 {
        Seq::empty()
    } else {
        let prev = exported(tables.drop_last(), subject);
        let t = tables.last();
        match t.user_column {
            Some(uc) => prev.push((t.name@, matching(t.state.rows(), uc as int, subject))),
            None => prev,
        }
    }
}

/// Inserts of `rows`, in order.
pub open spec fn inserts(rows: Seq<Seq<Datum>>) -> Seq<(Seq<Datum>, bool)> {
    rows.map_values(|r: Seq<Datum>| (r, true))
}

/// Collects every row of `subject` from the tables that have a subject column.
/// A subject with no rows gives parts with no rows, not a failure.
pub fn export_user_shard(tables: &Vec<Table>, subject: &DataType) -> (r: UserShard)
    ensures
        shard_view(r.parts@) == exported(tables@, subject@),
{
    let mut parts: Vec<ShardPart> = Vec::new();
    let mut i: usize = 0;
    while i < tables.len()
        invariant
            i <= tables.len(),
            shard_view(parts@) == exported(tables@.take(i as int), subject@),
        decreases tables.len() - i,
    {
        assert(tables@.take(i + 1).drop_last() =~= tables@.take(i as int));
        let t = &tables[i];
        match t.user_column {
            Some(uc) => {
                let rows = t.state.lookup(uc, subject);
                parts.push(ShardPart { table: t.name.clone(), rows });
                assert(shard_view(parts@) =~= exported(tables@.take(i as int), subject@).push(
                    (t.name@, matching(t.state.rows(), uc as int, subject@)),
                ));
            },
            None => {},
        }
        i = i + 1;
    }
    assert(tables@.take(tables.len() as int) =~= tables@);
    UserShard { parts }
}

/// Turns each part of `shard` into a batch that inserts its rows into its table.
pub fn import_user_shard(shard: &UserShard) -> (r: Vec<ImportBatch>)
    ensures
        r@.len() == shard.parts@.len(),
        forall|i: int|
            0 <= i < r@.len() ==> (#[trigger] r@[i]).table@ == shard.parts@[i].table@ && batch_view(
                r@[i].records@,
            ) == inserts(table_view(shard.parts@[i].rows@)),
{
    let mut out: Vec<ImportBatch> = Vec::new();
    let mut i: usize = 0;
    while i < shard.parts.len()
        invariant
            i <= shard.parts.len(),
            out@.len() == i,
            forall|k: int|
                0 <= k < i ==> (#[trigger] out@[k]).table@ == shard.parts@[k].table@ && batch_view(
                    out@[k].records@,
                ) == inserts(table_view(shard.parts@[k].rows@)),
        decreases shard.parts.len() - i,
    {
        let part = &shard.parts[i];
        let records = insert_all(&part.rows);
        out.push(ImportBatch { table: part.table.clone(), records });
        i = i + 1;
    }
    out
}

/// Inserts of copies of `rows`, in order.
fn insert_all(rows: &Vec<Vec<DataType>>) -> (r: Vec<Record>)
    ensures
        batch_view(r@) == inserts(table_view(rows@)),
{
    let mut out: Vec<Record> = Vec::new();
    let mut i: usize = 0;
    while i < rows.len()
        invariant
            i <= rows.len(),
            out@.len() == i,
            forall|k: int| 0 <= k < i ==> (#[trigger] out@[k])@ == (crate::data::row_view(rows@[k]@), true),
        decreases rows.len() - i,
    {
        out.push(Record::insert(copy_row(&rows[i])));
        i = i + 1;
    }
    assert(batch_view(out@) =~= inserts(table_view(rows@)));
    out
}

/// Applying the inserts of `rows` to an empty table gives `rows`.
proof fn lemma_inserts_rebuild(rows: Seq<Seq<Datum>>)
    ensures
        apply_batch(Seq::empty(), inserts(rows)) == rows,
    decreases rows.len(),
{
    if rows.len() > 0 {
        assert(inserts(rows).drop_last() =~= inserts(rows.drop_last()));
        lemma_inserts_rebuild(rows.drop_last());
        assert(rows.drop_last().push(rows.last()) =~= rows);
    }
}

/// Export/import round trip: each batch that import makes from an exported
/// shard names a table that had a subject column and, applied to a fresh
/// empty table, gives it exactly the rows that the subject had there at
/// export, in the same order.
pub proof fn lemma_export_import_round_trip(
    tables: Seq<Table>,
    subject: Datum,
    shard: UserShard,
    batches: Seq<ImportBatch>,
)
    requires
        shard_view(shard.parts@) == exported(tables, subject),
        batches.len() == shard.parts@.len(),
        forall|i: int|
            0 <= i < batches.len() ==> (#[trigger] batches[i]).table@ == shard.parts@[i].table@
                && batch_view(batches[i].records@) == inserts(table_view(shard.parts@[i].rows@)),
    ensures
        batches.len() == exported(tables, subject).len(),
        forall|i: int|
            0 <= i < batches.len() ==> (#[trigger] batches[i]).table@ == exported(tables, subject)[i].0
                && apply_batch(Seq::empty(), batch_view(batches[i].records@)) == exported(
                tables,
                subject,
            )[i].1,
{
    let e = exported(tables, subject);
    assert forall|i: int| 0 <= i < batches.len() implies (#[trigger] batches[i]).table@ == e[i].0
        && apply_batch(Seq::empty(), batch_view(batches[i].records@)) == e[i].1 by {
        assert(shard_view(shard.parts@)[i] == e[i]);
        lemma_inserts_rebuild(table_view(shard.parts@[i].rows@));
    }
}

} // verus!
