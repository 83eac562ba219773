use noria_guard::data::{DataType, Record};
use noria_guard::shard::{export_user_shard, import_user_shard, Table};
use noria_guard::state::{DurabilityMode, PersistenceParameters, PersistentState};

fn text(s: &str) -> DataType {
    DataType::Text(String::from(s))
}

fn table(name: &str, user_column: Option<usize>, rows: Vec<Vec<DataType>>) -> Table {
    let mut state = PersistentState::new(
        String::from(name),
        0,
        &PersistenceParameters { mode: DurabilityMode::Permanent },
    );
    let records: Vec<Record> = rows.into_iter().map(Record::insert).collect();
    state.process_records(&records);
    Table { name: String::from(name), user_column, state }
}

fn tables() -> Vec<Table> {
    vec![
        table(
            "User",
            Some(0),
            vec![vec![text("Alice"), text("1996-01-01")], vec![text("Bob"), text("1996-04-01")]],
        ),
        table("Log", None, vec![vec![text("Alice"), text("boot")]]),
        table(
            "Visit",
            Some(0),
            vec![
                vec![text("Alice"), text("www.google.com")],
                vec![text("Alice"), text("www.facebook.com")],
                vec![text("Bob"), text("www.brown.edu")],
            ],
        ),
    ]
}

#[test]
fn export_collects_subject_rows() {
    let shard = export_user_shard(&tables(), &text("Alice"));
    assert_eq!(shard.parts.len(), 2);
    assert_eq!(shard.parts[0].table, "User");
    assert_eq!(shard.parts[0].rows, vec![vec![text("Alice"), text("1996-01-01")]]);
    assert_eq!(shard.parts[1].table, "Visit");
    assert_eq!(
        shard.parts[1].rows,
        vec![vec![text("Alice"), text("www.google.com")], vec![text("Alice"), text("www.facebook.com")]]
    );
}

#[test]
fn export_of_unknown_subject_is_empty() {
    let shard = export_user_shard(&tables(), &text("Nobody"));
    assert_eq!(shard.parts.len(), 2);
    assert!(shard.parts.iter().all(|p| p.rows.is_empty()));
}

#[test]
fn export_import_round_trip() {
    let shard = export_user_shard(&tables(), &text("Alice"));
    let batches = import_user_shard(&shard);
    assert_eq!(batches.len(), 2);
    for (batch, part) in batches.iter().zip(shard.parts.iter()) {
        assert_eq!(batch.table, part.table);
        assert!(batch.records.iter().all(|r| r.positive));
        let mut fresh = table(&batch.table, Some(0), vec![]);
        fresh.state.process_records(&batch.records);
        assert_eq!(fresh.state.lookup(0, &text("Alice")), part.rows);
    }
}
