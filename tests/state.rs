use noria_guard::data::{DataType, Record};
use noria_guard::state::{DurabilityMode, PersistenceParameters, PersistentState};

fn text(s: &str) -> DataType {
    DataType::Text(String::from(s))
}

fn num(i: i64) -> DataType {
    DataType::Int(i)
}

fn permanent() -> PersistenceParameters {
    PersistenceParameters { mode: DurabilityMode::Permanent }
}

#[test]
fn permanent_write_survives_restart() {
    let mut state = PersistentState::new(String::from("durable"), 0, &permanent());
    state.process_records(&vec![Record::insert(vec![text("Alice"), num(1)])]);
    state.restart();
    assert_eq!(state.lookup(0, &text("Alice")), vec![vec![text("Alice"), num(1)]]);
}

#[test]
fn ephemeral_write_is_lost_on_restart() {
    let mut state = PersistentState::new(String::from("memory"), 0, &PersistenceParameters::default());
    state.process_records(&vec![Record::insert(vec![text("Alice"), num(1)])]);
    assert_eq!(state.lookup(0, &text("Alice")).len(), 1);
    state.restart();
    assert!(state.lookup(0, &text("Alice")).is_empty());
}

#[test]
fn delete_removes_one_equal_row() {
    let mut state = PersistentState::new(String::from("rows"), 0, &permanent());
    let row = vec![text("Bob"), num(2)];
    state.process_records(&vec![
        Record::insert(row.clone()),
        Record::insert(row.clone()),
        Record::delete(row.clone()),
        Record::delete(vec![text("Nobody"), num(0)]),
    ]);
    assert_eq!(state.lookup(0, &text("Bob")), vec![row.clone()]);
    state.restart();
    assert_eq!(state.lookup(0, &text("Bob")), vec![row]);
}

#[test]
fn lookup_matches_column_and_keeps_order() {
    let mut state = PersistentState::new(String::from("rows"), 0, &PersistenceParameters::default());
    state.process_records(&vec![
        Record::insert(vec![text("A"), num(1)]),
        Record::insert(vec![text("B"), num(1)]),
        Record::insert(vec![text("A"), num(2)]),
        Record::insert(vec![text("C")]),
    ]);
    assert_eq!(state.lookup(0, &text("A")), vec![vec![text("A"), num(1)], vec![text("A"), num(2)]]);
    assert_eq!(state.lookup(1, &num(1)), vec![vec![text("A"), num(1)], vec![text("B"), num(1)]]);
    assert!(state.lookup(1, &text("C")).is_empty());
    assert!(state.lookup(0, &num(1)).is_empty());
    assert_eq!(state.key(), 0);
}
