use std::collections::HashMap;

use noria_guard::data::{DataType, Record};
use noria_guard::graph::{BaseInfo, Graph, IndexPair, Node, StateMap};
use noria_guard::guard::{Guard, GuardError, NodeOperator, WiringError};
use noria_guard::state::{DurabilityMode, PersistenceParameters, PersistentState};

fn text(s: &str) -> DataType {
    DataType::Text(String::from(s))
}

fn num(i: i64) -> DataType {
    DataType::Int(i)
}

fn base_graph(user_column: Option<usize>) -> Graph {
    let mut g = Graph::new();
    g.add_node(Node {
        name: String::from("source"),
        base: Some(BaseInfo { user_column, undeletable: false }),
    });
    g
}

fn remap_table() -> HashMap<usize, IndexPair> {
    let mut remap = HashMap::new();
    remap.insert(0, IndexPair { global: 0, local: Some(0) });
    remap.insert(1, IndexPair { global: 1, local: Some(1) });
    remap
}

/// A guard below a base table whose subject column is column 0.
fn setup() -> Guard {
    let graph = base_graph(Some(0));
    let mut guard = Guard::new(0);
    guard.on_connected(&graph).unwrap();
    guard.on_commit(1, &remap_table());
    guard
}

fn with_state(state: PersistentState) -> StateMap {
    let mut states = StateMap::new();
    states.insert(1, state);
    states
}

fn narrow_one_row(guard: &mut Guard, states: &StateMap, row: Vec<DataType>, positive: bool) -> Vec<Record> {
    let rec = Record { row, positive };
    guard.on_input(vec![rec], states).unwrap().results
}

fn consent_state(name: &str, entries: Vec<(DataType, i64)>) -> PersistentState {
    let mut state = PersistentState::new(
        String::from(name),
        0,
        &PersistenceParameters { mode: DurabilityMode::Permanent },
    );
    let records: Vec<Record> = entries.into_iter().map(|(k, v)| Record::insert(vec![k, num(v)])).collect();
    state.process_records(&records);
    state
}

#[test]
fn it_forwards_without_guard() {
    let mut g = setup();
    let state = PersistentState::new(
        String::from("setup guard testcase(unused)"),
        0,
        &PersistenceParameters::default(),
    );
    let states = with_state(state);

    let mut left: Vec<DataType>;

    left = vec![text("Alice"), num(10)];
    assert_eq!(narrow_one_row(&mut g, &states, left.clone(), true), vec![Record::insert(left)]);

    left = vec![text("Bob"), num(12)];
    assert_eq!(narrow_one_row(&mut g, &states, left.clone(), true), vec![Record::insert(left)]);
}

#[test]
fn it_forwards_with_guard() {
    let mut g = setup();
    let state = consent_state("setup guard testcase(used)", vec![(text("Alice"), 1), (text("Bob"), 0)]);
    let states = with_state(state);

    let mut left: Vec<DataType>;

    // Alice objects.
    left = vec![text("Alice"), num(10)];
    assert!(narrow_one_row(&mut g, &states, left.clone(), true).is_empty());

    // Bob does not object.
    left = vec![text("Bob"), num(12)];
    assert_eq!(narrow_one_row(&mut g, &states, left.clone(), true), vec![Record::insert(left)]);

    // John has no record and is admitted.
    left = vec![text("John"), num(15)];
    assert_eq!(narrow_one_row(&mut g, &states, left.clone(), true), vec![Record::insert(left)]);
}

#[test]
fn it_suggests_indices() {
    let g = setup();
    let me = 1;
    let idx = g.suggest_indexes(me);
    assert_eq!(idx.len(), 0);
}

#[test]
fn guard_filters_mixed_batch() {
    let mut g = setup();
    let states = with_state(consent_state("consent", vec![(text("Alice"), 1), (text("Bob"), 0)]));
    let batch = vec![
        Record::insert(vec![text("Alice"), num(10)]),
        Record::insert(vec![text("Bob"), num(12)]),
        Record::insert(vec![text("Carol"), num(15)]),
    ];
    let out = g.on_input(batch, &states).unwrap().results;
    assert_eq!(
        out,
        vec![Record::insert(vec![text("Bob"), num(12)]), Record::insert(vec![text("Carol"), num(15)])]
    );
}

#[test]
fn guard_admits_unknown_subjects_in_order() {
    let mut g = setup();
    let states = with_state(consent_state("consent", vec![]));
    let batch = vec![
        Record::insert(vec![text("Dan"), num(1)]),
        Record::delete(vec![text("Eve"), num(2)]),
        Record::insert(vec![text("Dan"), num(3)]),
    ];
    let out = g.on_input(batch.clone(), &states).unwrap().results;
    assert_eq!(out, batch);
}

#[test]
fn guard_suppresses_deletes_of_objecting_subject() {
    let mut g = setup();
    let states = with_state(consent_state("consent", vec![(text("Alice"), 1)]));
    let batch = vec![
        Record::delete(vec![text("Alice"), num(10)]),
        Record::delete(vec![text("Bob"), num(11)]),
    ];
    let out = g.on_input(batch, &states).unwrap().results;
    assert_eq!(out, vec![Record::delete(vec![text("Bob"), num(11)])]);
}

#[test]
fn guard_treats_nonzero_flag_as_objection() {
    let mut g = setup();
    let states = with_state(consent_state("consent", vec![(text("Alice"), 7)]));
    assert!(narrow_one_row(&mut g, &states, vec![text("Alice"), num(1)], true).is_empty());
}

#[test]
fn guard_fails_on_duplicate_consent_rows() {
    let mut g = setup();
    let states = with_state(consent_state("consent", vec![(text("Alice"), 0), (text("Alice"), 1)]));
    let batch = vec![
        Record::insert(vec![text("Bob"), num(12)]),
        Record::insert(vec![text("Alice"), num(10)]),
    ];
    assert_eq!(g.on_input(batch, &states).unwrap_err(), GuardError::CorruptConsent);
    // Other subjects are still decided.
    let out = g.on_input(vec![Record::insert(vec![text("Bob"), num(12)])], &states).unwrap().results;
    assert_eq!(out.len(), 1);
}

#[test]
fn guard_fails_on_consent_row_without_flag() {
    let mut g = setup();
    let mut state = PersistentState::new(String::from("consent"), 0, &PersistenceParameters::default());
    state.process_records(&vec![Record::insert(vec![text("Alice")])]);
    let states = with_state(state);
    let batch = vec![Record::insert(vec![text("Alice"), num(10)])];
    assert_eq!(g.on_input(batch, &states).unwrap_err(), GuardError::CorruptConsent);
}

#[test]
fn check_consent_decides_each_case() {
    let g = setup();
    let state = consent_state("consent", vec![(text("Alice"), 1), (text("Bob"), 0), (text("Zed"), 0), (text("Zed"), 0)]);
    assert_eq!(g.check_consent(&state, &text("Alice")), Ok(false));
    assert_eq!(g.check_consent(&state, &text("Bob")), Ok(true));
    assert_eq!(g.check_consent(&state, &text("Carol")), Ok(true));
    assert_eq!(g.check_consent(&state, &text("Zed")), Err(GuardError::CorruptConsent));
}

#[test]
fn guard_without_user_column_passes_everything() {
    let graph = base_graph(None);
    let mut g = Guard::new(0);
    g.on_connected(&graph).unwrap();
    // No state and no commit are needed when nothing is filtered.
    let states = StateMap::new();
    let batch = vec![Record::insert(vec![text("Alice"), num(10)])];
    let out = g.on_input(batch.clone(), &states).unwrap().results;
    assert_eq!(out, batch);
}

#[test]
fn wiring_fails_without_base_ancestor() {
    let mut graph = Graph::new();
    graph.add_node(Node { name: String::from("view"), base: None });
    let mut g = Guard::new(0);
    assert_eq!(g.on_connected(&graph), Err(WiringError::NotBaseAncestor));
    let mut g2 = Guard::new(5);
    assert_eq!(g2.on_connected(&graph), Err(WiringError::UnknownAncestor));
}

#[test]
fn guard_passes_columns_through() {
    let mut g = Guard::new(3);
    assert_eq!(g.ancestors(), vec![3]);
    assert_eq!(g.resolve(1), Some(vec![(3, 1)]));
    assert_eq!(g.parent_columns(2), vec![(3, Some(2))]);
    assert!(!g.can_query_through());
    assert_eq!(g.description(true), String::from("G"));
    assert!(matches!(g.take(), NodeOperator::Guard(_)));
}

#[test]
fn commit_remaps_references() {
    let mut g = Guard::new(0);
    let mut remap = HashMap::new();
    remap.insert(0, IndexPair { global: 4, local: Some(2) });
    remap.insert(1, IndexPair { global: 1, local: Some(7) });
    g.on_commit(1, &remap);
    assert_eq!(g.ancestors(), vec![4]);
    assert_eq!(g.resolve(0), Some(vec![(4, 0)]));
}
