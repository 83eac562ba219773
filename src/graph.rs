//! Node references, the wiring-time view of the graph, and the per-node
//! state map that an execution domain hands to its operators.
use vstd::prelude::*;

use crate::state::PersistentState;

verus! {

/// A node's index in the whole graph.
pub type NodeIndex = usize;

/// A node's index within the domain that runs it.
pub type LocalNodeIndex = usize;

/// A node reference: its global index, and its local one once the graph is committed.
#[derive(Debug, Clone, Copy, PartialEq, Eq, Structural)]
pub struct IndexPair {
    pub global: NodeIndex,
    pub local: Option<LocalNodeIndex>,
}

impl IndexPair {
    pub open spec fn new_spec(global: NodeIndex) -> IndexPair {
        IndexPair { global, local: None }
    }

    /// A reference to `global` that has no local index yet.
    pub fn new(global: NodeIndex) -> (r: IndexPair)
        ensures
            r == Self::new_spec(global),
    {
        IndexPair { global, local: None }
    }

    pub fn as_global(&self) -> (r: NodeIndex)
        ensures
            r == self.global,
    {
        self.global
    }

    pub fn as_local(&self) -> (r: Option<LocalNodeIndex>)
        ensures
            r == self.local,
    {
        self.local
    }

    /// Replaces this reference by the one that `remap` gives for its global index.
    pub fn remap(&mut self, remap: &std::collections::HashMap<NodeIndex, IndexPair>)
        requires
            remap@.contains_key(old(self).global),
        ensures
            *final(self) == remap@[old(self).global],
    {
        match remap.get(&self.global) {
            Some(p) => {
                *self = *p;
            },
            None => {},
        }
    }
}

/// What a base table declares about itself.
#[derive(Debug, Clone, Copy)]
pub struct BaseInfo {
    /// The column that names the data subject of each row, if any.
    pub user_column: Option<usize>,
    /// Whether rows of the table may not be deleted.
    pub undeletable: bool,
}

/// A node as the wiring phase sees it.
#[derive(Debug, Clone)]
pub struct Node {
    pub name: String,
    /// Present when the node is a base table.
    pub base: Option<BaseInfo>,
}

impl Node {
    pub fn is_base(&self) -> (r: bool)
        ensures
            r == self.base is Some,
    {
        self.base.is_some()
    }
}

/// The graph during wiring: nodes by global index.
#[derive(Debug)]
pub struct Graph {
    pub nodes: Vec<Node>,
}

impl Graph {
    pub fn new() -> (r: Graph)
        ensures
            r.nodes@.len() == 0,
    {
        Graph { nodes: Vec::new() }
    }

    /// Adds `node` and returns its global index.
    pub fn add_node(&mut self, node: Node) -> (r: NodeIndex)
        ensures
            r == old(self).nodes@.len(),
            final(self).nodes@ == old(self).nodes@.push(node),
    {
        let r = self.nodes.len();
        self.nodes.push(node);
        r
    }
}

/// The keyed states of a domain's nodes, by local index.
#[derive(Debug)]
pub struct StateMap {
    states: Vec<Option<PersistentState>>,
}

impl View for StateMap {
    type V = Map<LocalNodeIndex, PersistentState>;

    closed spec fn view(&self) -> Map<LocalNodeIndex, PersistentState> {
        Map::new(
            |i: LocalNodeIndex| i < self.states@.len() && self.states@[i as int] is Some,
            |i: LocalNodeIndex| self.states@[i as int]->Some_0,
        )
    }
}

impl StateMap {
    pub fn new() -> (r: StateMap)
        ensures
            r@ == Map::<LocalNodeIndex, PersistentState>::empty(),
    {
        let r = StateMap { states: Vec::new() };
        assert(r@ =~= Map::<LocalNodeIndex, PersistentState>::empty());
        r
    }

    /// Sets the state of node `idx`, replacing any it had.
    pub fn insert(&mut self, idx: LocalNodeIndex, state: PersistentState)
        ensures
            final(self)@ == old(self)@.insert(idx, state),
    {
        while self.states.len() <= idx
            invariant
                self@ == old(self)@,
            decreases idx + 1 - self.states.len(),
        {
            self.states.push(None);
            assert(self@ =~= old(self)@);
        }
        self.states.set(idx, Some(state));
        assert(self@ =~= old(self)@.insert(idx, state));
    }

    /// The state of node `idx`, if it has one.
    pub fn get(&self, idx: LocalNodeIndex) -> (r: Option<&PersistentState>)
        ensures
            match r {
                Some(s) => self@.contains_key(idx) && *s == self@[idx],
                None => !self@.contains_key(idx),
            },
    {
        if idx < self.states.len() {
            match &self.states[idx] {
                Some(s) => Some(s),
                None => None,
            }
        } else {
            None
        }
    }
}

} // verus!
