//! The plain data that the node's logic reads: addresses, keys, values,
//! mutations, solutions and predicates.
use vstd::prelude::*;

verus! {

/// A single word of state.
pub type Word = i64;

/// A key into a contract's state.
pub type Key = Vec<Word>;

/// A value stored in a contract's state.
pub type Value = Vec<Word>;

/// The content address of an item: the 32 bytes of its hash.
#[derive(Clone, Copy, Debug, PartialEq, Eq, Hash, PartialOrd, Ord)]
pub struct ContentAddress(pub [u8; 32]);

impl View for ContentAddress {
    type V = Seq<u8>;

    open spec fn view(&self) -> Seq<u8> {
        self.0@
    }
}

/// Whether two addresses hold the same bytes.
pub fn same_address(a: &ContentAddress, b: &ContentAddress) -> (r: bool)
    ensures
        r == (a@ == b@),
        r == (*a == *b),
{
    let mut i: usize = 0;
    while i < 32
        invariant
            i <= 32,
            forall|j: int| 0 <= j < i ==> a.0[j] == b.0[j],
        decreases 32 - i,
    {
        if a.0[i] != b.0[i] {
            assert(a@[i as int] != b@[i as int]);
            return false;
        }
        i = i + 1;
    }
    assert(a.0 =~= b.0);
    assert(a@ =~= b@);
    true
}

/// The address of a predicate: the contract it belongs to and the predicate itself.
#[derive(Clone, Copy, Debug, PartialEq, Eq, Hash, PartialOrd, Ord)]
pub struct PredicateAddress {
    /// The address of the contract.
    pub contract: ContentAddress,
    /// The address of the predicate within the contract.
    pub predicate: ContentAddress,
}

impl View for PredicateAddress {
    type V = (Seq<u8>, Seq<u8>);

    open spec fn view(&self) -> (Seq<u8>, Seq<u8>) {
        (self.contract@, self.predicate@)
    }
}

/// A write of `value` at `key` in the state of the contract being solved.
#[derive(Clone, Debug, PartialEq, Eq)]
pub struct Mutation {
    /// The key written.
    pub key: Key,
    /// The value written (an empty value is written as any other).
    pub value: Value,
}

/// A solution to one predicate: its data and the state mutations it proposes.
#[derive(Clone, Debug, PartialEq, Eq)]
pub struct Solution {
    /// The predicate this solution solves.
    pub predicate_to_solve: PredicateAddress,
    /// The data handed to the predicate.
    pub predicate_data: Vec<Value>,
    /// The mutations to the state of the solved predicate's contract.
    pub state_mutations: Vec<Mutation>,
}

/// A set of solutions that are applied together.
#[derive(Clone, Debug, PartialEq, Eq)]
pub struct SolutionSet {
    /// The solutions of the set, in order.
    pub solutions: Vec<Solution>,
}

/// Which state a program reads.
#[derive(Clone, Copy, Debug, PartialEq, Eq, Structural)]
pub enum Reads {
    /// State prior to mutations.
    Pre,
    /// State after mutations.
    Post,
}

/// A node of a predicate's program graph.
#[derive(Clone, Copy, Debug, PartialEq, Eq)]
pub struct Node {
    /// The start of this node's edges in the predicate's edge list.
    pub edge_start: u16,
    /// The address of the program that this node runs.
    pub program_address: ContentAddress,
    /// Which state the program reads.
    pub reads: Reads,
}

/// The view of a predicate's node: edge start, program address and reads.
pub struct NodeView {
    /// The start of this node's edges.
    pub edge_start: u16,
    /// The bytes of the program's address.
    pub program_address: Seq<u8>,
    /// Which state the program reads.
    pub reads: Reads,
}

impl View for Node {
    type V = NodeView;

    open spec fn view(&self) -> NodeView {
        NodeView { edge_start: self.edge_start, program_address: self.program_address@, reads: self.reads }
    }
}

/// A predicate: a graph of programs.
#[derive(Clone, Debug, PartialEq, Eq)]
pub struct Predicate {
    /// The programs of the graph.
    pub nodes: Vec<Node>,
    /// The edges of the graph.
    pub edges: Vec<u16>,
}

/// The view of a predicate: its nodes and edges.
pub struct PredicateView {
    /// The nodes.
    pub nodes: Seq<NodeView>,
    /// The edges.
    pub edges: Seq<u16>,
}

impl View for Predicate {
    type V = PredicateView;

    open spec fn view(&self) -> PredicateView {
        PredicateView { nodes: self.nodes@.map_values(|n: Node| n@), edges: self.edges@ }
    }
}

/// A program's bytecode.
#[derive(Clone, Debug, PartialEq, Eq)]
pub struct Program(pub Vec<u8>);

impl View for Program {
    type V = Seq<u8>;

    open spec fn view(&self) -> Seq<u8> {
        self.0@
    }
}

} // verus!
