//! The content addresses of solution sets and blocks.
use crate::node::validate::Block;
use crate::types::{ContentAddress, SolutionSet};
use essential_types::solution as outside;
use vstd::prelude::*;

verus! {

/// The content address of a solution set: the hash of its encoding.
pub uninterp spec fn solution_set_content_address(set: SolutionSet) -> Seq<u8>;

/// The content address of a block with the given header and the given
/// content addresses of its solution sets, in order.
pub uninterp spec fn block_content_address(
    number: i64,
    timestamp: core::time::Duration,
    set_addresses: Seq<Seq<u8>>,
) -> Seq<u8>;

/// `essential_hash::content_addr` of a solution set, the set converted to
/// `essential_types`' own: the result is named by `solution_set_content_address`.
#[verifier::external_body]
pub(crate) fn solution_set_address(set: &SolutionSet) -> (r: ContentAddress)
    ensures
        r@ == solution_set_content_address(*set),
{
    let solutions = set.solutions.iter().map(|x| outside::Solution {
        predicate_to_solve: essential_types::PredicateAddress {
            contract: essential_types::ContentAddress(x.predicate_to_solve.contract.0),
            predicate: essential_types::ContentAddress(x.predicate_to_solve.predicate.0),
        },
        predicate_data: x.predicate_data.clone(),
        state_mutations: x.state_mutations.iter().map(|m| outside::Mutation { key: m.key.clone(), value: m.value.clone() }).collect(),
    }).collect();
    ContentAddress(essential_hash::content_addr(&outside::SolutionSet { solutions }).0)
}

/// `essential_node_types::block::addr::from_header_and_solution_set_addrs_slice`:
/// the address of a block from its header and its solution sets' addresses.
#[verifier::external_body]
fn block_address_from_parts(
    number: i64,
    timestamp: core::time::Duration,
    set_addresses: &[ContentAddress],
) -> (r: ContentAddress)
    ensures
        r@ == block_content_address(number, timestamp, set_addresses@.map_values(|a: ContentAddress| a@)),
{
    let header = essential_node_types::block::Header { number, timestamp };
    let addrs: Vec<_> = set_addresses.iter().map(|a| essential_types::ContentAddress(a.0)).collect();
    ContentAddress(essential_node_types::block::addr::from_header_and_solution_set_addrs_slice(&header, &addrs).0)
}

/// The content address of a block: of its header and of the addresses of
/// its solution sets, in order.
pub open spec fn block_hash(b: Block) -> Seq<u8> {
    block_content_address(
        b.header.number,
        b.header.timestamp,
        b.solution_sets@.map_values(|set: SolutionSet| solution_set_content_address(set)),
    )
}

/// The content address of a block.
pub fn block_address(b: &Block) -> (r: ContentAddress)
    ensures
        r@ == block_hash(*b),
{
    let mut addrs: Vec<ContentAddress> = Vec::new();
    let mut i: usize = 0;
    while i < b.solution_sets.len()
        invariant
            i <= b.solution_sets@.len(),
            addrs@.len() == i,
            forall|j: int|
                0 <= j < i ==> (#[trigger] addrs@[j])@ == solution_set_content_address(
                    b.solution_sets@[j],
                ),
        decreases b.solution_sets@.len() - i,
    {
        let a = solution_set_address(&b.solution_sets[i]);
        addrs.push(a);
        i = i + 1;
    }
    let r = block_address_from_parts(b.header.number, b.header.timestamp, addrs.as_slice());
    proof {
        assert(addrs@.map_values(|a: ContentAddress| a@) =~= b.solution_sets@.map_values(
            |set: SolutionSet| solution_set_content_address(set),
        ));
    }
    r
}

} // verus!
