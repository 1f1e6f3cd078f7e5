//! The checks that keep synced blocks in sequence and on the same chain.
use super::error::DataSyncError;
use crate::node::address::{block_address, block_hash};
use crate::node::validate::Block;
use crate::types::{ContentAddress, same_address};
use vstd::prelude::*;

verus! {

/// The number of contracts that the server sends per page.
pub const SERVER_PAGE_SIZE: u64 = 100;

/// The progress of the block sync.
#[derive(Clone, Copy, Debug)]
pub struct BlockProgress {
    /// The number of the last block that was synced.
    pub last_block_number: i64,
    /// The address of the last block that was synced. Used to check for forks.
    pub last_block_address: ContentAddress,
}

/// `n + 1`, or `i64::MAX` where that overflows.
pub open spec fn saturating_succ(n: i64) -> i64 {
    if n == i64::MAX {
        n
    } else {
        (n + 1) as i64
    }
}

/// `n + 1`, saturating at `i64::MAX`.
pub fn saturating_succ_word(n: i64) -> (r: i64)
    ensures
        r == saturating_succ(n),
{
    if n == i64::MAX {
        n
    } else {
        n + 1
    }
}

/// The block progress recorded in the database: the latest finalized block's
/// address and, when its header could be read, its number.
pub fn block_progress(
    latest_finalized: Option<ContentAddress>,
    number: Option<i64>,
) -> (r: Option<BlockProgress>)
    ensures
        r is Some <==> latest_finalized is Some && number is Some,
        r matches Some(p) ==> p.last_block_address == latest_finalized->0 && p.last_block_number
            == number->0,
{
    match (latest_finalized, number) {
        (Some(address), Some(number)) => Some(
            BlockProgress { last_block_number: number, last_block_address: address },
        ),
        _ => None,
    }
}

/// The number of the block from which to subscribe to the server's blocks:
/// the last synced block (which the stream then repeats), or block `0`.
pub fn blocks_start_number(progress: &Option<BlockProgress>) -> (r: i64)
    ensures
        progress matches Some(p) ==> r == p.last_block_number,
        progress is None ==> r == 0,
{
    match progress {
        Some(p) => p.last_block_number,
        None => 0,
    }
}

/// The page of the server's contracts from which to subscribe, given the number
/// of contracts received so far: the page holding the last contract received.
pub fn contracts_start_page(num_contracts_received: u64) -> (r: u64)
    ensures
        num_contracts_received % SERVER_PAGE_SIZE != 0 ==> r == num_contracts_received
            / SERVER_PAGE_SIZE,
        num_contracts_received % SERVER_PAGE_SIZE == 0 && num_contracts_received > 0 ==> r
            == num_contracts_received / SERVER_PAGE_SIZE - 1,
        num_contracts_received == 0 ==> r == 0,
{
    let mut page = num_contracts_received / SERVER_PAGE_SIZE;
    // If the last contract is the last contract on the page, go back one page.
    if num_contracts_received % SERVER_PAGE_SIZE == 0 {
        page = page.saturating_sub(1);
    }
    page
}

/// Check that the first block of the stream is the last block that was synced,
/// or `None` where the stream ended first.
pub fn check_block_fork(block: Option<&Block>, progress: &BlockProgress) -> (r: Result<
    (),
    DataSyncError,
>)
    ensures
        block matches Some(b) && block_hash(*b) == progress.last_block_address@ ==> r is Ok,
        block is Some && block_hash(*block->0) != progress.last_block_address@ ==> (r matches Err(
            DataSyncError::Fork(n, expected, Some(got)),
        ) && n == progress.last_block_number && expected == progress.last_block_address && got@
            == block_hash(*block->0)),
        block is None ==> (r matches Err(DataSyncError::Fork(n, expected, None)) && n
            == progress.last_block_number && expected == progress.last_block_address),
{
    match block {
        Some(block) => {
            let block_address = block_address(block);
            if !same_address(&block_address, &progress.last_block_address) {
                // There was a block but it didn't match the expected block.
                return Err(
                    DataSyncError::Fork(
                        progress.last_block_number,
                        progress.last_block_address,
                        Some(block_address),
                    ),
                );
            }
            Ok(())
        },
        None => {
            // There was expected to be a block but there was none.
            Err(DataSyncError::Fork(progress.last_block_number, progress.last_block_address, None))
        },
    }
}

/// A new block was not sequentially after the last block.
#[derive(Clone, Copy, Debug, PartialEq, Eq, Structural)]
pub struct NonSequentialBlock {
    /// The number of the block received.
    pub got: i64,
    /// The number of the block expected.
    pub expected: i64,
}

/// The number that the next synced block must have.
#[derive(Clone, Copy, Debug)]
pub struct BlockSequence {
    /// The number of the next block.
    pub next_number: i64,
}

/// The number expected after accepting a block numbered `got`.
pub open spec fn sequence_after(got: i64) -> i64 {
    saturating_succ(got)
}

/// Whether the blocks numbered `numbers`, in order, follow on from `next`.
pub open spec fn follows_on(next: i64, numbers: Seq<i64>) -> bool
    decreases numbers.len(),
{
    if numbers.len() == 0 {
        true
    } else {
        numbers[0] == next && follows_on(sequence_after(numbers[0]), numbers.drop_first())
    }
}

impl BlockSequence {
    /// The sequence after the given progress: the block after the last synced
    /// block, or block `0` when nothing was synced.
    pub fn start(progress: &Option<BlockProgress>) -> (s: Self)
        ensures
            progress matches Some(p) ==> s.next_number == saturating_succ(p.last_block_number),
            progress is None ==> s.next_number == 0,
    {
        let next_number = match progress {
            Some(p) => saturating_succ_word(p.last_block_number),
            None => 0,
        };
        BlockSequence { next_number }
    }

    /// Accept the block numbered `got`: it must be the expected block. Either
    /// way the block after `got` is expected next.
    pub fn accept(&mut self, got: i64) -> (r: Result<(), NonSequentialBlock>)
        ensures
            final(self).next_number == sequence_after(got),
            r is Ok <==> got == old(self).next_number,
            r matches Err(e) ==> e == (NonSequentialBlock { got, expected: old(self).next_number }),
    {
        let expected = self.next_number;
        self.next_number = saturating_succ_word(got);
        if got == expected {
            Ok(())
        } else {
            Err(NonSequentialBlock { got, expected })
        }
    }
}

/// The outcome of accepting each of `numbers` in turn from `next`, stopping at
/// the first error.
pub open spec fn accept_all(next: i64, numbers: Seq<i64>) -> Result<(), NonSequentialBlock>
    decreases numbers.len(),
{
    if numbers.len() == 0 {
        Ok(())
    } else if numbers[0] != next {
        Err(NonSequentialBlock { got: numbers[0], expected: next })
    } else {
        accept_all(sequence_after(numbers[0]), numbers.drop_first())
    }
}

/// Accepting blocks one by one succeeds exactly on a run of blocks that follow
/// on from the expected number.
pub proof fn lemma_accept_all_iff_follows_on(next: i64, numbers: Seq<i64>)
    ensures
        accept_all(next, numbers) is Ok <==> follows_on(next, numbers),
    decreases numbers.len(),
{
    if numbers.len() > 0 {
        lemma_accept_all_iff_follows_on(sequence_after(numbers[0]), numbers.drop_first());
    }
}

/// A run of blocks follows on from `next` exactly when the `i`-th block is
/// numbered `next + i`, as long as the numbers stay below `i64::MAX`.
pub proof fn lemma_follows_on_consecutive(next: i64, numbers: Seq<i64>)
    requires
        next + numbers.len() <= i64::MAX,
    ensures
        follows_on(next, numbers) <==> forall|i: int| 0 <= i < numbers.len() ==> numbers[i] == next + i,
    decreases numbers.len(),
{
    if numbers.len() > 0 && numbers[0] == next {
        let rest = numbers.drop_first();
        lemma_follows_on_consecutive((next + 1) as i64, rest);
        assert(sequence_after(numbers[0]) == next + 1);
        if forall|i: int| 0 <= i < numbers.len() ==> numbers[i] == next + i {
            assert forall|i: int| 0 <= i < rest.len() implies rest[i] == (next + 1) + i by {
                assert(numbers[i + 1] == next + i + 1);
            }
        }
        if follows_on(next, numbers) {
            assert forall|i: int| 0 <= i < numbers.len() implies numbers[i] == next + i by {
                if i > 0 {
                    assert(rest[i - 1] == (next + 1) + i - 1);
                }
            }
        }
    }
}

} // verus!
