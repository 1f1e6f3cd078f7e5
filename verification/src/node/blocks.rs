//! Choosing the next block that a stream processes, from its recorded progress.
use crate::node::db::AcquireThenError;
use crate::node::error::AcquireThenQueryError;
use crate::relayer::sync::{saturating_succ, saturating_succ_word};
use crate::node::address::{block_address, block_hash, solution_set_content_address, solution_set_address};
use crate::node::validate::{Block, ValidateOutcome};
use crate::types::{ContentAddress, same_address};
use vstd::prelude::*;

verus! {

/// Why the next block could not be chosen.
#[derive(Clone, Copy, Debug, PartialEq, Eq, Structural)]
pub enum NextBlockError {
    /// The last processed block is not where it was: the chain has forked.
    Fork,
    /// The block after the last processed one is not in the database yet.
    NextBlockNotFound,
    /// No block has been processed and there is no first block yet.
    FirstBlockNotFound,
}

/// `n + k`, or `i64::MAX` where that overflows.
pub open spec fn saturating_add_spec(n: i64, k: i64) -> i64 {
    if n + k > i64::MAX {
        i64::MAX
    } else {
        (n + k) as i64
    }
}

/// The range of block numbers to list: the last processed block and the one
/// after it, or the first block alone when nothing has been processed.
pub fn next_block_range(last_number: Option<i64>) -> (r: (i64, i64))
    ensures
        last_number is None ==> r == (0i64, 1i64),
        last_number matches Some(n) ==> r == (n, saturating_add_spec(n, 2)),
{
    match last_number {
        Some(n) => {
            let end = if n > i64::MAX - 2 {
                i64::MAX
            } else {
                n + 2
            };
            (n, end)
        },
        None => (0, 1),
    }
}

/// The block to process next, given the progress (the address of the last
/// processed block, if any) and the addresses of the blocks listed from the
/// range of `next_block_range`: returns the index of that block in the list.
pub fn select_next_block(
    progress: Option<ContentAddress>,
    listed: &[ContentAddress],
) -> (r: Result<usize, NextBlockError>)
    ensures
        progress is None ==> (listed@.len() == 0 ==> r == Err::<usize, NextBlockError>(
            NextBlockError::FirstBlockNotFound,
        )) && (listed@.len() > 0 ==> r == Ok::<usize, NextBlockError>(0)),
        progress matches Some(p) ==> {
            &&& listed@.len() == 0 ==> r == Err::<usize, NextBlockError>(NextBlockError::Fork)
            &&& listed@.len() == 1 ==> r == Err::<usize, NextBlockError>(
                NextBlockError::NextBlockNotFound,
            )
            &&& listed@.len() >= 2 && listed@[0]@ != p@ ==> r == Err::<usize, NextBlockError>(
                NextBlockError::Fork,
            )
            &&& listed@.len() >= 2 && listed@[0]@ == p@ ==> r == Ok::<usize, NextBlockError>(1)
        },
{
    match progress {
        // Get the block after the last processed one.
        Some(hash) => {
            if listed.len() == 0 {
                return Err(NextBlockError::Fork);
            }
            // Make sure the next block is in the database before processing it.
            if listed.len() < 2 {
                return Err(NextBlockError::NextBlockNotFound);
            }
            if !same_address(&listed[0], &hash) {
                return Err(NextBlockError::Fork);
            }
            Ok(1)
        },
        // No progress, get the first block.
        None => {
            if listed.len() == 0 {
                Err(NextBlockError::FirstBlockNotFound)
            } else {
                Ok(0)
            }
        },
    }
}

/// Whether there are more blocks to process after `block_number`, given the
/// number of the latest finalized block when it could be read.
pub fn more_blocks_left(latest_finalized_number: Option<i64>, block_number: i64) -> (r: bool)
    ensures
        r == (latest_finalized_number matches Some(n) && n > block_number),
{
    match latest_finalized_number {
        Some(n) => n > block_number,
        None => false,
    }
}

/// An error occurred while inserting or checking the big bang block.
#[derive(Debug)]
pub enum BigBangError {
    /// Failed to list the blocks in the database.
    ListBlocks(AcquireThenQueryError),
    /// Failed to insert the big bang block into the database.
    InsertBlock(AcquireThenError<rusqlite::Error>),
    /// A block already exists at number `0`, and its address does not match
    /// that of the big bang block of the configuration.
    UnexpectedBlock { expected: ContentAddress, found: ContentAddress },
}

/// What to do with the first block of the database, given the big bang block.
#[derive(Clone, Copy, Debug, PartialEq, Eq, Structural)]
pub enum FirstBlock {
    /// There is no block at number `0`: insert and finalize the big bang block.
    Insert,
    /// The block at number `0` is the big bang block.
    Present,
}

/// Decide on the first block of the database: insert the big bang block `bb`
/// where there is none, accept the one there if it has the big bang block's
/// address, and refuse any other, naming both addresses.
pub fn check_first_block(bb: &Block, first: Option<&Block>) -> (r: Result<FirstBlock, BigBangError>)
    ensures
        first is None ==> r matches Ok(FirstBlock::Insert),
        first matches Some(f) && block_hash(*f) == block_hash(*bb) ==> r matches Ok(
            FirstBlock::Present,
        ),
        first is Some && block_hash(*first->0) != block_hash(*bb) ==> (r matches Err(
            BigBangError::UnexpectedBlock { expected: e, found: g },
        ) && e@ == block_hash(*bb) && g@ == block_hash(*first->0)),
{
    match first {
        None => Ok(FirstBlock::Insert),
        Some(block) => {
            let expected = block_address(bb);
            let found = block_address(block);
            if same_address(&found, &expected) {
                Ok(FirstBlock::Present)
            } else {
                Err(BigBangError::UnexpectedBlock { expected, found })
            }
        },
    }
}

/// Where validation has not begun (no progress is recorded), it begins from
/// the big bang block: the progress to record, if any.
pub fn starting_progress(progress: &Option<ContentAddress>, big_bang: &ContentAddress) -> (r:
    Option<ContentAddress>)
    ensures
        progress is None ==> (r matches Some(a) && a@ == big_bang@),
        progress is Some ==> r is None,
{
    match progress {
        None => Some(*big_bang),
        Some(_) => None,
    }
}

/// The number of the block that a dry run validates a solution set in: the
/// block after the latest finalized one, or `1` where no finalized block is
/// recorded.
pub fn dry_run_block_number(latest_finalized: Option<i64>) -> (r: i64)
    ensures
        latest_finalized is None ==> r == 1,
        latest_finalized matches Some(n) ==> r == saturating_succ(n),
{
    match latest_finalized {
        Some(n) => saturating_succ_word(n),
        None => 1,
    }
}

/// What the validation stream records after validating a block.
#[derive(Clone, Copy, Debug)]
pub enum ValidationAction {
    /// The block is valid: record it as the last validated block, and go on
    /// to the next block where there is one.
    Advance {
        /// The address of the validated block.
        progress: ContentAddress,
        /// Whether a later finalized block awaits validation.
        more_blocks: bool,
    },
    /// The block is invalid: record the block as failed, with the address of
    /// the solution set that failed, and stop.
    RecordFailure {
        /// The address of the invalid block.
        block: ContentAddress,
        /// The address of the solution set that failed.
        solution_set: ContentAddress,
    },
}

/// Decide what to record after validating `block` with `outcome`, given the
/// number of the latest finalized block where it could be read.
pub fn validation_step<E>(
    block: &Block,
    outcome: &ValidateOutcome<E>,
    latest_finalized: Option<i64>,
) -> (r: ValidationAction)
    requires
        outcome matches ValidateOutcome::Invalid(o) ==> o.solution_set_index
            < block.solution_sets@.len(),
    ensures
        outcome is Valid ==> (r matches ValidationAction::Advance { progress, more_blocks }
            && progress@ == block_hash(*block) && more_blocks == (latest_finalized matches Some(n)
            && n > block.header.number)),
        outcome matches ValidateOutcome::Invalid(o) ==> (r matches ValidationAction::RecordFailure {
            block: b,
            solution_set,
        } && b@ == block_hash(*block) && solution_set@ == solution_set_content_address(
            block.solution_sets@[o.solution_set_index as int],
        )),
{
    let address = block_address(block);
    match outcome {
        ValidateOutcome::Valid(_) => ValidationAction::Advance {
            progress: address,
            more_blocks: more_blocks_left(latest_finalized, block.header.number),
        },
        ValidateOutcome::Invalid(o) => ValidationAction::RecordFailure {
            block: address,
            solution_set: solution_set_address(&block.solution_sets[o.solution_set_index]),
        },
    }
}

} // verus!
