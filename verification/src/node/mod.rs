//! The node: validation of blocks, the choice of the next block to process,
//! and its database configuration.
pub mod address;
pub mod blocks;
pub mod db;
pub mod error;
pub mod state;
pub mod validate;

use vstd::prelude::*;

verus! {

/// Options for running the node.
#[derive(Clone, Debug)]
pub struct RunConfig {
    /// Node endpoint to sync blocks from. If `None` then the relayer stream will not run.
    pub relayer_source_endpoint: Option<String>,
    /// If `false` then the validation stream will not run.
    pub run_validation: bool,
}

} // verus!
