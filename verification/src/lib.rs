//! Verified core of the Essential node: keys, registry decoding, state
//! application, validation decisions and block synchronisation.
use vstd::prelude::*;

pub mod assoc;
pub mod key;
pub mod merkle;
pub mod node;
pub mod pool;
pub mod registry;
pub mod relayer;
pub mod types;
pub mod validate;

verus! {

} // verus!
