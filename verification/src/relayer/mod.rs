//! The relayer: checks on the blocks and contracts synced from a remote node,
//! the framing of the server's event stream, and the joining of its tasks.
pub mod error;
pub mod handle;
pub mod sse;
pub mod sync;
