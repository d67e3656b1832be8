//! A sparse cache of Bitcoin block headers, one per difficulty period, kept
//! in step with a remote block explorer.

pub mod backfill;
pub mod chain;
pub mod period;
pub mod remote;
pub mod retry;
pub mod sync;
