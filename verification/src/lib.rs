//! A verified core for a block-to-shard pipeline: records decoded from
//! independent input blocks are appended to pooled, rotating, gzip-compressed
//! output sinks, each shard holding at most a fixed number of records.

use vstd::prelude::*;

pub mod gzip;
pub mod namegen;
pub mod pipeline;
pub mod pool;
pub mod record;
pub mod sink;
pub mod text;

verus! {

/// Number of records a sink writes into one shard before it rotates.
pub const ROTATION_THRESHOLD: u64 = 100000;

} // verus!
