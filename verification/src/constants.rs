//! Timing constants of the queue, in whole seconds unless the name says otherwise.

use vstd::prelude::*;

verus! {

/// Deadline of one attempt to open the store connection.
pub const CONNECTION_TIMEOUT_SECS: u64 = 10;

/// Deadline for acquiring a pooled connection.
pub const ACQUIRE_TIMEOUT_SECS: u64 = 10;

/// After this long an idle pooled connection is closed.
pub const IDLE_TIMEOUT_SECS: u64 = 10;

/// Pause between two looks at the blockers while waiting.
pub const BUSY_RETRY_SECS: u64 = 5;

/// Period of the heartbeat writer.
pub const HEARTBEAT_INTERVAL_SECS: u64 = 30;

/// A running deployment whose heartbeat is older than this is abandoned.
pub const HEARTBEAT_TIMEOUT_SECS: u64 = 900;

/// Deadline of one heartbeat write.
pub const HEARTBEAT_UPDATE_TIMEOUT_SECS: u64 = 20;

/// The heartbeat writer gives up after this many failed writes in a row.
pub const HEARTBEAT_MAX_CONSECUTIVE_FAILURES: u32 = 3;

/// Pause between two lookups of a deployment id by URL.
pub const DEPLOYMENT_ID_LOOKUP_RETRY_SECS: u64 = 10;

/// Total time allowed for looking up a deployment id by URL.
pub const DEPLOYMENT_ID_LOOKUP_TIMEOUT_SECS: u64 = 300;

/// Microseconds in one second.
pub const MICROS_PER_SECOND: i64 = 1_000_000;

} // verus!
