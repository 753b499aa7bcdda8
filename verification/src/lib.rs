//! A TCP port scanner core: given a target host and a half-open port range,
//! probe attempts run concurrently (outside this library) and report each
//! open port at most once; this library decides which ports to probe,
//! aggregates the reported ports into a deterministic sorted result, and
//! renders the final report lines.

pub mod collect;
pub mod report;
pub mod request;

use vstd::prelude::*;

verus! {

/// Largest valid TCP port number; the exclusive upper bound of a scan may
/// not exceed it.
pub const MAX_PORT_NUMBER: u16 = 65535;

} // verus!
