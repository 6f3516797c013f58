//! A file transfer protocol: a sender streams files over a framed binary
//! protocol to a receiver, which coordinates each file and each session with a
//! bookkeeping service (the ledger).

use vstd::prelude::*;

pub mod beam;
pub mod checksum;
pub mod codec;
pub mod compress;
pub mod config;
pub mod error;
pub mod messages;
pub mod paths;
pub mod scotty;
pub mod sender;
pub mod storage;
pub mod text;

verus! {

/// Sender-assigned identifier of one transfer session.
pub type BeamId = u64;

/// Modification time of a file, in seconds since the Unix epoch.
pub type Mtime = u64;

} // verus!
