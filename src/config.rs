//! The sender's configuration.

use vstd::prelude::*;

verus! {

/// What a sending session needs: its beam id, the path to send (a file, or a
/// directory whose files are sent) and the receiver's host.
pub struct Config {
    pub beam_id: u64,
    pub path: String,
    pub transporter_addr: String,
}

} // verus!
