//! Protocol defaults.

use vstd::prelude::*;

verus! {

/// Retransmissions of one frame before the sender gives up.
pub const DEFAULT_MAX_RETRANSMITS: u8 = 100;

/// Sender's retransmission timeout, in milliseconds.
pub const DEFAULT_SND_TIMEOUT_MS: u64 = 10;

/// Receiver's connection timeout, in milliseconds.
pub const DEFAULT_RCV_TIMEOUT_MS: u64 = 5000;

/// Sequence number of the SYN that opens a session.
pub const DEFAULT_FIRST_N: u8 = 0;

/// UDP port a receiver listens on.
pub const DEFAULT_SECSNAIL_PORT: u16 = 55055;

} // verus!
