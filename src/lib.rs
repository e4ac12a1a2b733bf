//! Secure Snail: reliable single-file transfer over an unreliable datagram
//! service, using the alternating-bit protocol on top of a small framed packet
//! format protected by a CRC-8 checksum.
//!
//! The library holds the wire format, the two protocol state machines as pure
//! transition functions, and the fault model applied to outgoing datagrams.
//! Sockets, timers and files are driven by the caller, which feeds events in
//! and carries out the outputs that each transition returns.

pub mod pck;
pub mod timer;
pub mod fsm_send;
pub mod fsm_recv;
pub mod channel;
pub mod transfer;
pub mod settings;
