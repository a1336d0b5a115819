//! ICMP echo ("ping") library: the echo packet codec with its Internet
//! checksum, the per-session send/receive bookkeeping, and the state machine
//! of the periodic ping loop.
pub mod icmp;
pub mod net;
pub mod ping;
pub mod scheduler;
