//! The echo packet under its shorter names.
pub use crate::net::icmp::{EchoPacket as Packet, EchoPacketHeader as PacketHeader, IcmpProto};
