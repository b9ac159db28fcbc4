//! ICMP echo ("ping") for IPv4 and IPv6: packet construction, reply matching,
//! probe scheduling and round-trip statistics.
//!
//! The library computes; it opens no socket and reads no clock. Its callers
//! send the packets it builds, hand it what they receive, and pass timestamps.

pub mod bytes;
pub mod checksum;
pub mod control;
pub mod echo;
pub mod error;
pub mod ping;
pub mod stats;
pub mod time;

pub use crate::checksum::calculate_checksum;
pub use crate::echo::{add_icmp_header, generate_payload, IcmpEchoReply, IcmpV6EchoReply};
pub use crate::error::PingError;
pub use crate::stats::{compute_rtt_stats, PingStats};
pub use crate::time::{Duration, Timestamp};
