//! The core of an ICMP Echo ("ping") client, verified with Verus.
//!
//! The library frames Echo Requests with their Internet checksum, validates
//! Echo Replies, keeps the round-trip statistics and takes every decision of
//! a ping session. It does no input or output: a driver owns the raw socket,
//! the clock and the termination flag, does what the session asks and
//! reports what came of it.
//!
//! - [`checksum`]: the Internet checksum and its laws.
//! - [`packet`]: Echo Request frames and Echo Reply datagrams.
//! - [`stats`]: counters and round-trip times.
//! - [`config`]: the parameters of a session.
//! - [`pinger`]: the session as a state machine.
//! - [`args`]: the command line.
//! - [`address`]: IPv4 addresses and their dotted decimal text.
//! - [`text`]: numbers as text.
//! - [`time`]: what is known of `std::time::Duration`.
//! - [`error`]: the errors of a session.

pub mod address;
pub mod args;
pub mod checksum;
pub mod config;
pub mod error;
pub mod packet;
pub mod pinger;
pub mod stats;
pub mod text;
pub mod time;

pub use address::Ipv4Address;
pub use args::{parse_args, Answer, HostAddress, Outcome, PingOpts, Question};
pub use checksum::calculate_checksum;
pub use config::{ConfigView, PingConfig};
pub use error::PingError;
pub use packet::{decode_reply, encode_request, EchoReply};
pub use pinger::{Action, Event, Phase, Pinger, PingerView, Step};
pub use stats::{PingStats, StatsView};
