//! The parameters of a ping session.

use crate::time::duration_nanos;
use std::time::Duration;
use vstd::prelude::*;

verus! {

/// What a `PingConfig` stands for. Times are in nanoseconds.
pub struct ConfigView {
    /// How many requests to send; `None` for no bound.
    pub count: Option<u32>,
    /// Time from one request to the next.
    pub interval: nat,
    /// How long to wait for a reply.
    pub timeout: nat,
    /// Time to live of the IP packets.
    pub ttl: u8,
    /// Payload bytes behind the 8-byte ICMP header.
    pub packet_size: usize,
}

impl ConfigView {
    /// The parameters of a session for which none was chosen: no bound on
    /// the count, a request each second, two seconds to wait for a reply, a
    /// time to live of 64 and 56 payload bytes.
    pub open spec fn standard() -> ConfigView {
        ConfigView {
            count: None,
            interval: 1_000_000_000,
            timeout: 2_000_000_000,
            ttl: 64,
            packet_size: 56,
        }
    }
}

/// The parameters of a ping session. Nothing is checked when one is made:
/// sane values are the caller's business.
#[derive(Debug, Clone, Copy)]
pub struct PingConfig {
    count: Option<u32>,
    interval: Duration,
    timeout: Duration,
    ttl: u8,
    packet_size: usize,
}

impl View for PingConfig {
    type V = ConfigView;

    closed spec fn view(&self) -> ConfigView {
        ConfigView {
            count: self.count,
            interval: duration_nanos(self.interval),
            timeout: duration_nanos(self.timeout),
            ttl: self.ttl,
            packet_size: self.packet_size,
        }
    }
}

impl Default for PingConfig {
    fn default() -> (config: PingConfig)
        ensures
            config@ == ConfigView::standard(),
    {
        PingConfig {
            count: None,
            interval: Duration::new(1, 0),
            timeout: Duration::new(2, 0),
            ttl: 64,
            packet_size: 56,
        }
    }
}

impl PingConfig {
    /// The standard parameters.
    pub fn new() -> (config: PingConfig)
        ensures
            config@ == ConfigView::standard(),
    {
        PingConfig::default()
    }

    /// How many requests to send; `None` for no bound.
    pub fn count(&self) -> (count: Option<u32>)
        ensures
            count == self@.count,
    {
        self.count
    }

    /// Time from one request to the next.
    pub fn interval(&self) -> (interval: Duration)
        ensures
            duration_nanos(interval) == self@.interval,
    {
        self.interval
    }

    /// How long to wait for a reply.
    pub fn timeout(&self) -> (timeout: Duration)
        ensures
            duration_nanos(timeout) == self@.timeout,
    {
        self.timeout
    }

    /// Time to live of the IP packets.
    pub fn ttl(&self) -> (ttl: u8)
        ensures
            ttl == self@.ttl,
    {
        self.ttl
    }

    /// Payload bytes behind the 8-byte ICMP header.
    pub fn packet_size(&self) -> (packet_size: usize)
        ensures
            packet_size == self@.packet_size,
    {
        self.packet_size
    }

    /// The same parameters, but with `count` requests to send.
    pub fn with_count(self, count: u32) -> (config: PingConfig)
        ensures
            config@ == (ConfigView { count: Some(count), ..self@ }),
    {
        PingConfig { count: Some(count), ..self }
    }

    /// The same parameters, but with `interval` from one request to the
    /// next.
    pub fn with_interval(self, interval: Duration) -> (config: PingConfig)
        ensures
            config@ == (ConfigView { interval: duration_nanos(interval), ..self@ }),
    {
        PingConfig { interval, ..self }
    }
}

} // verus!
