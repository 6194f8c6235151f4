//! The ping session: what it holds, and what it decides.
//!
//! The session does no input or output of its own. It tells its driver what
//! to do next (open the socket, install the termination handler, transmit a
//! frame, wait for a datagram, sleep) and the driver tells it what came of
//! that, together with the time on a clock that does not go back and the
//! state of the termination flag.

use crate::address::Ipv4Address;
use crate::config::{ConfigView, PingConfig};
use crate::error::{is_signal_error_text, PingError};
use crate::packet::{
    decode_reply, echo_request, encode_request, is_echo_reply, lemma_echo_request_layout,
    reply_of, EchoReply, ECHO_REPLY, ICMP_HEADER_LEN,
};
use crate::stats::{PingStats, StatsView};
use crate::text::{decimal, millis_text, push_decimal, push_millis};
use crate::time::{duration_from_nanos, duration_nanos, nanos_of, MAX_DURATION_NANOS};
use std::time::Duration;
use vstd::prelude::*;
use vstd::string::StringExecFns;

verus! {

/// Where a session stands. Each phase but the last awaits the outcome of one
/// action of the driver.
#[derive(Debug, Clone, Copy, PartialEq, Eq, Structural)]
pub enum Phase {
    /// No socket yet: the driver is to open it.
    Uninitialized,
    /// The socket is open: the driver is to install the termination handler.
    Ready,
    /// Running: the driver is to transmit the request of this iteration.
    Sending,
    /// Running: the driver is to wait for a datagram.
    Receiving,
    /// Running: the driver is to sleep until the next iteration.
    Sleeping,
    /// The session is over.
    Terminated,
}

/// What the driver reports to the session.
#[derive(Debug)]
pub enum Event {
    /// Nothing happened: the driver only asks what to do.
    Nothing,
    /// The action was done and there is nothing to tell of it: the socket is
    /// open, the handler installed, the frame transmitted or the sleep over.
    Done,
    /// A datagram came, with these bytes.
    Datagram(Vec<u8>),
    /// No datagram came in time.
    TimedOut,
    /// The socket could not be opened, or a send or a receive failed.
    IoFailed(std::io::Error),
    /// The termination handler could not be installed.
    SignalFailed(ctrlc::Error),
}

/// What the session asks of its driver.
#[derive(Debug)]
pub enum Action {
    /// Open the raw socket, then report `Done` or `IoFailed`.
    OpenSocket,
    /// Install the termination handler, then report `Done` or `SignalFailed`.
    InstallHandler,
    /// Send this frame to the target, then report `Done` or `IoFailed`.
    Transmit(Vec<u8>),
    /// Wait this long for a datagram, then report `Datagram`, `TimedOut` or
    /// `IoFailed`.
    Receive(Duration),
    /// Sleep this long, then report `Done`.
    Sleep(Duration),
    /// The session is over: print the statistics and release the socket.
    Finish,
    /// The session failed with this error: release the socket.
    Abort(PingError),
}

/// The answer of the session to one report of its driver.
#[derive(Debug)]
pub struct Step {
    /// A line to print, if a reply was accepted.
    pub line: Option<String>,
    /// What to do next.
    pub action: Action,
}

/// Why a session fails.
pub enum Failure {
    /// The transport failed with this error.
    Socket(std::io::Error),
    /// The termination handler could not be installed.
    Signal,
    /// A datagram or a timeout was reported though no socket is open.
    NotInitialized,
    /// The payload is too long for a frame.
    Packet,
}

impl Failure {
    /// Whether `error` is the error of this failure.
    pub open spec fn is_reported_by(self, error: PingError) -> bool {
        match self {
            Failure::Socket(e) => error == PingError::SocketError(e),
            Failure::Signal => error matches PingError::SignalError(text) && is_signal_error_text(
                text@,
            ),
            Failure::NotInitialized => error is SocketNotInitialized,
            Failure::Packet => error matches PingError::PacketError(text) && text@
                == "Payload too large"@,
        }
    }
}

/// The line that tells of one reply: the size of the ICMP message, the
/// target, the sequence number and the time to live of the reply, and the
/// round-trip time in milliseconds with three decimals.
pub open spec fn reply_line(
    packet_size: usize,
    target: Ipv4Address,
    reply: EchoReply,
    rtt: nat,
) -> Seq<char> {
    decimal((packet_size + 8) as nat) + " bytes from "@ + target.text() + ": icmp_seq="@ + decimal(
        reply.sequence as nat,
    ) + " ttl="@ + decimal(reply.ttl as nat) + " time="@ + millis_text(rtt) + " ms"@
}

/// The frame of the probe with the number `seq`: an Echo Request whose
/// sequence number is `seq` modulo 65536, with `packet_size` payload bytes.
/// The identifier field holds the same number, so that a reply, which echoes
/// both fields, shows it at the offset where replies are read.
pub open spec fn probe_frame(seq: nat, packet_size: usize) -> Seq<u8> {
    echo_request((seq % 0x10000) as u16, (seq % 0x10000) as u16, packet_size as nat)
}

/// A reply shows the number of its probe. Where a host answers the frame of
/// the probe with the number `seq` by the same ICMP message with the type of
/// an Echo Reply, whatever checksum it writes, and the message comes behind
/// an IPv4 header of 20 bytes, the datagram is an Echo Reply whose sequence
/// number, as it is read, is `seq` modulo 65536.
pub proof fn lemma_reply_shows_probe(
    seq: nat,
    packet_size: usize,
    header: Seq<u8>,
    checksum: (u8, u8),
)
    requires
        header.len() == 20,
    ensures
        ({
            let message = probe_frame(seq, packet_size).update(0, ECHO_REPLY).update(
                2,
                checksum.0,
            ).update(3, checksum.1);
            &&& is_echo_reply(header + message)
            &&& reply_of(header + message).sequence == seq % 0x10000
            &&& reply_of(header + message).ttl == header[8]
        }),
{
    lemma_echo_request_layout(
        (seq % 0x10000) as u16,
        (seq % 0x10000) as u16,
        packet_size as nat,
    );
}

/// What a `Pinger` stands for. Times are in nanoseconds.
pub struct PingerView {
    /// The address that is pinged.
    pub target: Ipv4Address,
    /// The parameters of the session.
    pub config: ConfigView,
    /// The statistics so far.
    pub stats: StatsView,
    /// Where the session stands.
    pub phase: Phase,
    /// Number of iterations that are over.
    pub seq: nat,
    /// The latest time that the driver reported.
    pub clock: nat,
    /// The time at which the iteration began that is under way, or that
    /// came last.
    pub iteration_start: nat,
    /// The time at which the request was sent that no reply or timeout has
    /// answered yet.
    pub current_ping_start: Option<nat>,
}

impl PingerView {
    /// A session on `target` in which nothing has happened yet.
    pub open spec fn fresh(target: Ipv4Address) -> PingerView {
        PingerView {
            target,
            config: ConfigView::standard(),
            stats: StatsView::empty(),
            phase: Phase::Uninitialized,
            seq: 0,
            clock: 0,
            iteration_start: 0,
            current_ping_start: None,
        }
    }

    /// What holds of every session.
    ///
    /// The clock is a time that a `Duration` can hold, and the iteration did
    /// not begin after it. No more replies are counted than packets, and one
    /// fewer while a request is outstanding, which it is only while a reply
    /// is awaited or when the session is over. The round-trip times add up
    /// to no more than the time at which the outstanding request was sent,
    /// or than the clock where none is outstanding. The packets sent are as
    /// many as the iterations that are over, and one more while a reply is
    /// awaited. While a request is to be sent, the counters have room for
    /// it, its frame can be built, and the round-trip times add up to no
    /// more than the time at which the iteration began.
    pub open spec fn consistent(self) -> bool {
        &&& self.stats.consistent()
        &&& self.seq <= u32::MAX
        &&& self.clock <= MAX_DURATION_NANOS
        &&& self.iteration_start <= self.clock
        &&& match self.current_ping_start {
            Some(start) => {
                &&& start <= self.clock
                &&& self.stats.total_rtt <= start
                &&& self.stats.received < self.stats.sent
                &&& self.phase == Phase::Receiving || self.phase == Phase::Terminated
            },
            None => {
                &&& self.stats.total_rtt <= self.clock
                &&& self.stats.received <= self.stats.sent
            },
        }
        &&& match self.phase {
            Phase::Receiving => self.stats.sent == self.seq + 1,
            Phase::Terminated => self.seq <= self.stats.sent <= self.seq + 1,
            Phase::Sending => {
                &&& self.stats.sent == self.seq
                &&& self.seq < u32::MAX
                &&& self.payload_fits()
                &&& self.stats.total_rtt <= self.iteration_start
            },
            _ => self.stats.sent == self.seq,
        }
    }

    /// Whether the session has kept to its count: no more packets are sent
    /// than the count allows, and fewer while one more is to be sent.
    pub open spec fn within_count(self) -> bool {
        match self.config.count {
            Some(count) => self.stats.sent <= count && (self.phase == Phase::Sending
                ==> self.stats.sent < count),
            None => true,
        }
    }

    /// Whether a probe with the number `seq` is within the configured count.
    pub open spec fn should_continue(self, seq: nat) -> bool {
        match self.config.count {
            Some(count) => seq < count,
            None => true,
        }
    }

    /// Whether a frame with the configured payload can be built.
    pub open spec fn payload_fits(self) -> bool {
        self.config.packet_size + ICMP_HEADER_LEN <= usize::MAX
    }

    /// Whether a further iteration begins: the count is not reached, the
    /// termination flag still says `running`, and the counters have room for
    /// one more packet.
    pub open spec fn continues(self, running: bool) -> bool {
        self.should_continue(self.seq) && running && self.seq < u32::MAX
    }

    /// The session with its clock moved on to `now`, unless `now` lies back.
    pub open spec fn at(self, now: nat) -> PingerView {
        PingerView {
            clock: if now > self.clock {
                now
            } else {
                self.clock
            },
            ..self
        }
    }

    /// The session once the socket is open.
    pub open spec fn opened(self) -> PingerView {
        if self.phase == Phase::Uninitialized {
            PingerView { phase: Phase::Ready, ..self }
        } else {
            self
        }
    }

    /// The session at the top of an iteration: it goes on to send a request,
    /// or it is over.
    pub open spec fn next_iteration(self, running: bool) -> PingerView {
        if self.continues(running) && self.payload_fits() {
            PingerView { phase: Phase::Sending, iteration_start: self.clock, ..self }
        } else {
            PingerView { phase: Phase::Terminated, ..self }
        }
    }

    /// The session once the request of this iteration is sent: the packet is
    /// counted, and the request is outstanding since the iteration began.
    pub open spec fn sent(self) -> PingerView {
        PingerView {
            phase: Phase::Receiving,
            stats: self.stats.with_sent(),
            current_ping_start: Some(self.iteration_start),
            ..self
        }
    }

    /// Whether the datagram `bytes` is accepted as the reply to the
    /// outstanding request: a socket is open, a request is outstanding, and
    /// the datagram is an Echo Reply.
    pub open spec fn accepts(self, bytes: Seq<u8>) -> bool {
        self.phase != Phase::Uninitialized && self.current_ping_start is Some && is_echo_reply(
            bytes,
        )
    }

    /// The round-trip time of a reply that comes now.
    pub open spec fn round_trip(self) -> nat {
        (self.clock - self.current_ping_start.unwrap()) as nat
    }

    /// The session once the datagram `bytes` has come: an accepted reply is
    /// counted with its round-trip time, and no request is outstanding any
    /// more. Any other datagram changes nothing.
    pub open spec fn replied(self, bytes: Seq<u8>) -> PingerView {
        if self.accepts(bytes) {
            PingerView {
                stats: self.stats.with_received(self.round_trip()),
                current_ping_start: None,
                ..self
            }
        } else {
            self
        }
    }

    /// The session once the wait for a reply is over: the iteration is
    /// counted, no request is outstanding, and the sleep begins.
    pub open spec fn iteration_over(self) -> PingerView {
        PingerView {
            phase: Phase::Sleeping,
            seq: self.seq + 1,
            current_ping_start: None,
            ..self
        }
    }

    /// The session once it has failed.
    pub open spec fn failed(self) -> PingerView {
        PingerView { phase: Phase::Terminated, ..self }
    }

    /// Why the report `event` ends the session with an error, if it does.
    ///
    /// A failure of the transport or of the handler's installation is fatal
    /// whenever it is reported. So is a datagram or a timeout where no socket
    /// is open, and a payload that is too long for a frame, at the top of the
    /// iteration that would send it.
    pub open spec fn failure(self, event: Event, running: bool) -> Option<Failure> {
        if self.phase == Phase::Terminated {
            None
        } else {
            match event {
                Event::IoFailed(e) => Some(Failure::Socket(e)),
                Event::SignalFailed(_) => Some(Failure::Signal),
                Event::Datagram(_) | Event::TimedOut => if self.phase == Phase::Uninitialized {
                    Some(Failure::NotInitialized)
                } else {
                    None
                },
                Event::Done => if (self.phase == Phase::Ready || self.phase == Phase::Sleeping)
                    && self.continues(running) && !self.payload_fits() {
                    Some(Failure::Packet)
                } else {
                    None
                },
                Event::Nothing => None,
            }
        }
    }

    /// The session after the report `event`, made at the time `now` with the
    /// termination flag saying `running`.
    ///
    /// A report that the phase does not await changes nothing but the clock.
    pub open spec fn after(self, event: Event, now: nat, running: bool) -> PingerView {
        let seen = self.at(now);
        if seen.failure(event, running) is Some {
            seen.failed()
        } else {
            match (seen.phase, event) {
                (Phase::Uninitialized, Event::Done) => seen.opened(),
                (Phase::Ready, Event::Done) => seen.next_iteration(running),
                (Phase::Sending, Event::Done) => seen.sent(),
                (Phase::Receiving, Event::Datagram(bytes)) => seen.replied(bytes@).iteration_over(),
                (Phase::Receiving, Event::TimedOut) => seen.iteration_over(),
                (Phase::Sleeping, Event::Done) => seen.next_iteration(running),
                _ => seen,
            }
        }
    }

    /// How long the sleep of this iteration still lasts: what is left of the
    /// interval since the iteration began.
    pub open spec fn rest(self) -> nat {
        let elapsed = self.clock - self.iteration_start;
        if elapsed < self.config.interval {
            (self.config.interval - elapsed) as nat
        } else {
            0
        }
    }

    /// Whether `action` is what the session in this state asks of its driver.
    pub open spec fn asks(self, action: Action) -> bool {
        match self.phase {
            Phase::Uninitialized => action is OpenSocket,
            Phase::Ready => action is InstallHandler,
            Phase::Sending => action matches Action::Transmit(frame) && frame@ == probe_frame(
                self.seq,
                self.config.packet_size,
            ),
            Phase::Receiving => action matches Action::Receive(timeout) && duration_nanos(timeout)
                == self.config.timeout,
            Phase::Sleeping => action matches Action::Sleep(pause) && duration_nanos(pause)
                == self.rest(),
            Phase::Terminated => action is Finish,
        }
    }

    /// Whether `step` is the session's answer to the report `event`, made at
    /// the time `now` with the termination flag saying `running`.
    ///
    /// There is a line if and only if the report is a datagram that is awaited
    /// and accepted. The action is the error where the report is fatal, and
    /// else what the session asks in its new state.
    pub open spec fn answers(self, event: Event, now: nat, running: bool, step: Step) -> bool {
        let seen = self.at(now);
        &&& match (seen.phase, event) {
            (Phase::Receiving, Event::Datagram(bytes)) if seen.accepts(bytes@) => {
                step.line matches Some(line) && line@ == reply_line(
                    seen.config.packet_size,
                    seen.target,
                    reply_of(bytes@),
                    seen.round_trip(),
                )
            },
            _ => step.line is None,
        }
        &&& match seen.failure(event, running) {
            Some(failure) => step.action matches Action::Abort(error) && failure.is_reported_by(
                error,
            ),
            None => self.after(event, now, running).asks(step.action),
        }
    }

    /// The block of text that sums the session up: a header with the target,
    /// the packets sent and received with the loss in percent, which is
    /// given as the text `loss`, and the round-trip times where there are
    /// any.
    pub open spec fn statistics_text(self, loss: Seq<char>) -> Seq<char> {
        "--- "@ + self.target.text() + " ping statistics ---\n"@ + decimal(self.stats.sent)
            + " packets transmitted, "@ + decimal(self.stats.received) + " received, "@ + loss
            + "% packet loss\nrtt min/avg/max = "@ + self.stats.rtt_text() + (if self.stats.has_rtt() {
            " ms"@
        } else {
            Seq::<char>::empty()
        })
    }
}

/// A session in which nothing has happened yet is consistent, and has kept
/// to whatever count it is given.
pub proof fn lemma_fresh_consistent(target: Ipv4Address, count: u32)
    ensures
        PingerView::fresh(target).consistent(),
        PingerView::fresh(target).within_count(),
        (PingerView {
            config: ConfigView { count: Some(count), ..ConfigView::standard() },
            ..PingerView::fresh(target)
        }).consistent(),
        (PingerView {
            config: ConfigView { count: Some(count), ..ConfigView::standard() },
            ..PingerView::fresh(target)
        }).within_count(),
{
}

/// Whatever is reported to a consistent session, at a time that a `Duration`
/// can hold, the session is consistent afterwards: among other things, no
/// more replies are counted than packets.
pub proof fn lemma_after_consistent(session: PingerView, event: Event, now: nat, running: bool)
    requires
        session.consistent(),
        now <= MAX_DURATION_NANOS,
    ensures
        session.after(event, now, running).consistent(),
        session.after(event, now, running).stats.received <= session.after(
            event,
            now,
            running,
        ).stats.sent,
{
}

/// One iteration counts for one. Where a session at the top of an iteration
/// goes on, and its driver reports the request as sent, then a datagram or a
/// timeout, the session sleeps, one more iteration is over, one more packet
/// is counted as sent, and at most one more reply is counted.
pub proof fn lemma_iteration(
    session: PingerView,
    outcome: Event,
    times: (nat, nat, nat),
    flags: (bool, bool, bool),
)
    requires
        session.consistent(),
        session.phase == Phase::Ready || session.phase == Phase::Sleeping,
        session.at(times.0).continues(flags.0),
        session.payload_fits(),
        outcome is Datagram || outcome is TimedOut,
        times.0 <= MAX_DURATION_NANOS,
        times.1 <= MAX_DURATION_NANOS,
        times.2 <= MAX_DURATION_NANOS,
    ensures
        ({
            let sending = session.after(Event::Done, times.0, flags.0);
            let receiving = sending.after(Event::Done, times.1, flags.1);
            let sleeping = receiving.after(outcome, times.2, flags.2);
            &&& sending.phase == Phase::Sending
            &&& receiving.phase == Phase::Receiving
            &&& sleeping.phase == Phase::Sleeping
            &&& sleeping.seq == session.seq + 1
            &&& sleeping.stats.sent == session.stats.sent + 1
            &&& session.stats.received <= sleeping.stats.received <= session.stats.received + 1
        }),
{
}

/// Where the count is reached, the termination flag no longer says
/// `running`, or the counters are full, a session that was ready or asleep is
/// over once its driver reports `Done`, with its statistics as they were.
pub proof fn lemma_last_iteration(session: PingerView, now: nat, running: bool)
    requires
        session.phase == Phase::Ready || session.phase == Phase::Sleeping,
        !session.at(now).continues(running),
    ensures
        session.after(Event::Done, now, running).phase == Phase::Terminated,
        session.after(Event::Done, now, running).stats == session.stats,
        session.after(Event::Done, now, running).seq == session.seq,
{
}

/// A session ends only by a failure or at the top of an iteration.
pub proof fn lemma_ends_at_top(session: PingerView, event: Event, now: nat, running: bool)
    requires
        session.phase != Phase::Terminated,
        session.after(event, now, running).phase == Phase::Terminated,
        session.at(now).failure(event, running) is None,
    ensures
        session.phase == Phase::Ready || session.phase == Phase::Sleeping,
        event is Done,
        !session.at(now).continues(running),
{
}

/// A session that has kept to its count keeps to it, whatever is reported:
/// it never counts more packets as sent than the count allows.
pub proof fn lemma_count_kept(session: PingerView, event: Event, now: nat, running: bool)
    requires
        session.consistent(),
        session.within_count(),
    ensures
        session.after(event, now, running).within_count(),
{
}

/// Without interruption the count is reached. Where a session with a count
/// below `u32::MAX` has kept to it and ends at the top of an iteration while
/// the termination flag still says `running`, it has sent as many packets as
/// the count says.
pub proof fn lemma_count_reached(session: PingerView, now: nat, count: u32)
    requires
        session.consistent(),
        session.within_count(),
        session.config.count == Some(count),
        count < u32::MAX,
        session.phase == Phase::Ready || session.phase == Phase::Sleeping,
        session.after(Event::Done, now, true).phase == Phase::Terminated,
        session.at(now).failure(Event::Done, true) is None,
    ensures
        session.after(Event::Done, now, true).stats.sent == count,
{
}

/// A ping session on one target.
pub struct Pinger {
    target: Ipv4Address,
    config: PingConfig,
    stats: PingStats,
    phase: Phase,
    seq: u32,
    clock: u128,
    iteration_start: u128,
    current_ping_start: Option<u128>,
}

impl View for Pinger {
    type V = PingerView;

    closed spec fn view(&self) -> PingerView {
        PingerView {
            target: self.target,
            config: self.config@,
            stats: self.stats@,
            phase: self.phase,
            seq: self.seq as nat,
            clock: self.clock as nat,
            iteration_start: self.iteration_start as nat,
            current_ping_start: match self.current_ping_start {
                Some(start) => Some(start as nat),
                None => None,
            },
        }
    }
}

impl Pinger {
    /// What holds of every `Pinger`: what it stands for is consistent.
    #[verifier::type_invariant]
    pub closed spec fn wf(&self) -> bool {
        self.stats.wf() && self@.consistent()
    }

    /// What `wf` says.
    pub proof fn lemma_wf(&self)
        requires
            self.wf(),
        ensures
            self@.consistent(),
    {
    }

    /// A session on `target` with the standard parameters, in which nothing
    /// has happened yet.
    pub fn new(target: Ipv4Address) -> (pinger: Pinger)
        ensures
            pinger@ == PingerView::fresh(target),
    {
        Pinger {
            target,
            config: PingConfig::default(),
            stats: PingStats::new(),
            phase: Phase::Uninitialized,
            seq: 0,
            clock: 0,
            iteration_start: 0,
            current_ping_start: None,
        }
    }

    /// The same session, but with `count` requests to send.
    pub fn with_count(self, count: u32) -> (pinger: Pinger)
        ensures
            pinger@ == (PingerView {
                config: ConfigView { count: Some(count), ..self@.config },
                ..self@
            }),
    {
        proof {
            use_type_invariant(&self);
        }
        let config = self.config.with_count(count);
        Pinger { config, ..self }
    }

    /// The same session, but with `interval` from one request to the next.
    pub fn with_interval(self, interval: Duration) -> (pinger: Pinger)
        ensures
            pinger@ == (PingerView {
                config: ConfigView { interval: duration_nanos(interval), ..self@.config },
                ..self@
            }),
    {
        proof {
            use_type_invariant(&self);
        }
        let config = self.config.with_interval(interval);
        Pinger { config, ..self }
    }

    /// The address that is pinged.
    pub fn target(&self) -> (target: Ipv4Address)
        ensures
            target == self@.target,
    {
        self.target
    }

    /// The parameters of the session.
    pub fn config(&self) -> (config: &PingConfig)
        ensures
            config@ == self@.config,
    {
        &self.config
    }

    /// The statistics so far.
    pub fn stats(&self) -> (stats: &PingStats)
        ensures
            stats@ == self@.stats,
            stats.wf(),
    {
        proof {
            use_type_invariant(self);
        }
        &self.stats
    }

    /// Where the session stands.
    pub fn phase(&self) -> (phase: Phase)
        ensures
            phase == self@.phase,
    {
        self.phase
    }

    /// Takes note of what came of opening the socket.
    ///
    /// With an open socket a session that had none is ready. A failure is
    /// handed back as a `SocketError`, and the session is as it was.
    pub fn init(&mut self, opened: Result<(), std::io::Error>) -> (result: Result<(), PingError>)
        ensures
            match opened {
                Ok(_) => result is Ok && final(self)@ == old(self)@.opened(),
                Err(e) => result == Err::<(), PingError>(PingError::SocketError(e)) && final(self)@
                    == old(self)@,
            },
    {
        proof {
            use_type_invariant(&*self);
        }
        match opened {
            Ok(_) => {
                if self.phase == Phase::Uninitialized {
                    self.phase = Phase::Ready;
                }
                Ok(())
            },
            Err(e) => Err(PingError::SocketError(e)),
        }
    }

    /// Whether a probe with the number `seq` is within the configured count.
    pub fn shoud_continue(&self, seq: u32) -> (goes_on: bool)
        ensures
            goes_on == self@.should_continue(seq as nat),
    {
        match self.config.count() {
            Some(count) => seq < count,
            None => true,
        }
    }

    /// Builds the frame of the probe with the number `seq`.
    ///
    /// Fails with `SocketNotInitialized` while no socket is open, and with a
    /// `PacketError` where the configured payload is too long for a frame.
    pub fn send_ping(&self, seq: u32) -> (result: Result<Vec<u8>, PingError>)
        ensures
            self@.phase == Phase::Uninitialized ==> result matches Err(
                PingError::SocketNotInitialized,
            ),
            self@.phase != Phase::Uninitialized && !self@.payload_fits() ==> (result matches Err(
                error,
            ) && Failure::Packet.is_reported_by(error)),
            self@.phase != Phase::Uninitialized && self@.payload_fits() ==> (result matches Ok(
                frame,
            ) && frame@ == probe_frame(seq as nat, self@.config.packet_size)),
    {
        if self.phase == Phase::Uninitialized {
            return Err(PingError::SocketNotInitialized);
        }
        if self.config.packet_size() > usize::MAX - ICMP_HEADER_LEN {
            return Err(PingError::PacketError(String::from_str("Payload too large")));
        }
        Ok(self.probe(seq))
    }

    /// The frame of the probe with the number `seq`.
    fn probe(&self, seq: u32) -> (frame: Vec<u8>)
        requires
            self@.payload_fits(),
        ensures
            frame@ == probe_frame(seq as nat, self@.config.packet_size),
    {
        assert(seq & 0xFFFF == seq % 0x10000) by (bit_vector);
        let number: u16 = (seq & 0xFFFF) as u16;
        encode_request(number, number, self.config.packet_size())
    }

    /// Takes in the datagram `bytes`, which came at the time of the clock.
    ///
    /// Fails with `SocketNotInitialized` while no socket is open, and with
    /// `InvalidResponse` where the datagram is no Echo Reply; the session is
    /// then as it was. An Echo Reply is accepted as the reply to the
    /// outstanding request, whatever its identifier and sequence number: it
    /// is counted with the time since the request was sent, and the line
    /// that tells of it is handed back. Where no request is outstanding, an
    /// Echo Reply changes nothing and gives no line.
    pub fn receive_pong(&mut self, bytes: &[u8]) -> (result: Result<Option<String>, PingError>)
        ensures
            final(self)@ == old(self)@.replied(bytes@),
            old(self)@.phase == Phase::Uninitialized ==> result matches Err(
                PingError::SocketNotInitialized,
            ),
            old(self)@.phase != Phase::Uninitialized && !is_echo_reply(bytes@) ==> result matches Err(
                PingError::InvalidResponse,
            ),
            old(self)@.phase != Phase::Uninitialized && is_echo_reply(bytes@) ==> (
            result matches Ok(line) && match line {
                Some(text) => old(self)@.accepts(bytes@) && text@ == reply_line(
                    old(self)@.config.packet_size,
                    old(self)@.target,
                    reply_of(bytes@),
                    old(self)@.round_trip(),
                ),
                None => !old(self)@.accepts(bytes@),
            }),
    {
        proof {
            use_type_invariant(&*self);
        }
        if self.phase == Phase::Uninitialized {
            return Err(PingError::SocketNotInitialized);
        }
        let reply = match decode_reply(bytes) {
            Ok(reply) => reply,
            Err(error) => {
                return Err(error);
            },
        };
        match self.current_ping_start {
            Some(start) => {
                let rtt: u128 = self.clock - start;
                let mut stats = self.stats;
                stats.record_received(duration_from_nanos(rtt));
                proof {
                    use_type_invariant(&stats);
                }
                *self = Pinger { stats, current_ping_start: None, ..*self };
                Ok(Some(self.describe_reply(reply, rtt)))
            },
            None => Ok(None),
        }
    }

    /// The line that tells of `reply`, which came `rtt` nanoseconds after
    /// its request.
    fn describe_reply(&self, reply: EchoReply, rtt: u128) -> (line: String)
        ensures
            line@ == reply_line(self@.config.packet_size, self@.target, reply, rtt as nat),
    {
        let mut line = String::new();
        push_decimal(&mut line, self.config.packet_size() as u128 + 8);
        line.append(" bytes from ");
        self.target.push_to(&mut line);
        line.append(": icmp_seq=");
        push_decimal(&mut line, reply.sequence as u128);
        line.append(" ttl=");
        push_decimal(&mut line, reply.ttl as u128);
        line.append(" time=");
        push_millis(&mut line, rtt);
        line.append(" ms");
        assert(line@ =~= reply_line(self@.config.packet_size, self@.target, reply, rtt as nat));
        line
    }

    /// The block of text that sums the session up, with the loss in percent
    /// given as the text `loss`.
    pub fn statistics_text(&self, loss: &str) -> (text: String)
        ensures
            text@ == self@.statistics_text(loss@),
    {
        let mut text = String::from_str("--- ");
        self.target.push_to(&mut text);
        text.append(" ping statistics ---\n");
        push_decimal(&mut text, self.stats.packets_sent() as u128);
        text.append(" packets transmitted, ");
        push_decimal(&mut text, self.stats.packets_received() as u128);
        text.append(" received, ");
        text.append(loss);
        text.append("% packet loss\nrtt min/avg/max = ");
        let rtt = self.stats.format_rtt();
        text.append(rtt.as_str());
        if self.stats.has_rtt() {
            text.append(" ms");
        }
        assert(text@ =~= self@.statistics_text(loss@));
        text
    }

    /// Moves the clock on to `now`, unless `now` lies back.
    fn observe(&mut self, now: Duration)
        ensures
            final(self)@ == old(self)@.at(duration_nanos(now)),
    {
        proof {
            use_type_invariant(&*self);
        }
        let nanos = nanos_of(now);
        if nanos > self.clock {
            self.clock = nanos;
        }
    }

    /// Ends the session.
    fn terminate(&mut self)
        ensures
            final(self)@ == old(self)@.failed(),
    {
        proof {
            use_type_invariant(&*self);
        }
        self.phase = Phase::Terminated;
    }

    /// Decides, at the top of an iteration, whether the session goes on. It
    /// fails where it would go on but the payload is too long for a frame.
    fn begin_iteration(&mut self, running: bool) -> (failure: Option<PingError>)
        requires
            old(self)@.phase == Phase::Ready || old(self)@.phase == Phase::Sleeping,
        ensures
            match failure {
                Some(error) => {
                    &&& old(self)@.failure(Event::Done, running) == Some(Failure::Packet)
                    &&& Failure::Packet.is_reported_by(error)
                    &&& final(self)@ == old(self)@.failed()
                },
                None => {
                    &&& old(self)@.failure(Event::Done, running) is None
                    &&& final(self)@ == old(self)@.next_iteration(running)
                },
            },
    {
        proof {
            use_type_invariant(&*self);
        }
        if self.shoud_continue(self.seq) && running && self.seq < u32::MAX {
            if self.config.packet_size() > usize::MAX - ICMP_HEADER_LEN {
                self.phase = Phase::Terminated;
                return Some(PingError::PacketError(String::from_str("Payload too large")));
            }
            *self = Pinger { phase: Phase::Sending, iteration_start: self.clock, ..*self };
        } else {
            self.phase = Phase::Terminated;
        }
        None
    }

    /// Counts the request of this iteration as sent.
    fn mark_sent(&mut self)
        requires
            old(self)@.phase == Phase::Sending,
        ensures
            final(self)@ == old(self)@.sent(),
    {
        proof {
            use_type_invariant(&*self);
        }
        let mut stats = self.stats;
        stats.record_sent();
        proof {
            use_type_invariant(&stats);
        }
        *self = Pinger {
            stats,
            phase: Phase::Receiving,
            current_ping_start: Some(self.iteration_start),
            ..*self
        };
    }

    /// Ends the iteration whose reply was awaited.
    fn end_iteration(&mut self)
        requires
            old(self)@.phase == Phase::Receiving,
        ensures
            final(self)@ == old(self)@.iteration_over(),
    {
        proof {
            use_type_invariant(&*self);
        }
        *self = Pinger {
            phase: Phase::Sleeping,
            seq: self.seq + 1,
            current_ping_start: None,
            ..*self
        };
    }

    /// What the session asks of its driver in the state it is in.
    fn pending_action(&self) -> (action: Action)
        ensures
            self@.asks(action),
    {
        proof {
            use_type_invariant(self);
        }
        match self.phase {
            Phase::Uninitialized => Action::OpenSocket,
            Phase::Ready => Action::InstallHandler,
            Phase::Sending => Action::Transmit(self.probe(self.seq)),
            Phase::Receiving => Action::Receive(self.config.timeout()),
            Phase::Sleeping => {
                let elapsed: u128 = self.clock - self.iteration_start;
                let interval: u128 = nanos_of(self.config.interval());
                let rest: u128 = if elapsed < interval {
                    interval - elapsed
                } else {
                    0
                };
                Action::Sleep(duration_from_nanos(rest))
            },
            Phase::Terminated => Action::Finish,
        }
    }

    /// Takes in one report of the driver and answers what to do next.
    ///
    /// `now` is the time on the driver's clock and `running` the state of
    /// the termination flag, both as they are when the report is made.
    pub fn run(&mut self, event: Event, now: Duration, running: bool) -> (step: Step)
        ensures
            final(self)@ == old(self)@.after(event, duration_nanos(now), running),
            old(self)@.answers(event, duration_nanos(now), running, step),
    {
        self.observe(now);
        proof {
            use_type_invariant(&*self);
        }
        if self.phase == Phase::Terminated {
            return Step { line: None, action: Action::Finish };
        }
        let mut line: Option<String> = None;
        match event {
            Event::Nothing => {},
            Event::IoFailed(e) => {
                self.terminate();
                return Step { line: None, action: Action::Abort(PingError::from(e)) };
            },
            Event::SignalFailed(e) => {
                self.terminate();
                return Step { line: None, action: Action::Abort(PingError::from(e)) };
            },
            Event::Done => {
                match self.phase {
                    Phase::Uninitialized => {
                        self.phase = Phase::Ready;
                    },
                    Phase::Ready | Phase::Sleeping => {
                        match self.begin_iteration(running) {
                            Some(error) => {
                                return Step { line: None, action: Action::Abort(error) };
                            },
                            None => {},
                        }
                    },
                    Phase::Sending => {
                        self.mark_sent();
                    },
                    _ => {},
                }
            },
            Event::Datagram(bytes) => {
                match self.phase {
                    Phase::Uninitialized => {
                        self.terminate();
                        return Step {
                            line: None,
                            action: Action::Abort(PingError::SocketNotInitialized),
                        };
                    },
                    Phase::Receiving => {
                        match self.receive_pong(bytes.as_slice()) {
                            Ok(text) => {
                                line = text;
                            },
                            Err(_) => {},
                        }
                        self.end_iteration();
                    },
                    _ => {},
                }
            },
            Event::TimedOut => {
                match self.phase {
                    Phase::Uninitialized => {
                        self.terminate();
                        return Step {
                            line: None,
                            action: Action::Abort(PingError::SocketNotInitialized),
                        };
                    },
                    Phase::Receiving => {
                        self.end_iteration();
                    },
                    _ => {},
                }
            },
        }
        let action = self.pending_action();
        Step { line, action }
    }
}

} // verus!
