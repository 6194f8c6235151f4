use rs_ping::{
    calculate_checksum, encode_request, Action, Event, Ipv4Address, Phase, PingError, Pinger,
};
use std::time::Duration;

fn localhost() -> Ipv4Address {
    Ipv4Address::new(127, 0, 0, 1)
}

fn at(millis: u64) -> Duration {
    Duration::from_millis(millis)
}

fn echo_reply(ttl: u8, sequence: u16) -> Vec<u8> {
    let mut bytes = vec![0u8; 84];
    bytes[0] = 0x45;
    bytes[8] = ttl;
    bytes[20] = 0;
    bytes[24] = (sequence >> 8) as u8;
    bytes[25] = (sequence & 0xFF) as u8;
    bytes
}

/// A session whose socket is open and whose handler is installed, stopped at
/// the top of its first iteration.
fn started(pinger: &mut Pinger, now: Duration) {
    assert!(matches!(pinger.run(Event::Nothing, now, true).action, Action::OpenSocket));
    assert!(matches!(pinger.run(Event::Done, now, true).action, Action::InstallHandler));
    assert_eq!(pinger.phase(), Phase::Ready);
}

#[test]
fn new_session_is_uninitialized_with_standard_parameters() {
    let pinger = Pinger::new(localhost());
    assert_eq!(pinger.phase(), Phase::Uninitialized);
    assert_eq!(pinger.target(), localhost());
    assert_eq!(pinger.config().count(), None);
    assert_eq!(pinger.config().interval(), Duration::from_secs(1));
    assert_eq!(pinger.config().timeout(), Duration::from_secs(2));
    assert_eq!(pinger.config().packet_size(), 56);
    assert_eq!(pinger.stats().packets_sent(), 0);
    assert_eq!(pinger.stats().packets_received(), 0);
}

#[test]
fn builders_set_count_and_interval() {
    let pinger = Pinger::new(localhost())
        .with_count(4)
        .with_interval(Duration::from_millis(200));
    assert_eq!(pinger.config().count(), Some(4));
    assert_eq!(pinger.config().interval(), Duration::from_millis(200));
    assert_eq!(pinger.phase(), Phase::Uninitialized);
}

#[test]
fn init_opens_or_reports_a_socket_error() {
    let mut pinger = Pinger::new(localhost());
    let refused = std::io::Error::new(std::io::ErrorKind::PermissionDenied, "not permitted");
    match pinger.init(Err(refused)) {
        Err(PingError::SocketError(error)) => {
            assert_eq!(error.kind(), std::io::ErrorKind::PermissionDenied)
        }
        other => panic!("wrong result: {:?}", other),
    }
    assert_eq!(pinger.phase(), Phase::Uninitialized);
    assert!(pinger.init(Ok(())).is_ok());
    assert_eq!(pinger.phase(), Phase::Ready);
    assert!(pinger.init(Ok(())).is_ok());
    assert_eq!(pinger.phase(), Phase::Ready);
}

#[test]
fn shoud_continue_compares_with_the_count() {
    let pinger = Pinger::new(localhost());
    assert!(pinger.shoud_continue(0));
    assert!(pinger.shoud_continue(u32::MAX));
    let pinger = pinger.with_count(4);
    assert!(pinger.shoud_continue(0));
    assert!(pinger.shoud_continue(3));
    assert!(!pinger.shoud_continue(4));
    assert!(!pinger.shoud_continue(5));
    let pinger = pinger.with_count(0);
    assert!(!pinger.shoud_continue(0));
}

#[test]
fn send_ping_before_the_socket_is_open_fails() {
    let pinger = Pinger::new(localhost());
    assert!(matches!(pinger.send_ping(0), Err(PingError::SocketNotInitialized)));
}

#[test]
fn send_ping_builds_the_frame_of_the_probe() {
    let mut pinger = Pinger::new(localhost());
    pinger.init(Ok(())).unwrap();
    let frame = pinger.send_ping(5).unwrap();
    assert_eq!(frame, encode_request(5, 5, 56));
    assert_eq!(frame.len(), 64);
    assert_eq!(&frame[4..8], &[0, 5, 0, 5]);
    assert_eq!(calculate_checksum(&frame), 0);
    // The sequence number wraps at 65536.
    assert_eq!(pinger.send_ping(65536 + 7).unwrap(), encode_request(7, 7, 56));
    assert_eq!(pinger.send_ping(65535).unwrap(), encode_request(65535, 65535, 56));
}

#[test]
fn receive_pong_before_the_socket_is_open_fails() {
    let mut pinger = Pinger::new(localhost());
    assert!(matches!(
        pinger.receive_pong(&echo_reply(64, 0)),
        Err(PingError::SocketNotInitialized)
    ));
    assert_eq!(pinger.stats().packets_received(), 0);
}

#[test]
fn receive_pong_rejects_what_is_no_echo_reply() {
    let mut pinger = Pinger::new(localhost());
    pinger.init(Ok(())).unwrap();
    assert!(matches!(pinger.receive_pong(&[0u8; 27]), Err(PingError::InvalidResponse)));
    let mut unreachable = echo_reply(64, 0);
    unreachable[20] = 3;
    assert!(matches!(pinger.receive_pong(&unreachable), Err(PingError::InvalidResponse)));
    assert_eq!(pinger.stats().packets_received(), 0);
}

#[test]
fn receive_pong_without_outstanding_request_records_nothing() {
    let mut pinger = Pinger::new(localhost());
    pinger.init(Ok(())).unwrap();
    assert_eq!(pinger.receive_pong(&echo_reply(64, 0)).unwrap(), None);
    assert_eq!(pinger.stats().packets_received(), 0);
    assert_eq!(pinger.stats().get_min_rtt(), None);
}

#[test]
fn one_iteration_with_a_reply() {
    let mut pinger = Pinger::new(localhost()).with_count(1);
    started(&mut pinger, at(0));

    let step = pinger.run(Event::Done, at(1000), true);
    assert!(step.line.is_none());
    match step.action {
        Action::Transmit(frame) => assert_eq!(frame, encode_request(0, 0, 56)),
        other => panic!("wrong action: {:?}", other),
    }
    assert_eq!(pinger.phase(), Phase::Sending);
    assert_eq!(pinger.stats().packets_sent(), 0);

    let step = pinger.run(Event::Done, at(1001), true);
    assert!(step.line.is_none());
    match step.action {
        Action::Receive(timeout) => assert_eq!(timeout, Duration::from_secs(2)),
        other => panic!("wrong action: {:?}", other),
    }
    assert_eq!(pinger.phase(), Phase::Receiving);
    assert_eq!(pinger.stats().packets_sent(), 1);

    let step = pinger.run(Event::Datagram(echo_reply(64, 0)), Duration::from_micros(1_012_300), true);
    assert_eq!(
        step.line.as_deref(),
        Some("64 bytes from 127.0.0.1: icmp_seq=0 ttl=64 time=12.300 ms")
    );
    match step.action {
        // The iteration began at 1000 ms and the interval is one second.
        Action::Sleep(pause) => assert_eq!(pause, Duration::from_micros(987_700)),
        other => panic!("wrong action: {:?}", other),
    }
    assert_eq!(pinger.phase(), Phase::Sleeping);
    assert_eq!(pinger.stats().packets_received(), 1);
    assert_eq!(pinger.stats().get_min_rtt(), Some(Duration::from_micros(12_300)));

    let step = pinger.run(Event::Done, at(2000), true);
    assert!(step.line.is_none());
    assert!(matches!(step.action, Action::Finish));
    assert_eq!(pinger.phase(), Phase::Terminated);
    assert_eq!(pinger.stats().packets_sent(), 1);
    assert_eq!(pinger.stats().packets_received(), 1);
}

#[test]
fn four_iterations_send_four_packets() {
    let mut pinger = Pinger::new(localhost())
        .with_count(4)
        .with_interval(Duration::from_secs(1));
    let mut now = 0u64;
    let mut event = Event::Nothing;
    let mut transmitted = Vec::new();
    let mut lines = Vec::new();
    let mut sleeps = 0;
    loop {
        let step = pinger.run(event, at(now), true);
        if let Some(line) = step.line {
            lines.push(line);
        }
        event = match step.action {
            Action::OpenSocket | Action::InstallHandler => Event::Done,
            Action::Transmit(frame) => {
                transmitted.push(frame);
                Event::Done
            }
            Action::Receive(_) => {
                now += 3;
                // The loopback answers every request but the third.
                if transmitted.len() == 3 {
                    Event::TimedOut
                } else {
                    Event::Datagram(echo_reply(64, transmitted.len() as u16 - 1))
                }
            }
            Action::Sleep(pause) => {
                assert_eq!(pause, Duration::from_millis(997));
                sleeps += 1;
                now += 997;
                Event::Done
            }
            Action::Finish => break,
            Action::Abort(error) => panic!("aborted: {:?}", error),
        };
    }
    assert_eq!(transmitted.len(), 4);
    for (seq, frame) in transmitted.iter().enumerate() {
        assert_eq!(frame, &encode_request(seq as u16, seq as u16, 56));
    }
    assert_eq!(sleeps, 4);
    assert_eq!(pinger.stats().packets_sent(), 4);
    assert_eq!(pinger.stats().packets_received(), 3);
    assert_eq!(
        lines,
        vec![
            "64 bytes from 127.0.0.1: icmp_seq=0 ttl=64 time=3.000 ms",
            "64 bytes from 127.0.0.1: icmp_seq=1 ttl=64 time=3.000 ms",
            "64 bytes from 127.0.0.1: icmp_seq=3 ttl=64 time=3.000 ms",
        ]
    );
    assert_eq!(
        pinger.statistics_text("25"),
        "--- 127.0.0.1 ping statistics ---\n\
         4 packets transmitted, 3 received, 25% packet loss\n\
         rtt min/avg/max = 3.000/3.000/3.000 ms"
    );
}

#[test]
fn statistics_text_without_replies_has_the_placeholder() {
    let pinger = Pinger::new(Ipv4Address::new(10, 0, 0, 7));
    assert_eq!(
        pinger.statistics_text("0"),
        "--- 10.0.0.7 ping statistics ---\n\
         0 packets transmitted, 0 received, 0% packet loss\n\
         rtt min/avg/max = ---/---/--- ms"
    );
}

#[test]
fn count_of_zero_ends_at_once() {
    let mut pinger = Pinger::new(localhost()).with_count(0);
    started(&mut pinger, at(0));
    let step = pinger.run(Event::Done, at(0), true);
    assert!(matches!(step.action, Action::Finish));
    assert_eq!(pinger.phase(), Phase::Terminated);
    assert_eq!(pinger.stats().packets_sent(), 0);
}

#[test]
fn termination_flag_ends_the_session_at_the_top_of_an_iteration() {
    let mut pinger = Pinger::new(localhost());
    started(&mut pinger, at(0));
    assert!(matches!(pinger.run(Event::Done, at(0), true).action, Action::Transmit(_)));
    // The flag falls while the request is under way: the iteration goes on.
    assert!(matches!(pinger.run(Event::Done, at(1), false).action, Action::Receive(_)));
    assert!(matches!(pinger.run(Event::TimedOut, at(2001), false).action, Action::Sleep(_)));
    assert_eq!(pinger.phase(), Phase::Sleeping);
    let step = pinger.run(Event::Done, at(2001), false);
    assert!(matches!(step.action, Action::Finish));
    assert_eq!(pinger.stats().packets_sent(), 1);
    assert_eq!(pinger.stats().packets_received(), 0);
}

#[test]
fn invalid_response_is_not_fatal() {
    let mut pinger = Pinger::new(localhost()).with_count(2);
    started(&mut pinger, at(0));
    pinger.run(Event::Done, at(0), true);
    pinger.run(Event::Done, at(0), true);
    let mut unreachable = echo_reply(64, 0);
    unreachable[20] = 3;
    let step = pinger.run(Event::Datagram(unreachable), at(5), true);
    assert!(step.line.is_none());
    assert!(matches!(step.action, Action::Sleep(_)));
    assert_eq!(pinger.stats().packets_sent(), 1);
    assert_eq!(pinger.stats().packets_received(), 0);
    // The next iteration goes on as usual.
    let step = pinger.run(Event::Done, at(1000), true);
    match step.action {
        Action::Transmit(frame) => assert_eq!(frame, encode_request(1, 1, 56)),
        other => panic!("wrong action: {:?}", other),
    }
}

#[test]
fn timeout_sleeps_for_what_is_left_of_the_interval() {
    let mut pinger = Pinger::new(localhost()).with_interval(Duration::from_secs(3));
    started(&mut pinger, at(0));
    pinger.run(Event::Done, at(100), true);
    pinger.run(Event::Done, at(100), true);
    match pinger.run(Event::TimedOut, at(2100), true).action {
        Action::Sleep(pause) => assert_eq!(pause, Duration::from_secs(1)),
        other => panic!("wrong action: {:?}", other),
    }
    // With an interval shorter than the wait nothing is left.
    let mut pinger = Pinger::new(localhost()).with_interval(Duration::from_secs(1));
    started(&mut pinger, at(0));
    pinger.run(Event::Done, at(100), true);
    pinger.run(Event::Done, at(100), true);
    match pinger.run(Event::TimedOut, at(2100), true).action {
        Action::Sleep(pause) => assert_eq!(pause, Duration::ZERO),
        other => panic!("wrong action: {:?}", other),
    }
}

#[test]
fn transport_failure_aborts_the_session() {
    let mut pinger = Pinger::new(localhost());
    let refused = std::io::Error::new(std::io::ErrorKind::PermissionDenied, "not permitted");
    assert!(matches!(pinger.run(Event::Nothing, at(0), true).action, Action::OpenSocket));
    match pinger.run(Event::IoFailed(refused), at(0), true).action {
        Action::Abort(PingError::SocketError(error)) => {
            assert_eq!(error.kind(), std::io::ErrorKind::PermissionDenied)
        }
        other => panic!("wrong action: {:?}", other),
    }
    assert_eq!(pinger.phase(), Phase::Terminated);
    assert!(matches!(pinger.run(Event::Done, at(0), true).action, Action::Finish));

    let mut pinger = Pinger::new(localhost());
    started(&mut pinger, at(0));
    pinger.run(Event::Done, at(0), true);
    let broken = std::io::Error::new(std::io::ErrorKind::BrokenPipe, "broken");
    match pinger.run(Event::IoFailed(broken), at(0), true).action {
        Action::Abort(PingError::SocketError(error)) => {
            assert_eq!(error.kind(), std::io::ErrorKind::BrokenPipe)
        }
        other => panic!("wrong action: {:?}", other),
    }
    assert_eq!(pinger.stats().packets_sent(), 0);
}

#[test]
fn handler_failure_aborts_the_session() {
    let mut pinger = Pinger::new(localhost());
    pinger.run(Event::Nothing, at(0), true);
    pinger.run(Event::Done, at(0), true);
    match pinger
        .run(Event::SignalFailed(ctrlc::Error::MultipleHandlers), at(0), true)
        .action
    {
        Action::Abort(PingError::SignalError(text)) => {
            assert_eq!(text, "Ctrl-C error: Ctrl-C signal handler already registered")
        }
        other => panic!("wrong action: {:?}", other),
    }
    assert_eq!(pinger.phase(), Phase::Terminated);
}

#[test]
fn datagram_before_the_socket_is_open_aborts() {
    let mut pinger = Pinger::new(localhost());
    let step = pinger.run(Event::Datagram(echo_reply(64, 0)), at(0), true);
    assert!(matches!(step.action, Action::Abort(PingError::SocketNotInitialized)));
    let mut pinger = Pinger::new(localhost());
    let step = pinger.run(Event::TimedOut, at(0), true);
    assert!(matches!(step.action, Action::Abort(PingError::SocketNotInitialized)));
}

#[test]
fn reports_that_are_not_awaited_change_nothing() {
    let mut pinger = Pinger::new(localhost());
    started(&mut pinger, at(0));
    // A datagram while the handler is being installed.
    let step = pinger.run(Event::Datagram(echo_reply(64, 0)), at(1), true);
    assert!(matches!(step.action, Action::InstallHandler));
    assert!(step.line.is_none());
    pinger.run(Event::Done, at(2), true);
    assert_eq!(pinger.phase(), Phase::Sending);
    // A timeout while the request is being sent.
    let step = pinger.run(Event::TimedOut, at(3), true);
    match step.action {
        Action::Transmit(frame) => assert_eq!(frame, encode_request(0, 0, 56)),
        other => panic!("wrong action: {:?}", other),
    }
    pinger.run(Event::Done, at(4), true);
    assert_eq!(pinger.phase(), Phase::Receiving);
    // The driver only asks.
    assert!(matches!(pinger.run(Event::Nothing, at(5), true).action, Action::Receive(_)));
    assert!(matches!(pinger.run(Event::Done, at(5), true).action, Action::Receive(_)));
    assert_eq!(pinger.stats().packets_sent(), 1);
}

#[test]
fn a_clock_that_goes_back_is_not_followed() {
    let mut pinger = Pinger::new(localhost());
    started(&mut pinger, at(5000));
    pinger.run(Event::Done, at(5000), true);
    pinger.run(Event::Done, at(5000), true);
    let step = pinger.run(Event::Datagram(echo_reply(64, 0)), at(4000), true);
    assert_eq!(
        step.line.as_deref(),
        Some("64 bytes from 127.0.0.1: icmp_seq=0 ttl=64 time=0.000 ms")
    );
    assert_eq!(pinger.stats().get_max_rtt(), Some(Duration::ZERO));
}

#[test]
fn reply_line_shows_what_the_reply_holds() {
    let mut pinger = Pinger::new(Ipv4Address::new(8, 8, 8, 8));
    started(&mut pinger, at(0));
    pinger.run(Event::Done, at(0), true);
    pinger.run(Event::Done, at(0), true);
    let step = pinger.run(
        Event::Datagram(echo_reply(117, 0x0102)),
        Duration::from_nanos(23_456_789),
        true,
    );
    assert_eq!(
        step.line.as_deref(),
        Some("64 bytes from 8.8.8.8: icmp_seq=258 ttl=117 time=23.457 ms")
    );
}

#[test]
fn reply_that_echoes_the_request_shows_its_number() {
    let mut pinger = Pinger::new(localhost()).with_count(300);
    let mut now = 0u64;
    let mut event = Event::Nothing;
    let mut numbers = Vec::new();
    loop {
        let step = pinger.run(event, at(now), true);
        if let Some(line) = step.line {
            let number = line
                .split("icmp_seq=")
                .nth(1)
                .and_then(|rest| rest.split(' ').next())
                .and_then(|digits| digits.parse::<u32>().ok());
            numbers.push(number.unwrap());
        }
        event = match step.action {
            Action::OpenSocket | Action::InstallHandler => Event::Done,
            Action::Transmit(frame) => {
                // What a host sends back: the same message as an Echo Reply,
                // with its own checksum, behind an IPv4 header.
                let mut message = frame;
                message[0] = 0;
                message[2] = 0;
                message[3] = 0;
                let checksum = calculate_checksum(&message);
                message[2..4].copy_from_slice(&checksum.to_be_bytes());
                assert_eq!(calculate_checksum(&message), 0);
                let mut datagram = vec![0u8; 20];
                datagram[0] = 0x45;
                datagram[8] = 57;
                datagram.extend_from_slice(&message);
                let step = pinger.run(Event::Done, at(now), true);
                assert!(matches!(step.action, Action::Receive(_)));
                now += 1;
                Event::Datagram(datagram)
            }
            Action::Sleep(_) => {
                now += 1;
                Event::Done
            }
            Action::Finish => break,
            other => panic!("wrong action: {:?}", other),
        };
    }
    assert_eq!(numbers, (0..300).collect::<Vec<u32>>());
    assert_eq!(pinger.stats().packets_sent(), 300);
    assert_eq!(pinger.stats().packets_received(), 300);
}
