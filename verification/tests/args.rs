use rs_ping::args::{find_v4, parse_count};
use rs_ping::{
    parse_args, Answer, HostAddress, Ipv4Address, Outcome, PingError, PingOpts, Question,
};
use std::time::Duration;

/// Stands for the resolver: only `localhost` and `dual.example` have
/// addresses, and `::1` is an IPv6 literal.
fn lookup(name: &str) -> Answer {
    match name {
        "::1" => Answer::Ipv6Literal,
        "localhost" => Answer::Resolved(vec![
            HostAddress::V6,
            HostAddress::V4(Ipv4Address::new(127, 0, 0, 1)),
        ]),
        "six.example" => Answer::Resolved(vec![HostAddress::V6]),
        _ => Answer::Unresolved,
    }
}

/// Stands for the reading of seconds: whole numbers only.
fn seconds(text: &str) -> Answer {
    Answer::Interval(text.parse::<u64>().ok().map(Duration::from_secs))
}

/// Parses as a program does: it answers each question and parses again.
fn parse(args: &[String]) -> Result<PingOpts, PingError> {
    let mut answers = Vec::new();
    loop {
        match parse_args(args, &answers)? {
            Outcome::Parsed(opts) => return Ok(opts),
            Outcome::Needs(Question::Interval(index)) => answers.push(seconds(&args[index])),
            Outcome::Needs(Question::Target(index)) => answers.push(lookup(&args[index])),
        }
    }
}

fn strings(args: &[&str]) -> Vec<String> {
    args.iter().map(|arg| String::from(*arg)).collect()
}

fn refusal(result: Result<PingOpts, PingError>) -> String {
    match result {
        Ok(opts) => panic!("Should have failed: {:?}", opts),
        Err(PingError::InvalidAddress(text)) => text,
        Err(other) => panic!("Wrong error variant: {:?}", other),
    }
}

#[test]
fn test_parse_valid_ipv4() {
    let args = vec![
        String::from("program"),
        String::from("127.0.0.1"),
    ];
    let result = parse(&args);
    assert!(result.is_ok());
    assert_eq!(result.unwrap().target, Ipv4Address::new(127, 0, 0, 1));
}

#[test]
fn test_parse_invalid_ip() {
    let args = vec![
        String::from("program"),
        String::from("invalid-ip"),
    ];
    let result = parse(&args);
    assert!(result.is_err());
}

#[test]
fn test_parse_ipv6() {
    let args = vec![
        String::from("program"),
        String::from("::1"),
    ];
    let result = parse(&args);
    assert!(result.is_err());
}

#[test]
fn test_ping_error_handling() {
    let invalid_ip = "256.256.256.256";
    let args = vec![
        String::from("program"),
        String::from(invalid_ip),
    ];

    match parse(&args) {
        Ok(_) => panic!("Should have failed with invalid IP"),
        Err(e) => match e {
            PingError::InvalidAddress(msg) => assert!(msg.contains("Could not resolve hostname")),
            _ => panic!("Wrong error variant"),
        },
    }
}

#[test]
fn ttest_resolve_hostname() {
    let args = vec![
        String::from("program"),
        String::from("localhost"),
    ];
    let result = parse(&args);
    assert!(result.is_ok());
    assert_eq!(result.unwrap().target, Ipv4Address::new(127, 0, 0, 1));
}

#[test]
fn test_parse_args_with_options() {
    let args = vec![
        String::from("program"),
        String::from("-c"),
        String::from("5"),
        String::from("-i"),
        String::from("2"),
        String::from("8.8.8.8"),
    ];
    let opts = parse(&args).unwrap();
    assert_eq!(opts.count, Some(5));
    assert_eq!(opts.interval, Some(Duration::from_secs(2)));
    assert_eq!(opts.target, Ipv4Address::new(8, 8, 8, 8));
}

#[test]
fn test_parse_args_missing_value() {
    let args = vec![
        String::from("program"),
        String::from("-c"),
    ];
    let result = parse(&args);
    assert!(result.is_err());
}

#[test]
fn literal_address_needs_no_lookup() {
    let args = strings(&["program", "127.0.0.1"]);
    match parse_args(&args, &[]) {
        Ok(Outcome::Parsed(opts)) => {
            assert_eq!(opts.target, Ipv4Address::new(127, 0, 0, 1));
            assert_eq!(opts.count, None);
            assert_eq!(opts.interval, None);
        }
        other => panic!("wrong outcome: {:?}", other),
    }
}

#[test]
fn other_targets_are_asked_for() {
    let args = strings(&["program", "-c", "3", "::1"]);
    match parse_args(&args, &[]) {
        Ok(Outcome::Needs(question)) => assert_eq!(question, Question::Target(3)),
        other => panic!("wrong outcome: {:?}", other),
    }
    let args = strings(&["program", "example.org"]);
    match parse_args(&args, &[]) {
        Ok(Outcome::Needs(question)) => assert_eq!(question, Question::Target(1)),
        other => panic!("wrong outcome: {:?}", other),
    }
}

#[test]
fn ipv6_literal_is_refused_as_unsupported() {
    let args = strings(&["program", "::1"]);
    match parse_args(&args, &[Answer::Ipv6Literal]) {
        Err(PingError::InvalidAddress(text)) => assert_eq!(text, "IPv6 isn't supported yet"),
        other => panic!("wrong outcome: {:?}", other),
    }
    assert_eq!(refusal(parse(&args)), "IPv6 isn't supported yet");
}

#[test]
fn each_refusal_has_its_text() {
    assert_eq!(refusal(parse(&strings(&[]))), "Invalid number of arguments");
    assert_eq!(refusal(parse(&strings(&["program"]))), "Invalid number of arguments");
    assert_eq!(refusal(parse(&strings(&["program", "-c"]))), "Missing count value");
    assert_eq!(refusal(parse(&strings(&["program", "-c", "many"]))), "Invalid count value");
    assert_eq!(refusal(parse(&strings(&["program", "-c", "-1"]))), "Invalid count value");
    assert_eq!(refusal(parse(&strings(&["program", "-i"]))), "Missing interval value");
    assert_eq!(refusal(parse(&strings(&["program", "-i", "soon"]))), "Invalid interval value");
    assert_eq!(refusal(parse(&strings(&["program", "::1"]))), "IPv6 isn't supported yet");
    assert_eq!(refusal(parse(&strings(&["program", "six.example"]))), "No IPv4 address found");
    assert_eq!(refusal(parse(&strings(&["program", "nowhere"]))), "Could not resolve hostname");
}

#[test]
fn the_first_argument_that_cannot_be_read_decides() {
    let args = strings(&["program", "nowhere", "-c", "many"]);
    assert_eq!(refusal(parse(&args)), "Could not resolve hostname");
    let args = strings(&["program", "-c", "many", "nowhere"]);
    assert_eq!(refusal(parse(&args)), "Invalid count value");
    let args = strings(&["program", "localhost", "-i"]);
    assert_eq!(refusal(parse(&args)), "Missing interval value");
}

#[test]
fn without_a_target_the_address_is_all_zeros() {
    let opts = parse(&strings(&["program", "-c", "2"])).unwrap();
    assert_eq!(opts.target, Ipv4Address::new(0, 0, 0, 0));
    assert_eq!(opts.count, Some(2));
    assert_eq!(opts.interval, None);
}

#[test]
fn a_later_argument_replaces_an_earlier_one() {
    let args = strings(&["program", "1.1.1.1", "-c", "2", "localhost", "-c", "9", "-i", "3", "-i", "4"]);
    let opts = parse(&args).unwrap();
    assert_eq!(opts.target, Ipv4Address::new(127, 0, 0, 1));
    assert_eq!(opts.count, Some(9));
    assert_eq!(opts.interval, Some(Duration::from_secs(4)));
}

#[test]
fn the_value_of_an_option_is_not_read_as_an_option() {
    let opts = parse(&strings(&["program", "-c", "7", "9.9.9.9"])).unwrap();
    assert_eq!(opts.count, Some(7));
    assert_eq!(refusal(parse(&strings(&["program", "-c", "-i"]))), "Invalid count value");
    assert_eq!(refusal(parse(&strings(&["program", "-i", "-c"]))), "Invalid interval value");
}

#[test]
fn answers_are_used_in_the_order_of_the_questions() {
    let args = strings(&["program", "-i", "0.5", "gateway"]);
    match parse_args(&args, &[]) {
        Ok(Outcome::Needs(question)) => assert_eq!(question, Question::Interval(2)),
        other => panic!("wrong outcome: {:?}", other),
    }
    let mut answers = vec![Answer::Interval(Some(Duration::from_millis(500)))];
    match parse_args(&args, &answers) {
        Ok(Outcome::Needs(question)) => assert_eq!(question, Question::Target(3)),
        other => panic!("wrong outcome: {:?}", other),
    }
    answers.push(Answer::Resolved(vec![HostAddress::V4(Ipv4Address::new(192, 168, 0, 1))]));
    match parse_args(&args, &answers) {
        Ok(Outcome::Parsed(opts)) => {
            assert_eq!(opts.target, Ipv4Address::new(192, 168, 0, 1));
            assert_eq!(opts.interval, Some(Duration::from_millis(500)));
            assert_eq!(opts.count, None);
        }
        other => panic!("wrong outcome: {:?}", other),
    }
}

#[test]
fn an_answer_of_the_wrong_kind_is_a_refusal() {
    let args = strings(&["program", "-i", "1"]);
    match parse_args(&args, &[Answer::Unresolved]) {
        Err(PingError::InvalidAddress(text)) => assert_eq!(text, "Invalid interval value"),
        other => panic!("wrong outcome: {:?}", other),
    }
    let args = strings(&["program", "gateway"]);
    match parse_args(&args, &[Answer::Interval(Some(Duration::ZERO))]) {
        Err(PingError::InvalidAddress(text)) => assert_eq!(text, "Could not resolve hostname"),
        other => panic!("wrong outcome: {:?}", other),
    }
}

#[test]
fn parse_count_reads_unsigned_numbers() {
    assert_eq!(parse_count("0"), Some(0));
    assert_eq!(parse_count("5"), Some(5));
    assert_eq!(parse_count("+5"), Some(5));
    assert_eq!(parse_count("007"), Some(7));
    assert_eq!(parse_count("4294967295"), Some(u32::MAX));
    assert_eq!(parse_count("0000000000004294967295"), Some(u32::MAX));
    assert_eq!(parse_count("4294967296"), None);
    assert_eq!(parse_count("99999999999999999999999999"), None);
    assert_eq!(parse_count(""), None);
    assert_eq!(parse_count("+"), None);
    assert_eq!(parse_count("-"), None);
    assert_eq!(parse_count("-5"), None);
    assert_eq!(parse_count("++5"), None);
    assert_eq!(parse_count("5+"), None);
    assert_eq!(parse_count(" 5"), None);
    assert_eq!(parse_count("5 "), None);
    assert_eq!(parse_count("1_000"), None);
    assert_eq!(parse_count("1e3"), None);
    assert_eq!(parse_count("0x10"), None);
    assert_eq!(parse_count("５"), None);
    assert_eq!(parse_count("12a"), None);
}

#[test]
fn parse_count_agrees_with_the_standard_library() {
    let texts = [
        "0", "1", "+1", "-1", "+", "", "00", "+00012", "4294967295", "4294967296", "42949672950",
        "12 ", " 12", "1.0", "١٢", "+-1", "+ 1", "18446744073709551616",
    ];
    for text in texts {
        assert_eq!(parse_count(text), text.parse::<u32>().ok(), "{:?}", text);
    }
}

#[test]
fn find_v4_takes_the_first_ipv4_address() {
    assert_eq!(find_v4(&vec![]), None);
    assert_eq!(find_v4(&vec![HostAddress::V6, HostAddress::V6]), None);
    let first = Ipv4Address::new(1, 1, 1, 1);
    let second = Ipv4Address::new(2, 2, 2, 2);
    assert_eq!(find_v4(&vec![HostAddress::V4(first), HostAddress::V4(second)]), Some(first));
    assert_eq!(
        find_v4(&vec![HostAddress::V6, HostAddress::V4(second), HostAddress::V4(first)]),
        Some(second)
    );
}
