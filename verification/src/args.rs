//! The command line: a target, and options for the count and the interval.
//!
//! Two things cannot be read from the arguments alone: an interval, which is
//! a number with a fraction, and a target that is no IPv4 literal, which has
//! to be looked up. Parsing stops at each and says what it needs; the caller
//! finds the answer and parses again with the answers found so far.

use crate::address::Ipv4Address;
use crate::error::PingError;
use crate::text::{
    all_digits, ascii_bytes, decimal, digit_value, digits_value, is_digit, lemma_decimal,
    lemma_digits_value_prefix, spells, ASCII_NINE, ASCII_ZERO,
};
use std::time::Duration;
use vstd::prelude::*;
use vstd::string::StringExecFns;

verus! {

/// What the command line asks for.
#[derive(Debug, Clone, Copy)]
pub struct PingOpts {
    /// The address to ping.
    pub target: Ipv4Address,
    /// How many requests to send, if that was said.
    pub count: Option<u32>,
    /// Time from one request to the next, if that was said.
    pub interval: Option<Duration>,
}

/// An address that a lookup gave.
#[derive(Debug, Clone, Copy, PartialEq, Eq)]
pub enum HostAddress {
    /// An IPv4 address.
    V4(Ipv4Address),
    /// An IPv6 address, which cannot be pinged.
    V6,
}

/// What parsing needs to know of one argument.
#[derive(Debug, Clone, Copy, PartialEq, Eq)]
pub enum Question {
    /// The argument at this index as a number of seconds.
    Interval(usize),
    /// The addresses of the argument at this index, which is no IPv4 literal.
    Target(usize),
}

/// The answer to a question.
#[derive(Debug)]
pub enum Answer {
    /// The argument as a number of seconds, or `None` where it is no number.
    Interval(Option<Duration>),
    /// The argument is an IPv6 literal.
    Ipv6Literal,
    /// The argument is the name of a host with these addresses.
    Resolved(Vec<HostAddress>),
    /// The argument could not be resolved.
    Unresolved,
}

/// How far parsing came.
#[derive(Debug)]
pub enum Outcome {
    /// All arguments are read.
    Parsed(PingOpts),
    /// One more answer is needed.
    Needs(Question),
}

/// What the arguments and the answers amount to.
pub enum Parse {
    /// All arguments are read.
    Parsed(PingOpts),
    /// One more answer is needed.
    Needs(Question),
    /// The arguments are refused with this text.
    Fails(Seq<char>),
}

/// The ASCII code of the plus sign.
pub const ASCII_PLUS: u8 = 43;

/// `s` without the plus sign that it may begin with.
pub open spec fn unsigned(s: Seq<char>) -> Seq<char> {
    if s.len() > 0 && s[0] == '+' {
        s.skip(1)
    } else {
        s
    }
}

/// What `s` says as a count: decimal digits, at least one, with a plus sign
/// before them or none, that write a number up to `u32::MAX`.
pub open spec fn count_of(s: Seq<char>) -> Option<u32> {
    let digits = unsigned(s);
    if digits.len() > 0 && all_digits(digits) && digits_value(digits) <= u32::MAX {
        Some(digits_value(digits) as u32)
    } else {
        None
    }
}

/// The first IPv4 address among `found`.
pub open spec fn first_v4(found: Seq<HostAddress>) -> Option<Ipv4Address>
    decreases found.len(),
{
    if found.len() == 0 {
        None
    } else {
        match found[0] {
            HostAddress::V4(address) => Some(address),
            HostAddress::V6 => first_v4(found.drop_first()),
        }
    }
}

/// What is asked for before any argument is read: the target `0.0.0.0`, and
/// neither a count nor an interval.
pub open spec fn no_opts() -> PingOpts {
    PingOpts { target: Ipv4Address { a: 0, b: 0, c: 0, d: 0 }, count: None, interval: None }
}

/// What the arguments from index `i` on amount to, with `opts` read so far
/// and the answers from index `j` on still unused.
///
/// `-c` takes the next argument as the count and `-i` the next as the
/// interval; any other argument is a target. A later option or target
/// replaces an earlier one. The first argument that cannot be read ends the
/// parsing.
pub open spec fn parse_from(
    args: Seq<String>,
    answers: Seq<Answer>,
    opts: PingOpts,
    i: int,
    j: int,
) -> Parse
    decreases args.len() - i,
{
    if i < 0 || i >= args.len() {
        Parse::Parsed(opts)
    } else if args[i]@ == "-c"@ {
        if i + 1 >= args.len() {
            Parse::Fails("Missing count value"@)
        } else {
            match count_of(args[i + 1]@) {
                Some(count) => parse_from(
                    args,
                    answers,
                    PingOpts { count: Some(count), ..opts },
                    i + 2,
                    j,
                ),
                None => Parse::Fails("Invalid count value"@),
            }
        }
    } else if args[i]@ == "-i"@ {
        if i + 1 >= args.len() {
            Parse::Fails("Missing interval value"@)
        } else if j < 0 || j >= answers.len() {
            Parse::Needs(Question::Interval((i + 1) as usize))
        } else {
            match answers[j] {
                Answer::Interval(Some(interval)) => parse_from(
                    args,
                    answers,
                    PingOpts { interval: Some(interval), ..opts },
                    i + 2,
                    j + 1,
                ),
                _ => Parse::Fails("Invalid interval value"@),
            }
        }
    } else {
        match Ipv4Address::literal(args[i]@) {
            Some(target) => parse_from(args, answers, PingOpts { target, ..opts }, i + 1, j),
            None => if j < 0 || j >= answers.len() {
                Parse::Needs(Question::Target(i as usize))
            } else {
                match answers[j] {
                    Answer::Ipv6Literal => Parse::Fails("IPv6 isn't supported yet"@),
                    Answer::Resolved(found) => match first_v4(found@) {
                        Some(target) => parse_from(
                            args,
                            answers,
                            PingOpts { target, ..opts },
                            i + 1,
                            j + 1,
                        ),
                        None => Parse::Fails("No IPv4 address found"@),
                    },
                    _ => Parse::Fails("Could not resolve hostname"@),
                }
            },
        }
    }
}

/// What the arguments amount to, with the answers given. The first argument
/// is the program's name, and at least one more is needed.
pub open spec fn parse(args: Seq<String>, answers: Seq<Answer>) -> Parse {
    if args.len() < 2 {
        Parse::Fails("Invalid number of arguments"@)
    } else {
        parse_from(args, answers, no_opts(), 1, 0)
    }
}

/// A target that is an IPv4 literal needs no answer: the program's name and the
/// text of an address amount to that address, with neither a count nor an
/// interval, whatever answers are given.
pub proof fn lemma_literal_target(args: Seq<String>, answers: Seq<Answer>, address: Ipv4Address)
    requires
        args.len() == 2,
        args[1]@ == address.text(),
    ensures
        parse(args, answers) == Parse::Parsed(PingOpts { target: address, ..no_opts() }),
{
    address.lemma_text_shape();
    address.lemma_literal_of_text();
    lemma_decimal(address.a as nat);
    let text = address.text();
    assert(is_digit(text.subrange(0, decimal(address.a as nat).len() as int)[0]));
    assert(is_digit(text[0]));
    reveal_strlit("-c");
    reveal_strlit("-i");
    assert(text != "-c"@);
    assert(text != "-i"@);
    reveal_with_fuel(parse_from, 2);
}

/// What is neither an option nor an IPv4 literal has to be looked up: with
/// no answer at hand, the program's name and such a target amount to the
/// question for the target's addresses. With the answer that the target is
/// an IPv6 literal, they are refused as unsupported.
pub proof fn lemma_other_target(args: Seq<String>)
    requires
        args.len() == 2,
        args[1]@ != "-c"@,
        args[1]@ != "-i"@,
        Ipv4Address::literal(args[1]@) is None,
    ensures
        parse(args, Seq::<Answer>::empty()) == Parse::Needs(Question::Target(1)),
        parse(args, seq![Answer::Ipv6Literal]) == Parse::Fails("IPv6 isn't supported yet"@),
{
}

/// Reads a count: decimal digits, at least one, with a plus sign before them
/// or none, that write a number up to `u32::MAX`.
pub fn parse_count(s: &str) -> (count: Option<u32>)
    ensures
        count == count_of(s@),
{
    let ghost text = s@;
    let bytes = match ascii_bytes(s) {
        Some(bytes) => bytes,
        None => {
            proof {
                let at = choose|i: int| 0 <= i < text.len() && (#[trigger] text[i]) > '\u{7f}';
                if text[0] == '+' {
                    assert(text.skip(1)[at - 1] == text[at]);
                }
            }
            return None;
        },
    };
    let len = bytes.len();
    let start: usize = if len > 0 && bytes[0] == ASCII_PLUS {
        1
    } else {
        0
    };
    let ghost digits = text.skip(start as int);
    assert(text.skip(0) =~= text);
    if start == len {
        return None;
    }
    let mut i = start;
    let mut value: u64 = 0;
    while i < len
        invariant
            spells(bytes@, text),
            len == text.len(),
            text == s@,
            digits == text.skip(start as int),
            digits == unsigned(text),
            start <= i <= len,
            all_digits(digits.subrange(0, i - start)),
            value == digits_value(digits.subrange(0, i - start)),
            value <= u32::MAX,
        decreases len - i,
    {
        let byte = bytes[i];
        if byte < ASCII_ZERO || byte > ASCII_NINE {
            assert(!is_digit(digits[i - start]));
            return None;
        }
        proof {
            let read = digits.subrange(0, i + 1 - start);
            assert(read.drop_last() =~= digits.subrange(0, i - start));
            assert(read.last() == text[i as int]);
            assert(digit_value(text[i as int]) == byte - ASCII_ZERO);
            assert forall|k: int| 0 <= k < read.len() implies is_digit(#[trigger] read[k]) by {
                if k < i - start {
                    assert(read[k] == digits.subrange(0, i - start)[k]);
                }
            }
        }
        value = value * 10 + (byte - ASCII_ZERO) as u64;
        if value > u32::MAX as u64 {
            proof {
                lemma_digits_value_prefix(digits, i + 1 - start);
            }
            return None;
        }
        i += 1;
    }
    assert(digits.subrange(0, i - start) =~= digits);
    Some(value as u32)
}

/// The first IPv4 address among `found`.
pub fn find_v4(found: &Vec<HostAddress>) -> (first: Option<Ipv4Address>)
    ensures
        first == first_v4(found@),
{
    let mut i: usize = 0;
    assert(found@.skip(0) =~= found@);
    while i < found.len()
        invariant
            i <= found@.len(),
            first_v4(found@) == first_v4(found@.skip(i as int)),
        decreases found@.len() - i,
    {
        proof {
            let rest = found@.skip(i as int);
            assert(rest[0] == found@[i as int]);
            assert(rest.drop_first() =~= found@.skip(i + 1));
        }
        match found[i] {
            HostAddress::V4(address) => {
                return Some(address);
            },
            HostAddress::V6 => {},
        }
        i += 1;
    }
    None
}

/// An argument is refused with the text `message`.
fn refuse(message: &str) -> (result: Result<Outcome, PingError>)
    ensures
        result matches Err(PingError::InvalidAddress(text)) && text@ == message@,
{
    Err(PingError::InvalidAddress(String::from_str(message)))
}

/// Whether `outcome` is what `parse` amounts to.
pub open spec fn reports(outcome: Result<Outcome, PingError>, parse: Parse) -> bool {
    match parse {
        Parse::Parsed(opts) => outcome matches Ok(Outcome::Parsed(read)) && read == opts,
        Parse::Needs(question) => outcome matches Ok(Outcome::Needs(asked)) && asked == question,
        Parse::Fails(message) => outcome matches Err(PingError::InvalidAddress(text)) && text@
            == message,
    }
}

/// Reads the arguments of the command line, with the answers found so far to
/// what they alone do not tell.
///
/// The first argument is the program's name. `-c` takes the next argument as
/// the count and `-i` the next as the interval in seconds; any other argument
/// is the target, as an IPv4 literal or as something to look up. Where an
/// answer is needed that `answers` does not hold, the question comes back;
/// the answers are used in the order of the questions. Every refusal is an
/// `InvalidAddress` with the text that says what is wrong.
pub fn parse_args(args: &[String], answers: &[Answer]) -> (outcome: Result<Outcome, PingError>)
    ensures
        reports(outcome, parse(args@, answers@)),
{
    if args.len() < 2 {
        return refuse("Invalid number of arguments");
    }
    let count_flag = String::from_str("-c");
    let interval_flag = String::from_str("-i");
    let mut opts = PingOpts {
        target: Ipv4Address { a: 0, b: 0, c: 0, d: 0 },
        count: None,
        interval: None,
    };
    let mut i: usize = 1;
    let mut j: usize = 0;
    while i < args.len()
        invariant
            1 <= i,
            count_flag@ == "-c"@,
            interval_flag@ == "-i"@,
            parse(args@, answers@) == parse_from(args@, answers@, opts, i as int, j as int),
        decreases args@.len() - i,
    {
        if args[i] == count_flag {
            if i + 1 >= args.len() {
                return refuse("Missing count value");
            }
            match parse_count(args[i + 1].as_str()) {
                Some(count) => {
                    opts = PingOpts { count: Some(count), ..opts };
                },
                None => {
                    return refuse("Invalid count value");
                },
            }
            i += 2;
        } else if args[i] == interval_flag {
            if i + 1 >= args.len() {
                return refuse("Missing interval value");
            }
            if j >= answers.len() {
                return Ok(Outcome::Needs(Question::Interval(i + 1)));
            }
            match &answers[j] {
                Answer::Interval(Some(interval)) => {
                    opts = PingOpts { interval: Some(*interval), ..opts };
                },
                _ => {
                    return refuse("Invalid interval value");
                },
            }
            i += 2;
            j += 1;
        } else {
            match Ipv4Address::parse(args[i].as_str()) {
                Some(target) => {
                    opts = PingOpts { target, ..opts };
                },
                None => {
                    if j >= answers.len() {
                        return Ok(Outcome::Needs(Question::Target(i)));
                    }
                    match &answers[j] {
                        Answer::Ipv6Literal => {
                            return refuse("IPv6 isn't supported yet");
                        },
                        Answer::Resolved(found) => {
                            match find_v4(found) {
                                Some(target) => {
                                    opts = PingOpts { target, ..opts };
                                },
                                None => {
                                    return refuse("No IPv4 address found");
                                },
                            }
                        },
                        _ => {
                            return refuse("Could not resolve hostname");
                        },
                    }
                    j += 1;
                },
            }
            i += 1;
        }
    }
    Ok(Outcome::Parsed(opts))
}

} // verus!
