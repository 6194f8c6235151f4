//! The target of a ping session: an IPv4 address.

use crate::text::{
    all_digits, ascii_bytes, decimal, digits_value, is_digit, lemma_decimal,
    lemma_decimal_of_digits, lemma_digits_value_prefix, push_decimal, spells, ASCII_NINE,
    ASCII_ZERO,
};
use vstd::prelude::*;

verus! {

/// An IPv4 address, as its four octets from the first to the last.
#[derive(Debug, Clone, Copy, PartialEq, Eq, Structural)]
pub struct Ipv4Address {
    /// The first octet.
    pub a: u8,
    /// The second octet.
    pub b: u8,
    /// The third octet.
    pub c: u8,
    /// The last octet.
    pub d: u8,
}

/// The ASCII code of the dot between two octets.
pub const ASCII_DOT: u8 = 46;

/// Whether the decimal text of `value` stands in `s` from `start` up to
/// `end`, where `s` ends or goes on with something that is no digit.
pub open spec fn octet_at(s: Seq<char>, start: int, value: u8, end: int) -> bool {
    &&& 0 <= start <= end <= s.len()
    &&& s.subrange(start, end) == decimal(value as nat)
    &&& (end == s.len() || !is_digit(s[end]))
}

/// Reads the octet that stands in `bytes` from `start`: the digits from there
/// on must be the decimal text of a number up to 255.
fn read_octet(bytes: &[u8], start: usize, Ghost(s): Ghost<Seq<char>>) -> (result: Option<
    (u8, usize),
>)
    requires
        spells(bytes@, s),
        start <= s.len(),
    ensures
        result matches Some((value, end)) ==> octet_at(s, start as int, value, end as int),
        forall|value: u8, end: int| #[trigger]
            octet_at(s, start as int, value, end) ==> result == Some((value, end as usize)),
{
    let len = bytes.len();
    let mut i = start;
    let mut acc: u32 = 0;
    while i < len && ASCII_ZERO <= bytes[i] && bytes[i] <= ASCII_NINE
        invariant
            spells(bytes@, s),
            len == s.len(),
            start <= i <= len,
            all_digits(s.subrange(start as int, i as int)),
            acc == digits_value(s.subrange(start as int, i as int)),
            acc <= 255,
        decreases len - i,
    {
        let digit = (bytes[i] - ASCII_ZERO) as u32;
        proof {
            let run = s.subrange(start as int, i + 1);
            assert(is_digit(s[i as int]));
            assert(run.drop_last() =~= s.subrange(start as int, i as int));
            assert(run.last() == s[i as int]);
            assert(digits_value(run) == acc * 10 + digit);
            assert(all_digits(run)) by {
                assert forall|k: int| 0 <= k < run.len() implies is_digit(#[trigger] run[k]) by {
                    if k < i - start {
                        assert(run[k] == s.subrange(start as int, i as int)[k]);
                    }
                }
            }
        }
        if acc * 10 + digit > 255 {
            proof {
                assert forall|value: u8, end: int| #[trigger]
                    octet_at(s, start as int, value, end) implies false by {
                    lemma_decimal(value as nat);
                    let text = s.subrange(start as int, end);
                    if end <= i {
                        assert(s[end] == s.subrange(start as int, i + 1)[end - start]);
                    } else {
                        lemma_digits_value_prefix(text, i + 1 - start);
                        assert(text.subrange(0, i + 1 - start) =~= s.subrange(start as int, i + 1));
                    }
                }
            }
            return None;
        }
        acc = acc * 10 + digit;
        i += 1;
    }
    let ghost run = s.subrange(start as int, i as int);
    proof {
        assert forall|value: u8, end: int| #[trigger]
            octet_at(s, start as int, value, end) implies end == i by {
            lemma_decimal(value as nat);
            let text = s.subrange(start as int, end);
            if end < i {
                assert(s[end] == run[end - start]);
            } else if end > i {
                assert(is_digit(text[i - start]));
                assert(text[i - start] == s[i as int]);
            }
        }
    }
    if i == start {
        proof {
            assert forall|value: u8, end: int| #[trigger]
                octet_at(s, start as int, value, end) implies false by {
                lemma_decimal(value as nat);
            }
        }
        return None;
    }
    if bytes[start] == ASCII_ZERO && i - start > 1 {
        proof {
            assert forall|value: u8, end: int| #[trigger]
                octet_at(s, start as int, value, end) implies false by {
                lemma_decimal(value as nat);
                assert(run[0] == s[start as int]);
            }
        }
        return None;
    }
    proof {
        assert(run[0] == s[start as int]);
        lemma_decimal_of_digits(run);
        assert forall|value: u8, end: int| #[trigger]
            octet_at(s, start as int, value, end) implies value == acc by {
            lemma_decimal(value as nat);
        }
    }
    Some((acc as u8, i))
}

/// Whether `bytes` holds a dot at `at`.
fn dot_at(bytes: &[u8], at: usize, Ghost(s): Ghost<Seq<char>>) -> (found: bool)
    requires
        spells(bytes@, s),
    ensures
        found == (at < s.len() && s[at as int] == '.'),
{
    at < bytes.len() && bytes[at] == ASCII_DOT
}

/// Where an octet's text stands in `s` from `start`, the octet and the end
/// of its text are the only ones.
pub proof fn lemma_octet_unique(
    s: Seq<char>,
    start: int,
    value: u8,
    end: int,
    other: u8,
    other_end: int,
)
    requires
        octet_at(s, start, value, end),
        octet_at(s, start, other, other_end),
    ensures
        value == other,
        end == other_end,
{
    lemma_decimal(value as nat);
    lemma_decimal(other as nat);
    let text = s.subrange(start, end);
    let other_text = s.subrange(start, other_end);
    if end < other_end {
        assert(is_digit(other_text[end - start]));
    } else if other_end < end {
        assert(is_digit(text[other_end - start]));
    }
}

impl Ipv4Address {
    /// The address in dotted decimal notation.
    pub open spec fn text(self) -> Seq<char> {
        decimal(self.a as nat) + seq!['.'] + decimal(self.b as nat) + seq!['.'] + decimal(
            self.c as nat,
        ) + seq!['.'] + decimal(self.d as nat)
    }

    /// The address that `s` writes in dotted decimal notation, if it writes
    /// one.
    pub open spec fn literal(s: Seq<char>) -> Option<Ipv4Address> {
        if exists|address: Ipv4Address| s == address.text() {
            Some(choose|address: Ipv4Address| s == address.text())
        } else {
            None
        }
    }

    /// How the text of an address is made: four octets, each up to a dot or
    /// to the end. All of it is digits and dots.
    pub proof fn lemma_text_shape(self)
        ensures
            ({
                let text = self.text();
                let first = decimal(self.a as nat).len() as int;
                let second = first + 1 + decimal(self.b as nat).len();
                let third = second + 1 + decimal(self.c as nat).len();
                &&& octet_at(text, 0, self.a, first)
                &&& text[first] == '.'
                &&& octet_at(text, first + 1, self.b, second)
                &&& text[second] == '.'
                &&& octet_at(text, second + 1, self.c, third)
                &&& text[third] == '.'
                &&& octet_at(text, third + 1, self.d, text.len() as int)
            }),
            forall|i: int|
                0 <= i < self.text().len() ==> is_digit(#[trigger] self.text()[i])
                    || self.text()[i] == '.',
    {
        let text = self.text();
        let a = decimal(self.a as nat);
        let b = decimal(self.b as nat);
        let c = decimal(self.c as nat);
        let d = decimal(self.d as nat);
        lemma_decimal(self.a as nat);
        lemma_decimal(self.b as nat);
        lemma_decimal(self.c as nat);
        lemma_decimal(self.d as nat);
        let first = a.len() as int;
        let second = first + 1 + b.len();
        let third = second + 1 + c.len();
        assert(text.len() == third + 1 + d.len());
        assert(text.subrange(0, first) =~= a);
        assert(text.subrange(first + 1, second) =~= b);
        assert(text.subrange(second + 1, third) =~= c);
        assert(text.subrange(third + 1, text.len() as int) =~= d);
        assert forall|i: int| 0 <= i < text.len() implies is_digit(#[trigger] text[i]) || text[i]
            == '.' by {
            if i < first {
                assert(text[i] == a[i]);
            } else if first < i < second {
                assert(text[i] == b[i - first - 1]);
            } else if second < i < third {
                assert(text[i] == c[i - second - 1]);
            } else if third < i {
                assert(text[i] == d[i - third - 1]);
            }
        }
    }

    /// A text is the dotted decimal notation of at most one address.
    pub proof fn lemma_text_injective(self, other: Ipv4Address)
        requires
            self.text() == other.text(),
        ensures
            self == other,
    {
        self.lemma_text_shape();
        other.lemma_text_shape();
        let text = self.text();
        let first = decimal(self.a as nat).len() as int;
        let other_first = decimal(other.a as nat).len() as int;
        lemma_octet_unique(text, 0, self.a, first, other.a, other_first);
        let second = first + 1 + decimal(self.b as nat).len();
        let other_second = first + 1 + decimal(other.b as nat).len();
        lemma_octet_unique(text, first + 1, self.b, second, other.b, other_second);
        let third = second + 1 + decimal(self.c as nat).len();
        let other_third = second + 1 + decimal(other.c as nat).len();
        lemma_octet_unique(text, second + 1, self.c, third, other.c, other_third);
        lemma_octet_unique(text, third + 1, self.d, text.len() as int, other.d, text.len() as int);
    }

    /// The text of an address writes that address and no other.
    pub proof fn lemma_literal_of_text(self)
        ensures
            Ipv4Address::literal(self.text()) == Some(self),
    {
        let found = choose|address: Ipv4Address| self.text() == address.text();
        found.lemma_text_injective(self);
    }

    /// Reads an address in dotted decimal notation: four numbers up to 255,
    /// written without needless zeros in front, with a dot between each two
    /// and nothing else before, between or behind. This is the one text that
    /// `text` gives for the address.
    pub fn parse(s: &str) -> (result: Option<Ipv4Address>)
        ensures
            result == Ipv4Address::literal(s@),
            forall|address: Ipv4Address|
                s@ == #[trigger] address.text() <==> result == Some(address),
    {
        let found = Ipv4Address::scan(s);
        proof {
            match found {
                Some(address) => {
                    assert forall|other: Ipv4Address| s@ == other.text() implies other
                        == address by {
                        address.lemma_text_injective(other);
                    }
                },
                None => {},
            }
        }
        found
    }

    /// Reads an address in dotted decimal notation.
    fn scan(s: &str) -> (result: Option<Ipv4Address>)
        ensures
            result matches Some(address) ==> s@ == address.text(),
            result is None ==> forall|address: Ipv4Address| s@ != #[trigger] address.text(),
    {
        let ghost text = s@;
        let bytes = match ascii_bytes(s) {
            Some(bytes) => bytes,
            None => {
                proof {
                    assert forall|address: Ipv4Address| text != #[trigger] address.text() by {
                        address.lemma_text_shape();
                    }
                }
                return None;
            },
        };
        let len = bytes.len();
        proof {
            assert forall|address: Ipv4Address| text == #[trigger] address.text() implies ({
                let first = decimal(address.a as nat).len() as int;
                let second = first + 1 + decimal(address.b as nat).len();
                let third = second + 1 + decimal(address.c as nat).len();
                &&& octet_at(text, 0, address.a, first)
                &&& text[first] == '.'
                &&& octet_at(text, first + 1, address.b, second)
                &&& text[second] == '.'
                &&& octet_at(text, second + 1, address.c, third)
                &&& text[third] == '.'
                &&& octet_at(text, third + 1, address.d, text.len() as int)
            }) by {
                address.lemma_text_shape();
            }
        }
        let (a, first) = match read_octet(bytes, 0, Ghost(text)) {
            Some(read) => read,
            None => {
                return None;
            },
        };
        if !dot_at(bytes, first, Ghost(text)) {
            return None;
        }
        let (b, second) = match read_octet(bytes, first + 1, Ghost(text)) {
            Some(read) => read,
            None => {
                return None;
            },
        };
        if !dot_at(bytes, second, Ghost(text)) {
            return None;
        }
        let (c, third) = match read_octet(bytes, second + 1, Ghost(text)) {
            Some(read) => read,
            None => {
                return None;
            },
        };
        if !dot_at(bytes, third, Ghost(text)) {
            return None;
        }
        let (d, end) = match read_octet(bytes, third + 1, Ghost(text)) {
            Some(read) => read,
            None => {
                return None;
            },
        };
        if end != len {
            return None;
        }
        let address = Ipv4Address { a, b, c, d };
        proof {
            assert(text =~= text.subrange(0, first as int) + seq!['.'] + text.subrange(
                first + 1,
                second as int,
            ) + seq!['.'] + text.subrange(second + 1, third as int) + seq!['.'] + text.subrange(
                third + 1,
                end as int,
            ));
        }
        Some(address)
    }

    /// The address with the octets `a.b.c.d`.
    pub fn new(a: u8, b: u8, c: u8, d: u8) -> (address: Ipv4Address)
        ensures
            address == (Ipv4Address { a, b, c, d }),
    {
        Ipv4Address { a, b, c, d }
    }

    /// The four octets, from the first to the last.
    pub fn octets(&self) -> (octets: [u8; 4])
        ensures
            octets@ == seq![self.a, self.b, self.c, self.d],
    {
        let octets = [self.a, self.b, self.c, self.d];
        assert(octets@ =~= seq![self.a, self.b, self.c, self.d]);
        octets
    }

    /// Appends the address in dotted decimal notation.
    pub fn push_to(&self, out: &mut String)
        ensures
            final(out)@ == old(out)@ + self.text(),
    {
        push_decimal(out, self.a as u128);
        out.push('.');
        push_decimal(out, self.b as u128);
        out.push('.');
        push_decimal(out, self.c as u128);
        out.push('.');
        push_decimal(out, self.d as u128);
        assert(final(out)@ =~= old(out)@ + self.text());
    }
}

} // verus!
