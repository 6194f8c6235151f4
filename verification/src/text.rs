//! Numbers as text: decimal digits, and milliseconds with three decimals.

use vstd::prelude::*;
use vstd::string::is_ascii_spec_bytes;

verus! {

/// `String::push` appends one character to the string.
pub assume_specification[ String::push ](s: &mut String, c: char)
    ensures
        final(s)@ == old(s)@.push(c),
;

/// The ASCII code of the digit `0`.
pub const ASCII_ZERO: u8 = 48;

/// The ASCII code of the digit `9`.
pub const ASCII_NINE: u8 = 57;

/// The character of the decimal digit `d`.
pub open spec fn digit_char(d: nat) -> char
    recommends
        d < 10,
{
    ((ASCII_ZERO + d) as u8) as char
}

/// The decimal digits of `n`, without leading zeros; `0` is written "0".
pub open spec fn decimal(n: nat) -> Seq<char>
    decreases n,
{
    if n < 10 {
        seq![digit_char(n)]
    } else {
        decimal(n / 10).push(digit_char(n % 10))
    }
}

/// Whether `c` is one of the decimal digits `0` to `9`.
pub open spec fn is_digit(c: char) -> bool {
    '0' <= c <= '9'
}

/// The value of the decimal digit `c`.
pub open spec fn digit_value(c: char) -> nat
    recommends
        is_digit(c),
{
    (c as nat - ASCII_ZERO) as nat
}

/// Whether `s` holds decimal digits only.
pub open spec fn all_digits(s: Seq<char>) -> bool {
    forall|i: int| 0 <= i < s.len() ==> is_digit(#[trigger] s[i])
}

/// The number that the decimal digits `s` write; leading zeros count for
/// nothing, and no digits write zero.
pub open spec fn digits_value(s: Seq<char>) -> nat
    recommends
        all_digits(s),
    decreases s.len(),
{
    if s.len() == 0 {
        0
    } else {
        digits_value(s.drop_last()) * 10 + digit_value(s.last())
    }
}

/// The decimal text of a number is made of digits, at least one, begins with
/// a zero only where the number is zero, and writes that number.
pub proof fn lemma_decimal(n: nat)
    ensures
        decimal(n).len() >= 1,
        all_digits(decimal(n)),
        decimal(n)[0] == '0' <==> n == 0,
        decimal(n).len() == 1 <==> n < 10,
        digits_value(decimal(n)) == n,
    decreases n,
{
    if n < 10 {
        assert(decimal(n).drop_last() =~= Seq::<char>::empty());
        assert(digits_value(decimal(n)) == digits_value(decimal(n).drop_last()) * 10 + digit_value(
            decimal(n).last(),
        ));
    } else {
        lemma_decimal(n / 10);
        assert(decimal(n).drop_last() =~= decimal(n / 10));
    }
}

/// Digits without a needless leading zero are the decimal text of the number
/// that they write.
pub proof fn lemma_decimal_of_digits(s: Seq<char>)
    requires
        s.len() >= 1,
        all_digits(s),
        s.len() > 1 ==> s[0] != '0',
    ensures
        decimal(digits_value(s)) == s,
        s.len() > 1 ==> digits_value(s) >= 10,
    decreases s.len(),
{
    let rest = s.drop_last();
    if s.len() == 1 {
        assert(rest =~= Seq::<char>::empty());
        assert(digits_value(s) == digits_value(rest) * 10 + digit_value(s.last()));
        assert(decimal(digits_value(s)) =~= s);
    } else {
        assert(rest[0] == s[0]);
        lemma_decimal_of_digits(rest);
        assert(is_digit(rest[0]));
        assert(digits_value(rest) >= 1) by {
            if rest.len() == 1 {
                assert(rest.drop_last() =~= Seq::<char>::empty());
                assert(digits_value(rest) == digits_value(rest.drop_last()) * 10 + digit_value(
                    rest.last(),
                ));
            }
        }
        assert(is_digit(s.last()));
        assert(decimal(digits_value(s)) =~= s);
    }
}

/// Digits write at least as much as any of their beginnings.
pub proof fn lemma_digits_value_prefix(s: Seq<char>, k: int)
    requires
        0 <= k <= s.len(),
    ensures
        digits_value(s.subrange(0, k)) <= digits_value(s),
    decreases s.len(),
{
    if k == s.len() {
        assert(s.subrange(0, k) =~= s);
    } else {
        lemma_digits_value_prefix(s.drop_last(), k);
        assert(s.drop_last().subrange(0, k) =~= s.subrange(0, k));
    }
}

/// Whether `bytes` are the characters of `s`, all of them ASCII.
pub open spec fn spells(bytes: Seq<u8>, s: Seq<char>) -> bool {
    &&& bytes.len() == s.len()
    &&& forall|i: int|
        #![trigger bytes[i]]
        #![trigger s[i]]
        0 <= i < s.len() ==> bytes[i] <= 127 && s[i] == bytes[i] as char
}

/// The bytes of `s`, one for each character, where all its characters are
/// ASCII.
pub fn ascii_bytes(s: &str) -> (bytes: Option<&[u8]>)
    ensures
        bytes matches Some(found) ==> spells(found@, s@),
        bytes is None ==> exists|i: int| 0 <= i < s@.len() && (#[trigger] s@[i]) > '\u{7f}',
{
    if s.is_ascii() {
        let bytes = s.as_bytes();
        proof {
            is_ascii_spec_bytes(s);
            assert forall|i: int| 0 <= i < s@.len() implies (#[trigger] bytes@[i]) <= 127 && s@[i]
                == bytes@[i] as char by {
                assert('\0' <= s@[i] <= '\u{7f}');
            }
        }
        Some(bytes)
    } else {
        proof {
            let at = choose|i: int| 0 <= i < s@.len() && !('\0' <= #[trigger] s@[i] <= '\u{7f}');
            lemma_char_floor(s@[at]);
        }
        None
    }
}

/// No character lies below the first one.
proof fn lemma_char_floor(c: char)
    ensures
        '\0' <= c,
{
}

/// Appends the decimal digit `d`.
fn push_digit(out: &mut String, d: u8)
    requires
        d < 10,
    ensures
        final(out)@ == old(out)@.push(digit_char(d as nat)),
{
    out.push((ASCII_ZERO + d) as char);
}

/// Appends the decimal digits of `n`.
pub fn push_decimal(out: &mut String, n: u128)
    ensures
        final(out)@ == old(out)@ + decimal(n as nat),
    decreases n,
{
    if n >= 10 {
        push_decimal(out, n / 10);
    }
    push_digit(out, (n % 10) as u8);
    assert(final(out)@ =~= old(out)@ + decimal(n as nat));
}

/// The number of microseconds nearest to `nanos` nanoseconds, a half
/// counting upwards.
pub open spec fn rounded_micros(nanos: nat) -> nat {
    (nanos + 500) / 1000
}

/// `nanos` nanoseconds written in milliseconds with three decimals: the whole
/// milliseconds, a point, and the three digits of the microseconds.
pub open spec fn millis_text(nanos: nat) -> Seq<char> {
    let micros = rounded_micros(nanos);
    decimal(micros / 1000) + seq![
        '.',
        digit_char(micros / 100 % 10),
        digit_char(micros / 10 % 10),
        digit_char(micros % 10),
    ]
}

/// Appends `nanos` nanoseconds in milliseconds with three decimals.
pub fn push_millis(out: &mut String, nanos: u128)
    ensures
        final(out)@ == old(out)@ + millis_text(nanos as nat),
{
    let micros: u128 = if nanos % 1000 >= 500 {
        nanos / 1000 + 1
    } else {
        nanos / 1000
    };
    assert(micros == rounded_micros(nanos as nat));
    push_decimal(out, micros / 1000);
    out.push('.');
    push_digit(out, (micros / 100 % 10) as u8);
    push_digit(out, (micros / 10 % 10) as u8);
    push_digit(out, (micros % 10) as u8);
    assert(final(out)@ =~= old(out)@ + millis_text(nanos as nat));
}

} // verus!
