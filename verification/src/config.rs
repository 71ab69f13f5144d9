//! The text form of the local bind range, `host:low-high`.
//!
//! The host is what stands before the first `:`. The ports stand between
//! that `:` and the next one, separated by `-`: the low port before the
//! first `-`, the high port between it and the next. Each port may be
//! surrounded by whitespace and is a decimal number that fits 16 bits,
//! with an optional `+` in front. What follows a second `:` or a second
//! `-` is ignored.

use vstd::prelude::*;
use vstd::slice::slice_subrange;

verus! {

/// Why a text is not a bind range.
#[derive(Clone, Copy, Debug, PartialEq, Eq, Structural)]
pub enum ConfigError {
    /// There is no `:` after the host.
    PortsMissing,
    /// The low port is not a number that fits 16 bits.
    LowPortInvalid,
    /// There is no `-` after the low port.
    HighPortMissing,
    /// The high port is not a number that fits 16 bits.
    HighPortInvalid,
}

/// `c` is whitespace: a code point with the Unicode property White_Space.
pub open spec fn is_space(c: char) -> bool {
    ||| '\u{9}' <= c <= '\u{d}'
    ||| c == ' '
    ||| c == '\u{85}'
    ||| c == '\u{a0}'
    ||| c == '\u{1680}'
    ||| '\u{2000}' <= c <= '\u{200a}'
    ||| c == '\u{2028}'
    ||| c == '\u{2029}'
    ||| c == '\u{202f}'
    ||| c == '\u{205f}'
    ||| c == '\u{3000}'
}

/// `c` is one of the digits `0` to `9`.
pub open spec fn is_digit(c: char) -> bool {
    '0' <= c <= '9'
}

/// The value of the digit `c`.
pub open spec fn digit_of(c: char) -> nat {
    (c as int - '0' as int) as nat
}

/// The number that a sequence of digits stands for, read in base ten.
pub open spec fn decimal(digits: Seq<char>) -> nat
    decreases digits.len(),
{
    if digits.len() == 0 {
        0
    } else {
        decimal(digits.drop_last()) * 10 + digit_of(digits.last())
    }
}

/// Where the first `sep` stands in `s`, or `s.len()` if there is none.
pub open spec fn first_index(s: Seq<char>, sep: char) -> int
    decreases s.len(),
{
    if s.len() == 0 || s.first() == sep {
        0
    } else {
        1 + first_index(s.drop_first(), sep)
    }
}

/// The part of `s` before the first `sep`: all of `s` if there is none.
pub open spec fn head(s: Seq<char>, sep: char) -> Seq<char> {
    s.take(first_index(s, sep))
}

/// The part of `s` after the first `sep`, if there is one.
pub open spec fn tail(s: Seq<char>, sep: char) -> Option<Seq<char>> {
    if first_index(s, sep) < s.len() {
        Some(s.skip(first_index(s, sep) + 1))
    } else {
        None
    }
}

/// `s` without the whitespace at its start.
pub open spec fn trim_start(s: Seq<char>) -> Seq<char>
    decreases s.len(),
{
    if s.len() > 0 && is_space(s.first()) {
        trim_start(s.drop_first())
    } else {
        s
    }
}

/// `s` without the whitespace at its end.
pub open spec fn trim_end(s: Seq<char>) -> Seq<char>
    decreases s.len(),
{
    if s.len() > 0 && is_space(s.last()) {
        trim_end(s.drop_last())
    } else {
        s
    }
}

/// `s` without the whitespace at its start and at its end.
pub open spec fn trim(s: Seq<char>) -> Seq<char> {
    trim_end(trim_start(s))
}

/// Every element of `s` is a digit.
pub open spec fn all_digits(s: Seq<char>) -> bool {
    forall|i: int| 0 <= i < s.len() ==> is_digit(#[trigger] s[i])
}

/// `s` without the `+` that may stand at its start.
pub open spec fn unsigned(s: Seq<char>) -> Seq<char> {
    if s.len() > 0 && s.first() == '+' {
        s.drop_first()
    } else {
        s
    }
}

/// The port that `s` is the decimal form of: an optional `+`, then one
/// digit or more and nothing else, of a value up to 65535.
pub open spec fn port_of(s: Seq<char>) -> Option<u16> {
    let digits = unsigned(s);
    if digits.len() > 0 && all_digits(digits) && decimal(digits) <= u16::MAX {
        Some(decimal(digits) as u16)
    } else {
        None
    }
}

/// The bind range that `text` stands for: host, low port and high port.
pub open spec fn bind_range_of(text: Seq<char>) -> Result<(Seq<char>, u16, u16), ConfigError> {
    match tail(text, ':') {
        None => Err(ConfigError::PortsMissing),
        Some(rest) => {
            let ports = head(rest, ':');
            match port_of(trim(head(ports, '-'))) {
                None => Err(ConfigError::LowPortInvalid),
                Some(low) => match tail(ports, '-') {
                    None => Err(ConfigError::HighPortMissing),
                    Some(after) => match port_of(trim(head(after, '-'))) {
                        None => Err(ConfigError::HighPortInvalid),
                        Some(high) => Ok((head(text, ':'), low, high)),
                    },
                },
            }
        },
    }
}

/// Says whether `c` is whitespace.
pub fn is_whitespace(c: char) -> (r: bool)
    ensures
        r == is_space(c),
{
    let code: u32 = c as u32;
    (0x9 <= code && code <= 0xd) || code == 0x20 || code == 0x85 || code == 0xa0 || code == 0x1680
        || (0x2000 <= code && code <= 0x200a) || code == 0x2028 || code == 0x2029 || code
        == 0x202f || code == 0x205f || code == 0x3000
}

/// The value of `c` where it is a digit.
pub fn digit(c: char) -> (r: Option<u32>)
    ensures
        r is Some <==> is_digit(c),
        r matches Some(value) ==> value == digit_of(c) && value <= 9,
{
    let code: u32 = c as u32;
    if 0x30 <= code && code <= 0x39 {
        Some(code - 0x30)
    } else {
        None
    }
}

/// Finds the first `sep` in `s`.
pub fn find(s: &[char], sep: char) -> (i: usize)
    ensures
        i == first_index(s@, sep),
        i <= s@.len(),
        forall|j: int| 0 <= j < i ==> s@[j] != sep,
        i < s@.len() ==> s@[i as int] == sep,
{
    let mut i: usize = 0;
    assert(s@.skip(0) =~= s@);
    while i < s.len() && s[i] != sep
        invariant
            i <= s@.len(),
            forall|j: int| 0 <= j < i ==> s@[j] != sep,
            first_index(s@, sep) == i + first_index(s@.skip(i as int), sep),
        decreases s@.len() - i,
    {
        assert(s@.skip(i as int).drop_first() =~= s@.skip(i + 1));
        i = i + 1;
    }
    i
}

/// Splits `s` at its first `sep`: what stands before it, and what stands
/// after it if there is one.
pub fn split_first<'a>(s: &'a [char], sep: char) -> (r: (&'a [char], Option<&'a [char]>))
    ensures
        r.0@ == head(s@, sep),
        match r.1 {
            Some(rest) => tail(s@, sep) == Some(rest@),
            None => tail(s@, sep) is None,
        },
{
    let i = find(s, sep);
    let before = slice_subrange(s, 0, i);
    if i < s.len() {
        let rest = slice_subrange(s, i + 1, s.len());
        (before, Some(rest))
    } else {
        (before, None)
    }
}

/// Takes the whitespace off both ends of `s`.
pub fn trimmed<'a>(s: &'a [char]) -> (r: &'a [char])
    ensures
        r@ == trim(s@),
{
    let mut start: usize = 0;
    assert(s@.skip(0) =~= s@);
    while start < s.len() && is_whitespace(s[start])
        invariant
            start <= s@.len(),
            trim_start(s@) == trim_start(s@.skip(start as int)),
        decreases s@.len() - start,
    {
        assert(s@.skip(start as int).drop_first() =~= s@.skip(start + 1));
        start = start + 1;
    }
    let ghost rest = s@.skip(start as int);
    assert(trim_start(s@) == rest);
    let mut end: usize = s.len();
    assert(rest.take(end - start) =~= rest);
    while end > start && is_whitespace(s[end - 1])
        invariant
            start <= end <= s@.len(),
            rest == s@.skip(start as int),
            trim_end(rest) == trim_end(rest.take(end - start)),
        decreases end,
    {
        assert(rest.take(end - start).drop_last() =~= rest.take(end - start - 1));
        end = end - 1;
    }
    assert(rest.take(end - start) =~= s@.subrange(start as int, end as int));
    slice_subrange(s, start, end)
}

/// A number grows with every digit that is added to it.
proof fn lemma_decimal_grows(digits: Seq<char>, n: int)
    requires
        0 <= n <= digits.len(),
    ensures
        decimal(digits.take(n)) <= decimal(digits),
    decreases digits.len() - n,
{
    if n < digits.len() {
        let longer = digits.take(n + 1);
        assert(longer.drop_last() =~= digits.take(n));
        lemma_decimal_grows(digits, n + 1);
    } else {
        assert(digits.take(n) =~= digits);
    }
}

/// Reads a port in decimal form.
pub fn parse_port(s: &[char]) -> (r: Option<u16>)
    ensures
        r == port_of(s@),
{
    let digits = if s.len() > 0 && s[0] == '+' {
        slice_subrange(s, 1, s.len())
    } else {
        s
    };
    assert(digits@ == unsigned(s@));
    if digits.len() == 0 {
        return None;
    }
    let mut value: u32 = 0;
    let mut i: usize = 0;
    assert(digits@.take(0) =~= Seq::<char>::empty());
    while i < digits.len()
        invariant
            i <= digits@.len(),
            digits@.len() > 0,
            digits@ == unsigned(s@),
            all_digits(digits@.take(i as int)),
            value == decimal(digits@.take(i as int)),
            value <= u16::MAX,
        decreases digits@.len() - i,
    {
        let ghost longer = digits@.take(i + 1);
        assert(longer.drop_last() =~= digits@.take(i as int));
        assert(longer.last() == digits@[i as int]);
        let next: u32 = match digit(digits[i]) {
            Some(d) => value * 10 + d,
            None => {
                assert(!is_digit(digits@[i as int]));
                return None;
            },
        };
        assert(next == decimal(longer));
        assert(all_digits(longer)) by {
            assert forall|j: int| 0 <= j < longer.len() implies is_digit(#[trigger] longer[j]) by {
                if j < i {
                    assert(is_digit(digits@.take(i as int)[j]));
                }
            }
        }
        if next > 0xffff {
            proof {
                lemma_decimal_grows(digits@, i + 1);
            }
            return None;
        }
        value = next;
        i = i + 1;
    }
    assert(digits@.take(i as int) =~= digits@);
    Some(value as u16)
}

/// Reads a bind range: the host, the low port and the high port.
pub fn parse_bind_range<'a>(text: &'a [char]) -> (r: Result<(&'a [char], u16, u16), ConfigError>)
    ensures
        match r {
            Ok((host, low, high)) => bind_range_of(text@) == Ok::<_, ConfigError>(
                (host@, low, high),
            ),
            Err(e) => bind_range_of(text@) == Err::<(Seq<char>, u16, u16), _>(e),
        },
{
    let (host, rest) = split_first(text, ':');
    let rest = match rest {
        Some(rest) => rest,
        None => {
            return Err(ConfigError::PortsMissing);
        },
    };
    let (ports, _) = split_first(rest, ':');
    let (low_text, after) = split_first(ports, '-');
    let low = match parse_port(trimmed(low_text)) {
        Some(low) => low,
        None => {
            return Err(ConfigError::LowPortInvalid);
        },
    };
    let after = match after {
        Some(after) => after,
        None => {
            return Err(ConfigError::HighPortMissing);
        },
    };
    let (high_text, _) = split_first(after, '-');
    match parse_port(trimmed(high_text)) {
        Some(high) => Ok((host, low, high)),
        None => Err(ConfigError::HighPortInvalid),
    }
}

} // verus!
