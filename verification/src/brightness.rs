//! The brightness value type and its parsing.
//!
//! A brightness is a bounded non-negative integer on a device-defined scale.
//! It can be parsed from plain decimal text, from a percentage-suffixed string
//! relative to a device maximum, or from the raw contents of a device counter
//! (decimal text with surrounding whitespace).

use vstd::prelude::*;

verus! {

/// The failures the library distinguishes.
///
/// Parsing produces `ParseError` and `InvalidPercentage`; the remaining
/// variants classify the I/O failures that the surrounding program maps
/// onto this taxonomy when it reports a run.
#[derive(Debug, Clone, Copy, PartialEq, Eq, Structural)]
pub enum DimmerError {
    /// A percentage-suffixed value lies outside the range 0 to 100.
    InvalidPercentage,
    /// Text that should hold a non-negative decimal integer does not,
    /// or the value does not fit the brightness range.
    ParseError,
    /// A device counter could not be read.
    IoError,
    /// Device enumeration itself failed.
    DiscoveryError,
    /// A device's writable counter could not be written during ramping.
    WriteError,
}

/// A brightness value: a non-negative integer on a device-defined scale.
#[derive(Debug, Clone, Copy, PartialEq, Eq, Structural)]
pub struct Brightness(pub u64);

/// A decimal digit.
pub open spec fn is_digit(c: char) -> bool {
    '0' <= c && c <= '9'
}

/// The numeric value of a decimal digit; zero on any other character.
pub open spec fn digit_value(c: char) -> nat {
    if is_digit(c) {
        (c as nat - '0' as nat) as nat
    } else {
        0
    }
}

/// Every character of `s` is a decimal digit.
pub open spec fn all_digits(s: Seq<char>) -> bool {
    forall|i: int| 0 <= i < s.len() ==> is_digit(#[trigger] s[i])
}

/// The number that the digit string `s` denotes in decimal.
pub open spec fn dec_value(s: Seq<char>) -> nat
    decreases s.len(),
{
    if s.len() == 0 {
        0
    } else {
        dec_value(s.drop_last()) * 10 + digit_value(s.last())
    }
}

/// `s` is a well-formed decimal numeral: non-empty and all digits.
pub open spec fn is_dec_string(s: Seq<char>) -> bool {
    s.len() > 0 && all_digits(s)
}

/// `s` denotes a number that a brightness value can hold.
pub open spec fn parses_to_u64(s: Seq<char>) -> bool {
    is_dec_string(s) && dec_value(s) <= u64::MAX
}

/// The whole-unit part of `p` percent of `max`: rounding is toward zero.
pub open spec fn percent_of(p: nat, max: nat) -> nat {
    (p * max) / 100
}

/// A percentage of at most 100 never exceeds the maximum it is taken of.
pub proof fn lemma_percent_of_bounded(p: nat, max: nat)
    requires
        p <= 100,
    ensures
        percent_of(p, max) <= max,
{
    vstd::arithmetic::mul::lemma_mul_inequality(p as int, 100, max as int);
    vstd::arithmetic::div_mod::lemma_div_is_ordered(p as int * max as int, 100 * max as int, 100);
    vstd::arithmetic::div_mod::lemma_div_multiples_vanish(max as int, 100);
}

/// Computes `p` percent of `max`, rounded toward zero.
pub(crate) fn percent_value(p: u64, max: u64) -> (r: u64)
    requires
        p <= 100,
    ensures
        r == percent_of(p as nat, max as nat),
        r <= max,
{
    proof {
        lemma_percent_of_bounded(p as nat, max as nat);
    }
    (((p as u128) * (max as u128)) / 100) as u64
}

/// A character that surrounding-whitespace trimming removes: the Unicode
/// characters with the White_Space property, the same set that std's string
/// trimming removes. Spelled out: tab, line feed, vertical tab, form feed,
/// carriage return, space, next line, no-break space, ogham space mark, the
/// en-quad-through-hair-space block, line separator, paragraph separator,
/// narrow no-break space, medium mathematical space, ideographic space.
pub open spec fn is_space(c: char) -> bool {
    c == '\u{0009}' || c == '\u{000A}' || c == '\u{000B}' || c == '\u{000C}' || c == '\u{000D}'
        || c == '\u{0020}' || c == '\u{0085}' || c == '\u{00A0}' || c == '\u{1680}' || ('\u{2000}'
        <= c && c <= '\u{200A}') || c == '\u{2028}' || c == '\u{2029}' || c == '\u{202F}' || c
        == '\u{205F}' || c == '\u{3000}'
}

/// `s` without its leading whitespace.
pub open spec fn trim_start_spec(s: Seq<char>) -> Seq<char>
    decreases s.len(),
{
    if s.len() > 0 && is_space(s[0]) {
        trim_start_spec(s.drop_first())
    } else {
        s
    }
}

/// `s` without its trailing whitespace.
pub open spec fn trim_end_spec(s: Seq<char>) -> Seq<char>
    decreases s.len(),
{
    if s.len() > 0 && is_space(s.last()) {
        trim_end_spec(s.drop_last())
    } else {
        s
    }
}

/// `s` without its surrounding whitespace.
pub open spec fn trim_spec(s: Seq<char>) -> Seq<char> {
    trim_end_spec(trim_start_spec(s))
}

fn is_space_char(c: char) -> (r: bool)
    ensures
        r == is_space(c),
{
    c == '\u{0009}' || c == '\u{000A}' || c == '\u{000B}' || c == '\u{000C}' || c == '\u{000D}'
        || c == '\u{0020}' || c == '\u{0085}' || c == '\u{00A0}' || c == '\u{1680}' || ('\u{2000}'
        <= c && c <= '\u{200A}') || c == '\u{2028}' || c == '\u{2029}' || c == '\u{202F}' || c
        == '\u{205F}' || c == '\u{3000}'
}

/// A longer digit prefix never denotes a smaller number.
proof fn lemma_dec_value_prefix(s: Seq<char>, i: int)
    requires
        0 <= i <= s.len(),
    ensures
        dec_value(s.subrange(0, i)) <= dec_value(s),
    decreases s.len() - i,
{
    if i < s.len() {
        assert(s.subrange(0, i + 1).drop_last() =~= s.subrange(0, i));
        assert(s.subrange(0, i + 1).last() == s[i]);
        lemma_dec_value_prefix(s, i + 1);
    } else {
        assert(s.subrange(0, i) =~= s);
    }
}

/// Parses a non-empty string of decimal digits into a `u64`.
fn parse_u64_str(input: &str) -> (r: Result<u64, DimmerError>)
    ensures
        parses_to_u64(input@) ==> r == Ok::<u64, DimmerError>(dec_value(input@) as u64),
        !parses_to_u64(input@) ==> r == Err::<u64, DimmerError>(DimmerError::ParseError),
{
    let len = input.unicode_len();
    if len == 0 {
        return Err(DimmerError::ParseError);
    }
    let mut acc: u64 = 0;
    let mut i: usize = 0;
    while i < len
        invariant
            0 <= i <= len,
            len == input@.len(),
            all_digits(input@.subrange(0, i as int)),
            acc == dec_value(input@.subrange(0, i as int)),
        decreases len - i,
    {
        let c = input.get_char(i);
        if !('0' <= c && c <= '9') {
            assert(!is_digit(input@[i as int]));
            return Err(DimmerError::ParseError);
        }
        let d: u64 = (c as u32 as u64) - 48;
        let wide: u128 = (acc as u128) * 10 + (d as u128);
        proof {
            assert(input@.subrange(0, i + 1).drop_last() =~= input@.subrange(0, i as int));
            assert(input@.subrange(0, i + 1).last() == input@[i as int]);
        }
        if wide > u64::MAX as u128 {
            proof {
                lemma_dec_value_prefix(input@, i + 1);
            }
            return Err(DimmerError::ParseError);
        }
        acc = wide as u64;
        i = i + 1;
    }
    proof {
        assert(input@.subrange(0, len as int) =~= input@);
    }
    Ok(acc)
}

/// What parsing a possibly percentage-suffixed string yields.
///
/// A percent marker at the end makes the prefix a percentage of `max`,
/// rejected with `InvalidPercentage` above 100; without the marker the
/// whole string is an absolute decimal value.
pub open spec fn spec_parse_with_percentage(s: Seq<char>, max: u64) -> Result<
    Brightness,
    DimmerError,
> {
    if s.len() > 0 && s.last() == '%' {
        let digits = s.drop_last();
        if !parses_to_u64(digits) {
            Err(DimmerError::ParseError)
        } else if dec_value(digits) > 100 {
            Err(DimmerError::InvalidPercentage)
        } else {
            Ok(Brightness(percent_of(dec_value(digits), max as nat) as u64))
        }
    } else {
        if parses_to_u64(s) {
            Ok(Brightness(dec_value(s) as u64))
        } else {
            Err(DimmerError::ParseError)
        }
    }
}

impl Brightness {
    /// Parses a decimal string into a brightness.
    ///
    /// Fails with `ParseError` if the string is not a non-negative decimal
    /// integer that fits the brightness range.
    pub fn parse_absolute(input: &str) -> (r: Result<Brightness, DimmerError>)
        ensures
            parses_to_u64(input@) ==> r == Ok::<Brightness, DimmerError>(
                Brightness(dec_value(input@) as u64),
            ),
            !parses_to_u64(input@) ==> r == Err::<Brightness, DimmerError>(
                DimmerError::ParseError,
            ),
    {
        match parse_u64_str(input) {
            Ok(v) => Ok(Brightness(v)),
            Err(e) => Err(e),
        }
    }

    /// Parses a string that may carry a percent suffix, relative to `max`.
    ///
    /// `"50%"` with a maximum of 200 gives 100; a percentage above 100 fails
    /// with `InvalidPercentage`; a plain decimal string is absolute and is not
    /// clamped here.
    pub fn parse_with_percentage(input: &str, max: Brightness) -> (r: Result<
        Brightness,
        DimmerError,
    >)
        ensures
            r == spec_parse_with_percentage(input@, max.0),
    {
        let len = input.unicode_len();
        if len > 0 && input.get_char(len - 1) == '%' {
            let digits = input.substring_char(0, len - 1);
            proof {
                assert(digits@ =~= input@.drop_last());
            }
            match parse_u64_str(digits) {
                Ok(p) => {
                    if p > 100 {
                        Err(DimmerError::InvalidPercentage)
                    } else {
                        Ok(Brightness(percent_value(p, max.0)))
                    }
                },
                Err(e) => Err(e),
            }
        } else {
            match parse_u64_str(input) {
                Ok(v) => Ok(Brightness(v)),
                Err(e) => Err(e),
            }
        }
    }

    /// Parses the raw contents of a device counter: decimal text surrounded
    /// by optional whitespace.
    pub fn from_counter_text(input: &str) -> (r: Result<Brightness, DimmerError>)
        ensures
            parses_to_u64(trim_spec(input@)) ==> r == Ok::<Brightness, DimmerError>(
                Brightness(dec_value(trim_spec(input@)) as u64),
            ),
            !parses_to_u64(trim_spec(input@)) ==> r == Err::<Brightness, DimmerError>(
                DimmerError::ParseError,
            ),
    {
        let len = input.unicode_len();
        proof {
            assert(input@.subrange(0, len as int) =~= input@);
        }
        let mut start: usize = 0;
        while start < len && is_space_char(input.get_char(start))
            invariant
                0 <= start <= len,
                len == input@.len(),
                trim_start_spec(input@) == trim_start_spec(
                    input@.subrange(start as int, len as int),
                ),
            decreases len - start,
        {
            proof {
                let tail = input@.subrange(start as int, len as int);
                assert(tail[0] == input@[start as int]);
                assert(tail.drop_first() =~= input@.subrange(start as int + 1, len as int));
            }
            start = start + 1;
        }
        proof {
            let tail = input@.subrange(start as int, len as int);
            assert(trim_start_spec(tail) == tail);
        }
        let mut end: usize = len;
        while end > start && is_space_char(input.get_char(end - 1))
            invariant
                start <= end <= len,
                len == input@.len(),
                trim_spec(input@) == trim_end_spec(input@.subrange(start as int, end as int)),
            decreases end,
        {
            proof {
                let head = input@.subrange(start as int, end as int);
                assert(head.last() == input@[end - 1]);
                assert(head.drop_last() =~= input@.subrange(start as int, end as int - 1));
            }
            end = end - 1;
        }
        proof {
            let core = input@.subrange(start as int, end as int);
            assert(trim_end_spec(core) == core);
        }
        let trimmed = input.substring_char(start, end);
        match parse_u64_str(trimmed) {
            Ok(v) => Ok(Brightness(v)),
            Err(e) => Err(e),
        }
    }
}

} // verus!
