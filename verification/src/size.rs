//! The size grammar: a decimal byte count, optionally followed by one unit
//! letter (`k`, `m` or `g`, in either case) that scales it by a power of 1024.

use vstd::prelude::*;
use crate::decimal::{
    all_digits, decimal_text, decimal_value, is_digit, lemma_decimal_round_trip,
    lemma_decimal_value_prefix,
};
use crate::text::chars_of;

verus! {

/// The unit that a size may end in.
#[derive(Debug, Clone, Copy, PartialEq, Eq, Structural)]
pub enum SizeUnit {
    /// 1024 bytes.
    Kilobyte,
    /// 1024 kilobytes.
    Megabyte,
    /// 1024 megabytes.
    Gigabyte,
}

/// Why a text is not a size.
#[derive(Debug, Clone, Copy, PartialEq, Eq, Structural)]
pub enum SizeError {
    /// There is nothing in front of the unit, or nothing at all.
    Empty,
    /// A character of the number is not a decimal digit.
    InvalidDigit,
    /// The number itself does not fit in 64 bits.
    NumberTooLarge,
    /// The number fits, but scaled by its unit it does not.
    SizeTooLarge,
}

/// The unit that the letter `c` stands for, if any.
pub open spec fn unit_of(c: char) -> Option<SizeUnit> {
    if c == 'k' || c == 'K' {
        Some(SizeUnit::Kilobyte)
    } else if c == 'm' || c == 'M' {
        Some(SizeUnit::Megabyte)
    } else if c == 'g' || c == 'G' {
        Some(SizeUnit::Gigabyte)
    } else {
        None
    }
}

/// The unit that `s` ends in, if it ends in one.
pub open spec fn unit_suffix(s: Seq<char>) -> Option<SizeUnit> {
    if s.len() == 0 {
        None
    } else {
        unit_of(s.last())
    }
}

/// The number of bytes in one `unit`; without a unit, one.
pub open spec fn multiplier(unit: Option<SizeUnit>) -> nat {
    match unit {
        None => 1,
        Some(SizeUnit::Kilobyte) => 1024,
        Some(SizeUnit::Megabyte) => 1024 * 1024,
        Some(SizeUnit::Gigabyte) => 1024 * 1024 * 1024,
    }
}

/// What stands in front of the unit: all of `s` when it ends in none.
pub open spec fn number_part(s: Seq<char>) -> Seq<char> {
    if unit_suffix(s) is Some {
        s.drop_last()
    } else {
        s
    }
}

/// The number without its sign: one leading `+` is allowed when something
/// follows it.
pub open spec fn unsigned_part(s: Seq<char>) -> Seq<char> {
    if s.len() > 1 && s[0] == '+' {
        s.skip(1)
    } else {
        s
    }
}

/// Whether some leading run of digits of `t` already denotes more than
/// 64 bits hold.
pub open spec fn exceeds_range(t: Seq<char>) -> bool {
    exists|k: int|
        0 <= k <= t.len() && all_digits(#[trigger] t.take(k)) && decimal_value(t.take(k))
            > u64::MAX
}

/// The value of a number, or the reason it has none. Reading from the left,
/// the first character that is no digit and the first digit that takes the
/// value out of range compete: whichever comes first decides the error.
pub open spec fn parse_number(s: Seq<char>) -> Result<u64, SizeError> {
    let t = unsigned_part(s);
    if s.len() == 0 {
        Err(SizeError::Empty)
    } else if all_digits(t) && decimal_value(t) <= u64::MAX {
        Ok(decimal_value(t) as u64)
    } else if exceeds_range(t) {
        Err(SizeError::NumberTooLarge)
    } else {
        Err(SizeError::InvalidDigit)
    }
}

/// The number of bytes that the size `s` denotes, or the reason it denotes
/// none.
pub open spec fn parse_size_spec(s: Seq<char>) -> Result<u64, SizeError> {
    match parse_number(number_part(s)) {
        Err(e) => Err(e),
        Ok(n) => if n * multiplier(unit_suffix(s)) <= u64::MAX {
            Ok((n * multiplier(unit_suffix(s))) as u64)
        } else {
            Err(SizeError::SizeTooLarge)
        },
    }
}

/// Whether `s` is a number in the sense of the grammar: something stands in
/// front of the unit, and after at most one `+` all of it is digits.
pub open spec fn is_numeric(s: Seq<char>) -> bool {
    number_part(s).len() > 0 && all_digits(unsigned_part(number_part(s)))
}

/// The number of `s` times the multiplier of its unit, as a mathematical
/// integer.
pub open spec fn scaled_value(s: Seq<char>) -> nat {
    decimal_value(unsigned_part(number_part(s))) * multiplier(unit_suffix(s))
}

/// A size is accepted exactly when it is a number whose scaled value fits in
/// 64 bits, and then it denotes that value. Text that is no number is
/// rejected, and so is a number that is too large: with a unit whose product
/// overflows the error is `SizeTooLarge`, never a wrapped value.
pub proof fn lemma_parse_size_accepts(s: Seq<char>)
    ensures
        parse_size_spec(s) is Ok <==> is_numeric(s) && scaled_value(s) <= u64::MAX,
        parse_size_spec(s) is Ok ==> parse_size_spec(s)->Ok_0 == scaled_value(s),
        !is_numeric(s) ==> parse_size_spec(s) is Err,
        is_numeric(s) && scaled_value(s) > u64::MAX ==> parse_size_spec(s) == Err::<u64, SizeError>(
            if decimal_value(unsigned_part(number_part(s))) > u64::MAX {
                SizeError::NumberTooLarge
            } else {
                SizeError::SizeTooLarge
            },
        ),
{
    let t = unsigned_part(number_part(s));
    let v = decimal_value(t);
    let m = multiplier(unit_suffix(s));
    assert(v <= v * m) by (nonlinear_arith)
        requires
            m >= 1,
    ;
    if all_digits(t) && v > u64::MAX {
        assert(t.take(t.len() as int) =~= t);
    }
}

/// A non-empty run of digits without a unit denotes its decimal value.
pub proof fn lemma_parse_size_plain(digits: Seq<char>)
    requires
        digits.len() > 0,
        all_digits(digits),
    ensures
        parse_size_spec(digits) == (if decimal_value(digits) <= u64::MAX {
            Ok::<u64, SizeError>(decimal_value(digits) as u64)
        } else {
            Err::<u64, SizeError>(SizeError::NumberTooLarge)
        }),
{
    assert(is_digit(digits.last()));
    assert(is_digit(digits[0]));
    assert(digits.take(digits.len() as int) =~= digits);
}

/// A non-empty run of digits followed by a unit letter denotes its decimal
/// value times the unit's power of 1024, where that fits in 64 bits, and is
/// an error where it does not.
pub proof fn lemma_parse_size_with_unit(digits: Seq<char>, letter: char)
    requires
        digits.len() > 0,
        all_digits(digits),
        unit_of(letter) is Some,
    ensures
        parse_size_spec(digits.push(letter)) == (if decimal_value(digits) * multiplier(
            unit_of(letter),
        ) <= u64::MAX {
            Ok::<u64, SizeError>((decimal_value(digits) * multiplier(unit_of(letter))) as u64)
        } else if decimal_value(digits) > u64::MAX {
            Err::<u64, SizeError>(SizeError::NumberTooLarge)
        } else {
            Err::<u64, SizeError>(SizeError::SizeTooLarge)
        }),
{
    let s = digits.push(letter);
    let v = decimal_value(digits);
    let m = multiplier(unit_of(letter));
    assert(v <= v * m) by (nonlinear_arith)
        requires
            m >= 1,
    ;
    assert(s.last() == letter);
    assert(s.drop_last() =~= digits);
    assert(is_digit(digits[0]));
    assert(digits.take(digits.len() as int) =~= digits);
}

/// Every 64-bit size written in decimal is read back as itself.
pub proof fn lemma_parse_size_reads_decimal(n: u64)
    ensures
        parse_size_spec(decimal_text(n as nat)) == Ok::<u64, SizeError>(n),
{
    lemma_decimal_round_trip(n as nat);
    lemma_parse_size_plain(decimal_text(n as nat));
}

fn unit_for(c: char) -> (unit: Option<SizeUnit>)
    ensures
        unit == unit_of(c),
{
    if c == 'k' || c == 'K' {
        Some(SizeUnit::Kilobyte)
    } else if c == 'm' || c == 'M' {
        Some(SizeUnit::Megabyte)
    } else if c == 'g' || c == 'G' {
        Some(SizeUnit::Gigabyte)
    } else {
        None
    }
}

fn bytes_per(unit: Option<SizeUnit>) -> (m: u64)
    ensures
        m == multiplier(unit),
{
    match unit {
        None => 1,
        Some(SizeUnit::Kilobyte) => 1024,
        Some(SizeUnit::Megabyte) => 1024 * 1024,
        Some(SizeUnit::Gigabyte) => 1024 * 1024 * 1024,
    }
}

/// Reads the number that the first `end` characters hold.
fn read_number(chars: &Vec<char>, end: usize) -> (r: Result<u64, SizeError>)
    requires
        end <= chars.len(),
    ensures
        r == parse_number(chars@.take(end as int)),
{
    if end == 0 {
        return Err(SizeError::Empty);
    }
    let start: usize = if end > 1 && chars[0] == '+' {
        1
    } else {
        0
    };
    let ghost t = chars@.subrange(start as int, end as int);
    assert(t =~= unsigned_part(chars@.take(end as int)));
    let mut acc: u64 = 0;
    let mut i: usize = start;
    assert(t.take(0) =~= Seq::<char>::empty());
    while i < end
        invariant
            start <= i <= end <= chars.len(),
            0 < end,
            t == chars@.subrange(start as int, end as int),
            t == unsigned_part(chars@.take(end as int)),
            all_digits(t.take(i - start)),
            acc == decimal_value(t.take(i - start)),
        decreases end - i,
    {
        let c = chars[i];
        let ghost k = i - start;
        assert(t[k] == c);
        if !(c >= '0' && c <= '9') {
            proof {
                assert(!is_digit(t[k]));
                assert forall|j: int|
                    0 <= j <= t.len() && all_digits(#[trigger] t.take(j)) implies decimal_value(
                    t.take(j),
                ) <= u64::MAX by {
                    if j > k {
                        assert(t.take(j)[k] == t[k]);
                    }
                    lemma_decimal_value_prefix(t, j, k);
                }
            }
            return Err(SizeError::InvalidDigit);
        }
        let d: u64 = (c as u64) - 48;
        proof {
            assert(t.take(k + 1).drop_last() =~= t.take(k));
            assert(t.take(k + 1).last() == c);
            assert(decimal_value(t.take(k + 1)) == acc * 10 + d);
            assert forall|j: int| 0 <= j < k + 1 implies is_digit(#[trigger] t.take(k + 1)[j]) by {
                if j < k {
                    assert(t.take(k)[j] == t[j]);
                }
            }
            if acc * 10 + d > u64::MAX {
                if all_digits(t) {
                    lemma_decimal_value_prefix(t, k + 1, t.len() as int);
                    assert(t.take(t.len() as int) =~= t);
                }
            }
        }
        let scaled = match acc.checked_mul(10) {
            Some(v) => v,
            None => {
                return Err(SizeError::NumberTooLarge);
            },
        };
        acc = match scaled.checked_add(d) {
            Some(v) => v,
            None => {
                return Err(SizeError::NumberTooLarge);
            },
        };
        i += 1;
    }
    assert(t.take(t.len() as int) =~= t);
    Ok(acc)
}

/// Parses a size: a decimal number of bytes, or of the unit whose letter
/// follows it.
///
/// `Ok` comes exactly for a non-empty run of digits, after at most one `+`,
/// whose value times the unit's multiplier fits in 64 bits, and holds that
/// product. Anything else is an error; no product ever wraps.
pub fn parse_size(input: &str) -> (r: Result<u64, SizeError>)
    ensures
        r == parse_size_spec(input@),
{
    let chars = chars_of(input);
    let n = chars.len();
    let unit = if n == 0 {
        None
    } else {
        unit_for(chars[n - 1])
    };
    let end: usize = if unit.is_some() {
        n - 1
    } else {
        n
    };
    assert(chars@.take(end as int) =~= number_part(input@));
    match read_number(&chars, end) {
        Err(e) => Err(e),
        Ok(number) => match number.checked_mul(bytes_per(unit)) {
            Some(bytes) => Ok(bytes),
            None => Err(SizeError::SizeTooLarge),
        },
    }
}

} // verus!
