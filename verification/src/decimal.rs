//! Decimal numbers.

use vstd::prelude::*;

use crate::text::{chars_of, string_of};

verus! {

/// The decimal digits of a number, without leading zeros.
pub open spec fn digits(n: nat) -> Seq<char>
    decreases n,
{
    if n < 10 {
        seq![digit(n)]
    } else {
        digits(n / 10).push(digit(n % 10))
    }
}

/// The character of one decimal digit.
pub open spec fn digit(n: nat) -> char {
    ('0' as u8 + n) as char
}

/// A decimal digit.
pub open spec fn is_digit(c: char) -> bool {
    '0' <= c && c <= '9'
}

/// The number that a string of decimal digits writes.
pub open spec fn value(s: Seq<char>) -> nat
    decreases s.len(),
{
    if s.len() == 0 {
        0
    } else {
        value(s.drop_last()) * 10 + (s.last() as nat - '0' as nat) as nat
    }
}

/// The text is a number: one digit or more, with at most one plus sign in front.
pub open spec fn is_number(s: Seq<char>) -> bool {
    let body = number_body(s);
    body.len() > 0 && forall|i: int| 0 <= i < body.len() ==> is_digit(#[trigger] body[i])
}

/// The digits of a number, without its plus sign.
pub open spec fn number_body(s: Seq<char>) -> Seq<char> {
    if s.len() > 0 && s[0] == '+' {
        s.drop_first()
    } else {
        s
    }
}

/// The number that a text writes, if it is one that does not exceed `max`.
pub open spec fn parsed(s: Seq<char>, max: nat) -> Option<nat> {
    if is_number(s) && value(number_body(s)) <= max {
        Some(value(number_body(s)))
    } else {
        None
    }
}

/// Writing a number down and reading it gives the number back.
pub proof fn reading_undoes_writing(n: nat, max: nat)
    requires
        n <= max,
    ensures
        parsed(digits(n), max) == Some(n),
{
    digits_are_digits(n);
    assert(is_digit(digits(n)[0]));
    assert(number_body(digits(n)) == digits(n));
}

proof fn digits_are_digits(n: nat)
    ensures
        digits(n).len() > 0,
        forall|i: int| 0 <= i < digits(n).len() ==> is_digit(#[trigger] digits(n)[i]),
        value(digits(n)) == n,
    decreases n,
{
    if n < 10 {
        assert(digits(n).drop_last() =~= Seq::empty());
        assert(value(digits(n).drop_last()) == 0);
        assert(digits(n).last() == digit(n));
    } else {
        digits_are_digits(n / 10);
        assert(digits(n).drop_last() =~= digits(n / 10));
        assert(digits(n).last() == digit(n % 10));
    }
}

/// Writes a number in decimal.
pub fn decimal(n: u64) -> (result: String)
    ensures
        result@ == digits(n as nat),
{
    let chars = decimal_chars(n);
    string_of(&chars)
}

fn decimal_chars(n: u64) -> (result: Vec<char>)
    ensures
        result@ == digits(n as nat),
    decreases n,
{
    let mut result: Vec<char> = if n < 10 {
        Vec::new()
    } else {
        decimal_chars(n / 10)
    };
    let last: u8 = (n % 10) as u8;
    result.push((48 + last) as char);
    assert(result@ =~= digits(n as nat));
    result
}

/// Writes a signed number in decimal.
pub open spec fn signed_digits(n: int) -> Seq<char> {
    if n < 0 {
        seq!['-'] + digits((-n) as nat)
    } else {
        digits(n as nat)
    }
}

/// Writes a signed number in decimal.
pub fn signed_decimal(n: i64) -> (result: String)
    ensures
        result@ == signed_digits(n as int),
{
    if n >= 0 {
        return decimal(n as u64);
    }
    let magnitude: u64 = if n == i64::MIN {
        9_223_372_036_854_775_808
    } else {
        (-n) as u64
    };
    let mut chars: Vec<char> = Vec::new();
    chars.push('-');
    let mut rest = decimal_chars(magnitude);
    chars.append(&mut rest);
    assert(chars@ =~= signed_digits(n as int));
    string_of(&chars)
}

proof fn value_grows(s: Seq<char>, i: int)
    requires
        0 <= i <= s.len(),
        forall|k: int| 0 <= k < s.len() ==> is_digit(#[trigger] s[k]),
    ensures
        value(s.take(i)) <= value(s),
    decreases s.len(),
{
    if i < s.len() {
        value_grows(s.drop_last(), i);
        assert(s.drop_last().take(i) =~= s.take(i));
        assert(is_digit(s.last()));
    } else {
        assert(s.take(i) =~= s);
    }
}

/// Reads a number of at most 64 bits.
pub fn parse_u64(s: &str) -> (result: Option<u64>)
    ensures
        match result {
            Some(n) => parsed(s@, u64::MAX as nat) == Some(n as nat),
            None => parsed(s@, u64::MAX as nat) is None,
        },
{
    let chars = chars_of(s);
    let start: usize = if chars.len() > 0 && chars[0] == '+' {
        1
    } else {
        0
    };
    let ghost body = number_body(s@);
    assert(body =~= chars@.skip(start as int));
    if chars.len() == start {
        return None;
    }
    let mut i: usize = start;
    let mut total: u64 = 0;
    assert(body.take(0).len() == 0);
    while i < chars.len()
        invariant
            start <= i <= chars.len(),
            start <= 1,
            chars@ == s@,
            body == number_body(s@),
            body == chars@.skip(start as int),
            body.len() > 0,
            total == value(body.take(i - start)),
            forall|k: int| 0 <= k < i - start ==> is_digit(#[trigger] body[k]),
        decreases chars.len() - i,
    {
        let c = chars[i];
        assert(body[i - start] == c);
        if !('0' <= c && c <= '9') {
            assert(!is_digit(body[i - start]));
            return None;
        }
        let d: u64 = c as u64 - 48;
        assert(body.take(i - start + 1).drop_last() =~= body.take(i - start));
        let ghost next = value(body.take(i - start + 1));
        assert(next == total * 10 + d);
        if total > (u64::MAX - d) / 10 {
            proof {
                assert(total * 10 + d > u64::MAX);
                if is_number(s@) {
                    value_grows(body, i - start + 1);
                }
            }
            return None;
        }
        total = total * 10 + d;
        i += 1;
    }
    assert(body.take(i - start) =~= body);
    Some(total)
}

/// What is wrong with a text that should be a number.
#[derive(Clone, Copy, PartialEq, Eq, Structural, Debug)]
pub enum NumberFault {
    Empty,
    InvalidDigit,
    TooLarge,
}

/// The first thing wrong with a string of digits, read from the front.
pub open spec fn digit_fault(body: Seq<char>, max: nat) -> Option<NumberFault>
    decreases body.len(),
{
    if body.len() == 0 {
        None
    } else {
        match digit_fault(body.drop_last(), max) {
            Some(fault) => Some(fault),
            None => if !is_digit(body.last()) {
                Some(NumberFault::InvalidDigit)
            } else if value(body) > max {
                Some(NumberFault::TooLarge)
            } else {
                None
            },
        }
    }
}

/// The first thing wrong with a text that should be a number.
pub open spec fn number_fault(s: Seq<char>, max: nat) -> Option<NumberFault> {
    if s.len() == 0 {
        Some(NumberFault::Empty)
    } else if number_body(s).len() == 0 {
        Some(NumberFault::InvalidDigit)
    } else {
        digit_fault(number_body(s), max)
    }
}

proof fn first_fault_stays(body: Seq<char>, max: nat, n: int)
    requires
        0 <= n <= body.len(),
        digit_fault(body.take(n), max) is Some,
    ensures
        digit_fault(body, max) == digit_fault(body.take(n), max),
    decreases body.len(),
{
    if n == body.len() {
        assert(body.take(n) =~= body);
    } else {
        assert(body.drop_last().take(n) =~= body.take(n));
        first_fault_stays(body.drop_last(), max, n);
    }
}

proof fn digits_without_fault(body: Seq<char>, max: nat)
    requires
        forall|i: int| 0 <= i < body.len() ==> is_digit(#[trigger] body[i]),
        value(body) <= max,
    ensures
        digit_fault(body, max) is None,
    decreases body.len(),
{
    if body.len() > 0 {
        let rest = body.drop_last();
        assert forall|i: int| 0 <= i < rest.len() implies is_digit(#[trigger] rest[i]) by {
            assert(is_digit(body[i]));
        }
        assert(is_digit(body[body.len() - 1]));
        digits_without_fault(rest, max);
    }
}

/// A number that was written down is read without fault, and read as itself.
pub proof fn digits_have_no_fault(n: nat, max: nat)
    requires
        n <= max,
    ensures
        number_fault(digits(n), max) is None,
        value(number_body(digits(n))) == n,
{
    digits_are_digits(n);
    assert(is_digit(digits(n)[0]));
    assert(number_body(digits(n)) == digits(n));
    digits_without_fault(digits(n), max);
}

/// Reads a number of at most 32 bits, or says what is wrong with the text first.
pub fn parse_u32(s: &str) -> (result: Result<u32, NumberFault>)
    ensures
        match result {
            Ok(n) => number_fault(s@, u32::MAX as nat) is None && n == value(number_body(s@)),
            Err(fault) => number_fault(s@, u32::MAX as nat) == Some(fault),
        },
{
    let chars = chars_of(s);
    if chars.len() == 0 {
        return Err(NumberFault::Empty);
    }
    let start: usize = if chars[0] == '+' {
        1
    } else {
        0
    };
    let ghost body = number_body(s@);
    assert(body =~= chars@.skip(start as int));
    if chars.len() == start {
        return Err(NumberFault::InvalidDigit);
    }
    let mut i: usize = start;
    let mut total: u32 = 0;
    assert(body.take(0).len() == 0);
    while i < chars.len()
        invariant
            start <= i <= chars.len(),
            start <= 1,
            chars@ == s@,
            s@.len() > 0,
            body == number_body(s@),
            body == chars@.skip(start as int),
            body.len() > 0,
            total == value(body.take(i - start)),
            digit_fault(body.take(i - start), u32::MAX as nat) is None,
        decreases chars.len() - i,
    {
        let c = chars[i];
        let ghost n = i - start + 1;
        assert(body[i - start] == c);
        assert(body.take(n).drop_last() =~= body.take(n - 1));
        assert(body.take(n).last() == c);
        if !('0' <= c && c <= '9') {
            proof {
                first_fault_stays(body, u32::MAX as nat, n);
            }
            return Err(NumberFault::InvalidDigit);
        }
        let d: u64 = c as u64 - 48;
        let next: u64 = (total as u64) * 10 + d;
        assert(value(body.take(n)) == next);
        if next > u32::MAX as u64 {
            proof {
                first_fault_stays(body, u32::MAX as nat, n);
            }
            return Err(NumberFault::TooLarge);
        }
        total = next as u32;
        i += 1;
    }
    assert(body.take(i - start) =~= body);
    Ok(total)
}

/// What is wrong, in words.
pub open spec fn fault_words(fault: NumberFault) -> Seq<char> {
    match fault {
        NumberFault::Empty => "cannot parse integer from empty string"@,
        NumberFault::InvalidDigit => "invalid digit found in string"@,
        NumberFault::TooLarge => "number too large to fit in target type"@,
    }
}

impl NumberFault {
    /// What is wrong, in words.
    pub fn words(self) -> (result: &'static str)
        ensures
            result@ == fault_words(self),
    {
        match self {
            NumberFault::Empty => "cannot parse integer from empty string",
            NumberFault::InvalidDigit => "invalid digit found in string",
            NumberFault::TooLarge => "number too large to fit in target type",
        }
    }
}

/// Reads a number of the machine's word size.
pub fn parse_usize(s: &str) -> (result: Option<usize>)
    ensures
        match result {
            Some(n) => parsed(s@, usize::MAX as nat) == Some(n as nat),
            None => parsed(s@, usize::MAX as nat) is None,
        },
{
    match parse_u64(s) {
        Some(n) => {
            if n <= usize::MAX as u64 {
                Some(n as usize)
            } else {
                None
            }
        },
        None => None,
    }
}

/// A number can be read exactly if nothing is wrong with it.
pub proof fn what_has_no_fault_is_a_number(s: Seq<char>, max: nat)
    ensures
        number_fault(s, max) is None <==> parsed(s, max) is Some,
{
    let body = number_body(s);
    faults_are_in_the_body(body, max);
    assert(s.len() == 0 ==> body.len() == 0);
}

proof fn faults_are_in_the_body(body: Seq<char>, max: nat)
    ensures
        body.len() > 0 ==> (digit_fault(body, max) is None <==> value(body) <= max && forall|i: int|
            0 <= i < body.len() ==> is_digit(#[trigger] body[i])),
        body.len() == 0 ==> digit_fault(body, max) is None,
    decreases body.len(),
{
    if body.len() > 0 {
        let front = body.drop_last();
        faults_are_in_the_body(front, max);
        assert(forall|i: int| 0 <= i < front.len() ==> front[i] == #[trigger] body[i]);
        assert(body[body.len() - 1] == body.last());
        assert(forall|i: int| 0 <= i < front.len() ==> #[trigger] front[i] == body[i]);
        assert(value(front) * 10 >= value(front));
    }
}

/// Each further digit counts once what stands before it ten times; what is written starts
/// with nought only for nought, and a number below nought is written with a sign.
pub proof fn digits_count_by_their_place(s: Seq<char>, c: char, n: nat)
    requires
        is_digit(c),
    ensures
        value(s.push(c)) == 10 * value(s) + (c as int - 48),
        value(Seq::empty()) == 0,
        n < 10 ==> digits(n).len() == 1 && digits(n)[0] as int == 48 + n,
        n > 0 ==> digits(n)[0] != '0',
        n > 0 ==> signed_digits(-(n as int)) == seq!['-'] + digits(n),
        signed_digits(n as int) == digits(n),
    decreases n,
{
    assert(s.push(c).drop_last() =~= s);
    if n >= 10 {
        digits_count_by_their_place(s, c, n / 10);
        digits_are_digits(n / 10);
    }
}

/// A plus sign before a number makes no difference; a minus sign, or a sign alone, makes it
/// none.
pub proof fn a_plus_sign_makes_no_difference(n: nat, max: nat)
    requires
        n <= max,
    ensures
        parsed(seq!['+'] + digits(n), max) == Some(n),
        parsed(seq!['-'] + digits(n), max) is None,
        parsed(seq!['+'], max) is None,
        parsed(Seq::empty(), max) is None,
{
    reading_undoes_writing(n, max);
    digits_are_digits(n);
    let signed = seq!['+'] + digits(n);
    assert(signed.drop_first() =~= digits(n));
    assert(number_body(signed) == digits(n));
    assert(number_body(digits(n)) == digits(n)) by {
        assert(is_digit(digits(n)[0]));
    }
    let below = seq!['-'] + digits(n);
    assert(number_body(below)[0] == '-');
    assert(!is_digit(number_body(below)[0]));
    assert(seq!['+'].drop_first() =~= Seq::<char>::empty());
}

} // verus!
