//! Identifiers and points in time.

use vstd::prelude::*;
use vstd::string::*;

use crate::text::text_of;

verus! {

/// A 128-bit identifier of a session, a message or a backend instance.
#[derive(Clone, Copy, PartialEq, Eq, Structural, Debug, Hash)]
pub struct Uuid {
    pub bits: u128,
}

/// The identifier carries the version and variant bits of a random UUID.
pub open spec fn is_random_uuid(id: Uuid) -> bool {
    (id.bits >> 76) & 0xf == 4 && (id.bits >> 62) & 0x3 == 2
}

/// Draws an identifier with `uuid::Uuid::new_v4`.
///
/// Whatever is drawn carries the version and variant bits of a random UUID. That two
/// draws differ is a matter of chance and is not claimed.
#[verifier::external_body]
pub(crate) fn fresh_uuid() -> (id: Uuid)
    ensures
        is_random_uuid(id),
{
    Uuid { bits: uuid::Uuid::new_v4().as_u128() }
}

/// A hexadecimal digit.
pub open spec fn hex_digit(n: nat) -> char {
    if n < 10 {
        ('0' as u8 + n) as char
    } else {
        ('a' as u8 + (n - 10)) as char
    }
}

/// The last `width` hexadecimal digits of a number.
pub open spec fn hex_text(n: nat, width: nat) -> Seq<char>
    decreases width,
{
    if width == 0 {
        Seq::empty()
    } else {
        hex_text(n / 16, (width - 1) as nat).push(hex_digit(n % 16))
    }
}

/// An identifier as text: 32 hexadecimal digits in groups of 8, 4, 4, 4 and 12.
pub open spec fn uuid_text(id: Uuid) -> Seq<char> {
    let h = hex_text(id.bits as nat, 32);
    h.subrange(0, 8).push('-') + h.subrange(8, 12).push('-') + h.subrange(12, 16).push('-')
        + h.subrange(16, 20).push('-') + h.subrange(20, 32)
}

fn hex_chars(n: u128, width: usize) -> (result: Vec<char>)
    ensures
        result@ == hex_text(n as nat, width as nat),
        result@.len() == width,
    decreases width,
{
    if width == 0 {
        let none: Vec<char> = Vec::new();
        assert(none@ =~= hex_text(n as nat, 0));
        return none;
    }
    let mut result = hex_chars(n / 16, width - 1);
    let low: u8 = (n % 16) as u8;
    let c = if low < 10 {
        (48 + low) as char
    } else {
        (97 + (low - 10)) as char
    };
    result.push(c);
    result
}

/// Writes an identifier as text.
pub fn uuid_string(id: Uuid) -> (result: String)
    ensures
        result@ == uuid_text(id),
{
    let digits = hex_chars(id.bits, 32);
    let mut result = text_of(&digits, 0, 8);
    result.push('-');
    result.append(text_of(&digits, 8, 12).as_str());
    result.push('-');
    result.append(text_of(&digits, 12, 16).as_str());
    result.push('-');
    result.append(text_of(&digits, 16, 20).as_str());
    result.push('-');
    result.append(text_of(&digits, 20, 32).as_str());
    assert(result@ =~= uuid_text(id));
    result
}

/// A point in time: seconds since 1970 and the nanoseconds within the second.
#[derive(Clone, Copy, PartialEq, Eq, Structural, Debug)]
pub struct Timestamp {
    pub seconds: i64,
    pub nanoseconds: u32,
}

/// The text that `DateTime::<Utc>::to_rfc3339` writes for a point in time, where chrono
/// can represent that point.
pub uninterp spec fn rfc3339_text(seconds: i64, nanoseconds: u32) -> Option<Seq<char>>;

/// Reads the clock with `chrono::Utc::now`.
///
/// The time read is not before 1970, lies within its second, and is one that chrono can
/// write down. What time it is, is not claimed. chrono panics on a machine whose clock
/// stands before 1970, which no argument could rule out.
#[verifier::external_body]
pub(crate) fn utc_now() -> (now: Timestamp)
    ensures
        now.seconds >= 0,
        now.nanoseconds < 1_000_000_000,
        rfc3339_text(now.seconds, now.nanoseconds) is Some,
{
    let now = chrono::Utc::now();
    Timestamp { seconds: now.timestamp(), nanoseconds: now.timestamp_subsec_nanos() }
}

/// Writes a point in time with chrono's `to_rfc3339`; `None` where
/// `DateTime::from_timestamp` does not represent it. The text is a function of the point
/// in time alone.
#[verifier::external_body]
pub(crate) fn rfc3339(at: Timestamp) -> (text: Option<String>)
    ensures
        match text {
            Some(s) => rfc3339_text(at.seconds, at.nanoseconds) == Some(s@),
            None => rfc3339_text(at.seconds, at.nanoseconds) is None,
        },
{
    chrono::DateTime::from_timestamp(at.seconds, at.nanoseconds).map(|t| t.to_rfc3339())
}

/// What is left of a number without its last hexadecimal digits.
spec fn without_digits(n: nat, width: nat) -> nat
    decreases width,
{
    if width == 0 {
        n
    } else {
        without_digits(n / 16, (width - 1) as nat)
    }
}

/// How many numbers have no more than this many hexadecimal digits.
spec fn numbers_of(width: nat) -> nat
    decreases width,
{
    if width == 0 {
        1
    } else {
        16 * numbers_of((width - 1) as nat)
    }
}

proof fn nothing_is_left(n: nat, width: nat)
    requires
        n < numbers_of(width),
    ensures
        without_digits(n, width) == 0,
    decreases width,
{
    if width > 0 {
        nothing_is_left(n / 16, (width - 1) as nat);
    }
}

proof fn digits_tell_numbers_apart(a: nat, b: nat, width: nat)
    requires
        hex_text(a, width) == hex_text(b, width),
        without_digits(a, width) == without_digits(b, width),
    ensures
        a == b,
    decreases width,
{
    if width > 0 {
        let shorter = (width - 1) as nat;
        let x = hex_text(a / 16, shorter);
        let y = hex_text(b / 16, shorter);
        assert(x.push(hex_digit(a % 16)).drop_last() =~= x);
        assert(y.push(hex_digit(b % 16)).drop_last() =~= y);
        assert(x.push(hex_digit(a % 16)).last() == hex_digit(a % 16));
        assert(y.push(hex_digit(b % 16)).last() == hex_digit(b % 16));
        digits_tell_numbers_apart(a / 16, b / 16, shorter);
    }
}

proof fn hex_text_is_as_wide(n: nat, width: nat)
    ensures
        hex_text(n, width).len() == width,
        forall|i: int|
            0 <= i < width ==> ('0' <= #[trigger] hex_text(n, width)[i] <= '9' || 'a' <= hex_text(
                n,
                width,
            )[i] <= 'f'),
    decreases width,
{
    if width > 0 {
        hex_text_is_as_wide(n / 16, (width - 1) as nat);
    }
}

/// An identifier is written with thirty-two digits in five groups, and two identifiers with
/// the same text are the same.
pub proof fn identifiers_are_told_apart_by_their_text(a: Uuid, b: Uuid)
    ensures
        uuid_text(a).len() == 36,
        forall|i: int|
            0 <= i < 36 ==> (#[trigger] uuid_text(a)[i] == '-' <==> i == 8 || i == 13 || i == 18
                || i == 23),
        forall|i: int|
            0 <= i < 36 ==> (#[trigger] uuid_text(a)[i] == '-' || '0' <= uuid_text(a)[i] <= '9'
                || 'a' <= uuid_text(a)[i] <= 'f'),
        uuid_text(a) == uuid_text(b) ==> a == b,
{
    let h = hex_text(a.bits as nat, 32);
    let k = hex_text(b.bits as nat, 32);
    hex_text_is_as_wide(a.bits as nat, 32);
    hex_text_is_as_wide(b.bits as nat, 32);
    if uuid_text(a) == uuid_text(b) {
        assert forall|i: int| 0 <= i < 32 implies #[trigger] h[i] == k[i] by {
            let at = if i < 8 {
                i
            } else if i < 12 {
                i + 1
            } else if i < 16 {
                i + 2
            } else if i < 20 {
                i + 3
            } else {
                i + 4
            };
            assert(uuid_text(a)[at] == h[i]);
            assert(uuid_text(b)[at] == k[i]);
        }
        assert(h =~= k);
        reveal_with_fuel(numbers_of, 33);
        assert(numbers_of(32) == 0x1_0000_0000_0000_0000_0000_0000_0000_0000int);
        nothing_is_left(a.bits as nat, 32);
        nothing_is_left(b.bits as nat, 32);
        digits_tell_numbers_apart(a.bits as nat, b.bits as nat, 32);
    }
}

} // verus!
