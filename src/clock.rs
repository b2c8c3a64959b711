use vstd::prelude::*;
use vstd::string::is_ascii_spec_bytes;

verus! {

/// A time of day with minute precision, as written `HH:MM` on a 24-hour clock.
#[derive(Clone, Copy, Debug, PartialEq, Eq, Structural)]
pub struct TimeOfDay {
    pub hour: u8,
    pub minute: u8,
}

impl TimeOfDay {
    /// Well-formed: the hour is below 24 and the minute below 60.
    pub open spec fn wf(self) -> bool {
        self.hour < 24 && self.minute < 60
    }
}

/// The text handed to `parse_clock_time` is not exactly `HH:MM` on a 24-hour clock.
#[derive(Clone, Copy, Debug, PartialEq, Eq, Structural)]
pub struct MalformedTimeError;

pub open spec fn is_digit(c: char) -> bool {
    '0' <= c && c <= '9'
}

pub open spec fn digit_value(c: char) -> int {
    (c as int) - ('0' as int)
}

/// The number written by the two decimal digits `a` and `b`.
pub open spec fn two_digit_value(a: char, b: char) -> int {
    10 * digit_value(a) + digit_value(b)
}

/// `s` is exactly two digits of an hour below 24, a colon, and two digits of a
/// minute below 60.
pub open spec fn is_clock_text(s: Seq<char>) -> bool {
    &&& s.len() == 5
    &&& is_digit(s[0]) && is_digit(s[1])
    &&& s[2] == ':'
    &&& is_digit(s[3]) && is_digit(s[4])
    &&& two_digit_value(s[0], s[1]) < 24
    &&& two_digit_value(s[3], s[4]) < 60
}

/// The time of day that clock text `s` denotes.
pub open spec fn clock_of(s: Seq<char>) -> TimeOfDay {
    TimeOfDay { hour: two_digit_value(s[0], s[1]) as u8, minute: two_digit_value(s[3], s[4]) as u8 }
}

fn ascii_digit(b: u8) -> (r: Option<u8>)
    ensures
        r is Some <==> 48 <= b <= 57,
        r is Some ==> r->Some_0 == b - 48,
{
    if 48 <= b && b <= 57 {
        Some(b - 48)
    } else {
        None
    }
}

/// Parses `HH:MM` on a 24-hour clock: exactly two digits, a colon and two
/// digits, with the hour below 24 and the minute below 60.
pub fn parse_clock_time(text: &str) -> (r: Result<TimeOfDay, MalformedTimeError>)
    ensures
        r is Ok <==> is_clock_text(text@),
        r matches Ok(t) ==> t == clock_of(text@) && t.wf(),
{
    if !text.is_ascii() {
        assert(!is_clock_text(text@)) by {
            if is_clock_text(text@) {
                assert forall|i| 0 <= i < text@.len() implies '\0' <= #[trigger] text@[i] <= '\u{7f}' by {
                    assert(i == 0 || i == 1 || i == 2 || i == 3 || i == 4);
                }
            }
        }
        return Err(MalformedTimeError);
    }
    let b = text.as_bytes();
    proof {
        is_ascii_spec_bytes(text);
        assert(b@.len() == text@.len());
        assert forall|i| 0 <= i < b@.len() implies (#[trigger] b@[i]) as int == text@[i] as int by {
            assert(b@[i] == text@[i] as u8);
        }
    }
    if b.len() != 5 || b[2] != 58 {
        return Err(MalformedTimeError);
    }
    let h1 = ascii_digit(b[0]);
    let h0 = ascii_digit(b[1]);
    let m1 = ascii_digit(b[3]);
    let m0 = ascii_digit(b[4]);
    match (h1, h0, m1, m0) {
        (Some(h1), Some(h0), Some(m1), Some(m0)) => {
            let hour = 10 * h1 + h0;
            let minute = 10 * m1 + m0;
            if hour < 24 && minute < 60 {
                Ok(TimeOfDay { hour, minute })
            } else {
                Err(MalformedTimeError)
            }
        },
        _ => Err(MalformedTimeError),
    }
}

/// The feed already reports signed seconds: the value passes through unchanged.
pub fn to_signed_duration(value: i32) -> (r: i32)
    ensures
        r == value,
{
    value
}

} // verus!
