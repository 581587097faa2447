//! The time on an envelope: the publisher's local wall-clock time, written
//! as `HH:MM:SS`.

use vstd::prelude::*;

verus! {

/// A decimal digit.
pub open spec fn is_digit(c: char) -> bool {
    '0' <= c && c <= '9'
}

/// The number that the two digits `tens` and `ones` write.
pub open spec fn two_digits(tens: char, ones: char) -> int {
    (tens as int - '0' as int) * 10 + (ones as int - '0' as int)
}

/// `HH:MM:SS`: an hour up to 23, a minute up to 59 and a second up to 60
/// (a leap second), each of two digits.
pub open spec fn is_clock_text(s: Seq<char>) -> bool {
    &&& s.len() == 8
    &&& is_digit(s[0]) && is_digit(s[1]) && s[2] == ':'
    &&& is_digit(s[3]) && is_digit(s[4]) && s[5] == ':'
    &&& is_digit(s[6]) && is_digit(s[7])
    &&& two_digits(s[0], s[1]) <= 23
    &&& two_digits(s[3], s[4]) <= 59
    &&& two_digits(s[6], s[7]) <= 60
}

/// Reads the local time with `chrono::Local::now` and formats it with
/// `%H:%M:%S`. Trusted: whatever the clock reads, chrono writes the hour
/// (00 to 23), the minute (00 to 59) and the second (00 to 60), each padded
/// with zeros to two digits, with colons between them. Like chrono, it
/// panics on a machine whose clock stands before 1970 or whose local offset
/// cannot be found.
#[verifier::external_body]
pub(crate) fn local_time_text() -> (text: String)
    ensures
        is_clock_text(text@),
{
    chrono::Local::now().format("%H:%M:%S").to_string()
}

fn digit_at(text: &str, i: usize) -> (value: Option<u8>)
    requires
        i < text@.len(),
    ensures
        match value {
            Some(d) => is_digit(text@[i as int]) && d == text@[i as int] as int - '0' as int,
            None => !is_digit(text@[i as int]),
        },
{
    let c = text.get_char(i);
    if '0' <= c && c <= '9' {
        Some((c as u32 - '0' as u32) as u8)
    } else {
        None
    }
}

fn pair_at(text: &str, i: usize, most: u8) -> (ok: bool)
    requires
        text@.len() == 8,
        i + 1 < 8,
        most < 100,
    ensures
        ok == (is_digit(text@[i as int]) && is_digit(text@[i + 1]) && two_digits(
            text@[i as int],
            text@[i + 1],
        ) <= most),
{
    match (digit_at(text, i), digit_at(text, i + 1)) {
        (Some(tens), Some(ones)) => tens * 10 + ones <= most,
        _ => false,
    }
}

/// Whether `text` is a time of day written as `HH:MM:SS`.
pub fn is_clock(text: &str) -> (ok: bool)
    ensures
        ok == is_clock_text(text@),
{
    if text.unicode_len() != 8 {
        return false;
    }
    pair_at(text, 0, 23) && text.get_char(2) == ':' && pair_at(text, 3, 59) && text.get_char(5)
        == ':' && pair_at(text, 6, 60)
}

} // verus!
