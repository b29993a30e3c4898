//! Timestamps as text.
use vstd::prelude::*;

use crate::text;

verus! {

/// The text that `jiff::Timestamp` displays for a whole number of seconds since the Unix epoch.
pub uninterp spec fn timestamp_text(secs: i64) -> Seq<char>;

/// The seconds that `jiff::Timestamp` can represent.
pub open spec fn representable(secs: int) -> bool {
    -377705023201 <= secs <= 253402207200
}

/// The two's complement reading of a 64-bit number.
pub open spec fn as_signed(n: u64) -> int {
    if n <= i64::MAX {
        n as int
    } else {
        n - 0x1_0000_0000_0000_0000
    }
}

/// The ISO 8601 text of a Unix time, empty where the time is out of range.
pub open spec fn iso8601_text(secs: u64) -> Seq<char> {
    if representable(as_signed(secs)) {
        timestamp_text(as_signed(secs) as i64)
    } else {
        seq![]
    }
}

/// Whether decimal digits stand from one position up to another.
pub open spec fn digits_at(s: Seq<char>, from: int, to: int) -> bool {
    forall|i: int| from <= i < to ==> text::is_digit(#[trigger] s[i])
}

/// The form of a timestamp in UTC: year, month, day, hour, minute and second in digits, then a
/// fraction of one to nine digits or none, then the letter of UTC. A year before year zero has a
/// sign and two zeros in front.
pub open spec fn is_timestamp(s: Seq<char>) -> bool {
    let t = if s.len() > 0 && s[0] == '-' {
        s.skip(3)
    } else {
        s
    };
    &&& s.len() > 2 && s[0] == '-' ==> s[1] == '0' && s[2] == '0'
    &&& t.len() >= 20
    &&& digits_at(t, 0, 4)
    &&& t[4] == '-'
    &&& digits_at(t, 5, 7)
    &&& t[7] == '-'
    &&& digits_at(t, 8, 10)
    &&& t[10] == 'T'
    &&& digits_at(t, 11, 13)
    &&& t[13] == ':'
    &&& digits_at(t, 14, 16)
    &&& t[16] == ':'
    &&& digits_at(t, 17, 19)
    &&& t.last() == 'Z'
    &&& if t.len() == 20 {
        t[19] == 'Z'
    } else {
        t[19] == '.' && 22 <= t.len() <= 30 && digits_at(t, 20, t.len() - 1)
    }
}

/// `jiff::Timestamp::from_second`, then the `Display` of the timestamp: there is a timestamp for
/// exactly the seconds in jiff's range, and its text depends on the seconds alone. The text has the
/// form of [`is_timestamp`]; which digits stand in it is not stated.
#[verifier::external_body]
fn format_second(secs: i64) -> (r: Option<String>)
    ensures
        r is Some <==> representable(secs as int),
        r matches Some(text) ==> text@ == timestamp_text(secs) && is_timestamp(text@),
{
    match jiff::Timestamp::from_second(secs) {
        Ok(timestamp) => Some(timestamp.to_string()),
        Err(_) => None,
    }
}

/// The text of the current time: `jiff::Timestamp::now` and its `Display`, which writes every
/// timestamp in the form of [`is_timestamp`]. The clock decides which. The call panics where the
/// system clock is outside the range of jiff.
#[verifier::external_body]
fn format_now() -> (r: String)
    ensures
        is_timestamp(r@),
{
    jiff::Timestamp::now().to_string()
}

/// The formatted time, or the empty text where there was none to format.
pub fn text_or_empty(formatted: Option<String>) -> (r: String)
    ensures
        formatted matches Some(text) ==> r@ == text@,
        formatted is None ==> r@ == Seq::<char>::empty(),
{
    match formatted {
        Some(text) => text,
        None => String::new(),
    }
}

/// The ISO 8601 text of a Unix time in seconds.
///
/// The number is read as a signed one, so that a number above `i64::MAX` is a time before 1970.
pub fn unix_secs_to_iso8601(secs: u64) -> (r: String)
    ensures
        r@ == iso8601_text(secs),
        representable(as_signed(secs)) ==> is_timestamp(r@),
        !representable(as_signed(secs)) ==> r@.len() == 0,
{
    let signed: i64 = secs as i64;
    assert(secs <= 0x7fff_ffff_ffff_ffffu64 ==> secs as i64 == secs) by (bit_vector);
    assert(secs > 0x7fff_ffff_ffff_ffffu64 ==> secs as i64 == secs - 0x1_0000_0000_0000_0000)
        by (bit_vector);
    text_or_empty(format_second(signed))
}

/// The text of the current time, in UTC.
pub fn now_text() -> (r: String)
    ensures
        is_timestamp(r@),
{
    format_now()
}

/// A 64-bit number is read as the signed number of the same bits.
pub proof fn signs_keep_the_bits(n: u64)
    ensures
        i64::MIN <= as_signed(n) <= i64::MAX,
        as_signed(n) == n || as_signed(n) == n - 0x1_0000_0000_0000_0000,
        as_signed(n) >= 0 ==> as_signed(n) == n,
{
}

/// The text of a time is the one that jiff displays for it, from the first second that jiff has to
/// the last; outside of these it is empty.
pub proof fn times_have_the_text_of_their_second(secs: u64)
    ensures
        secs <= 253402207200 ==> iso8601_text(secs) == timestamp_text(secs as i64),
        253402207200 < secs <= i64::MAX ==> iso8601_text(secs).len() == 0,
        i64::MAX < secs < 0x1_0000_0000_0000_0000 - 377705023201 ==> iso8601_text(secs).len() == 0,
        secs >= 0x1_0000_0000_0000_0000 - 377705023201 ==> iso8601_text(secs) == timestamp_text(
            (secs - 0x1_0000_0000_0000_0000) as i64,
        ),
{
}

/// A timestamp of a year from zero on has its parts at fixed places: four digits of the year, two
/// each of the month, the day, the hour, the minute and the second, and the letter of UTC last.
pub proof fn timestamps_have_fixed_places(s: Seq<char>)
    requires
        is_timestamp(s),
        s[0] != '-',
    ensures
        20 <= s.len() <= 30,
        s[4] == '-' && s[7] == '-' && s[10] == 'T' && s[13] == ':' && s[16] == ':',
        forall|i: int|
            0 <= i < 19 && i != 4 && i != 7 && i != 10 && i != 13 && i != 16 ==> '0'
                <= #[trigger] s[i] <= '9',
        s.len() > 20 ==> s[19] == '.',
        forall|i: int| 19 < i < s.len() - 1 ==> '0' <= #[trigger] s[i] <= '9',
        s[s.len() - 1] == 'Z',
{
    assert forall|i: int|
        0 <= i < 19 && i != 4 && i != 7 && i != 10 && i != 13 && i != 16 implies '0'
        <= #[trigger] s[i] <= '9' by {
        assert(text::is_digit(s[i]));
    }
    assert forall|i: int| 19 < i < s.len() - 1 implies '0' <= #[trigger] s[i] <= '9' by {
        assert(text::is_digit(s[i]));
    }
}

} // verus!
