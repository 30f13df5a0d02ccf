//! The request date and nonce, taken from the system clock.

use chrono::DateTime;
use std::time::{Duration, SystemTime, UNIX_EPOCH};
use vstd::prelude::*;

use crate::headers::{is_visible_char, is_visible_value};
use crate::text::{chars_of, decimal, decimal_u64, string_of};

verus! {

/// `std::time::SystemTime`, a reading of the system clock.
#[verifier::external_type_specification]
#[verifier::external_body]
pub struct ExSystemTime(SystemTime);

/// `SystemTime::now`: the current reading of the system clock; nothing is
/// known of it.
#[verifier::external_body]
fn system_time_now() -> (res: SystemTime) {
    SystemTime::now()
}

/// `SystemTime::duration_since(UNIX_EPOCH)`: the time elapsed since the Unix
/// epoch, or `None` when `t` lies before it.
#[verifier::external_body]
fn duration_since_unix_epoch(t: &SystemTime) -> (res: Option<Duration>) {
    t.duration_since(UNIX_EPOCH).ok()
}

/// `Duration::as_secs`: the whole seconds of `d`.
#[verifier::external_body]
fn duration_secs(d: &Duration) -> (res: u64) {
    d.as_secs()
}

/// `Duration::subsec_nanos`: the fractional part of `d` in nanoseconds,
/// always less than one billion.
#[verifier::external_body]
fn duration_subsec_nanos(d: &Duration) -> (res: u32)
    ensures
        res < 1_000_000_000,
{
    d.subsec_nanos()
}

/// A character of chrono's RFC 3339 rendering of a UTC time: digits, `-`,
/// `+`, `:`, `.` and `T`.
pub open spec fn is_rfc3339_char(c: char) -> bool {
    ('0' <= c <= '9') || c == '-' || c == '+' || c == ':' || c == '.' || c == 'T'
}

/// An ASCII digit.
pub open spec fn is_digit(c: char) -> bool {
    '0' <= c <= '9'
}

/// `r[a..b]` are digits.
pub open spec fn digits_at(r: Seq<char>, a: int, b: int) -> bool {
    forall|i: int| a <= i < b ==> is_digit(#[trigger] r[i])
}

/// `-MM-DDTHH:MM:SS` starts at `y` in `r`.
pub open spec fn date_time_at(r: Seq<char>, y: int) -> bool {
    &&& y + 15 <= r.len()
    &&& r[y] == '-'
    &&& digits_at(r, y + 1, y + 3)
    &&& r[y + 3] == '-'
    &&& digits_at(r, y + 4, y + 6)
    &&& r[y + 6] == 'T'
    &&& digits_at(r, y + 7, y + 9)
    &&& r[y + 9] == ':'
    &&& digits_at(r, y + 10, y + 12)
    &&& r[y + 12] == ':'
    &&& digits_at(r, y + 13, y + 15)
}

/// `YYYY-MM-DDTHH:MM:SS` at the start of `r`: the layout for years up to 9999.
pub open spec fn four_digit_year_layout(r: Seq<char>) -> bool {
    digits_at(r, 0, 4) && date_time_at(r, 4)
}

/// The layout of an RFC 3339 time after the Unix epoch: a four-digit year,
/// or `+` and a five- or six-digit year, then `-MM-DDTHH:MM:SS`.
pub open spec fn rfc3339_layout(r: Seq<char>) -> bool {
    ||| four_digit_year_layout(r)
    ||| r.len() > 0 && r[0] == '+' && digits_at(r, 1, 6) && date_time_at(r, 6)
    ||| r.len() > 0 && r[0] == '+' && digits_at(r, 1, 7) && date_time_at(r, 7)
}

/// Seconds from the Unix epoch to the start of the year 10000.
pub open spec fn year_10000() -> int {
    253402300800
}

/// Chrono's RFC 3339 text of the UTC time `secs` seconds and `nanos`
/// nanoseconds after the Unix epoch, or `None` where chrono cannot represent
/// that time.
pub uninterp spec fn spec_rfc3339(secs: i64, nanos: u32) -> Option<Seq<char>>;

/// `DateTime::from_timestamp(secs, nanos)` rendered by `to_rfc3339` (chrono),
/// or `None` when chrono cannot represent that time; the text is named
/// `spec_rfc3339(secs, nanos)`. Chrono writes the year (four digits for
/// years 0 to 9999, else with its sign), `-MM-DDTHH:MM:SS` with two digits
/// each, optional fractional seconds and `+00:00`: only digits and `-+:.T`.
/// Every time from the epoch to the year 9999 is within chrono's range.
#[verifier::external_body]
fn rfc3339_of_timestamp(secs: i64, nanos: u32) -> (res: Option<String>)
    ensures
        (res is Some) == (spec_rfc3339(secs, nanos) is Some),
        res matches Some(s) ==> s@ == spec_rfc3339(secs, nanos)->0,
        res is Some ==> forall|i: int|
            0 <= i < res->0@.len() ==> is_rfc3339_char(#[trigger] res->0@[i]),
        res is Some && 0 <= secs ==> rfc3339_layout(res->0@),
        res is Some || !(0 <= secs < year_10000() && nanos < 1_000_000_000),
        res is Some && 0 <= secs < year_10000() ==> four_digit_year_layout(res->0@),
{
    match DateTime::from_timestamp(secs, nanos) {
        Some(dt) => Some(dt.to_rfc3339()),
        None => None,
    }
}

/// The current time as whole seconds and nanoseconds since the Unix epoch,
/// or `None` when the clock reads a time before it.
pub(crate) fn unix_time() -> (res: Option<(u64, u32)>)
    ensures
        res matches Some(t) ==> t.1 < 1_000_000_000,
{
    let now = system_time_now();
    match duration_since_unix_epoch(&now) {
        Some(d) => Some((duration_secs(&d), duration_subsec_nanos(&d))),
        None => None,
    }
}

/// The first 19 characters of an RFC 3339 time (date and time of day),
/// followed by `Z`.
pub open spec fn iso_8601_of(rfc3339: Seq<char>) -> Seq<char> {
    rfc3339.take(19).push('Z')
}

/// A value that `iso_8601_data_time_string` can return: the date and time
/// of day of an RFC 3339 time in chrono's layout, followed by `Z`.
pub open spec fn is_request_date(s: Seq<char>) -> bool {
    exists|r: Seq<char>|
        #![trigger iso_8601_of(r)]
        rfc3339_layout(r) && (forall|i: int| 0 <= i < r.len() ==> is_rfc3339_char(#[trigger] r[i]))
            && s == iso_8601_of(r)
}

/// `yyyy-MM-ddTHH:mm:ssZ` from an RFC 3339 time with a four-digit year.
pub fn iso_8601_from_rfc3339(rfc3339: &str) -> (res: String)
    requires
        19 <= rfc3339@.len(),
        forall|i: int| 0 <= i < 19 ==> (#[trigger] rfc3339@[i] as u32) < 128,
    ensures
        res@ == iso_8601_of(rfc3339@),
{
    let cs = chars_of(rfc3339);
    let mut out: Vec<char> = Vec::new();
    for i in 0..19
        invariant
            cs@ == rfc3339@,
            19 <= cs@.len(),
            out@ == rfc3339@.take(i as int),
    {
        out.push(cs[i]);
        proof {
            assert(out@ =~= rfc3339@.take(i + 1));
        }
    }
    out.push('Z');
    string_of(&out)
}

/// The request date for a clock reading of `secs` seconds and `nanos`
/// nanoseconds after the Unix epoch: the date and time of day of chrono's
/// RFC 3339 text of that time, then `Z`; `None` where chrono has no text
/// for it.
pub open spec fn date_of_reading(secs: u64, nanos: u32) -> Option<Seq<char>> {
    if secs <= 9223372036854775807 && spec_rfc3339(secs as i64, nanos) is Some {
        Some(iso_8601_of(spec_rfc3339(secs as i64, nanos)->0))
    } else {
        None
    }
}

/// The request date for a clock reading, as `yyyy-MM-ddTHH:mm:ssZ`.
pub fn iso_8601_of_timestamp(secs: u64, nanos: u32) -> (res: Option<String>)
    ensures
        match res {
            Some(d) => date_of_reading(secs, nanos) == Some(d@),
            None => date_of_reading(secs, nanos) is None,
        },
        secs < year_10000() && nanos < 1_000_000_000 ==> res is Some,
        res matches Some(d) ==> is_request_date(d@),
{
    if secs > 9223372036854775807u64 {
        return None;
    }
    let s = match rfc3339_of_timestamp(secs as i64, nanos) {
        Some(s) => s,
        None => return None,
    };
    proof {
        assert(rfc3339_layout(s@));
        assert(s@.len() >= 19);
        assert forall|i: int| 0 <= i < 19 implies (#[trigger] s@[i] as u32) < 128 by {
            assert(is_rfc3339_char(s@[i]));
        }
    }
    let r = iso_8601_from_rfc3339(s.as_str());
    proof {
        assert(r@ == iso_8601_of(s@));
    }
    Some(r)
}

/// `d` is the request date of some clock reading.
pub open spec fn is_clock_date(d: Seq<char>) -> bool {
    exists|secs: u64, nanos: u32|
        nanos < 1_000_000_000 && #[trigger] date_of_reading(secs, nanos) == Some(d)
}

/// The current UTC time as `yyyy-MM-ddTHH:mm:ssZ`, the `x-acs-date` format;
/// `None` when the clock reads a time that chrono cannot represent (before
/// the Unix epoch, or past chrono's range).
pub fn iso_8601_data_time_string() -> (res: Option<String>)
    ensures
        res matches Some(d) ==> is_request_date(d@) && is_clock_date(d@),
{
    let (secs, nanos) = match unix_time() {
        Some(t) => t,
        None => return None,
    };
    iso_8601_of_timestamp(secs, nanos)
}

/// The signature nonce for a clock reading: its milliseconds since the Unix
/// epoch (as chrono's `timestamp_millis` counts them), in decimal; `None`
/// where that count would not stay within an `i64`.
pub open spec fn nonce_of_reading(secs: u64, nanos: u32) -> Option<Seq<char>> {
    if secs <= 9223372036854774 {
        Some(decimal((secs * 1000 + nanos / 1_000_000) as nat))
    } else {
        None
    }
}

/// The signature nonce for a clock reading of `secs` seconds and `nanos`
/// nanoseconds after the Unix epoch.
pub fn signature_nonce_of(secs: u64, nanos: u32) -> (res: Option<String>)
    requires
        nanos < 1_000_000_000,
    ensures
        match res {
            Some(n) => nonce_of_reading(secs, nanos) == Some(n@),
            None => nonce_of_reading(secs, nanos) is None,
        },
{
    if secs > 9223372036854774u64 {
        return None;
    }
    let ms: u64 = secs * 1000 + (nanos / 1_000_000) as u64;
    Some(decimal_u64(ms))
}

/// `n` is the signature nonce of some clock reading.
pub open spec fn is_clock_nonce(n: Seq<char>) -> bool {
    exists|secs: u64, nanos: u32|
        nanos < 1_000_000_000 && #[trigger] nonce_of_reading(secs, nanos) == Some(n)
}

/// `dt` and `nonce` are the request date and the signature nonce of one and
/// the same clock reading: the UTC date and time of that instant, and its
/// milliseconds since the Unix epoch.
pub open spec fn is_reading_of(dt: Seq<char>, nonce: Seq<char>) -> bool {
    exists|secs: u64, nanos: u32|
        #![trigger date_of_reading(secs, nanos), nonce_of_reading(secs, nanos)]
        nanos < 1_000_000_000 && date_of_reading(secs, nanos) == Some(dt) && nonce_of_reading(
            secs,
            nanos,
        ) == Some(nonce)
}

/// The current time in milliseconds since the Unix epoch, in decimal: the
/// signature nonce; `None` when the clock reads a time before the epoch or
/// too far after it to count in an `i64`.
pub fn signature_nonce() -> (res: Option<String>)
    ensures
        res matches Some(n) ==> is_clock_nonce(n@),
{
    let (secs, nanos) = match unix_time() {
        Some(t) => t,
        None => return None,
    };
    signature_nonce_of(secs, nanos)
}

/// A clock nonce reads back as text.
pub proof fn lemma_clock_nonce_visible(n: Seq<char>)
    requires
        is_clock_nonce(n),
    ensures
        is_visible_value(n),
{
    let (secs, nanos) = choose|secs: u64, nanos: u32|
        nanos < 1_000_000_000 && #[trigger] nonce_of_reading(secs, nanos) == Some(n);
    crate::client::lemma_decimal_visible((secs * 1000 + nanos / 1_000_000) as nat);
}

/// A request date reads back as text.
pub proof fn lemma_request_date_visible(s: Seq<char>)
    requires
        is_request_date(s),
    ensures
        is_visible_value(s),
{
    let r = choose|r: Seq<char>|
        #![trigger iso_8601_of(r)]
        rfc3339_layout(r) && (forall|i: int| 0 <= i < r.len() ==> is_rfc3339_char(#[trigger] r[i]))
            && s == iso_8601_of(r);
    assert(r.len() >= 19);
    assert forall|i: int| 0 <= i < s.len() implies is_visible_char(#[trigger] s[i]) by {
        if i < 19 {
            assert(s[i] == r[i]);
            assert(is_rfc3339_char(r[i]));
        }
    }
}

} // verus!
