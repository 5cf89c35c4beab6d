//! Verified calendar arithmetic: parsing of the compact
//! `YYYYMMDDTHHMMSSZ` timestamp form and RFC 1123 rendering of a UTC
//! instant, including the day-of-week computation.

use crate::strutil::push_char;
use vstd::prelude::*;

verus! {

/// A UTC instant broken into its calendar components.
#[derive(Clone, Copy, PartialEq, Eq, Structural, Debug)]
pub struct DateTime {
    pub year: u16,
    pub month: u8,
    pub day: u8,
    pub hour: u8,
    pub minute: u8,
    pub second: u8,
}

/// Proleptic-Gregorian leap-year rule.
pub open spec fn spec_is_leap_year(y: int) -> bool {
    (y % 4 == 0 && y % 100 != 0) || y % 400 == 0
}

/// Length of a month in the given year.
pub open spec fn spec_days_in_month(y: int, m: int) -> int {
    if m == 2 {
        if spec_is_leap_year(y) {
            29
        } else {
            28
        }
    } else if m == 4 || m == 6 || m == 9 || m == 11 {
        30
    } else {
        31
    }
}

/// A calendar-valid instant with a four-digit year.
pub open spec fn valid_datetime(dt: DateTime) -> bool {
    &&& dt.year <= 9999
    &&& 1 <= dt.month <= 12
    &&& 1 <= dt.day <= spec_days_in_month(dt.year as int, dt.month as int)
    &&& dt.hour <= 23
    &&& dt.minute <= 59
    &&& dt.second <= 59
}

/// Count of days since the reference point 400-03-01 of the proleptic
/// Gregorian calendar, shifted so that it stays non-negative for all
/// four-digit years.
pub open spec fn spec_day_number(y: int, m: int, d: int) -> int {
    let yy = if m <= 2 {
        y + 399
    } else {
        y + 400
    };
    let era = yy / 400;
    let yoe = yy - era * 400;
    let mp = if m > 2 {
        m - 3
    } else {
        m + 9
    };
    let doy = (153 * mp + 2) / 5 + d - 1;
    let doe = yoe * 365 + yoe / 4 - yoe / 100 + doy;
    era * 146097 + doe
}

/// Day of the week, 0 for Sunday through 6 for Saturday.
pub open spec fn spec_weekday(dt: DateTime) -> int {
    (spec_day_number(dt.year as int, dt.month as int, dt.day as int) + 3) % 7
}

/// Exec counterpart of [`spec_is_leap_year`].
pub fn is_leap_year(y: u16) -> (r: bool)
    ensures
        r == spec_is_leap_year(y as int),
{
    (y % 4 == 0 && y % 100 != 0) || y % 400 == 0
}

/// Exec counterpart of [`spec_days_in_month`].
pub fn days_in_month(y: u16, m: u8) -> (r: u8)
    ensures
        r as int == spec_days_in_month(y as int, m as int),
{
    if m == 2 {
        if is_leap_year(y) {
            29
        } else {
            28
        }
    } else if m == 4 || m == 6 || m == 9 || m == 11 {
        30
    } else {
        31
    }
}

/// Exec counterpart of [`valid_datetime`].
pub fn is_valid_datetime(dt: &DateTime) -> (r: bool)
    ensures
        r == valid_datetime(*dt),
{
    dt.year <= 9999 && 1 <= dt.month && dt.month <= 12 && 1 <= dt.day && dt.day <= days_in_month(
        dt.year,
        dt.month,
    ) && dt.hour <= 23 && dt.minute <= 59 && dt.second <= 59
}

/// Exec counterpart of [`spec_weekday`].
pub fn weekday(dt: &DateTime) -> (r: u8)
    requires
        valid_datetime(*dt),
    ensures
        r as int == spec_weekday(*dt),
        r < 7,
{
    let y = dt.year as u64;
    let m = dt.month as u64;
    let d = dt.day as u64;
    let yy: u64 = if m <= 2 {
        y + 399
    } else {
        y + 400
    };
    let era: u64 = yy / 400;
    let yoe: u64 = yy - era * 400;
    let mp: u64 = if m > 2 {
        m - 3
    } else {
        m + 9
    };
    let doy: u64 = (153 * mp + 2) / 5 + d - 1;
    let doe: u64 = yoe * 365 + yoe / 4 - yoe / 100 + doy;
    let dn: u64 = era * 146097 + doe;
    ((dn + 3) % 7) as u8
}

/// An ASCII decimal digit.
pub open spec fn is_digit_char(c: char) -> bool {
    '0' <= c && c <= '9'
}

/// Numeric value of an ASCII decimal digit.
pub open spec fn digit_val(c: char) -> int {
    c as int - 48
}

/// The instant spelled by a well-shaped `YYYYMMDDTHHMMSSZ` string.
pub open spec fn spec_basic_fields(s: Seq<char>) -> DateTime {
    DateTime {
        year: (digit_val(s[0]) * 1000 + digit_val(s[1]) * 100 + digit_val(s[2]) * 10 + digit_val(
            s[3],
        )) as u16,
        month: (digit_val(s[4]) * 10 + digit_val(s[5])) as u8,
        day: (digit_val(s[6]) * 10 + digit_val(s[7])) as u8,
        hour: (digit_val(s[9]) * 10 + digit_val(s[10])) as u8,
        minute: (digit_val(s[11]) * 10 + digit_val(s[12])) as u8,
        second: (digit_val(s[13]) * 10 + digit_val(s[14])) as u8,
    }
}

/// Sixteen characters, digits everywhere but for the literal `T` and `Z`.
pub open spec fn spec_is_basic_shape(s: Seq<char>) -> bool {
    &&& s.len() == 16
    &&& s[8] == 'T'
    &&& s[15] == 'Z'
    &&& forall|k: int| 0 <= k < 16 && k != 8 && k != 15 ==> is_digit_char(s[k])
}

/// A `YYYYMMDDTHHMMSSZ` string that spells a calendar-valid instant.
pub open spec fn spec_is_basic_datetime(s: Seq<char>) -> bool {
    spec_is_basic_shape(s) && valid_datetime(spec_basic_fields(s))
}

/// Reads the decimal digit at position `i`.
fn digit_at(s: &str, i: usize) -> (r: u8)
    requires
        i < s@.len(),
        is_digit_char(s@[i as int]),
    ensures
        r as int == digit_val(s@[i as int]),
        r <= 9,
{
    let c = s.get_char(i);
    ((c as u32) - 48) as u8
}

/// Parses the compact `YYYYMMDDTHHMMSSZ` timestamp form.  Returns the
/// instant exactly when the input has that shape and names a real
/// calendar date and time.
pub fn parse_basic_datetime(s: &str) -> (r: Option<DateTime>)
    ensures
        r is Some <==> spec_is_basic_datetime(s@),
        r is Some ==> r.unwrap() == spec_basic_fields(s@) && valid_datetime(r.unwrap()),
{
    if s.unicode_len() != 16 {
        return None;
    }
    if s.get_char(8) != 'T' || s.get_char(15) != 'Z' {
        return None;
    }
    let mut k: usize = 0;
    while k < 16
        invariant
            s@.len() == 16,
            k <= 16,
            forall|j: int| 0 <= j < k && j != 8 && j != 15 ==> is_digit_char(s@[j]),
        decreases 16 - k,
    {
        if k != 8 && k != 15 {
            let c = s.get_char(k);
            if !('0' <= c && c <= '9') {
                return None;
            }
        }
        k = k + 1;
    }
    let year: u16 = (digit_at(s, 0) as u16) * 1000 + (digit_at(s, 1) as u16) * 100 + (digit_at(
        s,
        2,
    ) as u16) * 10 + (digit_at(s, 3) as u16);
    let month: u8 = digit_at(s, 4) * 10 + digit_at(s, 5);
    let day: u8 = digit_at(s, 6) * 10 + digit_at(s, 7);
    let hour: u8 = digit_at(s, 9) * 10 + digit_at(s, 10);
    let minute: u8 = digit_at(s, 11) * 10 + digit_at(s, 12);
    let second: u8 = digit_at(s, 13) * 10 + digit_at(s, 14);
    let dt = DateTime { year, month, day, hour, minute, second };
    if month < 1 || month > 12 {
        return None;
    }
    if day < 1 || day > days_in_month(year, month) {
        return None;
    }
    if hour > 23 || minute > 59 || second > 59 {
        return None;
    }
    Some(dt)
}

/// Character for a decimal digit value.
pub open spec fn digit_char(n: int) -> char {
    if n == 0 {
        '0'
    } else if n == 1 {
        '1'
    } else if n == 2 {
        '2'
    } else if n == 3 {
        '3'
    } else if n == 4 {
        '4'
    } else if n == 5 {
        '5'
    } else if n == 6 {
        '6'
    } else if n == 7 {
        '7'
    } else if n == 8 {
        '8'
    } else {
        '9'
    }
}

/// Two-digit zero-padded decimal rendering.
pub open spec fn two_digits(n: int) -> Seq<char> {
    seq![digit_char(n / 10), digit_char(n % 10)]
}

/// Four-digit zero-padded decimal rendering.
pub open spec fn four_digits(n: int) -> Seq<char> {
    seq![
        digit_char(n / 1000),
        digit_char((n / 100) % 10),
        digit_char((n / 10) % 10),
        digit_char(n % 10),
    ]
}

/// Three-letter English weekday name, 0 for Sunday.
pub open spec fn weekday_name(w: int) -> Seq<char> {
    if w == 0 {
        "Sun"@
    } else if w == 1 {
        "Mon"@
    } else if w == 2 {
        "Tue"@
    } else if w == 3 {
        "Wed"@
    } else if w == 4 {
        "Thu"@
    } else if w == 5 {
        "Fri"@
    } else {
        "Sat"@
    }
}

/// Three-letter English month name, 1 for January.
pub open spec fn month_name(m: int) -> Seq<char> {
    if m == 1 {
        "Jan"@
    } else if m == 2 {
        "Feb"@
    } else if m == 3 {
        "Mar"@
    } else if m == 4 {
        "Apr"@
    } else if m == 5 {
        "May"@
    } else if m == 6 {
        "Jun"@
    } else if m == 7 {
        "Jul"@
    } else if m == 8 {
        "Aug"@
    } else if m == 9 {
        "Sep"@
    } else if m == 10 {
        "Oct"@
    } else if m == 11 {
        "Nov"@
    } else {
        "Dec"@
    }
}

/// RFC 1123 rendering of a UTC instant, e.g.
/// `Tue, 02 Jan 2024 03:04:05 GMT`.
pub open spec fn rfc1123_seq(dt: DateTime) -> Seq<char> {
    weekday_name(spec_weekday(dt)) + ", "@ + two_digits(dt.day as int) + " "@ + month_name(
        dt.month as int,
    ) + " "@ + four_digits(dt.year as int) + " "@ + two_digits(dt.hour as int) + ":"@ + two_digits(
        dt.minute as int,
    ) + ":"@ + two_digits(dt.second as int) + " GMT"@
}

/// Exec counterpart of [`digit_char`].
fn digit_to_char(n: u8) -> (c: char)
    requires
        n <= 9,
    ensures
        c == digit_char(n as int),
{
    if n == 0 {
        '0'
    } else if n == 1 {
        '1'
    } else if n == 2 {
        '2'
    } else if n == 3 {
        '3'
    } else if n == 4 {
        '4'
    } else if n == 5 {
        '5'
    } else if n == 6 {
        '6'
    } else if n == 7 {
        '7'
    } else if n == 8 {
        '8'
    } else {
        '9'
    }
}

/// Appends a two-digit zero-padded number.
fn append_two_digits(s: &mut String, n: u8)
    requires
        n <= 99,
    ensures
        final(s)@ == old(s)@ + two_digits(n as int),
{
    push_char(s, digit_to_char(n / 10));
    push_char(s, digit_to_char(n % 10));
    assert(final(s)@ =~= old(s)@ + two_digits(n as int));
}

/// Appends a four-digit zero-padded number.
fn append_four_digits(s: &mut String, n: u16)
    requires
        n <= 9999,
    ensures
        final(s)@ == old(s)@ + four_digits(n as int),
{
    push_char(s, digit_to_char((n / 1000) as u8));
    push_char(s, digit_to_char(((n / 100) % 10) as u8));
    push_char(s, digit_to_char(((n / 10) % 10) as u8));
    push_char(s, digit_to_char((n % 10) as u8));
    assert(final(s)@ =~= old(s)@ + four_digits(n as int));
}

/// Renders an instant in RFC 1123 form.
pub fn format_rfc1123(dt: &DateTime) -> (r: String)
    requires
        valid_datetime(*dt),
    ensures
        r@ == rfc1123_seq(*dt),
{
    let mut r = String::new();
    let w = weekday(dt);
    if w == 0 {
        r.append("Sun");
    } else if w == 1 {
        r.append("Mon");
    } else if w == 2 {
        r.append("Tue");
    } else if w == 3 {
        r.append("Wed");
    } else if w == 4 {
        r.append("Thu");
    } else if w == 5 {
        r.append("Fri");
    } else {
        r.append("Sat");
    }
    assert(r@ == weekday_name(spec_weekday(*dt)));
    r.append(", ");
    append_two_digits(&mut r, dt.day);
    r.append(" ");
    let m = dt.month;
    if m == 1 {
        r.append("Jan");
    } else if m == 2 {
        r.append("Feb");
    } else if m == 3 {
        r.append("Mar");
    } else if m == 4 {
        r.append("Apr");
    } else if m == 5 {
        r.append("May");
    } else if m == 6 {
        r.append("Jun");
    } else if m == 7 {
        r.append("Jul");
    } else if m == 8 {
        r.append("Aug");
    } else if m == 9 {
        r.append("Sep");
    } else if m == 10 {
        r.append("Oct");
    } else {
        if m == 11 {
            r.append("Nov");
        } else {
            r.append("Dec");
        }
    }
    r.append(" ");
    append_four_digits(&mut r, dt.year);
    r.append(" ");
    append_two_digits(&mut r, dt.hour);
    r.append(":");
    append_two_digits(&mut r, dt.minute);
    r.append(":");
    append_two_digits(&mut r, dt.second);
    r.append(" GMT");
    assert(r@ =~= rfc1123_seq(*dt));
    r
}

} // verus!
