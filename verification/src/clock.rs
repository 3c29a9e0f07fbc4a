//! Creation times in the form the database records them:
//! `YYYY-MM-DD HH:MM:SS`, in UTC.

use vstd::prelude::*;

verus! {

/// Reads the system clock through `std::time::SystemTime::now`: the whole
/// seconds since the Unix epoch, or `None` for a clock set before it. The
/// time is read, not computed, so nothing is stated of it.
#[verifier::external_body]
fn unix_time_seconds() -> Option<u64> {
    std::time::SystemTime::now().duration_since(std::time::UNIX_EPOCH).ok().map(|d| d.as_secs())
}

pub open spec fn is_leap_year(year: int) -> bool {
    (year % 4 == 0 && year % 100 != 0) || year % 400 == 0
}

pub open spec fn days_in_year(year: int) -> int {
    if is_leap_year(year) {
        366
    } else {
        365
    }
}

pub open spec fn days_in_month(year: int, month: int) -> int {
    if month == 2 {
        if is_leap_year(year) {
            29
        } else {
            28
        }
    } else if month == 4 || month == 6 || month == 9 || month == 11 {
        30
    } else {
        31
    }
}

/// The month and day `days` days after January 1 of `year`, counting months
/// from `month`: `(year, month, day)` with the day counted from 1.
pub open spec fn month_and_day(days: nat, year: int, month: int) -> (int, int, int)
    decreases 12 - month,
{
    if month < 12 && days >= days_in_month(year, month) {
        month_and_day((days - days_in_month(year, month)) as nat, year, month + 1)
    } else {
        (year, month, days + 1int)
    }
}

/// The calendar date `days` days after January 1 of `year`.
pub open spec fn civil_date(days: nat, year: int) -> (int, int, int)
    decreases days,
{
    if days >= days_in_year(year) {
        civil_date((days - days_in_year(year)) as nat, year + 1)
    } else {
        month_and_day(days, year, 1)
    }
}

pub open spec fn digit_chars() -> Seq<char> {
    seq!['0', '1', '2', '3', '4', '5', '6', '7', '8', '9']
}

/// The decimal digits of `n`.
pub open spec fn decimal(n: nat) -> Seq<char>
    decreases n,
{
    if n < 10 {
        seq![digit_chars()[n as int]]
    } else {
        decimal(n / 10) + seq![digit_chars()[(n % 10) as int]]
    }
}

pub open spec fn zeros(count: nat) -> Seq<char> {
    Seq::new(count, |i: int| '0')
}

/// The decimal digits of `n`, with zeros in front up to `width` characters.
pub open spec fn padded(n: nat, width: nat) -> Seq<char> {
    if decimal(n).len() < width {
        zeros((width - decimal(n).len()) as nat) + decimal(n)
    } else {
        decimal(n)
    }
}

/// The text of the instant `secs` seconds after the Unix epoch.
pub open spec fn timestamp_text(secs: nat) -> Seq<char> {
    let (y, m, d) = civil_date(secs / 86400, 1970);
    let t = secs % 86400;
    padded(y as nat, 4) + seq!['-'] + padded(m as nat, 2) + seq!['-'] + padded(d as nat, 2) + seq![' ']
        + padded(t / 3600, 2) + seq![':'] + padded((t % 3600) / 60, 2) + seq![':'] + padded(t % 60, 2)
}

fn digit_str(d: u64) -> (r: &'static str)
    requires
        d < 10,
    ensures
        r@ == seq![digit_chars()[d as int]],
{
    let all = "0123456789";
    proof {
        reveal_strlit("0123456789");
    }
    let r = all.substring_char(d as usize, (d + 1) as usize);
    assert(r@ =~= seq![digit_chars()[d as int]]);
    r
}

/// The decimal digits of `n`.
pub fn decimal_string(n: u64) -> (r: String)
    ensures
        r@ == decimal(n as nat),
{
    let mut acc = String::new();
    let mut m = n;
    loop
        invariant
            decimal(n as nat) == decimal(m as nat) + acc@,
        decreases m,
    {
        let d = m % 10;
        let s = digit_str(d);
        let next = to_owned(s).concat(acc.as_str());
        if m < 10 {
            assert(decimal(m as nat) =~= seq![digit_chars()[d as int]]);
            assert(next@ =~= decimal(n as nat));
            return next;
        }
        assert(decimal(m as nat) == decimal((m / 10) as nat) + seq![digit_chars()[d as int]]);
        acc = next;
        m = m / 10;
        assert(decimal(n as nat) =~= decimal(m as nat) + acc@);
    }
}

fn to_owned(s: &str) -> (r: String)
    ensures
        r@ == s@,
{
    String::from_str(s)
}

/// The decimal digits of `n`, with zeros in front up to `width` characters.
pub fn padded_decimal(n: u64, width: usize) -> (r: String)
    ensures
        r@ == padded(n as nat, width as nat),
{
    let digits = decimal_string(n);
    let len = digits.as_str().unicode_len();
    if len >= width {
        return digits;
    }
    let mut acc = digits;
    let mut count: usize = 0;
    proof {
        reveal_strlit("0");
    }
    while count < width - len
        invariant
            len == decimal(n as nat).len(),
            len < width,
            count <= width - len,
            acc@ == zeros(count as nat) + decimal(n as nat),
        decreases width - len - count,
    {
        proof {
            reveal_strlit("0");
        }
        acc = to_owned("0").concat(acc.as_str());
        count = count + 1;
        assert(acc@ =~= zeros(count as nat) + decimal(n as nat));
    }
    acc
}

/// The text of the instant `secs` seconds after the Unix epoch.
pub fn format_timestamp(secs: u64) -> (r: String)
    ensures
        r@ == timestamp_text(secs as nat),
{
    let mut days = secs / 86400;
    let mut year: u64 = 1970;
    while days >= year_length(year)
        invariant
            1970 <= year <= 1970 + secs / 86400 - days,
            days <= secs / 86400,
            days <= u64::MAX / 86400,
            civil_date((secs / 86400) as nat, 1970) == civil_date(days as nat, year as int),
        decreases days,
    {
        days = days - year_length(year);
        year = year + 1;
    }
    let mut month: u64 = 1;
    while month < 12 && days >= month_length(year, month)
        invariant
            1 <= month <= 12,
            days < 366,
            civil_date((secs / 86400) as nat, 1970) == month_and_day(days as nat, year as int, month as int),
        decreases 12 - month,
    {
        days = days - month_length(year, month);
        month = month + 1;
    }
    let day = days + 1;
    let t = secs % 86400;
    proof {
        reveal_strlit("-");
        reveal_strlit(" ");
        reveal_strlit(":");
    }
    let r = padded_decimal(year, 4).concat("-").concat(padded_decimal(month, 2).as_str()).concat(
        "-",
    ).concat(padded_decimal(day, 2).as_str()).concat(" ").concat(
        padded_decimal(t / 3600, 2).as_str(),
    ).concat(":").concat(padded_decimal((t % 3600) / 60, 2).as_str()).concat(":").concat(
        padded_decimal(t % 60, 2).as_str(),
    );
    assert(r@ =~= timestamp_text(secs as nat));
    r
}

fn is_leap(year: u64) -> (r: bool)
    ensures
        r == is_leap_year(year as int),
{
    (year % 4 == 0 && year % 100 != 0) || year % 400 == 0
}

fn year_length(year: u64) -> (r: u64)
    ensures
        r == days_in_year(year as int),
{
    if is_leap(year) {
        366
    } else {
        365
    }
}

fn month_length(year: u64, month: u64) -> (r: u64)
    ensures
        r == days_in_month(year as int, month as int),
{
    if month == 2 {
        if is_leap(year) {
            29
        } else {
            28
        }
    } else if month == 4 || month == 6 || month == 9 || month == 11 {
        30
    } else {
        31
    }
}

/// The current time as the database records it; a clock set before the
/// Unix epoch reads as the epoch.
pub fn current_timestamp() -> (r: String)
    ensures
        exists|secs: nat| r@ == #[trigger] timestamp_text(secs),
{
    let secs = match unix_time_seconds() {
        Some(s) => s,
        None => 0,
    };
    format_timestamp(secs)
}

} // verus!
