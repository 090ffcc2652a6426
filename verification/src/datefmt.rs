//! End-date rendering: an RFC 3339 timestamp is shown as
//! `YYYY-MM-DD HH:MM`; anything else is shown verbatim; an absent date
//! shows `n/a`. Validation is full: calendar dates (leap years
//! included), time-of-day ranges with the leap second allowed, and a
//! `Z` or `+hh:mm`/`-hh:mm` offset.
use vstd::prelude::*;

use crate::num::digit_of;
use crate::num::is_digit;

verus! {

pub open spec fn two_val(s: Seq<char>, i: int) -> int {
    10 * digit_of(s[i]) + digit_of(s[i + 1])
}

pub open spec fn year_val(s: Seq<char>) -> int {
    1000 * digit_of(s[0]) + 100 * digit_of(s[1]) + 10 * digit_of(s[2]) + digit_of(s[3])
}

pub open spec fn is_leap_year(y: int) -> bool {
    y % 4 == 0 && (y % 100 != 0 || y % 400 == 0)
}

pub open spec fn days_in_month(y: int, m: int) -> int {
    if m == 2 {
        if is_leap_year(y) {
            29
        } else {
            28
        }
    } else if m == 4 || m == 6 || m == 9 || m == 11 {
        30
    } else {
        31
    }
}

/// End of the digit run starting at `i`.
pub open spec fn digits_end(s: Seq<char>, i: int) -> int
    decreases s.len() - i,
    when 0 <= i
{
    if i < s.len() && is_digit(s[i]) {
        digits_end(s, i + 1)
    } else {
        i
    }
}

/// The fixed `YYYY-MM-DD` and `HH:MM:SS` skeleton with valid field
/// ranges: a real calendar date, hours to 23, minutes to 59, seconds to
/// 60 for the leap second.
pub open spec fn datetime_head_ok(s: Seq<char>) -> bool {
    &&& s.len() >= 20
    &&& is_digit(s[0]) && is_digit(s[1]) && is_digit(s[2]) && is_digit(s[3])
    &&& s[4] == '-'
    &&& is_digit(s[5]) && is_digit(s[6])
    &&& s[7] == '-'
    &&& is_digit(s[8]) && is_digit(s[9])
    &&& (s[10] == 'T' || s[10] == 't')
    &&& is_digit(s[11]) && is_digit(s[12])
    &&& s[13] == ':'
    &&& is_digit(s[14]) && is_digit(s[15])
    &&& s[16] == ':'
    &&& is_digit(s[17]) && is_digit(s[18])
    &&& 1 <= two_val(s, 5) <= 12
    &&& 1 <= two_val(s, 8) <= days_in_month(year_val(s), two_val(s, 5))
    &&& two_val(s, 11) <= 23
    &&& two_val(s, 14) <= 59
    &&& two_val(s, 17) <= 60
}

/// Where the offset must start: right after the seconds, or after a
/// nonempty fraction introduced by a dot.
pub open spec fn offset_start(s: Seq<char>) -> int {
    if s.len() > 19 && s[19] == '.' {
        digits_end(s, 20)
    } else {
        19
    }
}

/// A `Z` (either case) or a signed `hh:mm` offset filling the rest of
/// the string.
pub open spec fn offset_ok(s: Seq<char>, o: int) -> bool {
    &&& o < s.len()
    &&& if s[o] == 'Z' || s[o] == 'z' {
        o == s.len() - 1
    } else {
        &&& (s[o] == '+' || s[o] == '-')
        &&& s.len() == o + 6
        &&& is_digit(s[o + 1]) && is_digit(s[o + 2])
        &&& s[o + 3] == ':'
        &&& is_digit(s[o + 4]) && is_digit(s[o + 5])
        &&& two_val(s, o + 1) <= 23
        &&& two_val(s, o + 4) <= 59
    }
}

/// A full RFC 3339 timestamp: head, optional fraction, offset. A bare
/// dot with no fraction digits is rejected.
pub open spec fn is_rfc3339(s: Seq<char>) -> bool {
    &&& datetime_head_ok(s)
    &&& (s.len() > 19 && s[19] == '.' ==> digits_end(s, 20) > 20)
    &&& offset_ok(s, offset_start(s))
}

/// The display form of an end date: a valid timestamp reformatted to
/// `YYYY-MM-DD HH:MM`, an invalid one verbatim, an absent one `n/a`.
pub open spec fn end_date_display_spec(end_date: Option<Seq<char>>) -> Seq<char> {
    match end_date {
        None => "n/a"@,
        Some(s) => if is_rfc3339(s) {
            s.take(10) + " "@ + s.subrange(11, 16)
        } else {
            s
        },
    }
}

fn is_digit_at(s: &str, j: usize) -> (b: bool)
    requires
        j < s@.len(),
    ensures
        b == is_digit(s@[j as int]),
{
    let c = s.get_char(j);
    let u: u32 = c as u32;
    48 <= u && u <= 57
}

fn digit_at(s: &str, i: usize) -> (r: Option<u32>)
    requires
        i < s@.len(),
    ensures
        r matches Some(d) ==> is_digit(s@[i as int]) && d == digit_of(s@[i as int]),
        r is None ==> !is_digit(s@[i as int]),
{
    let c = s.get_char(i);
    let u: u32 = c as u32;
    if 48 <= u && u <= 57 {
        Some(u - 48)
    } else {
        None
    }
}

/// Two-digit field at `i`, when both characters are digits.
fn two_at(s: &str, i: usize) -> (r: Option<u32>)
    requires
        i + 1 < s@.len(),
        s@.len() <= usize::MAX,
    ensures
        r matches Some(v) ==> is_digit(s@[i as int]) && is_digit(s@[i + 1]) && v == two_val(
            s@,
            i as int,
        ),
        r is None ==> !(is_digit(s@[i as int]) && is_digit(s@[i + 1])),
{
    match (digit_at(s, i), digit_at(s, i + 1)) {
        (Some(a), Some(b)) => Some(10 * a + b),
        _ => None,
    }
}

/// Whether `s` is a valid RFC 3339 timestamp under `is_rfc3339`.
#[verifier::rlimit(60)]
pub fn check_rfc3339(s: &str) -> (r: bool)
    ensures
        r == is_rfc3339(s@),
{
    let n: usize = s.unicode_len();
    if n < 20 {
        return false;
    }
    // the date and time skeleton
    if s.get_char(4) != '-' || s.get_char(7) != '-' || s.get_char(13) != ':' || s.get_char(16)
        != ':' {
        return false;
    }
    let sep = s.get_char(10);
    if sep != 'T' && sep != 't' {
        return false;
    }
    let y3 = match two_at(s, 0) {
        Some(v) => v,
        None => {
            return false;
        },
    };
    let y4 = match two_at(s, 2) {
        Some(v) => v,
        None => {
            return false;
        },
    };
    let year: u32 = 100 * y3 + y4;
    proof {
        assert(year == year_val(s@));
    }
    let month = match two_at(s, 5) {
        Some(v) => v,
        None => {
            return false;
        },
    };
    let day = match two_at(s, 8) {
        Some(v) => v,
        None => {
            return false;
        },
    };
    let hour = match two_at(s, 11) {
        Some(v) => v,
        None => {
            return false;
        },
    };
    let minute = match two_at(s, 14) {
        Some(v) => v,
        None => {
            return false;
        },
    };
    let second = match two_at(s, 17) {
        Some(v) => v,
        None => {
            return false;
        },
    };
    if month < 1 || month > 12 {
        return false;
    }
    let leap: bool = year % 4 == 0 && (year % 100 != 0 || year % 400 == 0);
    let month_days: u32 = if month == 2 {
        if leap {
            29
        } else {
            28
        }
    } else if month == 4 || month == 6 || month == 9 || month == 11 {
        30
    } else {
        31
    };
    if day < 1 || day > month_days {
        return false;
    }
    if hour > 23 || minute > 59 || second > 60 {
        return false;
    }
    // optional fraction
    let mut o: usize = 19;
    if s.get_char(19) == '.' {
        let mut j: usize = 20;
        while j < n && is_digit_at(s, j)
            invariant
                20 <= j <= n,
                n == s@.len(),
                digits_end(s@, 20) == digits_end(s@, j as int),
            decreases n - j,
        {
            j = j + 1;
        }
        if j == 20 {
            return false;
        }
        o = j;
    }
    proof {
        assert(o == offset_start(s@));
    }
    // offset
    if o >= n {
        return false;
    }
    let oc = s.get_char(o);
    if oc == 'Z' || oc == 'z' {
        return o == n - 1;
    }
    if oc != '+' && oc != '-' {
        return false;
    }
    if n - o != 6 {
        return false;
    }
    if s.get_char(o + 3) != ':' {
        return false;
    }
    let oh = match two_at(s, o + 1) {
        Some(v) => v,
        None => {
            return false;
        },
    };
    let om = match two_at(s, o + 4) {
        Some(v) => v,
        None => {
            return false;
        },
    };
    oh <= 23 && om <= 59
}

/// Renders an end date for the table: reformatted when it parses as an
/// RFC 3339 timestamp, verbatim when not, `n/a` when absent.
pub fn format_end_date(end_date: &Option<String>) -> (r: String)
    ensures
        r@ == end_date_display_spec(end_date.deep_view()),
{
    match end_date {
        None => String::from_str("n/a"),
        Some(s) => {
            if check_rfc3339(s.as_str()) {
                let mut out = String::from_str(s.as_str().substring_char(0, 10));
                out.append(" ");
                out.append(s.as_str().substring_char(11, 16));
                proof {
                    assert(s@.subrange(0, 10) =~= s@.take(10));
                }
                out
            } else {
                s.clone()
            }
        },
    }
}

} // verus!
