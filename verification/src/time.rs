//! Calendar time in UTC, modeled natively.
//!
//! A [`Time`] is a proleptic-Gregorian civil timestamp with second
//! resolution, valid between the years 1970 and 9999. The epoch-millisecond
//! value of a `Time` is defined by recursive day counting
//! ([`days_before_year`], [`days_before_month`]), and [`Time::to_ms`]
//! computes it. The simulation clock itself runs on epoch milliseconds;
//! sub-day truncation is plain modular arithmetic on them.

use crate::text::{
    all_digits, digits_val, four_digits, is_digit, parse_digit, pow10, two_wide,
};
use crate::text::push_four_digits;
use crate::text::push_two_digits;
use vstd::prelude::*;
use vstd::string::StrSliceExecFns;

verus! {

pub const MS_PER_SECOND: i64 = 1_000;

pub const MS_PER_MINUTE: i64 = 60_000;

pub const MS_PER_HOUR: i64 = 3_600_000;

pub const MS_PER_DAY: i64 = 86_400_000;

/// Gregorian leap-year rule.
pub open spec fn is_leap_year(y: int) -> bool {
    (y % 4 == 0 && y % 100 != 0) || y % 400 == 0
}

/// Number of days in a month of a year.
pub open spec fn days_in_month_of(y: int, m: int) -> int {
    if m == 2 {
        if is_leap_year(y) {
            29
        } else {
            28
        }
    } else if m == 4 || m == 6 || m == 9 || m == 11 {
        30
    } else {
        31
    }
}

/// Days from 1970-01-01 to the first day of year `y`.
pub open spec fn days_before_year(y: int) -> int
    decreases y,
{
    if y <= 1970 {
        0
    } else {
        days_before_year(y - 1) + if is_leap_year(y - 1) {
            366int
        } else {
            365int
        }
    }
}

/// Days from the first of January of `y` to the first day of month `m`.
pub open spec fn days_before_month(y: int, m: int) -> int
    decreases m,
{
    if m <= 1 {
        0
    } else {
        days_before_month(y, m - 1) + days_in_month_of(y, m - 1)
    }
}

/// A civil UTC timestamp with second resolution.
#[derive(Clone, Copy, PartialEq, Eq, Structural, Debug, Hash)]
pub struct Time {
    pub year: u16,
    pub month: u8,
    pub day: u8,
    pub hour: u8,
    pub minute: u8,
    pub second: u8,
}

impl Time {
    /// A representable civil timestamp.
    pub open spec fn valid(self) -> bool {
        &&& 1970 <= self.year <= 9999
        &&& 1 <= self.month <= 12
        &&& 1 <= self.day <= days_in_month_of(self.year as int, self.month as int)
        &&& self.hour <= 23
        &&& self.minute <= 59
        &&& self.second <= 59
    }

    /// Milliseconds since 1970-01-01T00:00:00Z.
    pub open spec fn spec_ms(self) -> int {
        ((days_before_year(self.year as int) + days_before_month(
            self.year as int,
            self.month as int,
        ) + self.day - 1) * 86400 + self.hour * 3600 + self.minute * 60 + self.second) * 1000
    }

    /// Compute the epoch milliseconds of this timestamp.
    pub fn to_ms(&self) -> (r: i64)
        requires
            self.valid(),
        ensures
            r == self.spec_ms(),
            0 <= r < 260_000_000_000_000,
    {
        let mut days: i64 = 0;
        let mut y: u16 = 1970;
        while y < self.year
            invariant
                1970 <= y <= self.year,
                self.valid(),
                days == days_before_year(y as int),
                0 <= days <= 366 * (y - 1970),
            decreases self.year - y,
        {
            days = days + if is_leap(y) {
                366
            } else {
                365
            };
            y = y + 1;
        }
        let mut m: u8 = 1;
        let mut mdays: i64 = 0;
        while m < self.month
            invariant
                1 <= m <= self.month,
                self.valid(),
                mdays == days_before_month(self.year as int, m as int),
                0 <= mdays <= 31 * (m - 1),
            decreases self.month - m,
        {
            mdays = mdays + days_in_month(self.year, m) as i64;
            m = m + 1;
        }
        let total_days: i64 = days + mdays + (self.day as i64) - 1;
        let secs: i64 = total_days * 86400 + (self.hour as i64) * 3600 + (self.minute as i64) * 60
            + (self.second as i64);
        secs * 1000
    }

    /// Drop sub-second fields (a `Time` already has none finer).
    pub fn truncate_second(&self) -> (r: Time)
        ensures
            r == *self,
    {
        *self
    }

    /// Zero the sub-minute fields.
    pub fn truncate_minute(&self) -> (r: Time)
        ensures
            r == (Time { second: 0, ..*self }),
            self.valid() ==> r.valid(),
    {
        Time { second: 0, ..*self }
    }

    /// Zero the sub-hour fields.
    pub fn truncate_hour(&self) -> (r: Time)
        ensures
            r == (Time { minute: 0, second: 0, ..*self }),
            self.valid() ==> r.valid(),
    {
        Time { minute: 0, second: 0, ..*self }
    }

    /// Zero the sub-day fields.
    pub fn truncate_day(&self) -> (r: Time)
        ensures
            r == (Time { hour: 0, minute: 0, second: 0, ..*self }),
            self.valid() ==> r.valid(),
    {
        Time { hour: 0, minute: 0, second: 0, ..*self }
    }

    /// First minute of the month.
    pub fn truncate_month(&self) -> (r: Time)
        ensures
            r == (Time { day: 1, hour: 0, minute: 0, second: 0, ..*self }),
            self.valid() ==> r.valid(),
    {
        Time { day: 1, hour: 0, minute: 0, second: 0, ..*self }
    }

    /// First minute of the year.
    pub fn truncate_year(&self) -> (r: Time)
        ensures
            r == (Time { month: 1, day: 1, hour: 0, minute: 0, second: 0, ..*self }),
            self.valid() ==> r.valid(),
    {
        Time { month: 1, day: 1, hour: 0, minute: 0, second: 0, ..*self }
    }

    /// The first day of the following month.
    pub fn month_next(&self) -> (r: Time)
        requires
            self.valid(),
            self.year < 9999 || self.month < 12,
        ensures
            r.valid(),
            r.month as int == if self.month == 12 {
                1
            } else {
                self.month + 1
            },
            r.year as int == if self.month == 12 {
                self.year + 1
            } else {
                self.year as int
            },
            r.day == 1 && r.hour == 0 && r.minute == 0 && r.second == 0,
    {
        if self.month == 12 {
            Time { year: self.year + 1, month: 1, day: 1, hour: 0, minute: 0, second: 0 }
        } else {
            Time { year: self.year, month: self.month + 1, day: 1, hour: 0, minute: 0, second: 0 }
        }
    }

    /// The timestamp denoted by a digit string of one of the fixed forms
    /// `YYYY`, `YYYYMM`, `YYYYMMDD`, `YYYYMMDDHH`, `YYYYMMDDHHMM`,
    /// `YYYYMMDDHHMMSS`; omitted fields default to the start of the period.
    pub open spec fn spec_parse(s: Seq<char>) -> Time {
        Time {
            year: digits_val(s.subrange(0, 4)) as u16,
            month: if s.len() >= 6 {
                digits_val(s.subrange(4, 6)) as u8
            } else {
                1
            },
            day: if s.len() >= 8 {
                digits_val(s.subrange(6, 8)) as u8
            } else {
                1
            },
            hour: if s.len() >= 10 {
                digits_val(s.subrange(8, 10)) as u8
            } else {
                0
            },
            minute: if s.len() >= 12 {
                digits_val(s.subrange(10, 12)) as u8
            } else {
                0
            },
            second: if s.len() >= 14 {
                digits_val(s.subrange(12, 14)) as u8
            } else {
                0
            },
        }
    }

    /// Strings accepted by [`Time::parse`].
    pub open spec fn parse_ok(s: Seq<char>) -> bool {
        &&& (s.len() == 4 || s.len() == 6 || s.len() == 8 || s.len() == 10 || s.len() == 12
            || s.len() == 14)
        &&& all_digits(s)
        &&& Self::spec_parse(s).valid()
    }

    /// Parse a timestamp from one of the fixed digit forms.
    pub fn parse(s: &str) -> (r: Option<Time>)
        ensures
            r is Some <==> Self::parse_ok(s@),
            r matches Some(t) ==> t == Self::spec_parse(s@) && t.valid(),
    {
        let n = s.unicode_len();
        if !(n == 4 || n == 6 || n == 8 || n == 10 || n == 12 || n == 14) {
            return None;
        }
        let year: u32 = match read_number(s, 0, 4) {
            Some(v) => v,
            None => {
                return None;
            },
        };
        let month: u32 = if n >= 6 {
            match read_number(s, 4, 2) {
                Some(v) => v,
                None => {
                    return None;
                },
            }
        } else {
            1
        };
        let day: u32 = if n >= 8 {
            match read_number(s, 6, 2) {
                Some(v) => v,
                None => {
                    return None;
                },
            }
        } else {
            1
        };
        let hour: u32 = if n >= 10 {
            match read_number(s, 8, 2) {
                Some(v) => v,
                None => {
                    return None;
                },
            }
        } else {
            0
        };
        let minute: u32 = if n >= 12 {
            match read_number(s, 10, 2) {
                Some(v) => v,
                None => {
                    return None;
                },
            }
        } else {
            0
        };
        let second: u32 = if n >= 14 {
            match read_number(s, 12, 2) {
                Some(v) => v,
                None => {
                    return None;
                },
            }
        } else {
            0
        };
        let t = Time {
            year: year as u16,
            month: month as u8,
            day: day as u8,
            hour: hour as u8,
            minute: minute as u8,
            second: second as u8,
        };
        proof {
            assert(pow10(0) == 1);
            assert(pow10(1) == 10);
            assert(pow10(2) == 100);
            assert(pow10(3) == 1000);
            assert(pow10(4) == 10000);
            assert(all_digits(s@));
            assert(t == Self::spec_parse(s@));
        }
        if t.is_valid() {
            Some(t)
        } else {
            None
        }
    }

    /// Check validity of the civil fields.
    pub fn is_valid(&self) -> (r: bool)
        ensures
            r == self.valid(),
    {
        1970 <= self.year && self.year <= 9999 && 1 <= self.month && self.month <= 12 && 1
            <= self.day && self.day <= days_in_month(self.year, self.month) && self.hour <= 23
            && self.minute <= 59 && self.second <= 59
    }

    /// Render as `YYYYMM`.
    pub fn str_ym(&self) -> (r: String)
        requires
            self.valid(),
        ensures
            r@ == four_digits(self.year as int) + two_wide(self.month as int),
    {
        let mut out = String::new();
        push_four_digits(&mut out, self.year as u32);
        push_two_digits(&mut out, self.month as u32);
        out
    }

    /// Render as `YYYYMMDD`.
    pub fn str_ymd(&self) -> (r: String)
        requires
            self.valid(),
        ensures
            r@ == four_digits(self.year as int) + two_wide(self.month as int) + two_wide(
                self.day as int,
            ),
    {
        let mut out = String::new();
        push_four_digits(&mut out, self.year as u32);
        push_two_digits(&mut out, self.month as u32);
        push_two_digits(&mut out, self.day as u32);
        out
    }

    /// Render as `YYYYMMDD_HHMM`.
    pub fn str_ymd_hm(&self) -> (r: String)
        requires
            self.valid(),
        ensures
            r@ == four_digits(self.year as int) + two_wide(self.month as int) + two_wide(
                self.day as int,
            ) + seq!['_'] + two_wide(self.hour as int) + two_wide(self.minute as int),
    {
        let mut out = self.str_ymd();
        push_underscore(&mut out);
        push_two_digits(&mut out, self.hour as u32);
        push_two_digits(&mut out, self.minute as u32);
        out
    }

    /// Render as `YYYYMMDD_HHMMSS`.
    pub fn str_ymd_hms(&self) -> (r: String)
        requires
            self.valid(),
        ensures
            r@ == four_digits(self.year as int) + two_wide(self.month as int) + two_wide(
                self.day as int,
            ) + seq!['_'] + two_wide(self.hour as int) + two_wide(self.minute as int) + two_wide(
                self.second as int,
            ),
    {
        let mut out = self.str_ymd_hm();
        push_two_digits(&mut out, self.second as u32);
        out
    }
}

/// Leap-year test.
pub fn is_leap(y: u16) -> (r: bool)
    ensures
        r == is_leap_year(y as int),
{
    (y % 4 == 0 && y % 100 != 0) || y % 400 == 0
}

/// Number of days in a month.
pub fn days_in_month(y: u16, m: u8) -> (r: u8)
    ensures
        r as int == days_in_month_of(y as int, m as int),
{
    if m == 2 {
        if is_leap(y) {
            29
        } else {
            28
        }
    } else if m == 4 || m == 6 || m == 9 || m == 11 {
        30
    } else {
        31
    }
}

/// Read `k` digits starting at character `i`, most significant first.
fn read_number(s: &str, i: usize, k: usize) -> (r: Option<u32>)
    requires
        i + k <= s@.len(),
        i <= 16,
        1 <= k <= 4,
    ensures
        r matches Some(v) ==> (forall|x: int| i <= x < i + k ==> is_digit(#[trigger] s@[x])) && v
            == digits_val(s@.subrange(i as int, (i + k) as int)) && (v as int) < pow10(k as int),
        r is None ==> exists|x: int| i <= x < i + k && !is_digit(#[trigger] s@[x]),
{
    proof {
        assert(pow10(0) == 1);
        assert(pow10(1) == 10);
        assert(pow10(2) == 100);
        assert(pow10(3) == 1000);
        assert(pow10(4) == 10000);
    }
    let mut v: u32 = 0;
    let mut j: usize = 0;
    while j < k
        invariant
            i + k <= s@.len(),
            i <= 16,
            1 <= k <= 4,
            j <= k,
            forall|x: int| i <= x < i + j ==> is_digit(#[trigger] s@[x]),
            v == digits_val(s@.subrange(i as int, (i + j) as int)),
            (v as int) < pow10(j as int),
            pow10(1) == 10 && pow10(2) == 100 && pow10(3) == 1000 && pow10(4) == 10000,
        decreases k - j,
    {
        let c = s.get_char(i + j);
        match parse_digit(c) {
            Some(d) => {
                proof {
                    let sub1 = s@.subrange(i as int, i + j + 1);
                    assert(sub1.drop_last() =~= s@.subrange(i as int, (i + j) as int));
                    assert(sub1.last() == s@[i + j]);
                    assert(pow10(j + 1) == 10 * pow10(j as int));
                }
                v = v * 10 + d;
                j = j + 1;
            },
            None => {
                proof {
                    assert(i <= i + j < i + k && !is_digit(s@[i + j]));
                }
                return None;
            },
        }
    }
    Some(v)
}

/// A one-character underscore string.
fn push_underscore(out: &mut String)
    ensures
        final(out)@ == old(out)@ + seq!['_'],
{
    proof {
        reveal_strlit("_");
    }
    vstd::string::StringExecFns::append(out, "_");
}

/// Truncate nonnegative epoch milliseconds to the containing minute.
pub fn ms_truncate_minute(ms: i64) -> (r: i64)
    requires
        0 <= ms,
    ensures
        r == ((ms as int) / (MS_PER_MINUTE as int)) * (MS_PER_MINUTE as int),
        0 <= r <= ms,
{
    proof {
        vstd::arithmetic::div_mod::lemma_fundamental_div_mod(ms as int, MS_PER_MINUTE as int);
        vstd::arithmetic::div_mod::lemma_mod_bound(ms as int, MS_PER_MINUTE as int);
        vstd::arithmetic::div_mod::lemma_div_pos_is_pos(ms as int, MS_PER_MINUTE as int);
    }
    ((ms as u64) / (MS_PER_MINUTE as u64) * (MS_PER_MINUTE as u64)) as i64
}

/// Truncate nonnegative epoch milliseconds to the containing hour.
pub fn ms_truncate_hour(ms: i64) -> (r: i64)
    requires
        0 <= ms,
    ensures
        r == ((ms as int) / (MS_PER_HOUR as int)) * (MS_PER_HOUR as int),
        0 <= r <= ms,
{
    proof {
        vstd::arithmetic::div_mod::lemma_fundamental_div_mod(ms as int, MS_PER_HOUR as int);
        vstd::arithmetic::div_mod::lemma_mod_bound(ms as int, MS_PER_HOUR as int);
        vstd::arithmetic::div_mod::lemma_div_pos_is_pos(ms as int, MS_PER_HOUR as int);
    }
    ((ms as u64) / (MS_PER_HOUR as u64) * (MS_PER_HOUR as u64)) as i64
}

} // verus!
