//! Decoding of the headerless archive CSV rows into typed records.
//!
//! Splitting and numeric parsing are defined by spec functions over
//! character sequences: [`split_on`] fixes the field layout, and
//! [`dec_text_raw`] / [`int_text_val`] fix the value of every numeric
//! field, fractions truncated toward zero at the eighth digit.

use crate::decimal::{d_fits, Decimal, MAX_RAW};
use crate::text::{all_digits, digits_val, is_digit, parse_digit, pow10};
use vstd::prelude::*;
use vstd::string::StrSliceExecFns;

verus! {

/// Largest integer part (`10^22`) whose scaled value can still fit.
pub const INT_PART_CAP: i128 = 10_000_000_000_000_000_000_000;

// ---------------------------------------------------------------------------
// Splitting
// ---------------------------------------------------------------------------
/// Index of the first occurrence of `sep`, or `-1`.
pub open spec fn first_at(s: Seq<char>, sep: char) -> int
    decreases s.len(),
{
    if s.len() == 0 {
        -1
    } else if s.first() == sep {
        0
    } else {
        let r = first_at(s.drop_first(), sep);
        if r == -1 {
            -1
        } else {
            r + 1
        }
    }
}

/// The first occurrence is an occurrence, and nothing earlier is one.
pub proof fn lemma_first_at(s: Seq<char>, sep: char)
    ensures
        first_at(s, sep) == -1 <==> (forall|i: int| 0 <= i < s.len() ==> s[i] != sep),
        first_at(s, sep) != -1 ==> 0 <= first_at(s, sep) < s.len() && s[first_at(s, sep)] == sep
            && (forall|i: int| 0 <= i < first_at(s, sep) ==> s[i] != sep),
    decreases s.len(),
{
    if s.len() > 0 {
        let rest = s.drop_first();
        lemma_first_at(rest, sep);
        assert(forall|j: int| 0 <= j < rest.len() ==> #[trigger] rest[j] == s[j + 1]);
        if forall|i: int| 0 <= i < s.len() ==> s[i] != sep {
            assert forall|j: int| 0 <= j < rest.len() implies #[trigger] rest[j] != sep by {
                assert(s[j + 1] != sep);
            }
        }
        if first_at(s, sep) == -1 {
            assert forall|i: int| 0 <= i < s.len() implies s[i] != sep by {
                if i > 0 {
                    assert(rest[i - 1] != sep);
                }
            }
        } else {
            let k = first_at(s, sep);
            if k > 0 {
                assert(s[k] == rest[k - 1]);
                assert forall|i: int| 0 <= i < k implies s[i] != sep by {
                    if i > 0 {
                        assert(rest[i - 1] != sep);
                    }
                }
            }
        }
    }
}

/// A first occurrence found by a forward scan agrees with `first_at`.
proof fn lemma_first_at_scan(s: Seq<char>, sep: char, i: int)
    requires
        0 <= i < s.len(),
        s[i] == sep,
        forall|j: int| 0 <= j < i ==> s[j] != sep,
    ensures
        first_at(s, sep) == i,
    decreases i,
{
    if i > 0 {
        let rest = s.drop_first();
        assert(forall|j: int| 0 <= j < rest.len() ==> #[trigger] rest[j] == s[j + 1]);
        assert(forall|j: int| 0 <= j < i - 1 ==> rest[j] != sep);
        lemma_first_at_scan(rest, sep, i - 1);
    }
}

/// Split on a separator; always at least one (possibly empty) piece.
pub open spec fn split_on(s: Seq<char>, sep: char) -> Seq<Seq<char>>
    decreases s.len(),
    via split_on_dec
{
    let i = first_at(s, sep);
    if i == -1 {
        seq![s]
    } else {
        seq![s.take(i)] + split_on(s.skip(i + 1), sep)
    }
}

#[via_fn]
proof fn split_on_dec(s: Seq<char>, sep: char) {
    lemma_first_at(s, sep);
}

/// Find the first occurrence of `sep`, by forward scan.
fn find_char(s: &str, sep: char) -> (r: Option<usize>)
    ensures
        match r {
            Some(i) => i < s@.len() && first_at(s@, sep) == i,
            None => first_at(s@, sep) == -1,
        },
{
    proof {
        lemma_first_at(s@, sep);
    }
    let n = s.unicode_len();
    let mut i: usize = 0;
    while i < n
        invariant
            n == s@.len(),
            i <= n,
            forall|j: int| 0 <= j < i ==> s@[j] != sep,
        decreases n - i,
    {
        if s.get_char(i) == sep {
            proof {
                lemma_first_at_scan(s@, sep, i as int);
            }
            return Some(i);
        }
        i = i + 1;
    }
    None
}

/// Split a string on a separator character.
pub fn split_str(s: &str, sep: char) -> (r: Vec<String>)
    ensures
        r@.map_values(|f: String| f@) =~= split_on(s@, sep),
    decreases s@.len(),
{
    let n = s.unicode_len();
    match find_char(s, sep) {
        None => {
            let mut r: Vec<String> = Vec::new();
            r.push(s.to_owned());
            proof {
                assert(r@.map_values(|f: String| f@) =~= split_on(s@, sep));
            }
            r
        },
        Some(i) => {
            let head = s.substring_char(0, i);
            let tail = s.substring_char(i + 1, n);
            let mut r: Vec<String> = Vec::new();
            r.push(head.to_owned());
            let mut rest = split_str(tail, sep);
            let ghost restv = rest@;
            r.append(&mut rest);
            proof {
                assert(r@.len() == 1 + restv.len());
                assert(forall|x: int|
                    0 <= x < restv.len() ==> #[trigger] r@[x + 1] == restv[x]);
                assert(r@.map_values(|f: String| f@) =~= seq![s@.take(i as int)]
                    + restv.map_values(|f: String| f@));
                assert(r@.map_values(|f: String| f@) =~= split_on(s@, sep));
            }
            r
        },
    }
}

// ---------------------------------------------------------------------------
// Numbers
// ---------------------------------------------------------------------------
/// A nonempty run of digits.
pub open spec fn digits_ok(s: Seq<char>) -> bool {
    s.len() > 0 && all_digits(s)
}

/// Shape of an unsigned plain decimal: digits, optionally a dot and more
/// digits.
pub open spec fn uns_ok(t: Seq<char>) -> bool {
    let dot = first_at(t, '.');
    if dot == -1 {
        digits_ok(t)
    } else {
        digits_ok(t.take(dot)) && digits_ok(t.skip(dot + 1))
    }
}

/// Raw (scaled by `10^8`) magnitude of an unsigned plain decimal, the
/// fraction truncated toward zero at the eighth digit.
pub open spec fn uns_raw(t: Seq<char>) -> int {
    let dot = first_at(t, '.');
    let ip = if dot == -1 {
        t
    } else {
        t.take(dot)
    };
    let fp = if dot == -1 {
        Seq::<char>::empty()
    } else {
        t.skip(dot + 1)
    };
    let f8 = if fp.len() >= 8 {
        fp.take(8)
    } else {
        fp
    };
    digits_val(ip) * 100_000_000 + digits_val(f8) * pow10(8 - f8.len())
}

/// Does `s` start with a minus sign?
pub open spec fn has_minus(s: Seq<char>) -> bool {
    s.len() > 0 && s[0] == '-'
}

/// The unsigned part of a number text.
pub open spec fn sign_body(s: Seq<char>) -> Seq<char> {
    if has_minus(s) {
        s.skip(1)
    } else {
        s
    }
}

/// Shape of a plain decimal number: optional minus sign, an integer part,
/// and an optional fractional part behind one dot.
pub open spec fn dec_text_ok(s: Seq<char>) -> bool {
    uns_ok(sign_body(s))
}

/// Raw (scaled) value of a plain decimal number.
pub open spec fn dec_text_raw(s: Seq<char>) -> int {
    if has_minus(s) {
        -uns_raw(sign_body(s))
    } else {
        uns_raw(sign_body(s))
    }
}

/// Digit strings denote nonnegative numbers.
pub proof fn lemma_digits_val_nonneg(s: Seq<char>)
    requires
        all_digits(s),
    ensures
        digits_val(s) >= 0,
    decreases s.len(),
{
    if s.len() > 0 {
        lemma_digits_val_nonneg(s.drop_last());
    }
}

/// Powers of ten are positive.
pub proof fn lemma_pow10_pos(n: int)
    ensures
        pow10(n) >= 1,
    decreases n,
{
    if n > 0 {
        lemma_pow10_pos(n - 1);
    }
}

/// Concrete small powers of ten.
pub proof fn lemma_pow10_concrete()
    ensures
        pow10(0) == 1,
        pow10(1) == 10,
        pow10(2) == 100,
        pow10(3) == 1000,
        pow10(4) == 10000,
        pow10(5) == 100000,
        pow10(6) == 1000000,
        pow10(7) == 10000000,
        pow10(8) == 100000000,
{
}

/// Positional decomposition of a digit string at `k`.
pub proof fn lemma_digits_split(s: Seq<char>, k: int)
    requires
        0 <= k <= s.len(),
    ensures
        digits_val(s) == digits_val(s.take(k)) * pow10(s.len() - k) + digits_val(s.skip(k)),
    decreases s.len() - k,
{
    if k == s.len() {
        assert(s.take(k) =~= s);
        assert(s.skip(k) =~= Seq::<char>::empty());
        vstd::arithmetic::mul::lemma_mul_basics(digits_val(s));
    } else {
        let d = s.drop_last();
        lemma_digits_split(d, k);
        assert(d.take(k) =~= s.take(k));
        assert(d.skip(k) =~= s.skip(k).drop_last());
        assert(s.skip(k).last() == s.last());
        let a = digits_val(s.take(k));
        let p = pow10(d.len() - k);
        assert(pow10(s.len() - k) == 10 * pow10(s.len() - k - 1));
        assert((a * p) * 10 == a * (10 * p)) by (nonlinear_arith);
        assert(digits_val(s) == digits_val(d) * 10 + crate::text::digit_val(s.last()));
    }
}

/// A `k`-digit string denotes less than `10^k`.
pub proof fn lemma_digits_bound(s: Seq<char>)
    requires
        all_digits(s),
    ensures
        digits_val(s) < pow10(s.len() as int),
    decreases s.len(),
{
    if s.len() > 0 {
        lemma_digits_bound(s.drop_last());
    }
}

/// Read a whole string of digits as a magnitude, stopping with `None` as
/// soon as it can no longer fit under `cap`.
fn read_digits_mag(s: &str, cap: i128) -> (r: Option<i128>)
    requires
        0 < cap <= MAX_RAW,
    ensures
        all_digits(s@) && digits_val(s@) <= cap ==> r == Some(digits_val(s@) as i128),
        r matches Some(v) ==> all_digits(s@) && v as int == digits_val(s@) && 0 <= v <= cap,
{
    let n = s.unicode_len();
    let mut acc: i128 = 0;
    let mut i: usize = 0;
    while i < n
        invariant
            i <= n,
            n == s@.len(),
            0 < cap <= MAX_RAW,
            all_digits(s@.take(i as int)),
            acc as int == digits_val(s@.take(i as int)),
            0 <= acc <= cap,
        decreases n - i,
    {
        let c = s.get_char(i);
        let d = match parse_digit(c) {
            Some(d) => d,
            None => {
                proof {
                    assert(!is_digit(s@[i as int]));
                }
                return None;
            },
        };
        proof {
            let sub1 = s@.take(i + 1);
            assert(sub1.drop_last() =~= s@.take(i as int));
            assert(sub1.last() == s@[i as int]);
        }
        let next: i128 = acc * 10 + (d as i128);
        acc = next;
        i = i + 1;
        if acc > cap {
            proof {
                lemma_digits_split(s@, i as int);
                lemma_pow10_pos(s@.len() - i);
                if all_digits(s@) {
                    assert(all_digits(s@.skip(i as int))) by {
                        assert(forall|x: int|
                            0 <= x < s@.skip(i as int).len() ==> #[trigger] s@.skip(
                                i as int,
                            )[x] == s@[x + i]);
                    }
                    lemma_digits_val_nonneg(s@.skip(i as int));
                    vstd::arithmetic::mul::lemma_mul_inequality(
                        1,
                        pow10(s@.len() - i),
                        digits_val(s@.take(i as int)),
                    );
                    vstd::arithmetic::mul::lemma_mul_is_commutative(
                        digits_val(s@.take(i as int)),
                        pow10(s@.len() - i),
                    );
                    assert(digits_val(s@) > cap);
                }
            }
            return None;
        }
    }
    proof {
        assert(s@.take(n as int) =~= s@);
    }
    Some(acc)
}

/// Is the whole string digits?
fn check_digits(s: &str) -> (r: bool)
    ensures
        r == all_digits(s@),
{
    let n = s.unicode_len();
    let mut i: usize = 0;
    while i < n
        invariant
            i <= n,
            n == s@.len(),
            forall|j: int| 0 <= j < i ==> is_digit(#[trigger] s@[j]),
        decreases n - i,
    {
        let c = s.get_char(i);
        if parse_digit(c).is_none() {
            proof {
                assert(!is_digit(s@[i as int]));
            }
            return false;
        }
        i = i + 1;
    }
    true
}

/// Ten to a small nonnegative power.
fn pow10_exec(n: u32) -> (r: i128)
    requires
        n <= 8,
    ensures
        r as int == pow10(n as int),
        1 <= r <= 100_000_000,
{
    proof {
        lemma_pow10_concrete();
    }
    match n {
        0 => 1,
        1 => 10,
        2 => 100,
        3 => 1000,
        4 => 10000,
        5 => 100000,
        6 => 1000000,
        7 => 10000000,
        _ => 100000000,
    }
}

/// Parse the unsigned body of a decimal number into its raw magnitude.
fn parse_unsigned_raw(t: &str) -> (r: Option<i128>)
    ensures
        r is Some <==> uns_ok(t@) && uns_raw(t@) <= MAX_RAW,
        r matches Some(v) ==> v as int == uns_raw(t@) && 0 <= v,
{
    proof {
        lemma_pow10_concrete();
    }
    let n = t.unicode_len();
    match find_char(t, '.') {
        None => {
            if n == 0 {
                return None;
            }
            let mag = match read_digits_mag(t, INT_PART_CAP) {
                Some(m) => m,
                None => {
                    proof {
                        if uns_ok(t@) {
                            // the integer part alone already exceeds the cap
                            assert(digits_val(t@) > INT_PART_CAP as int);
                            assert(uns_raw(t@) == digits_val(t@) * 100_000_000 + digits_val(
                                Seq::<char>::empty(),
                            ) * pow10(8));
                            vstd::arithmetic::mul::lemma_mul_inequality(
                                INT_PART_CAP as int + 1,
                                digits_val(t@),
                                100_000_000,
                            );
                        }
                    }
                    return None;
                },
            };
            proof {
                assert(uns_raw(t@) == digits_val(t@) * 100_000_000 + digits_val(
                    Seq::<char>::empty(),
                ) * pow10(8));
            }
            Some(mag * 100_000_000)
        },
        Some(dot) => {
            let ghost ip = t@.take(dot as int);
            let ghost fp = t@.skip(dot as int + 1);
            let ip_str = t.substring_char(0, dot);
            let fp_str = t.substring_char(dot + 1, n);
            if ip_str.unicode_len() == 0 || fp_str.unicode_len() == 0 {
                return None;
            }
            if !check_digits(fp_str) {
                return None;
            }
            let mag_i = match read_digits_mag(ip_str, INT_PART_CAP) {
                Some(m) => m,
                None => {
                    proof {
                        if uns_ok(t@) {
                            assert(digits_val(ip) > INT_PART_CAP as int);
                            let f8 = if fp.len() >= 8 {
                                fp.take(8)
                            } else {
                                fp
                            };
                            assert(all_digits(f8)) by {
                                assert(forall|x: int|
                                    0 <= x < f8.len() ==> #[trigger] f8[x] == fp[x]);
                            }
                            lemma_digits_val_nonneg(f8);
                            lemma_pow10_pos(8 - f8.len());
                            vstd::arithmetic::mul::lemma_mul_inequality(
                                0,
                                digits_val(f8),
                                pow10(8 - f8.len()),
                            );
                            vstd::arithmetic::mul::lemma_mul_inequality(
                                INT_PART_CAP as int + 1,
                                digits_val(ip),
                                100_000_000,
                            );
                        }
                    }
                    return None;
                },
            };
            let fp_n = fp_str.unicode_len();
            let f_take: usize = if fp_n >= 8 {
                8
            } else {
                fp_n
            };
            let f8_str = fp_str.substring_char(0, f_take);
            let ghost f8 = if fp.len() >= 8 {
                fp.take(8)
            } else {
                fp
            };
            proof {
                assert(f8_str@ =~= f8);
                assert(all_digits(f8)) by {
                    assert(forall|x: int| 0 <= x < f8.len() ==> #[trigger] f8[x] == fp[x]);
                }
                lemma_digits_bound(f8);
                assert(pow10(f8.len() as int) <= pow10(8)) by {
                    if f8.len() < 8 {
                        lemma_pow10_pos(f8.len() as int);
                        lemma_pow10_add(f8.len() as int, 8 - f8.len());
                        lemma_pow10_pos(8 - f8.len());
                        vstd::arithmetic::mul::lemma_mul_inequality(
                            1,
                            pow10(8 - f8.len()),
                            pow10(f8.len() as int),
                        );
                        vstd::arithmetic::mul::lemma_mul_is_commutative(
                            pow10(f8.len() as int),
                            pow10(8 - f8.len()),
                        );
                    }
                }
            }
            let mag_f = match read_digits_mag(f8_str, 100_000_000) {
                Some(m) => m,
                None => {
                    proof {
                        assert(digits_val(f8) <= 100_000_000);
                    }
                    return None;
                },
            };
            let scale = pow10_exec(8 - (f_take as u32));
            proof {
                // mag_f * scale <= 10^8
                lemma_pow10_add(f8.len() as int, 8 - f8.len());
                vstd::arithmetic::mul::lemma_mul_inequality(
                    digits_val(f8),
                    pow10(f8.len() as int) - 1,
                    pow10(8 - f8.len()),
                );
                vstd::arithmetic::mul::lemma_mul_is_distributive_sub_other_way(
                    pow10(8 - f8.len()),
                    pow10(f8.len() as int),
                    1,
                );
                vstd::arithmetic::mul::lemma_mul_is_commutative(
                    pow10(f8.len() as int),
                    pow10(8 - f8.len()),
                );
                lemma_pow10_pos(8 - f8.len());
                lemma_digits_val_nonneg(f8);
                vstd::arithmetic::mul::lemma_mul_inequality(0, digits_val(f8), pow10(8 - f8.len()));
                assert(0 <= digits_val(f8) * pow10(8 - f8.len()) <= 100_000_000);
            }
            let raw: i128 = mag_i * 100_000_000 + mag_f * scale;
            if raw > MAX_RAW {
                return None;
            }
            Some(raw)
        },
    }
}

/// Parse a plain decimal number, truncated toward zero to eight
/// fractional digits.
pub fn parse_decimal(s: &str) -> (r: Option<Decimal>)
    ensures
        r is Some <==> dec_text_ok(s@) && d_fits(dec_text_raw(s@)),
        r matches Some(d) ==> d@ == dec_text_raw(s@),
{
    let n = s.unicode_len();
    let neg: bool = n > 0 && s.get_char(0) == '-';
    let body = if neg {
        s.substring_char(1, n)
    } else {
        s.substring_char(0, n)
    };
    proof {
        assert(body@ =~= sign_body(s@));
    }
    match parse_unsigned_raw(body) {
        None => None,
        Some(mag) => {
            if neg {
                Decimal::from_raw(-mag)
            } else {
                Decimal::from_raw(mag)
            }
        },
    }
}

/// `pow10` turns addition into multiplication.
pub proof fn lemma_pow10_add(a: int, b: int)
    requires
        0 <= a,
        0 <= b,
    ensures
        pow10(a) * pow10(b) == pow10(a + b),
    decreases b,
{
    if b == 0 {
        vstd::arithmetic::mul::lemma_mul_basics(pow10(a));
    } else {
        lemma_pow10_add(a, b - 1);
        assert(pow10(a) * (10 * pow10(b - 1)) == 10 * (pow10(a) * pow10(b - 1)))
            by (nonlinear_arith);
    }
}

/// Shape of a plain integer: optional minus sign and digits.
pub open spec fn int_text_ok(s: Seq<char>) -> bool {
    digits_ok(sign_body(s))
}

/// Value of a plain integer.
pub open spec fn int_text_val(s: Seq<char>) -> int {
    if has_minus(s) {
        -digits_val(sign_body(s))
    } else {
        digits_val(sign_body(s))
    }
}

/// Parse a plain integer into an `i64`.
pub fn parse_i64(s: &str) -> (r: Option<i64>)
    ensures
        r is Some <==> int_text_ok(s@) && i64::MIN <= int_text_val(s@) <= i64::MAX,
        r matches Some(v) ==> v as int == int_text_val(s@),
{
    let n = s.unicode_len();
    let neg: bool = n > 0 && s.get_char(0) == '-';
    let body = if neg {
        s.substring_char(1, n)
    } else {
        s.substring_char(0, n)
    };
    proof {
        assert(body@ =~= sign_body(s@));
    }
    if body.unicode_len() == 0 {
        return None;
    }
    let mag = match read_digits_mag(body, 9_223_372_036_854_775_808i128) {
        Some(m) => m,
        None => {
            return None;
        },
    };
    if neg {
        Some((-mag) as i64)
    } else {
        if mag > 9_223_372_036_854_775_807i128 {
            return None;
        }
        Some(mag as i64)
    }
}

} // verus!
