//! Decimal-digit text helpers: reading digits out of strings and rendering
//! integers back into them.

use vstd::prelude::*;
use vstd::string::StrSliceExecFns;
use vstd::string::StringExecFns;

verus! {

/// Is `c` one of `'0'..='9'`?
pub open spec fn is_digit(c: char) -> bool {
    48 <= (c as u32) <= 57
}

/// Numeric value of a digit character.
pub open spec fn digit_val(c: char) -> int {
    (c as u32) - 48
}

/// The digit character for `d` in `0..=9`.
pub open spec fn digit_char(d: int) -> char {
    if d == 0 {
        '0'
    } else if d == 1 {
        '1'
    } else if d == 2 {
        '2'
    } else if d == 3 {
        '3'
    } else if d == 4 {
        '4'
    } else if d == 5 {
        '5'
    } else if d == 6 {
        '6'
    } else if d == 7 {
        '7'
    } else if d == 8 {
        '8'
    } else {
        '9'
    }
}

/// Every character of `s` is a decimal digit.
pub open spec fn all_digits(s: Seq<char>) -> bool {
    forall|i: int| 0 <= i < s.len() ==> is_digit(#[trigger] s[i])
}

/// The number denoted by a digit string, most significant digit first.
pub open spec fn digits_val(s: Seq<char>) -> int
    decreases s.len(),
{
    if s.len() == 0 {
        0
    } else {
        digits_val(s.drop_last()) * 10 + digit_val(s.last())
    }
}

/// Powers of ten.
pub open spec fn pow10(n: int) -> int
    decreases n,
{
    if n <= 0 {
        1
    } else {
        10 * pow10(n - 1)
    }
}

/// The digits of a positive number, most significant first; empty for `0`.
pub open spec fn dec_digits(n: int) -> Seq<char>
    decreases n,
    via dec_digits_dec
{
    if n <= 0 {
        Seq::empty()
    } else {
        dec_digits(n / 10).push(digit_char(n % 10))
    }
}

#[via_fn]
proof fn dec_digits_dec(n: int) {
    if n > 0 {
        vstd::arithmetic::div_mod::lemma_div_decreases(n, 10);
        vstd::arithmetic::div_mod::lemma_div_pos_is_pos(n, 10);
    }
}

/// The usual decimal rendering of an integer.
pub open spec fn int_text(n: int) -> Seq<char> {
    if n == 0 {
        seq!['0']
    } else if n < 0 {
        seq!['-'] + dec_digits(-n)
    } else {
        dec_digits(n)
    }
}

/// Rendering of `n` padded with zeros to width two, as `{:02}` formats it.
pub open spec fn two_wide(n: int) -> Seq<char> {
    if 0 <= n <= 9 {
        seq!['0', digit_char(n)]
    } else {
        int_text(n)
    }
}

/// Rendering of a four-digit number, most significant digit first.
pub open spec fn four_digits(n: int) -> Seq<char> {
    seq![
        digit_char(n / 1000),
        digit_char((n / 100) % 10),
        digit_char((n / 10) % 10),
        digit_char(n % 10),
    ]
}

/// The numeric value of a digit character, if it is one.
pub fn parse_digit(c: char) -> (r: Option<u32>)
    ensures
        r matches Some(d) ==> is_digit(c) && d == digit_val(c) && d <= 9,
        r is None ==> !is_digit(c),
{
    let x = c as u32;
    if 48 <= x && x <= 57 {
        Some(x - 48)
    } else {
        None
    }
}

/// A one-character string for the digit `d`.
pub fn digit_str(d: u32) -> (r: &'static str)
    requires
        d <= 9,
    ensures
        r@ =~= seq![digit_char(d as int)],
{
    proof {
        reveal_strlit("0");
        reveal_strlit("1");
        reveal_strlit("2");
        reveal_strlit("3");
        reveal_strlit("4");
        reveal_strlit("5");
        reveal_strlit("6");
        reveal_strlit("7");
        reveal_strlit("8");
        reveal_strlit("9");
    }
    match d {
        0 => "0",
        1 => "1",
        2 => "2",
        3 => "3",
        4 => "4",
        5 => "5",
        6 => "6",
        7 => "7",
        8 => "8",
        _ => "9",
    }
}

/// Append the two-digit zero-padded rendering of `n` to `out`.
pub fn push_two_digits(out: &mut String, n: u32)
    requires
        n <= 99,
    ensures
        final(out)@ == old(out)@ + two_wide(n as int),
{
    out.append(digit_str(n / 10));
    out.append(digit_str(n % 10));
    proof {
        if n <= 9 {
            assert(old(out)@ + seq![digit_char((n / 10) as int)] + seq![
                digit_char((n % 10) as int),
            ] =~= old(out)@ + two_wide(n as int));
        } else {
            assert(dec_digits(n as int) =~= dec_digits((n / 10) as int).push(
                digit_char((n % 10) as int),
            ));
            assert(dec_digits((n / 10) as int) =~= dec_digits(((n / 10) / 10) as int).push(
                digit_char(((n / 10) % 10) as int),
            ));
            assert(((n / 10) / 10) as int == 0);
            assert(dec_digits((n / 10) as int) =~= seq![digit_char(((n / 10) % 10) as int)]);
            assert((n / 10) % 10 == n / 10);
            assert(old(out)@ + seq![digit_char((n / 10) as int)] + seq![
                digit_char((n % 10) as int),
            ] =~= old(out)@ + two_wide(n as int));
        }
    }
}

/// Append the `{:02}` rendering of an arbitrary integer to `out`.
pub fn push_pad2(out: &mut String, n: i64)
    ensures
        final(out)@ == old(out)@ + two_wide(n as int),
{
    if 0 <= n && n <= 9 {
        out.append(digit_str(0));
        out.append(digit_str(n as u32));
        proof {
            assert(old(out)@ + seq![digit_char(0)] + seq![digit_char(n as int)] =~= old(out)@
                + two_wide(n as int));
        }
    } else {
        push_int(out, n);
    }
}

/// Append the four-digit zero-padded rendering of `n` to `out`.
pub fn push_four_digits(out: &mut String, n: u32)
    requires
        1000 <= n <= 9999,
    ensures
        final(out)@ == old(out)@ + four_digits(n as int),
{
    out.append(digit_str(n / 1000));
    out.append(digit_str((n / 100) % 10));
    out.append(digit_str((n / 10) % 10));
    out.append(digit_str(n % 10));
    proof {
        assert(old(out)@ + seq![digit_char((n / 1000) as int)] + seq![
            digit_char(((n / 100) % 10) as int),
        ] + seq![digit_char(((n / 10) % 10) as int)] + seq![digit_char((n % 10) as int)] =~= old(
            out,
        )@ + four_digits(n as int));
    }
}

/// Append the decimal rendering of `n` to `out`, as `{}` formats it.
pub fn push_int(out: &mut String, n: i64)
    ensures
        final(out)@ == old(out)@ + int_text(n as int),
{
    if n == 0 {
        out.append(digit_str(0));
        proof {
            assert(old(out)@ + seq![digit_char(0)] =~= old(out)@ + int_text(0));
        }
        return ;
    }
    let neg: bool = n < 0;
    if neg {
        out.append(minus_str());
    }
    let mut m: u64 = if n < 0 {
        if n == i64::MIN {
            9_223_372_036_854_775_808u64
        } else {
            (-n) as u64
        }
    } else {
        n as u64
    };
    let ghost sign: Seq<char> = if neg {
        seq!['-']
    } else {
        Seq::empty()
    };
    let ghost m0 = m as int;
    let mut digs: Vec<u32> = Vec::new();
    while m > 0
        invariant
            m0 > 0,
            dec_digits(m0) =~= dec_digits(m as int) + digits_rev(digs@),
            forall|k: int| 0 <= k < digs@.len() ==> #[trigger] digs@[k] <= 9,
        decreases m,
    {
        let ghost mi = m as int;
        let ghost pd = digs@;
        let d: u32 = (m % 10) as u32;
        digs.push(d);
        m = m / 10;
        proof {
            assert(digs@.drop_last() =~= pd);
            assert(digits_rev(digs@) =~= seq![digit_char(d as int)] + digits_rev(pd));
            assert(dec_digits(mi) =~= dec_digits(mi / 10).push(digit_char(mi % 10)));
            assert(d as int == mi % 10);
            assert(dec_digits(m as int) + digits_rev(digs@) =~= dec_digits(mi) + digits_rev(pd));
        }
    }
    let mut i: usize = digs.len();
    proof {
        assert(dec_digits(m0) =~= digits_rev(digs@));
        assert(digs@.subrange(i as int, digs@.len() as int) =~= Seq::empty());
        assert(out@ =~= old(out)@ + sign + digits_rev(
            digs@.subrange(i as int, digs@.len() as int),
        ));
    }
    while i > 0
        invariant
            i <= digs.len(),
            forall|k: int| 0 <= k < digs@.len() ==> #[trigger] digs@[k] <= 9,
            out@ =~= old(out)@ + sign + digits_rev(digs@.subrange(i as int, digs@.len() as int)),
        decreases i,
    {
        i = i - 1;
        let d = digs[i];
        out.append(digit_str(d));
        proof {
            lemma_digits_rev_step(digs@, i as int, digs@.len() as int);
            assert(out@ =~= old(out)@ + sign + digits_rev(
                digs@.subrange(i as int, digs@.len() as int),
            ));
        }
    }
    proof {
        assert(digs@.subrange(0, digs@.len() as int) =~= digs@);
        assert(out@ =~= old(out)@ + int_text(n as int));
    }
}

/// The digit characters of `digs` read back to front.
pub open spec fn digits_rev(digs: Seq<u32>) -> Seq<char>
    decreases digs.len(),
{
    if digs.len() == 0 {
        Seq::empty()
    } else {
        seq![digit_char(digs.last() as int)] + digits_rev(digs.drop_last())
    }
}

/// Peeling the front element of a suffix off `digits_rev` appends its digit.
proof fn lemma_digits_rev_step(s: Seq<u32>, i: int, j: int)
    requires
        0 <= i < j <= s.len(),
    ensures
        digits_rev(s.subrange(i, j)) =~= digits_rev(s.subrange(i + 1, j)) + seq![
            digit_char(s[i] as int),
        ],
    decreases j - i,
{
    let sub = s.subrange(i, j);
    if i + 1 == j {
        assert(sub.drop_last() =~= s.subrange(i + 1, j));
    } else {
        lemma_digits_rev_step(s, i, j - 1);
        assert(sub.drop_last() =~= s.subrange(i, j - 1));
        assert(s.subrange(i + 1, j).drop_last() =~= s.subrange(i + 1, j - 1));
        assert(digits_rev(s.subrange(i + 1, j)) =~= seq![digit_char(s[j - 1] as int)]
            + digits_rev(s.subrange(i + 1, j - 1)));
        assert(digits_rev(sub) =~= seq![digit_char(s[j - 1] as int)] + digits_rev(
            s.subrange(i, j - 1),
        ));
    }
}

/// A one-character minus-sign string.
fn minus_str() -> (r: &'static str)
    ensures
        r@ =~= seq!['-'],
{
    proof {
        reveal_strlit("-");
    }
    "-"
}

} // verus!
