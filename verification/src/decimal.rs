//! Fixed-point money arithmetic with a uniform scale of eight fractional
//! digits.
//!
//! A [`Decimal`] stores a value as an `i128` count of `10^-8` units. Every
//! operation truncates its mathematical result toward zero at the eighth
//! fractional digit, and reports overflow instead of wrapping or panicking.
//! The spec-level combinators (`c_add`, `c_mul`, ...) mirror the checked
//! executable operations exactly, so contracts further up the crate can be
//! written as compositions of them.

use vstd::prelude::*;

verus! {

/// Number of raw units in 1: the fixed scale `10^8`.
pub const SCALE_RAW: i128 = 100_000_000;

/// Largest raw magnitude a `Decimal` may hold (`10^30`, i.e. a value of
/// `10^22`). Symmetric, so negation is always defined.
pub const MAX_RAW: i128 = 1_000_000_000_000_000_000_000_000_000_000;

/// Magnitude of an integer.
pub open spec fn sabs(x: int) -> int {
    if x >= 0 {
        x
    } else {
        -x
    }
}

/// A raw (scaled) value that a `Decimal` can represent.
pub open spec fn d_fits(x: int) -> bool {
    -(MAX_RAW as int) <= x <= MAX_RAW as int
}

/// Quotient truncated toward zero; `0` when the divisor is `0`.
pub open spec fn d_quo(a: int, b: int) -> int {
    if b == 0 {
        0
    } else if (a < 0) != (b < 0) {
        -(sabs(a) / sabs(b))
    } else {
        sabs(a) / sabs(b)
    }
}

/// Remainder of truncated division (sign of the dividend); `0` when the
/// divisor is `0`.
pub open spec fn d_rem(a: int, b: int) -> int {
    if b == 0 {
        0
    } else if a < 0 {
        -(sabs(a) % sabs(b))
    } else {
        a % sabs(b)
    }
}

/// Raw product of two raw values, truncated to the scale.
pub open spec fn d_mul(a: int, b: int) -> int {
    d_quo(a * b, SCALE_RAW as int)
}

/// Raw quotient of two raw values, truncated to the scale.
pub open spec fn d_div(a: int, b: int) -> int {
    d_quo(a * (SCALE_RAW as int), b)
}

/// Clip a mathematical result to the representable range.
pub open spec fn c_clip(x: int) -> Option<int> {
    if d_fits(x) {
        Some(x)
    } else {
        None
    }
}

/// Checked addition over optional raw values.
pub open spec fn c_add(a: Option<int>, b: Option<int>) -> Option<int> {
    match (a, b) {
        (Some(x), Some(y)) => c_clip(x + y),
        _ => None,
    }
}

/// Checked subtraction over optional raw values.
pub open spec fn c_sub(a: Option<int>, b: Option<int>) -> Option<int> {
    match (a, b) {
        (Some(x), Some(y)) => c_clip(x - y),
        _ => None,
    }
}

/// Checked scaled multiplication over optional raw values.
pub open spec fn c_mul(a: Option<int>, b: Option<int>) -> Option<int> {
    match (a, b) {
        (Some(x), Some(y)) => c_clip(d_mul(x, y)),
        _ => None,
    }
}

/// Checked scaled division over optional raw values; division by zero has
/// no result.
pub open spec fn c_div(a: Option<int>, b: Option<int>) -> Option<int> {
    match (a, b) {
        (Some(x), Some(y)) => {
            if y == 0 {
                None
            } else {
                c_clip(d_div(x, y))
            }
        },
        _ => None,
    }
}

/// Checked remainder over optional raw values; division by zero has no
/// result.
pub open spec fn c_rem(a: Option<int>, b: Option<int>) -> Option<int> {
    match (a, b) {
        (Some(x), Some(y)) => {
            if y == 0 {
                None
            } else {
                c_clip(d_rem(x, y))
            }
        },
        _ => None,
    }
}

/// Quantization: `a` rounded toward zero to a multiple of `b`.
pub open spec fn c_quant(a: Option<int>, b: Option<int>) -> Option<int> {
    c_sub(a, c_rem(a, b))
}

/// The raw values of an optional `Decimal`, for relating checked results to
/// the spec combinators.
pub open spec fn opt_raw(r: Option<Decimal>) -> Option<int> {
    match r {
        Some(d) => Some(d@),
        None => None,
    }
}

/// Fixed-point decimal: a raw count of `10^-8` units.
#[derive(Clone, Copy, PartialEq, Eq, Structural, Debug, Hash)]
pub struct Decimal {
    v: i128,
}

impl View for Decimal {
    type V = int;

    closed spec fn view(&self) -> int {
        self.v as int
    }
}

impl Decimal {
    /// Every executable `Decimal` holds a representable raw value; recover
    /// it at a use site with `use_type_invariant`.
    #[verifier::type_invariant]
    pub open spec fn bounded(self) -> bool {
        d_fits(self@)
    }

    /// Structural equality agrees with equality of raw values.
    pub proof fn lemma_eq(a: Decimal, b: Decimal)
        ensures
            (a == b) <==> (a@ == b@),
    {
    }

    /// The value `0`.
    pub fn zero() -> (r: Decimal)
        ensures
            r@ == 0,
    {
        Decimal { v: 0 }
    }

    /// The value `1`.
    pub fn one() -> (r: Decimal)
        ensures
            r@ == SCALE_RAW as int,
    {
        Decimal { v: SCALE_RAW }
    }

    /// The value `-1`.
    pub fn one_neg() -> (r: Decimal)
        ensures
            r@ == -(SCALE_RAW as int),
    {
        Decimal { v: -SCALE_RAW }
    }

    /// The integer `n`.
    pub fn from_int(n: i64) -> (r: Decimal)
        ensures
            r@ == n * (SCALE_RAW as int),
    {
        proof {
            assert((n as int) * (SCALE_RAW as int) <= MAX_RAW as int && -(MAX_RAW as int) <= (
            n as int) * (SCALE_RAW as int)) by (nonlinear_arith)
                requires
                    -0x8000_0000_0000_0000 <= n as int <= 0x7fff_ffff_ffff_ffff,
            ;
        }
        Decimal { v: (n as i128) * SCALE_RAW }
    }

    /// The value `n * 10^-8`.
    pub fn from_scaled(n: i64) -> (r: Decimal)
        ensures
            r@ == n as int,
    {
        Decimal { v: n as i128 }
    }

    /// The value `n * 10^-8` where it is representable.
    pub fn from_raw(n: i128) -> (r: Option<Decimal>)
        ensures
            opt_raw(r) == c_clip(n as int),
    {
        if -MAX_RAW <= n && n <= MAX_RAW {
            Some(Decimal { v: n })
        } else {
            None
        }
    }

    /// Exact equality with zero on the normalized representation.
    pub fn is_zero(&self) -> (r: bool)
        ensures
            r == (self@ == 0),
    {
        self.v == 0
    }

    pub fn le(&self, other: &Decimal) -> (r: bool)
        ensures
            r == (self@ <= other@),
    {
        self.v <= other.v
    }

    pub fn lt(&self, other: &Decimal) -> (r: bool)
        ensures
            r == (self@ < other@),
    {
        self.v < other.v
    }

    pub fn ge(&self, other: &Decimal) -> (r: bool)
        ensures
            r == (self@ >= other@),
    {
        self.v >= other.v
    }

    pub fn gt(&self, other: &Decimal) -> (r: bool)
        ensures
            r == (self@ > other@),
    {
        self.v > other.v
    }

    /// Negation; always representable because the range is symmetric.
    pub fn neg(&self) -> (r: Decimal)
        ensures
            r@ == -self@,
    {
        proof {
            use_type_invariant(*self);
        }
        Decimal { v: -self.v }
    }

    pub fn checked_add(&self, other: &Decimal) -> (r: Option<Decimal>)
        ensures
            opt_raw(r) == c_add(Some(self@), Some(other@)),
    {
        proof {
            use_type_invariant(*self);
            use_type_invariant(*other);
        }
        let s: i128 = self.v + other.v;
        if -MAX_RAW <= s && s <= MAX_RAW {
            Some(Decimal { v: s })
        } else {
            None
        }
    }

    pub fn checked_sub(&self, other: &Decimal) -> (r: Option<Decimal>)
        ensures
            opt_raw(r) == c_sub(Some(self@), Some(other@)),
    {
        proof {
            use_type_invariant(*self);
            use_type_invariant(*other);
        }
        let s: i128 = self.v - other.v;
        if -MAX_RAW <= s && s <= MAX_RAW {
            Some(Decimal { v: s })
        } else {
            None
        }
    }

    pub fn checked_mul(&self, other: &Decimal) -> (r: Option<Decimal>)
        ensures
            opt_raw(r) == c_mul(Some(self@), Some(other@)),
    {
        proof {
            use_type_invariant(*self);
            use_type_invariant(*other);
        }
        let a = self.v;
        let b = other.v;
        let neg: bool = (a < 0) != (b < 0);
        let aa: u128 = iabs(a);
        let bb: u128 = iabs(b);
        proof {
            lemma_mul_abs_sign(a as int, b as int);
        }
        match aa.checked_mul(bb) {
            Some(p) => {
                let q: u128 = p / (SCALE_RAW as u128);
                proof {
                    vstd::arithmetic::div_mod::lemma_div_nonincreasing(
                        p as int,
                        SCALE_RAW as int,
                    );
                    vstd::arithmetic::div_mod::lemma_div_pos_is_pos(p as int, SCALE_RAW as int);
                }
                from_mag(neg, q)
            },
            None => {
                proof {
                    // The product magnitude exceeds u128::MAX, so the scaled
                    // quotient exceeds MAX_RAW and the result cannot fit.
                    let prod = (aa as int) * (bb as int);
                    let s = SCALE_RAW as int;
                    assert((MAX_RAW + 1) as int * s <= prod);
                    vstd::arithmetic::div_mod::lemma_div_by_multiple((MAX_RAW + 1) as int, s);
                    vstd::arithmetic::div_mod::lemma_div_is_ordered(
                        (MAX_RAW + 1) as int * s,
                        prod,
                        s,
                    );
                }
                None
            },
        }
    }

    pub fn checked_div(&self, other: &Decimal) -> (r: Option<Decimal>)
        ensures
            opt_raw(r) == c_div(Some(self@), Some(other@)),
    {
        proof {
            use_type_invariant(*self);
            use_type_invariant(*other);
        }
        if other.v == 0 {
            return None;
        }
        let a = self.v;
        let b = other.v;
        let neg: bool = (a < 0) != (b < 0);
        let aa: u128 = iabs(a);
        let bb: u128 = iabs(b);
        proof {
            vstd::arithmetic::mul::lemma_mul_inequality(
                aa as int,
                MAX_RAW as int,
                SCALE_RAW as int,
            );
            lemma_mul_abs_sign(a as int, SCALE_RAW as int);
        }
        let p: u128 = aa * (SCALE_RAW as u128);
        let q: u128 = p / bb;
        proof {
            vstd::arithmetic::div_mod::lemma_div_nonincreasing(p as int, bb as int);
            vstd::arithmetic::div_mod::lemma_div_pos_is_pos(p as int, bb as int);
        }
        from_mag(neg, q)
    }

    pub fn checked_rem(&self, other: &Decimal) -> (r: Option<Decimal>)
        ensures
            opt_raw(r) == c_rem(Some(self@), Some(other@)),
    {
        proof {
            use_type_invariant(*self);
            use_type_invariant(*other);
        }
        if other.v == 0 {
            return None;
        }
        let a = self.v;
        let aa: u128 = iabs(a);
        let bb: u128 = iabs(other.v);
        let m: u128 = aa % bb;
        proof {
            vstd::arithmetic::div_mod::lemma_mod_division_less_than_divisor(aa as int, bb as int);
        }
        if a < 0 {
            Some(Decimal { v: -(m as i128) })
        } else {
            Some(Decimal { v: m as i128 })
        }
    }

    /// `self` rounded toward zero to a multiple of `tick`.
    pub fn quantize(&self, tick: &Decimal) -> (r: Option<Decimal>)
        ensures
            opt_raw(r) == c_quant(Some(self@), Some(tick@)),
    {
        proof {
            use_type_invariant(*self);
            use_type_invariant(*tick);
        }
        match self.checked_rem(tick) {
            Some(m) => {
                proof {
                    use_type_invariant(m);
                    lemma_rem_within(self@, tick@);
                }
                self.checked_sub(&m)
            },
            None => None,
        }
    }
}

/// Magnitude of a bounded `i128`, as a `u128`.
fn iabs(x: i128) -> (r: u128)
    requires
        x != i128::MIN,
    ensures
        r as int == sabs(x as int),
{
    if x >= 0 {
        x as u128
    } else {
        (-x) as u128
    }
}

/// Rebuild a `Decimal` from a sign and a magnitude, clipping to the
/// representable range.
fn from_mag(neg: bool, m: u128) -> (r: Option<Decimal>)
    ensures
        opt_raw(r) == c_clip(
            if neg {
                -(m as int)
            } else {
                m as int
            },
        ),
{
    if m > MAX_RAW as u128 {
        None
    } else {
        if neg {
            Some(Decimal { v: -(m as i128) })
        } else {
            Some(Decimal { v: m as i128 })
        }
    }
}

/// Magnitude and sign of a product.
proof fn lemma_mul_abs_sign(a: int, b: int)
    ensures
        sabs(a * b) == sabs(a) * sabs(b),
        (a * b < 0) <==> ((a < 0) != (b < 0)) && a != 0 && b != 0,
        (a * b == 0) <==> (a == 0 || b == 0),
{
    assert(sabs(a * b) == sabs(a) * sabs(b) && ((a * b < 0) <==> ((a < 0) != (b < 0)) && a != 0
        && b != 0) && ((a * b == 0) <==> (a == 0 || b == 0))) by (nonlinear_arith);
}

/// Truncated quotient and remainder recompose the dividend.
pub proof fn lemma_quo_rem_id(a: int, b: int)
    requires
        b != 0,
    ensures
        d_quo(a, b) * b + d_rem(a, b) == a,
{
    let aa = sabs(a);
    let bb = sabs(b);
    let q = d_quo(a, b);
    let r = d_rem(a, b);
    vstd::arithmetic::div_mod::lemma_fundamental_div_mod(aa, bb);
    if a >= 0 && b > 0 {
        assert(q * b + r == a) by (nonlinear_arith)
            requires
                aa == bb * (aa / bb) + aa % bb,
                q == aa / bb,
                r == aa % bb,
                aa == a,
                bb == b,
        ;
    } else if a >= 0 {
        assert(q * b + r == a) by (nonlinear_arith)
            requires
                aa == bb * (aa / bb) + aa % bb,
                q == -(aa / bb),
                r == aa % bb,
                aa == a,
                bb == -b,
        ;
    } else if b > 0 {
        assert(q * b + r == a) by (nonlinear_arith)
            requires
                aa == bb * (aa / bb) + aa % bb,
                q == -(aa / bb),
                r == -(aa % bb),
                aa == -a,
                bb == b,
        ;
    } else {
        assert(q * b + r == a) by (nonlinear_arith)
            requires
                aa == bb * (aa / bb) + aa % bb,
                q == aa / bb,
                r == -(aa % bb),
                aa == -a,
                bb == -b,
        ;
    }
}

/// A multiple of `b` has truncated remainder `0`.
pub proof fn lemma_rem_of_multiple(q: int, b: int)
    requires
        b != 0,
    ensures
        d_rem(q * b, b) == 0,
{
    let m = q * b;
    assert(sabs(m) == sabs(q) * sabs(b) && ((m < 0) <==> ((q < 0) != (b < 0)) && q != 0 && b != 0)
        && ((m == 0) <==> (q == 0 || b == 0))) by (nonlinear_arith)
        requires
            m == q * b,
    ;
    vstd::arithmetic::div_mod::lemma_mod_multiples_basic(sabs(q), sabs(b));
    assert(sabs(m) % sabs(b) == 0);
    if m >= 0 {
        assert(m == sabs(m));
    } else {
        assert(d_rem(m, b) == -(sabs(m) % sabs(b)));
    }
}

/// Quantizing leaves a multiple of the tick, no larger in magnitude and on
/// the same side of zero.
pub proof fn lemma_quant_props(a: int, b: int)
    requires
        b != 0,
    ensures
        d_rem(a - d_rem(a, b), b) == 0,
        sabs(a - d_rem(a, b)) <= sabs(a),
        a >= 0 ==> 0 <= a - d_rem(a, b) <= a,
        a < 0 ==> a <= a - d_rem(a, b) <= 0,
{
    lemma_quo_rem_id(a, b);
    lemma_rem_of_multiple(d_quo(a, b), b);
    lemma_rem_within(a, b);
}

/// The truncated remainder lies between `0` and the dividend.
pub proof fn lemma_rem_within(a: int, b: int)
    requires
        b != 0,
    ensures
        sabs(d_rem(a, b)) <= sabs(a),
        sabs(a - d_rem(a, b)) <= sabs(a),
        a >= 0 ==> 0 <= d_rem(a, b),
        a < 0 ==> d_rem(a, b) <= 0,
{
    let aa = sabs(a);
    let bb = sabs(b);
    if aa < bb {
        vstd::arithmetic::div_mod::lemma_small_mod(aa as nat, bb as nat);
    } else {
        vstd::arithmetic::div_mod::lemma_mod_division_less_than_divisor(aa, bb);
        vstd::arithmetic::div_mod::lemma_mod_bound(aa, bb);
    }
}

} // verus!
