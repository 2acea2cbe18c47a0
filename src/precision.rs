//! Truncation of fixed-point coordinates to a number of decimal places, and
//! their shortest decimal text.
//!
//! A coordinate is an integer count of millionths of a font unit.
use vstd::arithmetic::div_mod::{lemma_fundamental_div_mod, lemma_mod_multiples_basic};
use vstd::prelude::*;

verus! {

/// Number of decimal places a coordinate carries.
pub const FRAC_DIGITS: u8 = 6;

/// Number of coordinate steps in one font unit.
pub const UNIT: u128 = 1_000_000;

pub open spec fn pow10(n: nat) -> nat
    decreases n,
{
    if n == 0 {
        1
    } else {
        10 * pow10((n - 1) as nat)
    }
}

/// The magnitude `a` with every digit below the `p`-th decimal place dropped.
pub open spec fn trunc_mag(a: int, p: nat) -> int {
    if p >= FRAC_DIGITS {
        a
    } else {
        a - a % (pow10((FRAC_DIGITS - p) as nat) as int)
    }
}

/// `v` truncated toward zero to `p` decimal places.
pub open spec fn trunc_to(v: int, p: nat) -> int {
    if v < 0 {
        -trunc_mag(-v, p)
    } else {
        trunc_mag(v, p)
    }
}

pub open spec fn digit_char(d: int) -> char {
    if d == 0 {
        '0'
    } else if d == 1 {
        '1'
    } else if d == 2 {
        '2'
    } else if d == 3 {
        '3'
    } else if d == 4 {
        '4'
    } else if d == 5 {
        '5'
    } else if d == 6 {
        '6'
    } else if d == 7 {
        '7'
    } else if d == 8 {
        '8'
    } else {
        '9'
    }
}

/// Decimal digits of `n`, without leading zeros ("0" for zero).
pub open spec fn int_digits(n: nat) -> Seq<char>
    decreases n,
{
    if n < 10 {
        seq![digit_char(n as int)]
    } else {
        int_digits(n / 10).push(digit_char((n % 10) as int))
    }
}

/// The low `k` decimal digits of `f`, leading zeros kept.
pub open spec fn padded(f: nat, k: nat) -> Seq<char>
    decreases k,
{
    if k == 0 {
        seq![]
    } else {
        padded(f / 10, (k - 1) as nat).push(digit_char((f % 10) as int))
    }
}

/// The `k` fractional digits of `f`, trailing zeros dropped.
pub open spec fn frac_digits(f: nat, k: nat) -> Seq<char>
    decreases k,
{
    if k == 0 || f == 0 {
        seq![]
    } else if f % 10 == 0 {
        frac_digits(f / 10, (k - 1) as nat)
    } else {
        padded(f, k)
    }
}

/// Shortest decimal text of the coordinate `t`: no trailing fractional zeros,
/// and no fractional part at all when `t` is a whole number of units.
pub open spec fn render(t: int) -> Seq<char> {
    let a: nat = if t < 0 { (-t) as nat } else { t as nat };
    let sign: Seq<char> = if t < 0 { seq!['-'] } else { seq![] };
    let f: nat = a % (UNIT as nat);
    let frac: Seq<char> = if f == 0 { seq![] } else { seq!['.'] + frac_digits(f, FRAC_DIGITS as nat) };
    sign + int_digits(a / (UNIT as nat)) + frac
}

/// Text of `v` truncated toward zero to `p` decimal places.
pub open spec fn fmt(v: int, p: nat) -> Seq<char> {
    render(trunc_to(v, p))
}

fn digit_str(d: u128) -> (r: &'static str)
    requires
        d < 10,
    ensures
        r@ == seq![digit_char(d as int)],
{
    proof {
        reveal_strlit("0");
        reveal_strlit("1");
        reveal_strlit("2");
        reveal_strlit("3");
        reveal_strlit("4");
        reveal_strlit("5");
        reveal_strlit("6");
        reveal_strlit("7");
        reveal_strlit("8");
        reveal_strlit("9");
    }
    if d == 0 {
        "0"
    } else if d == 1 {
        "1"
    } else if d == 2 {
        "2"
    } else if d == 3 {
        "3"
    } else if d == 4 {
        "4"
    } else if d == 5 {
        "5"
    } else if d == 6 {
        "6"
    } else if d == 7 {
        "7"
    } else if d == 8 {
        "8"
    } else {
        "9"
    }
}

fn push_int_digits(out: &mut String, n: u128)
    ensures
        final(out)@ == old(out)@ + int_digits(n as nat),
    decreases n,
{
    if n < 10 {
        out.append(digit_str(n));
    } else {
        push_int_digits(out, n / 10);
        out.append(digit_str(n % 10));
    }
}

fn push_padded(out: &mut String, f: u128, k: u8)
    ensures
        final(out)@ == old(out)@ + padded(f as nat, k as nat),
    decreases k,
{
    if k == 0 {
        assert(padded(f as nat, 0) =~= seq![]);
        assert(old(out)@ + padded(f as nat, 0) =~= old(out)@);
    } else {
        push_padded(out, f / 10, k - 1);
        out.append(digit_str(f % 10));
    }
}

fn push_frac_digits(out: &mut String, f: u128, k: u8)
    ensures
        final(out)@ == old(out)@ + frac_digits(f as nat, k as nat),
    decreases k,
{
    if k == 0 || f == 0 {
        assert(old(out)@ + frac_digits(f as nat, k as nat) =~= old(out)@);
    } else if f % 10 == 0 {
        push_frac_digits(out, f / 10, k - 1);
    } else {
        push_padded(out, f, k);
    }
}

/// Ten to the power of the number of places dropped at precision `p`.
fn drop_scale(p: u8) -> (d: u128)
    requires
        p < FRAC_DIGITS,
    ensures
        d as int == pow10((FRAC_DIGITS - p) as nat),
        d > 0,
{
    proof {
        reveal_with_fuel(pow10, 7);
    }
    if p == 0 {
        1_000_000
    } else if p == 1 {
        100_000
    } else if p == 2 {
        10_000
    } else if p == 3 {
        1_000
    } else if p == 4 {
        100
    } else {
        10
    }
}

proof fn lemma_pow10_pos(n: nat)
    ensures
        pow10(n) > 0,
    decreases n,
{
    if n > 0 {
        lemma_pow10_pos((n - 1) as nat);
    }
}

/// Truncates `v` toward zero to `precision` decimal places and renders it as
/// its shortest decimal text.
pub fn format_fixed(v: i128, precision: u8) -> (r: String)
    ensures
        r@ == fmt(v as int, precision as nat),
{
    let neg = v < 0;
    let a: u128 = if neg {
        ((-(v + 1)) as u128) + 1
    } else {
        v as u128
    };
    assert(a as int == if v < 0 { -(v as int) } else { v as int });
    let ta: u128 = if precision >= FRAC_DIGITS {
        a
    } else {
        let d = drop_scale(precision);
        proof {
            lemma_fundamental_div_mod(a as int, d as int);
            assert(a as int / d as int >= 0) by (nonlinear_arith)
                requires a >= 0, d > 0;
            assert(d as int * (a as int / d as int) >= 0) by (nonlinear_arith)
                requires a as int / d as int >= 0, d > 0;
        }
        a - a % d
    };
    assert(ta as int == trunc_mag(a as int, precision as nat));
    let t = Ghost(trunc_to(v as int, precision as nat));
    assert(t@ == if neg { -(ta as int) } else { ta as int });
    let mut out = String::new();
    if neg && ta != 0 {
        out.append("-");
    }
    proof {
        reveal_strlit("-");
        reveal_strlit(".");
    }
    push_int_digits(&mut out, ta / UNIT);
    let f = ta % UNIT;
    if f != 0 {
        out.append(".");
        push_frac_digits(&mut out, f, FRAC_DIGITS);
    }
    assert(out@ =~= render(t@));
    out
}

/// Truncating a value that is already truncated to `p` places changes
/// nothing, so its text at `p` places is the same.
pub proof fn truncation_idempotent(v: int, p: nat)
    ensures
        trunc_to(trunc_to(v, p), p) == trunc_to(v, p),
        fmt(trunc_to(v, p), p) == fmt(v, p),
{
    if p < FRAC_DIGITS {
        let d = pow10((FRAC_DIGITS - p) as nat) as int;
        lemma_pow10_pos((FRAC_DIGITS - p) as nat);
        let a = if v < 0 { -v } else { v };
        lemma_fundamental_div_mod(a, d);
        lemma_mod_multiples_basic(a / d, d);
        assert(a - a % d == (a / d) * d) by (nonlinear_arith)
            requires a == d * (a / d) + (a % d);
        assert(trunc_mag(trunc_mag(a, p), p) == trunc_mag(a, p));
    }
}

/// Truncation moves a value toward zero and never past it: the result of a
/// non-negative value lies in `[0, v]`, that of a non-positive one in `[v, 0]`.
pub proof fn truncation_toward_zero(v: int, p: nat)
    ensures
        v >= 0 ==> 0 <= trunc_to(v, p) <= v,
        v <= 0 ==> v <= trunc_to(v, p) <= 0,
{
    if p < FRAC_DIGITS {
        let d = pow10((FRAC_DIGITS - p) as nat) as int;
        lemma_pow10_pos((FRAC_DIGITS - p) as nat);
        let a = if v < 0 { -v } else { v };
        lemma_fundamental_div_mod(a, d);
        assert(0 <= a % d < d);
        assert(a / d >= 0) by (nonlinear_arith)
            requires a >= 0, d > 0;
        assert(d * (a / d) >= 0) by (nonlinear_arith)
            requires a / d >= 0, d > 0;
    }
}

} // verus!
