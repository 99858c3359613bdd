//! Human-readable rendering of byte counts: repeated division by 1024
//! selects a unit from `B` up to `YB`, and the remaining value is rounded
//! to the nearest integer.
use vstd::prelude::*;

use vstd::arithmetic::div_mod::{
    lemma_div_denominator, lemma_div_decreases, lemma_fundamental_div_mod,
    lemma_mod_division_less_than_divisor, lemma_multiply_divide_lt,
};
use vstd::arithmetic::mul::lemma_mul_inequality;

use crate::text::{
    chars_to_string, lemma_decimal_all_digits, push_decimal, push_str_chars, spec_decimal,
    spec_is_digit,
};

verus! {

/// `1024^p`.
pub open spec fn pow1024(p: nat) -> nat
    decreases p,
{
    if p == 0 {
        1
    } else {
        1024 * pow1024((p - 1) as nat)
    }
}

/// Index of the unit used for `n`: the number of times `n` can be divided
/// by 1024 before the running value drops below 1024.  A 64-bit count never
/// reaches past index 6 (`EB`), so no clamp at `YB` is needed for the inputs
/// this crate accepts.
pub open spec fn spec_unit_index(n: nat) -> nat
    decreases n,
{
    if n < 1024 {
        0
    } else {
        1 + spec_unit_index(n / 1024)
    }
}

/// The unit name for index `p`.
pub open spec fn spec_unit(p: nat) -> Seq<char> {
    if p == 0 {
        "B"@
    } else if p == 1 {
        "KB"@
    } else if p == 2 {
        "MB"@
    } else if p == 3 {
        "GB"@
    } else if p == 4 {
        "TB"@
    } else if p == 5 {
        "PB"@
    } else if p == 6 {
        "EB"@
    } else if p == 7 {
        "ZB"@
    } else {
        "YB"@
    }
}

/// `n / 1024^p`, rounded to the nearest integer with ties rounded up.
pub open spec fn spec_rounded(n: nat, p: nat) -> nat {
    let d = pow1024(p);
    if 2 * (n % d) >= d {
        n / d + 1
    } else {
        n / d
    }
}

/// The full rendering of `n` bytes: the rounded value, a space, the unit.
pub open spec fn spec_byte_size(n: nat) -> Seq<char> {
    let p = spec_unit_index(n);
    spec_decimal(spec_rounded(n, p)) + " "@ + spec_unit(p)
}

/// `pow1024(p)` outgrows `p`, which bounds the unit index reached for any
/// count that fits a machine word.
proof fn lemma_pow1024_gt(p: nat)
    ensures
        pow1024(p) > p,
    decreases p,
{
    if p > 0 {
        lemma_pow1024_gt((p - 1) as nat);
        lemma_mul_inequality(p as int, pow1024((p - 1) as nat) as int, 1024);
    }
}

/// A count below `pow1024(k)` never reaches unit index `k`.
proof fn lemma_unit_index_bounded(n: nat, k: nat)
    requires
        k >= 1,
        n < pow1024(k),
    ensures
        spec_unit_index(n) < k,
    decreases k,
{
    if n >= 1024 {
        lemma_multiply_divide_lt(n as int, pow1024((k - 1) as nat) as int, 1024);
        lemma_unit_index_bounded(n / 1024, (k - 1) as nat);
    }
}

/// Every rendering is a decimal numeral, one space, and one of the
/// defined units; a 64-bit count never passes `EB`.
pub proof fn lemma_byte_size_shape(n: u64)
    ensures
        spec_unit_index(n as nat) <= 6,
        spec_byte_size(n as nat) == spec_decimal(spec_rounded(n as nat, spec_unit_index(n as nat)))
            + " "@ + spec_unit(spec_unit_index(n as nat)),
        forall|i: int|
            0 <= i < spec_decimal(spec_rounded(n as nat, spec_unit_index(n as nat))).len()
                ==> spec_is_digit(
                spec_decimal(spec_rounded(n as nat, spec_unit_index(n as nat)))[i],
            ),
{
    assert(pow1024(7) == 1024 * pow1024(6));
    assert(pow1024(6) == 1024 * pow1024(5));
    assert(pow1024(5) == 1024 * pow1024(4));
    assert(pow1024(4) == 1024 * pow1024(3));
    assert(pow1024(3) == 1024 * pow1024(2));
    assert(pow1024(2) == 1024 * pow1024(1));
    assert(pow1024(1) == 1024 * pow1024(0));
    assert(pow1024(0) == 1);
    assert((n as nat) < pow1024(7));
    lemma_unit_index_bounded(n as nat, 7);
    lemma_decimal_all_digits(spec_rounded(n as nat, spec_unit_index(n as nat)));
}

fn unit_str(p: u64) -> (r: &'static str)
    ensures
        r@ == spec_unit(p as nat),
{
    if p == 0 {
        "B"
    } else if p == 1 {
        "KB"
    } else if p == 2 {
        "MB"
    } else if p == 3 {
        "GB"
    } else if p == 4 {
        "TB"
    } else if p == 5 {
        "PB"
    } else if p == 6 {
        "EB"
    } else if p == 7 {
        "ZB"
    } else {
        "YB"
    }
}

/// Formats a byte count as `"<value> <unit>"`, the value rounded to the
/// nearest whole number of the chosen unit.
pub fn byte_size(ival: u64) -> (r: String)
    ensures
        r@ == spec_byte_size(ival as nat),
{
    let n: u128 = ival as u128;
    let mut d: u128 = 1;
    let mut p: u64 = 0;
    while n / d >= 1024
        invariant
            n == ival as nat,
            d == pow1024(p as nat),
            1 <= d,
            p > 0 ==> n >= d,
            spec_unit_index(n as nat) == p + spec_unit_index((n as nat) / (d as nat)),
        decreases (n as nat) / (d as nat),
    {
        proof {
            // n/d >= 1024 and (n/d)/1024 == n/(d*1024) drive the invariant
            // and the termination measure.
            lemma_div_denominator(n as int, d as int, 1024);
            lemma_div_decreases((n as int / d as int) as int, 1024);
            // d * 1024 <= (n/d) * d <= n keeps the new divisor in range.
            lemma_mul_inequality(1024, n as int / d as int, d as int);
            lemma_fundamental_div_mod(n as int, d as int);
            lemma_mod_division_less_than_divisor(n as int, d as int);
            // 1024 * d == pow1024(p + 1) <= n, so p + 1 stays below n.
            lemma_pow1024_gt((p + 1) as nat);
        }
        d = d * 1024;
        p = p + 1;
    }
    proof {
        assert(spec_unit_index((n as nat) / (d as nat)) == 0);
        lemma_fundamental_div_mod(n as int, d as int);
        lemma_mod_division_less_than_divisor(n as int, d as int);
    }
    let q: u128 = n / d;
    let rem: u128 = n % d;
    let rounded: u128 = if 2 * rem >= d {
        q + 1
    } else {
        q
    };
    let mut out: Vec<char> = Vec::new();
    push_decimal(&mut out, rounded);
    push_str_chars(&mut out, " ");
    push_str_chars(&mut out, unit_str(p));
    proof {
        assert(out@ =~= spec_byte_size(ival as nat));
    }
    chars_to_string(&out)
}

} // verus!
