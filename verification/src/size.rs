//! Sizes for people to read.

use crate::text;
use vstd::prelude::*;
use vstd::string::*;

verus! {

/// `num / den` rounded to the nearest integer, a half to the even one.
pub open spec fn round_half_even(num: nat, den: nat) -> nat {
    let q = num / den;
    let r = num % den;
    if 2 * r < den || (2 * r == den && q % 2 == 0) {
        q
    } else {
        q + 1
    }
}

/// The distance between two neighbouring integers that a double can hold, at
/// the magnitude of `n`: a double has a significand of 53 bits.
pub open spec fn double_gap(n: nat) -> nat
    decreases n,
{
    if n < 0x20_0000_0000_0000 {
        1
    } else {
        2 * double_gap(n / 2)
    }
}

/// The double nearest to `n`, a tie to the one with the even significand.
pub open spec fn nearest_double(n: nat) -> nat {
    round_half_even(n, double_gap(n)) * double_gap(n)
}

/// How many bytes the unit `u` counts: a power of 1024.
pub open spec fn unit_bytes(u: nat) -> nat {
    if u == 0 {
        1
    } else if u == 1 {
        0x400
    } else if u == 2 {
        0x10_0000
    } else if u == 3 {
        0x4000_0000
    } else {
        0x100_0000_0000
    }
}

/// The largest of the five units that fits into `v` bytes.
pub open spec fn unit_index(v: nat) -> nat {
    if v < unit_bytes(1) {
        0
    } else if v < unit_bytes(2) {
        1
    } else if v < unit_bytes(3) {
        2
    } else if v < unit_bytes(4) {
        3
    } else {
        4
    }
}

/// The name of the unit `u`.
pub open spec fn unit_name(u: nat) -> Seq<char> {
    if u == 0 {
        "Б"@
    } else if u == 1 {
        "КБ"@
    } else if u == 2 {
        "МБ"@
    } else if u == 3 {
        "ГБ"@
    } else {
        "ТБ"@
    }
}

/// The tenths of its unit in which a size of `bytes` is told: the double
/// nearest to `bytes`, rounded to one decimal.
pub open spec fn size_tenths(bytes: nat) -> nat {
    let v = nearest_double(bytes);
    round_half_even(v * 10, unit_bytes(unit_index(v)))
}

/// The text of a size. Under 1024 bytes it is the exact count; above, one
/// decimal and the largest unit that fits.
pub open spec fn size_text(bytes: nat) -> Seq<char> {
    let u = unit_index(nearest_double(bytes));
    if u == 0 {
        text::decimal(bytes).push(' ') + unit_name(0)
    } else {
        let t = size_tenths(bytes);
        text::decimal(t / 10).push('.').push(text::digit(t % 10)).push(' ') + unit_name(u)
    }
}

/// `num / den` rounded to the nearest integer, a half to the even one.
fn round_div(num: u128, den: u128) -> (r: u128)
    requires
        0 < den < 0x1_0000_0000_0000_0000,
        num < 0x100_0000_0000_0000_0000_0000,
    ensures
        r == round_half_even(num as nat, den as nat),
{
    let q: u128 = num / den;
    let rest: u128 = num % den;
    assert(q <= num) by (nonlinear_arith)
        requires
            q == num / den,
            den > 0,
    ;
    if 2 * rest < den || (2 * rest == den && q % 2 == 0) {
        q
    } else {
        q + 1
    }
}

/// The double nearest to `n`.
fn to_nearest_double(n: u64) -> (v: u128)
    ensures
        v == nearest_double(n as nat),
        v <= 0x2_0000_0000_0000_0000,
{
    let mut top: u64 = n;
    let mut gap: u64 = 1;
    while top >= 0x20_0000_0000_0000
        invariant
            double_gap(n as nat) == gap * double_gap(top as nat),
            gap >= 1,
            gap * top <= n,
        decreases top,
    {
        proof {
            assert(gap * 2 <= n && (gap * 2) * (top / 2) <= n && gap * (2 * double_gap(
                (top / 2) as nat,
            )) == (gap * 2) * double_gap((top / 2) as nat)) by (nonlinear_arith)
                requires
                    gap * top <= n,
                    gap >= 1,
                    top >= 0x20_0000_0000_0000,
            ;
        }
        top = top / 2;
        gap = gap * 2;
    }
    assert(gap == double_gap(n as nat)) by (nonlinear_arith)
        requires
            double_gap(n as nat) == gap * double_gap(top as nat),
            double_gap(top as nat) == 1,
    ;
    let steps: u128 = round_div(n as u128, gap as u128);
    assert(steps * gap <= n + gap) by (nonlinear_arith)
        requires
            steps <= n / gap + 1,
            gap >= 1,
    ;
    steps * (gap as u128)
}

/// The name of the unit `u`.
fn unit(u: u8) -> (name: &'static str)
    ensures
        name@ == unit_name(u as nat),
{
    match u {
        0 => "Б",
        1 => "КБ",
        2 => "МБ",
        3 => "ГБ",
        _ => "ТБ",
    }
}

/// A size for people to read.
pub fn human_size(bytes: u64) -> (s: String)
    ensures
        s@ == size_text(bytes as nat),
{
    let v: u128 = to_nearest_double(bytes);
    let mut u: u8 = 0;
    let mut scale: u64 = 1;
    while v >= 1024 * (scale as u128) && u < 4
        invariant
            u <= 4,
            scale == unit_bytes(u as nat),
            scale <= 0x100_0000_0000,
            u > 0 ==> v >= scale,
            v <= 0x2_0000_0000_0000_0000,
        decreases 4 - u,
    {
        scale = scale * 1024;
        u = u + 1;
    }
    if u == 0 {
        let mut s = text::to_decimal(bytes);
        s.push(' ');
        s.append(unit(0));
        s
    } else {
        let tenths: u128 = round_div(v * 10, scale as u128);
        let t: u64 = tenths as u64;
        let mut s = text::to_decimal(t / 10);
        s.push('.');
        s.push(text::to_digit(t % 10));
        s.push(' ');
        s.append(unit(u));
        s
    }
}

/// A number that a double can hold is its own nearest double.
pub proof fn doubles_are_exact(n: nat)
    requires
        n % double_gap(n) == 0,
    ensures
        nearest_double(n) == n,
{
    double_gap_is_positive(n);
    let gap = double_gap(n);
    assert((n / gap) * gap == n) by (nonlinear_arith)
        requires
            gap > 0,
            n % gap == 0,
    ;
}

/// There is a distance between neighbouring doubles.
proof fn double_gap_is_positive(n: nat)
    ensures
        double_gap(n) > 0,
    decreases n,
{
    if n >= 0x20_0000_0000_0000 {
        double_gap_is_positive(n / 2);
    }
}

/// Every size up to 2^53 bytes is a double itself.
pub proof fn small_sizes_are_exact(n: nat)
    requires
        n <= 0x20_0000_0000_0000,
    ensures
        nearest_double(n) == n,
{
    reveal_with_fuel(double_gap, 2);
    doubles_are_exact(n);
}

/// Every size is told to within half a tenth of its unit of the double nearest
/// to it.
pub proof fn sizes_are_told_closely(bytes: nat)
    ensures
        ({
            let v = nearest_double(bytes);
            let unit = unit_bytes(unit_index(v));
            let told = size_tenths(bytes) * unit;
            -unit <= 2 * (told - 10 * v) <= unit
        }),
{
    let v = nearest_double(bytes);
    let unit = unit_bytes(unit_index(v));
    let num = v * 10;
    let q = num / unit;
    assert(num == unit * q + num % unit) by (nonlinear_arith)
        requires
            q == num / unit,
            unit > 0,
    ;
    assert((q + 1) * unit == unit * q + unit && q * unit == unit * q) by (nonlinear_arith);
}

/// A size up to 2^53 bytes is told to within half a tenth of its unit.
pub proof fn small_sizes_are_told_closely(bytes: nat)
    requires
        bytes <= 0x20_0000_0000_0000,
    ensures
        ({
            let told = size_tenths(bytes) * unit_bytes(unit_index(bytes));
            let unit = unit_bytes(unit_index(bytes));
            -unit <= 2 * (told - 10 * bytes) <= unit
        }),
{
    small_sizes_are_exact(bytes);
    sizes_are_told_closely(bytes);
}

/// From one KB up to 1024 TB a size is told as 1.0 to 1024.0 of its unit.
pub proof fn told_number_is_short(bytes: nat)
    requires
        0x400 <= bytes <= 0x4_0000_0000_0000,
    ensures
        10 <= size_tenths(bytes) <= 10240,
{
    small_sizes_are_exact(bytes);
    let u = unit_index(bytes);
    let num = bytes * 10;
    if u == 1 {
        assert(size_tenths(bytes) == round_half_even(num, 0x400));
    } else if u == 2 {
        assert(size_tenths(bytes) == round_half_even(num, 0x10_0000));
    } else if u == 3 {
        assert(size_tenths(bytes) == round_half_even(num, 0x4000_0000));
    } else {
        assert(size_tenths(bytes) == round_half_even(num, 0x100_0000_0000));
    }
}

} // verus!
