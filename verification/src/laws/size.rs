//! Laws of sizes for people to read.

use crate::size;
use crate::text;
use vstd::arithmetic::power2::*;
use vstd::prelude::*;

verus! {

/// The nearest integer to a fraction, the even one of two, is what rounding gives.
proof fn nearest_is_rounded(num: nat, den: nat, t: nat)
    requires
        den > 0,
        -(den as int) <= 2 * (t * den - num) <= den,
        2 * (t * den - num) == den || 2 * (t * den - num) == -(den as int) ==> t % 2 == 0,
    ensures
        size::round_half_even(num, den) == t,
{
    let q = num / den;
    let r = num % den;
    assert(num == q * den + r && 0 <= r < den) by (nonlinear_arith)
        requires
            den > 0,
            q == num / den,
            r == num % den,
    ;
    assert(t == q || t == q + 1) by (nonlinear_arith)
        requires
            -(den as int) <= 2 * (t * den - num) <= den,
            num == q * den + r,
            0 <= r < den,
            den > 0,
    ;
    if t == q {
        assert(t * den - num == -r) by (nonlinear_arith)
            requires
                t == q,
                num == q * den + r,
        ;
    } else {
        assert(t * den - num == den - r) by (nonlinear_arith)
            requires
                t == q + 1,
                num == q * den + r,
        ;
    }
}

/// The text of a size above one kilobyte, by its parts.
proof fn parts(whole: nat, tenth: nat, unit: Seq<char>)
    requires
        tenth < 10,
    ensures
        text::decimal(whole).push('.').push(text::digit(tenth)).push(' ') + unit == text::decimal(
            whole,
        ) + seq!['.'] + text::decimal(tenth) + seq![' '] + unit,
{
    assert(text::decimal(whole).push('.').push(text::digit(tenth)).push(' ') + unit
        =~= text::decimal(whole) + seq!['.'] + text::decimal(tenth) + seq![' '] + unit);
}

/// Under 1024 bytes the size is told exactly.
pub proof fn bytes_are_told_exactly(bytes: u64, s: String)
    requires
        call_ensures(size::human_size, (bytes,), s),
        bytes < 1024,
    ensures
        s@ == text::decimal(bytes as nat) + seq![' ', 'Б'],
{
    size::small_sizes_are_exact(bytes as nat);
    reveal_strlit("Б");
    assert(s@ =~= text::decimal(bytes as nat) + seq![' ', 'Б']);
}

/// From 1024 bytes up to 2^53 the size is told in the largest unit that fits, by the
/// nearest tenth `t` of it; of two tenths that are equally near, by the even one.
pub proof fn sizes_are_told_by_the_nearest_tenth(bytes: u64, t: nat, s: String)
    requires
        call_ensures(size::human_size, (bytes,), s),
        1024 <= bytes <= 0x20_0000_0000_0000,
        ({
            let unit: int = if bytes < 0x10_0000 {
                1024
            } else if bytes < 0x4000_0000 {
                0x10_0000
            } else if bytes < 0x100_0000_0000 {
                0x4000_0000
            } else {
                0x100_0000_0000
            };
            let off = t * unit - 10 * bytes;
            &&& -unit <= 2 * off <= unit
            &&& 2 * off == unit || 2 * off == -unit ==> t % 2 == 0
        }),
    ensures
        ({
            let number = text::decimal(t / 10) + seq!['.'] + text::decimal(t % 10) + seq![' '];
            &&& bytes < 0x10_0000 ==> s@ == number + seq!['К', 'Б']
            &&& 0x10_0000 <= bytes < 0x4000_0000 ==> s@ == number + seq!['М', 'Б']
            &&& 0x4000_0000 <= bytes < 0x100_0000_0000 ==> s@ == number + seq![
                'Г',
                'Б',
            ]
            &&& 0x100_0000_0000 <= bytes ==> s@ == number + seq!['Т', 'Б']
        }),
{
    size::small_sizes_are_exact(bytes as nat);
    reveal_strlit("КБ");
    reveal_strlit("МБ");
    reveal_strlit("ГБ");
    reveal_strlit("ТБ");
    assert("КБ"@ =~= seq!['К', 'Б']);
    assert("МБ"@ =~= seq!['М', 'Б']);
    assert("ГБ"@ =~= seq!['Г', 'Б']);
    assert("ТБ"@ =~= seq!['Т', 'Б']);
    let u = size::unit_index(bytes as nat);
    nearest_is_rounded((bytes * 10) as nat, size::unit_bytes(u), t);
    parts(t / 10, t % 10, size::unit_name(u));
}

/// The distance of neighbouring doubles between two powers of two.
proof fn gap_is_a_power_of_two(n: nat, k: nat)
    requires
        0x10_0000_0000_0000 * pow2(k) <= n < 0x20_0000_0000_0000 * pow2(k),
    ensures
        size::double_gap(n) == pow2(k),
    decreases k,
{
    if k == 0 {
        lemma2_to64();
    } else {
        lemma_pow2_unfold(k);
        let h = pow2((k - 1) as nat);
        lemma_pow2_pos((k - 1) as nat);
        gap_is_a_power_of_two(n / 2, (k - 1) as nat);
    }
}

/// From 2^52 bytes on the size is told in terabytes, by the nearest tenth `t` to the
/// nearest number with 53 binary digits `m` and `k` zeros after them; of two that are
/// equally near, by the even one.
pub proof fn huge_sizes_are_told_by_the_nearest_double(
    bytes: u64,
    k: nat,
    m: nat,
    t: nat,
    s: String,
)
    requires
        call_ensures(size::human_size, (bytes,), s),
        0x10_0000_0000_0000 * pow2(k) <= bytes < 0x20_0000_0000_0000 * pow2(k),
        ({
            let off = m * pow2(k) - bytes;
            &&& -(pow2(k) as int) <= 2 * off <= pow2(k)
            &&& 2 * off == pow2(k) || 2 * off == -(pow2(k) as int) ==> m % 2 == 0
        }),
        ({
            let off = t * 0x100_0000_0000 - 10 * (m * pow2(k));
            &&& -0x100_0000_0000 <= 2 * off <= 0x100_0000_0000
            &&& 2 * off == 0x100_0000_0000 || 2 * off == -0x100_0000_0000 ==> t % 2 == 0
        }),
    ensures
        s@ == text::decimal(t / 10) + seq!['.'] + text::decimal(t % 10) + seq![' ', 'Т', 'Б'],
{
    let g = pow2(k);
    lemma_pow2_pos(k);
    gap_is_a_power_of_two(bytes as nat, k);
    nearest_is_rounded(bytes as nat, g, m);
    let v = size::nearest_double(bytes as nat);
    assert(v == m * g);
    assert(v >= 0x100_0000_0000) by (nonlinear_arith)
        requires
            v == m * g,
            -(g as int) <= 2 * (m * g - bytes),
            0x10_0000_0000_0000 * g <= bytes,
            g >= 1,
    ;
    nearest_is_rounded(v * 10, 0x100_0000_0000, t);
    reveal_strlit("ТБ");
    parts(t / 10, t % 10, size::unit_name(4));
    assert("ТБ"@ =~= seq!['Т', 'Б']);
    assert(s@ =~= text::decimal(t / 10) + seq!['.'] + text::decimal(t % 10) + seq![' ', 'Т', 'Б']);
}

} // verus!
