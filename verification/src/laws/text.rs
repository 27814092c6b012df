//! Laws of numerals, trimming, order and joining.

use crate::net;
use crate::text;
use vstd::arithmetic::power::*;
use vstd::prelude::*;

verus! {

/// A numeral has the digit of each power of ten at its place, and no zero in
/// front.
pub proof fn numeral_is_positional(n: nat)
    ensures
        text::decimal(n).len() > 0,
        n < pow(10, text::decimal(n).len()),
        text::decimal(n).len() > 1 ==> n >= pow(10, (text::decimal(n).len() - 1) as nat),
        forall|i: int|
            0 <= i < text::decimal(n).len() ==> #[trigger] text::decimal(n)[i] as int == 48 + (n
                as int / pow(10, (text::decimal(n).len() - 1 - i) as nat)) % 10,
    decreases n,
{
    reveal(pow);
    let s = text::decimal(n);
    if n < 10 {
        assert(pow(10, 1) == 10) by {
            reveal_with_fuel(pow, 2);
        }
        assert(pow(10, 0) == 1);
    } else {
        let t = text::decimal(n / 10);
        numeral_is_positional(n / 10);
        assert(s.len() == t.len() + 1);
        assert(pow(10, s.len()) == 10 * pow(10, t.len()));
        assert(pow(10, t.len()) == 10 * pow(10, (t.len() - 1) as nat));
        assert(pow(10, 0) == 1);
        assert(t.len() == 1 ==> pow(10, (t.len() - 1) as nat) == 1);
        assert forall|i: int| 0 <= i < s.len() implies #[trigger] s[i] as int == 48 + (n as int
            / pow(10, (s.len() - 1 - i) as nat)) % 10 by {
            if i < t.len() {
                let e = (t.len() - 1 - i) as nat;
                assert(s[i] == t[i]);
                assert(pow(10, (e + 1) as nat) == 10 * pow(10, e));
                lemma_pow_positive(10, e);
                vstd::arithmetic::div_mod::lemma_div_denominator(n as int, 10, pow(10, e));
                assert((s.len() - 1 - i) as nat == e + 1);
            } else {
                assert(n as int / 1 == n);
            }
        }
    }
}

/// `to_decimal` writes the numeral: the digit of each power of ten at its place.
pub proof fn to_decimal_is_positional(n: u64, s: String)
    requires
        call_ensures(text::to_decimal, (n,), s),
    ensures
        s@.len() > 0,
        n < pow(10, s@.len()),
        s@.len() > 1 ==> n >= pow(10, (s@.len() - 1) as nat),
        forall|i: int|
            0 <= i < s@.len() ==> #[trigger] s@[i] as int == 48 + (n as int / pow(
                10,
                (s@.len() - 1 - i) as nat,
            )) % 10,
{
    numeral_is_positional(n as nat);
}

/// The digit of a number below ten stands that far after `0`.
pub proof fn digits_follow_zero(d: u64, c: char)
    requires
        call_ensures(text::to_digit, (d,), c),
        d < 10,
    ensures
        c as int == 48 + d,
{
}

/// The control characters are those below U+0020 and those from U+007F to U+009F.
pub proof fn control_characters(c: char, b: bool)
    requires
        call_ensures(text::control, (c,), b),
    ensures
        b <==> c as int <= 0x1f || 0x7f <= c as int <= 0x9f,
{
}

/// The characters that are white space, one by one.
pub proof fn white_space_characters(w: char, b: bool)
    requires
        call_ensures(text::white_space, (w,), b),
    ensures
        ({
            let c = w as int;
            b <==> 9 <= c <= 13 || c == 32 || c == 0x85 || c == 0xa0 || c == 0x1680 || 0x2000 <= c
                <= 0x200a || c == 0x2028 || c == 0x2029 || c == 0x202f || c == 0x205f || c == 0x3000
        }),
{
}

/// A string is taken apart into its characters and put together from them.
pub proof fn strings_are_their_characters(
    s: &str,
    v: Vec<char>,
    from: usize,
    to: usize,
    part: String,
)
    requires
        call_ensures(text::chars_of, (s,), v),
        call_ensures(text::string_of, (&v, from, to), part),
        from <= to <= s@.len(),
    ensures
        v@.len() == s@.len(),
        forall|i: int| 0 <= i < s@.len() ==> #[trigger] v@[i] == s@[i],
        part@.len() == to - from,
        forall|i: int| 0 <= i < to - from ==> #[trigger] part@[i] == s@[from + i],
{
}

/// Two strings are joined with nothing between them and nothing lost.
pub proof fn joined_strings_follow_each_other(a: &str, b: &str, s: String)
    requires
        call_ensures(text::join, (a, b), s),
    ensures
        s@.len() == a@.len() + b@.len(),
        s@.subrange(0, a@.len() as int) == a@,
        s@.subrange(a@.len() as int, s@.len() as int) == b@,
{
    assert(s@.subrange(0, a@.len() as int) =~= a@);
    assert(s@.subrange(a@.len() as int, s@.len() as int) =~= b@);
}

/// The characters of a string are trimmed as the string is.
pub proof fn characters_are_trimmed_as_the_string(s: &str, v: &Vec<char>, t: String, u: String)
    requires
        call_ensures(text::trim, (s,), t),
        call_ensures(text::trim_chars, (v,), u),
        v@ == s@,
    ensures
        u@ == t@,
{
}

/// The numeral of the port that both sides listen on.
pub proof fn numeral_of_the_port()
    ensures
        net::PORT == 9009,
        text::decimal(net::PORT as nat) == seq!['9', '0', '0', '9'],
{
    reveal_with_fuel(text::decimal, 5);
    assert(text::decimal(9009) =~= seq!['9', '0', '0', '9']);
}

/// Every character that `without_end` removes satisfies the predicate.
pub proof fn without_end_removes_only(s: Seq<char>, p: spec_fn(char) -> bool)
    ensures
        forall|k: int| text::without_end(s, p).len() <= k < s.len() ==> p(#[trigger] s[k]),
    decreases s.len(),
{
    if s.len() > 0 && p(s.last()) {
        without_end_removes_only(s.drop_last(), p);
        let n = text::without_end_is_prefix(s.drop_last(), p);
        assert forall|k: int| text::without_end(s, p).len() <= k < s.len() implies p(
            #[trigger] s[k],
        ) by {
            if k < s.len() - 1 {
                assert(s.drop_last()[k] == s[k]);
            }
        }
    }
}

/// Every character that `without_start` removes satisfies the predicate.
pub proof fn without_start_removes_only(s: Seq<char>, p: spec_fn(char) -> bool)
    ensures
        forall|k: int|
            0 <= k < s.len() - text::without_start(s, p).len() ==> p(#[trigger] s[k]),
    decreases s.len(),
{
    if s.len() > 0 && p(s[0]) {
        without_start_removes_only(s.drop_first(), p);
        let n = text::without_start_is_suffix(s.drop_first(), p);
        assert forall|k: int|
            0 <= k < s.len() - text::without_start(s, p).len() implies p(#[trigger] s[k]) by {
            if k > 0 {
                assert(s.drop_first()[k - 1] == s[k]);
            }
        }
    }
}

/// What trimming leaves is a part of the string with white space only before it
/// and after it, and none at its own ends. The white space is listed.
pub proof fn trimmed_between_blanks(s: Seq<char>) -> (r: (int, int))
    ensures
        0 <= r.0 <= r.1 <= s.len(),
        text::trimmed(s) == s.subrange(r.0, r.1),
        forall|k: int|
            0 <= k < r.0 || r.1 <= k < s.len() ==> {
                let c = #[trigger] s[k] as int;
                9 <= c <= 13 || c == 32 || c == 0x85 || c == 0xa0 || c == 0x1680 || 0x2000 <= c
                    <= 0x200a || c == 0x2028 || c == 0x2029 || c == 0x202f || c == 0x205f || c
                    == 0x3000
            },
        forall|k: int|
            (k == r.0 || k == r.1 - 1) && r.0 < r.1 ==> {
                let c = #[trigger] s[k] as int;
                !(9 <= c <= 13 || c == 32 || c == 0x85 || c == 0xa0 || c == 0x1680 || 0x2000 <= c
                    <= 0x200a || c == 0x2028 || c == 0x2029 || c == 0x202f || c == 0x205f || c
                    == 0x3000)
            },
{
    let j = text::without_end_is_prefix(s, text::blank());
    without_end_removes_only(s, text::blank());
    let cut = s.take(j);
    let i = text::without_start_is_suffix(cut, text::blank());
    without_start_removes_only(cut, text::blank());
    assert(cut.skip(i) =~= s.subrange(i, j));
    assert forall|k: int| 0 <= k < i || j <= k < s.len() implies text::is_white_space(
        #[trigger] s[k],
    ) by {
        if k < i {
            assert(cut[k] == s[k]);
            assert(text::blank()(cut[k]));
        } else {
            assert(text::blank()(s[k]));
        }
    }
    if i < j {
        assert(!text::blank()(cut[i]));
        assert(!text::blank()(s[j - 1]));
    }
    (i, j)
}

/// `trim` takes away the white space at both ends, all of it and nothing else.
pub proof fn trim_takes_blanks_only(s: &str, t: String)
    requires
        call_ensures(text::trim, (s,), t),
    ensures
        exists|i: int, j: int|
            {
                &&& 0 <= i <= j <= s@.len()
                &&& t@ == #[trigger] s@.subrange(i, j)
                &&& forall|k: int|
                    0 <= k < i || j <= k < s@.len() ==> {
                        let c = #[trigger] s@[k] as int;
                        9 <= c <= 13 || c == 32 || c == 0x85 || c == 0xa0 || c == 0x1680 || 0x2000
                            <= c <= 0x200a || c == 0x2028 || c == 0x2029 || c == 0x202f || c
                            == 0x205f || c == 0x3000
                    }
                &&& forall|k: int|
                    (k == i || k == j - 1) && i < j ==> {
                        let c = #[trigger] s@[k] as int;
                        !(9 <= c <= 13 || c == 32 || c == 0x85 || c == 0xa0 || c == 0x1680
                            || 0x2000 <= c <= 0x200a || c == 0x2028 || c == 0x2029 || c == 0x202f
                            || c == 0x205f || c == 0x3000)
                    }
            },
{
    let (i, j) = trimmed_between_blanks(s@);
    assert(t@ == s@.subrange(i, j));
}

/// `trim_line_ends` takes away the line feeds and carriage returns at the end,
/// all of them and nothing else.
pub proof fn trim_line_ends_takes_line_ends_only(s: &str, t: String)
    requires
        call_ensures(text::trim_line_ends, (s,), t),
    ensures
        t@.len() <= s@.len(),
        t@ == s@.subrange(0, t@.len() as int),
        forall|k: int|
            t@.len() <= k < s@.len() ==> #[trigger] s@[k] == '\n' || s@[k] == '\r',
        t@.len() > 0 ==> t@.last() != '\n' && t@.last() != '\r',
{
    let n = text::without_end_is_prefix(s@, text::line_end());
    without_end_removes_only(s@, text::line_end());
    assert(s@.take(n) =~= s@.subrange(0, t@.len() as int));
    assert forall|k: int| t@.len() <= k < s@.len() implies #[trigger] s@[k] == '\n' || s@[k]
        == '\r' by {
        assert(text::line_end()(s@[k]));
    }
}

/// One string precedes another where the first difference says so: at it the
/// first string ends, or has the smaller character.
pub proof fn first_difference_decides(a: Seq<char>, b: Seq<char>, k: int)
    requires
        0 <= k <= a.len(),
        k <= b.len(),
        forall|i: int| 0 <= i < k ==> #[trigger] a[i] == b[i],
        k < a.len() && k < b.len() ==> a[k] != b[k],
    ensures
        text::precedes(a, b) == (k < b.len() && (k == a.len() || (a[k] as int) < (b[k] as int))),
    decreases a.len(),
{
    if k > 0 {
        assert forall|i: int| 0 <= i < k - 1 implies #[trigger] a.drop_first()[i]
            == b.drop_first()[i] by {
            assert(a[i + 1] == b[i + 1]);
        }
        assert(a[0] == b[0]);
        first_difference_decides(a.drop_first(), b.drop_first(), k - 1);
    }
}

/// `is_before` goes by the first difference.
pub proof fn is_before_goes_by_first_difference(a: &str, b: &str, r: bool, k: int)
    requires
        call_ensures(text::is_before, (a, b), r),
        0 <= k <= a@.len(),
        k <= b@.len(),
        forall|i: int| 0 <= i < k ==> #[trigger] a@[i] == b@[i],
        k < a@.len() && k < b@.len() ==> a@[k] != b@[k],
    ensures
        r == (k < b@.len() && (k == a@.len() || (a@[k] as int) < (b@[k] as int))),
{
    first_difference_decides(a@, b@, k);
}

/// One more string is joined by the separator and itself; a single string is
/// left as it is, and none give none.
pub proof fn joining_appends(
    v: &Vec<String>,
    w: &Vec<String>,
    x: String,
    sep: &str,
    s: String,
    t: String,
)
    requires
        call_ensures(text::join_all, (v, sep), s),
        call_ensures(text::join_all, (w, sep), t),
        w@ == v@.push(x),
    ensures
        v@.len() == 0 ==> s@.len() == 0 && t@ == x@,
        v@.len() > 0 ==> t@ == s@ + sep@ + x@,
{
    assert(text::views(w@).drop_last() =~= text::views(v@));
    assert(text::views(w@).last() == x@);
}

/// `is_among` finds a string exactly where one with its characters is there.
pub proof fn is_among_finds(v: &Vec<String>, s: &String, b: bool)
    requires
        call_ensures(text::is_among, (v, s), b),
    ensures
        b <==> exists|k: int| 0 <= k < v@.len() && (#[trigger] v@[k])@ == s@,
{
    if exists|k: int| 0 <= k < v@.len() && (#[trigger] v@[k])@ == s@ {
        let k = choose|k: int| 0 <= k < v@.len() && (#[trigger] v@[k])@ == s@;
        assert(text::views(v@)[k] == s@);
    }
    if b {
        let k = choose|k: int| 0 <= k < text::views(v@).len() && text::views(v@)[k] == s@;
        assert(v@[k]@ == s@);
    }
}

} // verus!
