//! Laws of the names for received files.

use crate::names;
use crate::text;
use vstd::prelude::*;

verus! {

/// What stands before a separator does not matter.
proof fn base_name_after_separator(d: Seq<char>, c: char, s: Seq<char>)
    requires
        c == '/' || c == '\\',
    ensures
        names::base_name(d + seq![c] + s) == names::base_name(s),
    decreases s.len(),
{
    let all = d + seq![c] + s;
    if s.len() == 0 {
        assert(all.last() == c);
    } else {
        assert(all.last() == s.last());
        assert(all.drop_last() =~= d + seq![c] + s.drop_last());
        base_name_after_separator(d, c, s.drop_last());
    }
}

/// A character that does not stay does not matter.
proof fn dropped_character(x: Seq<char>, c: char, y: Seq<char>)
    requires
        !names::is_separator(c),
        !names::kept()(c),
    ensures
        names::base_name(x + seq![c] + y).filter(names::kept()) == names::base_name(x + y).filter(
            names::kept(),
        ),
    decreases y.len(),
{
    reveal(Seq::filter);
    let all = x + seq![c] + y;
    let rest = x + y;
    if y.len() == 0 {
        assert(all.drop_last() =~= x);
        assert(rest =~= x);
        assert(names::base_name(all).drop_last() =~= names::base_name(x));
    } else {
        assert(all.drop_last() =~= x + seq![c] + y.drop_last());
        assert(rest.drop_last() =~= x + y.drop_last());
        assert(all.last() == y.last() && rest.last() == y.last());
        if !names::is_separator(y.last()) {
            dropped_character(x, c, y.drop_last());
            assert(names::base_name(all).drop_last() =~= names::base_name(all.drop_last()));
            assert(names::base_name(rest).drop_last() =~= names::base_name(rest.drop_last()));
        }
    }
}

/// A character in front is in front of what stays, or gone.
proof fn character_in_front(w: char, s: Seq<char>)
    requires
        !names::is_separator(w),
    ensures
        ({
            let with = names::base_name(seq![w] + s).filter(names::kept());
            let without = names::base_name(s).filter(names::kept());
            with == without || with == seq![w] + without
        }),
    decreases s.len(),
{
    reveal(Seq::filter);
    let all = seq![w] + s;
    let kept = names::kept();
    if s.len() == 0 {
        assert(all.drop_last() =~= Seq::empty());
        assert(all.last() == w);
        assert(names::base_name(all.drop_last()) =~= Seq::empty());
        let b = names::base_name(all);
        assert(b =~= seq![w]);
        assert(b.drop_last() =~= Seq::empty());
        assert(b.drop_last().filter(kept) =~= Seq::empty());
        let without = names::base_name(s).filter(kept);
        assert(without =~= Seq::empty());
        if kept(w) {
            assert(b.filter(kept) =~= seq![w] + without);
        }
    } else {
        assert(all.drop_last() =~= seq![w] + s.drop_last());
        assert(all.last() == s.last());
        if !names::is_separator(s.last()) {
            character_in_front(w, s.drop_last());
            let bw = names::base_name(all);
            let bs = names::base_name(s);
            assert(bw.drop_last() =~= names::base_name(all.drop_last()));
            assert(bs.drop_last() =~= names::base_name(s.drop_last()));
            let inner = names::base_name(s.drop_last()).filter(kept);
            assert((seq![w] + inner).push(s.last()) =~= seq![w] + inner.push(s.last()));
        }
    }
}

/// White space in front is trimmed.
proof fn trimmed_in_front(w: char, z: Seq<char>)
    requires
        text::is_white_space(w),
    ensures
        text::trimmed(seq![w] + z) == text::trimmed(z),
{
    let blank = text::blank();
    end_of_longer(w, z);
    let e = text::without_end(z, blank);
    if e.len() > 0 {
        assert((seq![w] + e).drop_first() =~= e);
        assert((seq![w] + e)[0] == w);
    } else {
        assert(e =~= Seq::empty());
    }
}

/// The end of a string with white space in front.
proof fn end_of_longer(w: char, z: Seq<char>)
    requires
        text::is_white_space(w),
    ensures
        ({
            let e = text::without_end(z, text::blank());
            text::without_end(seq![w] + z, text::blank()) == (if e.len() > 0 {
                seq![w] + e
            } else {
                Seq::empty()
            })
        }),
    decreases z.len(),
{
    let all = seq![w] + z;
    let blank = text::blank();
    if z.len() == 0 {
        assert(all.last() == w);
        assert(all.drop_last() =~= Seq::empty());
        assert(text::without_end(all.drop_last(), blank) =~= Seq::empty());
        assert(text::without_end(z, blank) =~= Seq::empty());
    } else {
        assert(all.last() == z.last());
        assert(all.drop_last() =~= seq![w] + z.drop_last());
        if blank(z.last()) {
            end_of_longer(w, z.drop_last());
        }
    }
}

/// White space at the end is trimmed.
proof fn trimmed_at_end(z: Seq<char>, w: char)
    requires
        text::is_white_space(w),
    ensures
        text::trimmed(z.push(w)) == text::trimmed(z),
{
    assert(z.push(w).drop_last() =~= z);
}

/// A good name is left as it is. Good is a name that is not empty and neither `.`
/// nor `..`, with no white space at either end, no slash or backslash, none of
/// `: * ? " < > |` and no control character.
pub proof fn good_names_are_kept(name: &str, out: String)
    requires
        call_ensures(names::sanitize, (name,), out),
        name@.len() > 0,
        name@ != seq!['.'],
        name@ != seq!['.', '.'],
        forall|i: int|
            0 <= i < name@.len() ==> {
                let c = #[trigger] name@[i];
                &&& c != '/' && c != '\\'
                &&& c != ':' && c != '*' && c != '?' && c != '"' && c != '<' && c != '>' && c != '|'
                &&& !(c as int <= 0x1f) && !(0x7f <= c as int <= 0x9f)
            },
        forall|i: int|
            i == 0 || i == name@.len() - 1 ==> {
                let c = #[trigger] name@[i] as int;
                !(c == 32 || c == 0xa0 || c == 0x1680 || 0x2000 <= c <= 0x200a || c == 0x2028 || c
                    == 0x2029 || c == 0x202f || c == 0x205f || c == 0x3000)
            },
    ensures
        out@ == name@,
{
    let s = name@;
    reveal_strlit(".");
    reveal_strlit("..");
    assert("."@ =~= seq!['.']);
    assert(".."@ =~= seq!['.', '.']);
    assert forall|i: int| 0 <= i < s.len() implies !names::is_separator(#[trigger] s[i])
        && names::kept()(s[i]) by {}
    assert(s[0] == s[0] && s[s.len() - 1] == s.last());
    names::safe_name_is_unchanged(s);
}

/// Only what follows the last slash or backslash matters.
pub proof fn directories_are_dropped(
    long: &str,
    short: &str,
    dir: Seq<char>,
    c: char,
    out: String,
    out_short: String,
)
    requires
        call_ensures(names::sanitize, (long,), out),
        call_ensures(names::sanitize, (short,), out_short),
        c == '/' || c == '\\',
        long@ == dir + seq![c] + short@,
    ensures
        out@ == out_short@,
{
    base_name_after_separator(dir, c, short@);
}

/// A control character or one of `: * ? " < > |`, wherever it stands, is as if it
/// were not there.
pub proof fn forbidden_characters_are_dropped(
    long: &str,
    short: &str,
    x: Seq<char>,
    c: char,
    y: Seq<char>,
    out: String,
    out_short: String,
)
    requires
        call_ensures(names::sanitize, (long,), out),
        call_ensures(names::sanitize, (short,), out_short),
        c == ':' || c == '*' || c == '?' || c == '"' || c == '<' || c == '>' || c == '|' || c as int
            <= 0x1f || 0x7f <= c as int <= 0x9f,
        long@ == x + seq![c] + y,
        short@ == x + y,
    ensures
        out@ == out_short@,
{
    dropped_character(x, c, y);
}

/// White space at either end is as if it were not there.
pub proof fn blanks_at_the_ends_are_dropped(
    long: &str,
    short: &str,
    w: char,
    out: String,
    out_short: String,
)
    requires
        call_ensures(names::sanitize, (long,), out),
        call_ensures(names::sanitize, (short,), out_short),
        ({
            let c = w as int;
            9 <= c <= 13 || c == 32 || c == 0x85 || c == 0xa0 || c == 0x1680 || 0x2000 <= c
                <= 0x200a || c == 0x2028 || c == 0x2029 || c == 0x202f || c == 0x205f || c == 0x3000
        }),
        long@ == seq![w] + short@ || long@ == short@ + seq![w],
    ensures
        out@ == out_short@,
{
    reveal(Seq::filter);
    let kept = names::kept();
    let z = names::base_name(short@).filter(kept);
    if long@ == seq![w] + short@ {
        character_in_front(w, short@);
        trimmed_in_front(w, z);
    } else {
        let b = names::base_name(long@);
        assert(long@.last() == w);
        assert(long@.drop_last() =~= short@);
        assert(b.drop_last() =~= names::base_name(short@));
        assert(b.last() == w);
        trimmed_at_end(z, w);
    }
}

/// Nothing, `.` and `..` become `file.bin`.
pub proof fn names_of_no_file_are_replaced(name: &str, out: String)
    requires
        call_ensures(names::sanitize, (name,), out),
        name@.len() == 0 || name@ == seq!['.'] || name@ == seq!['.', '.'],
    ensures
        out@ == seq!['f', 'i', 'l', 'e', '.', 'b', 'i', 'n'],
{
    reveal_strlit(".");
    reveal_strlit("..");
    reveal_strlit("file.bin");
    assert("."@ =~= seq!['.']);
    assert(".."@ =~= seq!['.', '.']);
    assert("file.bin"@ =~= seq!['f', 'i', 'l', 'e', '.', 'b', 'i', 'n']);
    let s = name@;
    names::base_name_is_suffix(s, 0);
    assert(s.skip(0) =~= s);
    names::filter_keeps_all(s);
    if s.len() == 0 {
        assert(text::trimmed(s).len() == 0);
    }
}

/// Whatever comes in, what comes out can be the name of a file in a directory.
pub proof fn sanitized_names_are_good(name: &str, out: String)
    requires
        call_ensures(names::sanitize, (name,), out),
    ensures
        out@.len() > 0,
        out@ != seq!['.'],
        out@ != seq!['.', '.'],
        forall|i: int|
            0 <= i < out@.len() ==> {
                let c = #[trigger] out@[i];
                &&& c != '/' && c != '\\'
                &&& c != ':' && c != '*' && c != '?' && c != '"' && c != '<' && c != '>' && c != '|'
                &&& !(c as int <= 0x1f) && !(0x7f <= c as int <= 0x9f)
            },
{
    reveal_strlit(".");
    reveal_strlit("..");
    assert("."@ =~= seq!['.']);
    assert(".."@ =~= seq!['.', '.']);
    names::sanitized_name_is_safe(name@);
    assert forall|i: int| 0 <= i < out@.len() implies ({
        let c = #[trigger] out@[i];
        &&& c != '/' && c != '\\'
        &&& c != ':' && c != '*' && c != '?' && c != '"' && c != '<' && c != '>' && c != '|'
        &&& !(c as int <= 0x1f) && !(0x7f <= c as int <= 0x9f)
    }) by {
        assert(!names::is_separator(out@[i]) && names::kept()(out@[i]));
    }
}

/// Where the last dot stands, told by what follows it.
proof fn dot_is_last(s: Seq<char>, d: int)
    requires
        0 <= d < s.len(),
        s[d] == '.',
        forall|k: int| d < k < s.len() ==> #[trigger] s[k] != '.',
    ensures
        names::last_dot(s) == d,
    decreases s.len(),
{
    if d < s.len() - 1 {
        dot_is_last(s.drop_last(), d);
    }
}

/// Where there is no dot.
proof fn dot_is_nowhere(s: Seq<char>)
    requires
        forall|k: int| 0 <= k < s.len() ==> #[trigger] s[k] != '.',
    ensures
        names::last_dot(s) == -1,
    decreases s.len(),
{
    if s.len() > 0 {
        dot_is_nowhere(s.drop_last());
    }
}

/// The number goes right before the last dot: what follows from there on, the
/// type of the file, stays at the end.
pub proof fn number_goes_before_the_last_dot(name: Seq<char>, d: int, i: nat)
    requires
        0 <= d < name.len(),
        name[d] == '.',
        forall|k: int| d < k < name.len() ==> #[trigger] name[k] != '.',
        i >= 1,
    ensures
        names::candidate(name, 0) == name,
        names::candidate(name, i) == name.subrange(0, d) + seq![' ', '('] + text::decimal(i)
            + seq![')'] + name.subrange(d, name.len() as int),
{
    dot_is_last(name, d);
    reveal_strlit(" (");
    reveal_strlit(")");
    assert(" ("@ =~= seq![' ', '(']);
    assert(")"@ =~= seq![')']);
    assert(name.take(d) =~= name.subrange(0, d));
    assert(name.skip(d) =~= name.subrange(d, name.len() as int));
}

/// Without a dot the number goes to the end.
pub proof fn number_goes_to_the_end(name: Seq<char>, i: nat)
    requires
        forall|k: int| 0 <= k < name.len() ==> #[trigger] name[k] != '.',
        i >= 1,
    ensures
        names::candidate(name, 0) == name,
        names::candidate(name, i) == name + seq![' ', '('] + text::decimal(i) + seq![')'],
{
    dot_is_nowhere(name);
    reveal_strlit(" (");
    reveal_strlit(")");
    assert(" ("@ =~= seq![' ', '(']);
    assert(")"@ =~= seq![')']);
    assert(names::candidate(name, i) =~= name + seq![' ', '('] + text::decimal(i) + seq![')']);
}

/// What is picked where `dir` holds the names in use.
proof fn picked_from_directory<F: Fn(&str) -> bool>(
    name: Seq<char>,
    taken: F,
    dir: Set<Seq<char>>,
    free: Option<Seq<char>>,
    i: nat,
)
    requires
        names::picks(taken, name, free),
        forall|s: &str, b: bool| #[trigger]
            call_ensures(taken, (s,), b) ==> b == dir.contains(s@),
    ensures
        i <= u32::MAX && !dir.contains(names::candidate(name, i)) && (forall|j: nat|
            j < i ==> dir.contains(#[trigger] names::candidate(name, j))) ==> free == Some(
            names::candidate(name, i),
        ),
        free is None ==> forall|j: nat|
            j <= u32::MAX ==> dir.contains(#[trigger] names::candidate(name, j)),
        (forall|j: nat| j <= u32::MAX ==> dir.contains(#[trigger] names::candidate(name, j)))
            ==> free is None,
{
    match free {
        Some(s) => {
            let n = choose|n: nat|
                {
                    &&& n <= u32::MAX
                    &&& s == #[trigger] names::candidate(name, n)
                    &&& names::answers(taken, s, false)
                    &&& forall|j: nat|
                        j < n ==> #[trigger] names::answers(taken, names::candidate(name, j), true)
                };
            assert(!dir.contains(names::candidate(name, n)));
            if i < n {
                assert(names::answers(taken, names::candidate(name, i), true));
                assert(dir.contains(names::candidate(name, i)));
            }
        },
        None => {
            assert forall|j: nat| j <= u32::MAX implies dir.contains(
                #[trigger] names::candidate(name, j),
            ) by {
                assert(names::answers(taken, names::candidate(name, j), true));
            }
        },
    }
}

/// A name that is free is picked as it is.
pub proof fn free_name_is_picked<F: Fn(&str) -> bool>(
    name: &str,
    taken: F,
    dir: Set<Seq<char>>,
    free: Option<String>,
)
    requires
        call_ensures(names::unique_path::<F>, (name, taken), free),
        forall|s: &str, b: bool| #[trigger]
            call_ensures(taken, (s,), b) ==> b == dir.contains(s@),
        !dir.contains(name@),
    ensures
        free matches Some(s) && s@ == name@,
{
    picked_from_directory(
        name@,
        taken,
        dir,
        match free {
            Some(s) => Some(s@),
            None => None,
        },
        0,
    );
}

/// Of a name with a dot that is taken, the first numbered one that is free is
/// picked: `stem (1).ext`, `stem (2).ext` and so on, where `d` is the place of the
/// last dot.
pub proof fn first_free_number_is_picked<F: Fn(&str) -> bool>(
    name: &str,
    taken: F,
    dir: Set<Seq<char>>,
    free: Option<String>,
    d: int,
    i: nat,
)
    requires
        call_ensures(names::unique_path::<F>, (name, taken), free),
        forall|s: &str, b: bool| #[trigger]
            call_ensures(taken, (s,), b) ==> b == dir.contains(s@),
        0 <= d < name@.len(),
        name@[d] == '.',
        forall|k: int| d < k < name@.len() ==> #[trigger] name@[k] != '.',
        1 <= i <= u32::MAX,
        dir.contains(name@),
        forall|j: nat|
            1 <= j < i ==> dir.contains(
                name@.subrange(0, d) + seq![' ', '('] + #[trigger] text::decimal(j) + seq![')']
                    + name@.subrange(d, name@.len() as int),
            ),
        !dir.contains(
            name@.subrange(0, d) + seq![' ', '('] + text::decimal(i) + seq![')'] + name@.subrange(
                d,
                name@.len() as int,
            ),
        ),
    ensures
        free matches Some(s) && s@ == name@.subrange(0, d) + seq![' ', '('] + text::decimal(i)
            + seq![')'] + name@.subrange(d, name@.len() as int),
{
    number_goes_before_the_last_dot(name@, d, i);
    assert forall|j: nat| j < i implies dir.contains(#[trigger] names::candidate(name@, j)) by {
        if j > 0 {
            number_goes_before_the_last_dot(name@, d, j);
            assert(dir.contains(
                name@.subrange(0, d) + seq![' ', '('] + text::decimal(j) + seq![')']
                    + name@.subrange(d, name@.len() as int),
            ));
        }
    }
    picked_from_directory(
        name@,
        taken,
        dir,
        match free {
            Some(s) => Some(s@),
            None => None,
        },
        i,
    );
}

/// Of a name without a dot that is taken, the first numbered one that is free is
/// picked: `name (1)`, `name (2)` and so on.
pub proof fn first_free_number_is_picked_without_dot<F: Fn(&str) -> bool>(
    name: &str,
    taken: F,
    dir: Set<Seq<char>>,
    free: Option<String>,
    i: nat,
)
    requires
        call_ensures(names::unique_path::<F>, (name, taken), free),
        forall|s: &str, b: bool| #[trigger]
            call_ensures(taken, (s,), b) ==> b == dir.contains(s@),
        forall|k: int| 0 <= k < name@.len() ==> #[trigger] name@[k] != '.',
        1 <= i <= u32::MAX,
        dir.contains(name@),
        forall|j: nat|
            1 <= j < i ==> dir.contains(
                name@ + seq![' ', '('] + #[trigger] text::decimal(j) + seq![')'],
            ),
        !dir.contains(name@ + seq![' ', '('] + text::decimal(i) + seq![')']),
    ensures
        free matches Some(s) && s@ == name@ + seq![' ', '('] + text::decimal(i) + seq![')'],
{
    number_goes_to_the_end(name@, i);
    assert forall|j: nat| j < i implies dir.contains(#[trigger] names::candidate(name@, j)) by {
        if j > 0 {
            number_goes_to_the_end(name@, j);
            assert(dir.contains(name@ + seq![' ', '('] + text::decimal(j) + seq![')']));
        }
    }
    picked_from_directory(
        name@,
        taken,
        dir,
        match free {
            Some(s) => Some(s@),
            None => None,
        },
        i,
    );
}

/// No name is picked only where all of them are taken.
pub proof fn no_name_means_all_taken<F: Fn(&str) -> bool>(
    name: &str,
    taken: F,
    dir: Set<Seq<char>>,
    free: Option<String>,
)
    requires
        call_ensures(names::unique_path::<F>, (name, taken), free),
        forall|s: &str, b: bool| #[trigger]
            call_ensures(taken, (s,), b) ==> b == dir.contains(s@),
    ensures
        free is None <==> forall|j: nat|
            j <= u32::MAX ==> dir.contains(#[trigger] names::candidate(name@, j)),
        free matches Some(s) ==> !dir.contains(s@),
{
    picked_from_directory(
        name@,
        taken,
        dir,
        match free {
            Some(s) => Some(s@),
            None => None,
        },
        0,
    );
}

} // verus!
