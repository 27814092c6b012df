//! Names for received files: safe ones, and ones that are not taken yet.

use crate::text;
use vstd::prelude::*;
use vstd::string::*;

verus! {

/// The characters that part the components of a path.
pub open spec fn is_separator(c: char) -> bool {
    c == '/' || c == '\\'
}

/// The characters besides control characters that no file name may hold.
pub open spec fn is_reserved(c: char) -> bool {
    c == ':' || c == '*' || c == '?' || c == '"' || c == '<' || c == '>' || c == '|'
}

/// The characters that stay in a name, as a predicate.
pub open spec fn kept() -> spec_fn(char) -> bool {
    |c: char| !text::is_control(c) && !is_reserved(c)
}

/// What follows the last separator of `s`.
pub open spec fn base_name(s: Seq<char>) -> Seq<char>
    decreases s.len(),
{
    if s.len() == 0 || is_separator(s.last()) {
        Seq::empty()
    } else {
        base_name(s.drop_last()).push(s.last())
    }
}

/// The two names that are steps in a path and name no file: this directory and
/// the one above it.
pub open spec fn is_path_step(s: Seq<char>) -> bool {
    s == "."@ || s == ".."@
}

/// The safe form of a name that came from somebody else.
pub open spec fn safe_name(s: Seq<char>) -> Seq<char> {
    let t = text::trimmed(base_name(s).filter(kept()));
    if t.len() == 0 || is_path_step(t) {
        "file.bin"@
    } else {
        t
    }
}

/// `base_name` is the part after the last separator.
pub proof fn base_name_is_suffix(s: Seq<char>, start: int)
    requires
        0 <= start <= s.len(),
        start > 0 ==> is_separator(s[start - 1]),
        forall|i: int| start <= i < s.len() ==> !is_separator(#[trigger] s[i]),
    ensures
        base_name(s) == s.skip(start),
    decreases s.len(),
{
    if start < s.len() {
        base_name_is_suffix(s.drop_last(), start);
        assert(s.drop_last().skip(start).push(s.last()) =~= s.skip(start));
    } else {
        assert(s.skip(start) =~= Seq::empty());
    }
}

/// `base_name` holds no separator.
proof fn base_name_has_no_separator(s: Seq<char>)
    ensures
        forall|i: int| 0 <= i < base_name(s).len() ==> !is_separator(#[trigger] base_name(s)[i]),
    decreases s.len(),
{
    if s.len() > 0 && !is_separator(s.last()) {
        base_name_has_no_separator(s.drop_last());
        let rest = base_name(s.drop_last());
        assert forall|i: int| 0 <= i < base_name(s).len() implies !is_separator(
            #[trigger] base_name(s)[i],
        ) by {
            if i < rest.len() {
                assert(base_name(s)[i] == rest[i]);
            }
        }
    }
}

/// Where the part after the last separator starts.
fn base_start(v: &Vec<char>) -> (start: usize)
    ensures
        start <= v@.len(),
        base_name(v@) == v@.skip(start as int),
{
    let mut start: usize = v.len();
    while start > 0 && !(v[start - 1] == '/' || v[start - 1] == '\\')
        invariant
            start <= v@.len(),
            forall|i: int| start <= i < v@.len() ==> !is_separator(#[trigger] v@[i]),
        decreases start,
    {
        start = start - 1;
    }
    proof {
        base_name_is_suffix(v@, start as int);
    }
    start
}

/// Whether `c` may stay in a name.
fn keep(c: char) -> (b: bool)
    ensures
        b == kept()(c),
{
    !text::control(c) && !(c == ':' || c == '*' || c == '?' || c == '"' || c == '<' || c == '>' || c
        == '|')
}

/// Leaves only the name of a file: no directories, no control characters and
/// none that file systems refuse. What would be empty, `.` or `..` becomes
/// `file.bin`.
pub fn sanitize(name: &str) -> (safe: String)
    ensures
        safe@ == safe_name(name@),
{
    let v = text::chars_of(name);
    let start: usize = base_start(&v);
    let ghost base = v@.skip(start as int);
    let mut cleaned: Vec<char> = Vec::new();
    let mut i: usize = start;
    proof {
        reveal(Seq::filter);
        assert(base.take(0) =~= Seq::empty());
    }
    while i < v.len()
        invariant
            start <= i <= v@.len(),
            base == v@.skip(start as int),
            cleaned@ == base.take(i - start).filter(kept()),
        decreases v.len() - i,
    {
        let c = v[i];
        proof {
            reveal(Seq::filter);
            assert(base.take(i + 1 - start).drop_last() =~= base.take(i - start));
            assert(base.take(i + 1 - start).last() == c);
        }
        if keep(c) {
            cleaned.push(c);
        }
        i = i + 1;
    }
    assert(base.take(base.len() as int) =~= base);
    let t = text::trim_chars(&cleaned);
    if t.as_str().is_empty() || t == String::from_str(".") || t == String::from_str("..") {
        String::from_str("file.bin")
    } else {
        t
    }
}

/// A name that, joined to a directory, stands for an entry directly in it: not
/// empty, no step in a path, no separator, no control or reserved character.
pub open spec fn is_entry_name(s: Seq<char>) -> bool {
    &&& s.len() > 0
    &&& s != "."@
    &&& s != ".."@
    &&& forall|i: int| 0 <= i < s.len() ==> !is_separator(#[trigger] s[i]) && kept()(s[i])
}

/// A name to start from when a file is saved: the name of an entry, without
/// white space at either end.
pub open spec fn is_safe_name(s: Seq<char>) -> bool {
    &&& is_entry_name(s)
    &&& !text::is_white_space(s[0])
    &&& !text::is_white_space(s.last())
}

/// Whatever name a peer sends, the sanitized name is safe.
pub proof fn sanitized_name_is_safe(s: Seq<char>)
    ensures
        is_safe_name(safe_name(s)),
{
    let base = base_name(s);
    let cleaned = base.filter(kept());
    let t = text::trimmed(cleaned);
    text::trimmed_is_part(cleaned);
    if t.len() == 0 || is_path_step(t) {
        reveal_strlit("file.bin");
        reveal_strlit(".");
        reveal_strlit("..");
        assert("file.bin"@.len() == 8 && "."@.len() == 1 && ".."@.len() == 2);
        assert(is_safe_name("file.bin"@));
    } else {
        let (a, b) = choose|a: int, b: int|
            0 <= a <= b <= cleaned.len() && t == #[trigger] cleaned.subrange(a, b);
        base_name_has_no_separator(s);
        assert forall|i: int| 0 <= i < t.len() implies !is_separator(#[trigger] t[i]) && kept()(
            t[i],
        ) by {
            assert(t[i] == cleaned[a + i]);
            base.lemma_filter_pred(kept(), a + i);
            assert(cleaned.contains(t[i]));
            base.lemma_filter_contains_rev(kept(), t[i]);
            let k = choose|k: int| 0 <= k < base.len() && base[k] == t[i];
            assert(!is_separator(base[k]));
        }
    }
}

/// A filter whose predicate every character satisfies removes nothing.
pub proof fn filter_keeps_all(s: Seq<char>)
    requires
        forall|i: int| 0 <= i < s.len() ==> kept()(#[trigger] s[i]),
    ensures
        s.filter(kept()) == s,
    decreases s.len(),
{
    reveal(Seq::filter);
    if s.len() > 0 {
        filter_keeps_all(s.drop_last());
        assert(s.drop_last().push(s.last()) =~= s);
    } else {
        assert(s.filter(kept()) =~= s);
    }
}

/// A safe name is left as it is.
pub proof fn safe_name_is_unchanged(s: Seq<char>)
    requires
        is_safe_name(s),
    ensures
        safe_name(s) == s,
{
    base_name_is_suffix(s, 0);
    assert(s.skip(0) =~= s);
    filter_keeps_all(s);
}

/// Sanitizing a name again changes nothing.
pub proof fn sanitizing_is_idempotent(s: Seq<char>)
    ensures
        safe_name(safe_name(s)) == safe_name(s),
{
    sanitized_name_is_safe(s);
    safe_name_is_unchanged(safe_name(s));
}

/// Where the last dot of `s` stands; -1 where there is none.
pub open spec fn last_dot(s: Seq<char>) -> int
    decreases s.len(),
{
    if s.len() == 0 {
        -1
    } else if s.last() == '.' {
        s.len() - 1
    } else {
        last_dot(s.drop_last())
    }
}

/// A name up to its last dot.
pub open spec fn stem(name: Seq<char>) -> Seq<char> {
    if last_dot(name) < 0 {
        name
    } else {
        name.take(last_dot(name))
    }
}

/// A name from its last dot on; nothing where there is no dot.
pub open spec fn extension(name: Seq<char>) -> Seq<char> {
    if last_dot(name) < 0 {
        Seq::empty()
    } else {
        name.skip(last_dot(name))
    }
}

/// The names that are tried for a file, in this order: the name itself, then
/// `stem (1).ext`, `stem (2).ext` and so on.
pub open spec fn candidate(name: Seq<char>, i: nat) -> Seq<char> {
    if i == 0 {
        name
    } else {
        stem(name) + " ("@ + text::decimal(i) + ")"@ + extension(name)
    }
}

/// Asked whether `name` is taken, `taken` may answer `answer`.
pub open spec fn answers<F: Fn(&str) -> bool>(taken: F, name: Seq<char>, answer: bool) -> bool {
    exists|s: &str| s@ == name && #[trigger] call_ensures(taken, (s,), answer)
}

/// `free` is the first candidate for `name` that `taken` does not report as
/// taken; `None` where it reports all of them up to the number `u32::MAX`.
pub open spec fn picks<F: Fn(&str) -> bool>(
    taken: F,
    name: Seq<char>,
    free: Option<Seq<char>>,
) -> bool {
    match free {
        Some(s) => exists|i: nat|
            {
                &&& i <= u32::MAX
                &&& s == #[trigger] candidate(name, i)
                &&& answers(taken, s, false)
                &&& forall|j: nat| j < i ==> #[trigger] answers(taken, candidate(name, j), true)
            },
        None => forall|j: nat|
            j <= u32::MAX ==> #[trigger] answers(taken, candidate(name, j), true),
    }
}

/// Where the last dot stands.
fn find_dot(v: &Vec<char>) -> (d: Option<usize>)
    ensures
        match d {
            Some(i) => i < v@.len() && i == last_dot(v@),
            None => last_dot(v@) < 0,
        },
{
    let mut n: usize = v.len();
    assert(v@.take(n as int) =~= v@);
    while n > 0
        invariant
            n <= v@.len(),
            last_dot(v@.take(n as int)) == last_dot(v@),
        decreases n,
    {
        if v[n - 1] == '.' {
            return Some(n - 1);
        }
        assert(v@.take(n as int).drop_last() =~= v@.take(n - 1));
        n = n - 1;
    }
    None
}

/// Picks the first candidate for `name` that `taken` does not report as taken.
/// There is none where every number up to `u32::MAX` is in use.
pub fn unique_path<F: Fn(&str) -> bool>(name: &str, taken: F) -> (free: Option<String>)
    requires
        forall|s: &str| #[trigger] call_requires(taken, (s,)),
    ensures
        picks(
            taken,
            name@,
            match free {
                Some(s) => Some(s@),
                None => None,
            },
        ),
{
    if !taken(name) {
        assert(name@ == candidate(name@, 0));
        return Some(String::from_str(name));
    }
    let v = text::chars_of(name);
    let (head, tail) = match find_dot(&v) {
        Some(d) => {
            assert(v@.subrange(0, d as int) =~= v@.take(d as int));
            assert(v@.subrange(d as int, v@.len() as int) =~= v@.skip(d as int));
            (text::string_of(&v, 0, d), text::string_of(&v, d, v.len()))
        },
        None => (String::from_str(name), String::new()),
    };
    let mut i: u32 = 1;
    loop
        invariant
            i >= 1,
            head@ == stem(name@),
            tail@ == extension(name@),
            forall|s: &str| #[trigger] call_requires(taken, (s,)),
            forall|j: nat| j < i ==> #[trigger] answers(taken, candidate(name@, j), true),
        decreases u32::MAX - i,
    {
        let mut s = head.clone();
        s.append(" (");
        s.append(text::to_decimal(i as u64).as_str());
        s.append(")");
        s.append(tail.as_str());
        assert(s@ == candidate(name@, i as nat));
        if !taken(s.as_str()) {
            return Some(s);
        }
        if i == u32::MAX {
            return None;
        }
        i = i + 1;
    }
}

/// The last dot stands inside the name.
proof fn last_dot_is_inside(s: Seq<char>)
    ensures
        -1 <= last_dot(s) < s.len(),
    decreases s.len(),
{
    if s.len() > 0 && s.last() != '.' {
        last_dot_is_inside(s.drop_last());
    }
}

/// No two candidates for a name are the same.
pub proof fn candidates_are_distinct(name: Seq<char>, i: nat, j: nat)
    requires
        i != j,
    ensures
        candidate(name, i) != candidate(name, j),
{
    last_dot_is_inside(name);
    reveal_strlit(" (");
    reveal_strlit(")");
    let a = stem(name) + " ("@;
    let z = extension(name);
    if i != 0 && j != 0 {
        if candidate(name, i) == candidate(name, j) {
            let m = text::decimal(i).len();
            let n = text::decimal(j).len();
            assert(candidate(name, i).len() == a.len() + m + 1 + z.len());
            assert(candidate(name, j).len() == a.len() + n + 1 + z.len());
            assert(candidate(name, i).subrange(a.len() as int, (a.len() + m) as int) =~= text::decimal(i));
            assert(candidate(name, j).subrange(a.len() as int, (a.len() + n) as int) =~= text::decimal(j));
            text::decimal_is_injective(i, j);
        }
    } else {
        assert(name.len() == stem(name).len() + z.len());
    }
}

/// Every candidate for a safe name, joined to a directory, stands for an entry
/// directly in it: a received file stays in its directory.
pub proof fn candidates_stay_in_directory(name: Seq<char>, i: nat)
    requires
        is_safe_name(name),
    ensures
        is_entry_name(candidate(name, i)),
        candidate(name, i).len() > 0,
        candidate(name, i) != "."@,
        candidate(name, i) != ".."@,
{
    last_dot_is_inside(name);
    reveal_strlit(" (");
    reveal_strlit(")");
    reveal_strlit(".");
    reveal_strlit("..");
    text::decimal_is_digits(i);
    let c = candidate(name, i);
    if i != 0 {
        assert(c.len() > 2);
        let st = stem(name);
        let d = text::decimal(i);
        let z = extension(name);
        assert forall|k: int| 0 <= k < c.len() implies !is_separator(#[trigger] c[k]) && kept()(
            c[k],
        ) by {
            if k < st.len() {
                assert(c[k] == name[k]);
            } else if k < st.len() + 2 {
                assert(c[k] == " ("@[k - st.len()]);
            } else if k < st.len() + 2 + d.len() {
                assert(c[k] == d[k - st.len() - 2]);
            } else if k < st.len() + 3 + d.len() {
                assert(c[k] == ')');
            } else {
                let e = k - st.len() - 3 - d.len();
                assert(c[k] == z[e]);
                assert(z[e] == name[last_dot(name) + e]);
            }
        }
    }
}

} // verus!
