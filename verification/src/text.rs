//! Comparison, search and replacement in strings, stated over their characters.

use vstd::prelude::*;
use vstd::string::*;

verus! {

/// `c` with the letters `A` to `Z` mapped to `a` to `z`.
pub open spec fn ascii_lower(c: char) -> char {
    if 'A' <= c && c <= 'Z' {
        (c as u32 + 32) as char
    } else {
        c
    }
}

/// The two sequences are equal up to the case of ASCII letters.
pub open spec fn same_ignoring_case(a: Seq<char>, b: Seq<char>) -> bool {
    &&& a.len() == b.len()
    &&& forall|i: int| 0 <= i < a.len() ==> #[trigger] ascii_lower(a[i]) == ascii_lower(b[i])
}

/// `part` stands in `s` at position `at`.
pub open spec fn occurs_at(s: Seq<char>, part: Seq<char>, at: int) -> bool {
    &&& 0 <= at <= s.len() - part.len()
    &&& s.subrange(at, at + part.len()) == part
}

/// `part` stands somewhere in `s`.
pub open spec fn occurs_in(s: Seq<char>, part: Seq<char>) -> bool {
    exists|at: int| occurs_at(s, part, at)
}

/// `s` with every occurrence of `from`, taken left to right without overlap,
/// replaced by `to`.
pub open spec fn replaced(s: Seq<char>, from: Seq<char>, to: Seq<char>) -> Seq<char>
    decreases s.len(),
{
    if from.len() == 0 || s.len() < from.len() {
        s
    } else if from.is_prefix_of(s) {
        to + replaced(s.skip(from.len() as int), from, to)
    } else {
        seq![s[0]] + replaced(s.skip(1), from, to)
    }
}

/// The characters of `s`, in order.
pub fn chars_of(s: &str) -> (chars: Vec<char>)
    ensures
        chars@ == s@,
{
    let mut chars: Vec<char> = Vec::new();
    for c in it: s.chars()
        invariant
            it.seq() == s@,
            chars@ == s@.take(it.index() as int),
    {
        chars.push(c);
    }
    chars
}

fn lower(c: char) -> (low: char)
    ensures
        low == ascii_lower(c),
{
    if 'A' <= c && c <= 'Z' {
        (c as u8 + 32) as char
    } else {
        c
    }
}

/// Whether `a` and `b` are equal up to the case of ASCII letters.
pub fn eq_ignore_ascii_case(a: &str, b: &str) -> (same: bool)
    ensures
        same == same_ignoring_case(a@, b@),
{
    let x: Vec<char> = chars_of(a);
    let y: Vec<char> = chars_of(b);
    if x.len() != y.len() {
        return false;
    }
    let mut i: usize = 0;
    while i < x.len()
        invariant
            i <= x.len() == y.len(),
            x@ == a@,
            y@ == b@,
            forall|j: int| 0 <= j < i ==> #[trigger] ascii_lower(a@[j]) == ascii_lower(b@[j]),
        decreases x.len() - i,
    {
        if lower(x[i]) != lower(y[i]) {
            assert(ascii_lower(a@[i as int]) != ascii_lower(b@[i as int]));
            return false;
        }
        i += 1;
    }
    true
}

/// Whether `part` stands in `s` at position `at`.
fn matches_at(s: &Vec<char>, part: &Vec<char>, at: usize) -> (found: bool)
    ensures
        found == occurs_at(s@, part@, at as int),
{
    if at > s.len() || s.len() - at < part.len() {
        return false;
    }
    let mut i: usize = 0;
    while i < part.len()
        invariant
            i <= part.len() <= s.len() - at,
            at <= s.len(),
            forall|j: int| 0 <= j < i ==> s@[at + j] == #[trigger] part@[j],
        decreases part.len() - i,
    {
        if s[at + i] != part[i] {
            assert(s@.subrange(at as int, at + part@.len())[i as int] == s@[at + i]);
            return false;
        }
        i += 1;
    }
    assert(s@.subrange(at as int, at + part@.len()) =~= part@);
    true
}

/// Whether `s` begins with `prefix`.
pub fn starts_with(s: &str, prefix: &str) -> (found: bool)
    ensures
        found == prefix@.is_prefix_of(s@),
{
    matches_at(&chars_of(s), &chars_of(prefix), 0)
}

/// Whether `part` stands somewhere in `s`.
pub fn contains(s: &str, part: &str) -> (found: bool)
    ensures
        found == occurs_in(s@, part@),
{
    let x: Vec<char> = chars_of(s);
    let y: Vec<char> = chars_of(part);
    let mut at: usize = 0;
    while at < x.len()
        invariant
            at <= x.len(),
            x@ == s@,
            y@ == part@,
            forall|k: int| 0 <= k < at ==> !occurs_at(s@, part@, k),
        decreases x.len() - at,
    {
        if matches_at(&x, &y, at) {
            return true;
        }
        at += 1;
    }
    matches_at(&x, &y, at)
}

/// Whether the two strings are the same.
pub fn same(a: &str, b: &str) -> (equal: bool)
    ensures
        equal == (a@ == b@),
{
    let x: Vec<char> = chars_of(a);
    let y: Vec<char> = chars_of(b);
    if x.len() != y.len() {
        return false;
    }
    let found: bool = matches_at(&x, &y, 0);
    assert(a@.subrange(0, a@.len() as int) =~= a@);
    found
}

/// `prefix` followed by `rest`.
pub fn joined(prefix: &str, rest: &str) -> (whole: String)
    ensures
        whole@ == prefix@ + rest@,
{
    let mut whole: String = prefix.to_owned();
    whole.append(rest);
    whole
}

/// `s` with every occurrence of `from` replaced by `to`.
pub fn replace(s: &str, from: &str, to: &str) -> (result: String)
    requires
        from@.len() > 0,
    ensures
        result@ == replaced(s@, from@, to@),
{
    let x: Vec<char> = chars_of(s);
    let y: Vec<char> = chars_of(from);
    let mut result: String = String::new();
    let mut kept: usize = 0;
    let mut at: usize = 0;
    assert(s@.skip(0) =~= s@);
    while at < x.len() && y.len() <= x.len() - at
        invariant
            kept <= at <= x.len(),
            x@ == s@,
            y@ == from@,
            y.len() > 0,
            result@ + s@.subrange(kept as int, at as int) + replaced(s@.skip(at as int), from@, to@)
                == replaced(s@, from@, to@),
        decreases x.len() - at,
    {
        let ghost tail = s@.skip(at as int);
        let ghost before = result@;
        assert(s@.subrange(at as int, at + from@.len()) =~= tail.subrange(0, from@.len() as int));
        if matches_at(&x, &y, at) {
            result.append(s.substring_char(kept, at));
            result.append(to);
            assert(tail.skip(from@.len() as int) =~= s@.skip(at + from@.len()));
            at += y.len();
            kept = at;
            assert(s@.subrange(kept as int, at as int) =~= Seq::<char>::empty());
            assert(result@ + s@.subrange(kept as int, at as int) + replaced(
                s@.skip(at as int),
                from@,
                to@,
            ) =~= replaced(s@, from@, to@));
        } else {
            assert(tail.skip(1) =~= s@.skip(at + 1));
            assert(s@.subrange(kept as int, at + 1) =~= s@.subrange(kept as int, at as int) + seq![
                tail[0],
            ]);
            at += 1;
            assert(result@ + s@.subrange(kept as int, at as int) + replaced(
                s@.skip(at as int),
                from@,
                to@,
            ) =~= replaced(s@, from@, to@));
        }
    }
    result.append(s.substring_char(kept, x.len()));
    assert(s@.subrange(kept as int, at as int) + s@.skip(at as int) =~= s@.subrange(
        kept as int,
        s@.len() as int,
    ));
    assert(result@ =~= replaced(s@, from@, to@));
    result
}

} // verus!
