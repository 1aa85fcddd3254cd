//! Character-level string operations with exact contracts.
//!
//! Every function here views a string as its sequence of characters
//! (`Seq<char>`) and states its result over that sequence.

use vstd::prelude::*;
use vstd::string::StrSliceExecFns;

verus! {

/// Position of the first occurrence of `c` in `s`, or `s.len()` if `c` does
/// not occur.
pub open spec fn find(s: Seq<char>, c: char) -> nat
    decreases s.len(),
{
    if s.len() == 0 || s[0] == c {
        0
    } else {
        1 + find(s.drop_first(), c)
    }
}

/// The fields of `s` when cut at every occurrence of `delim`.
///
/// A string without the delimiter is a single field; adjacent delimiters
/// enclose an empty field, so there is always one field more than there are
/// delimiters.
pub open spec fn split(s: Seq<char>, delim: char) -> Seq<Seq<char>>
    decreases s.len(),
{
    let i = find(s, delim) as int;
    if i >= s.len() {
        seq![s]
    } else {
        seq![s.take(i)] + split(s.skip(i + 1), delim)
    }
}

/// How often `c` occurs in `s`.
pub open spec fn occurrences(s: Seq<char>, c: char) -> nat
    decreases s.len(),
{
    if s.len() == 0 {
        0
    } else if s[0] == c {
        1 + occurrences(s.drop_first(), c)
    } else {
        occurrences(s.drop_first(), c)
    }
}

/// The fields joined back together with `delim` between neighbours.
pub open spec fn join(fields: Seq<Seq<char>>, delim: char) -> Seq<char>
    decreases fields.len(),
{
    if fields.len() == 0 {
        Seq::empty()
    } else if fields.len() == 1 {
        fields[0]
    } else {
        fields[0] + seq![delim] + join(fields.drop_first(), delim)
    }
}

/// `s` with one trailing `suffix` removed, or `s` itself if it does not end
/// in `suffix`.
pub open spec fn without_suffix(s: Seq<char>, suffix: Seq<char>) -> Seq<char> {
    if suffix.is_suffix_of(s) {
        s.take(s.len() - suffix.len())
    } else {
        s
    }
}

/// `find` returns an in-range position, everything before it differs from
/// `c`, and the position itself holds `c` unless it is the end.
pub proof fn lemma_find(s: Seq<char>, c: char)
    ensures
        find(s, c) <= s.len(),
        forall|j: int| 0 <= j < find(s, c) ==> s[j] != c,
        find(s, c) < s.len() ==> s[find(s, c) as int] == c,
    decreases s.len(),
{
    if s.len() == 0 || s[0] == c {
    } else {
        let t = s.drop_first();
        lemma_find(t, c);
        assert forall|j: int| 0 <= j < find(s, c) implies s[j] != c by {
            if j > 0 {
                assert(s[j] == t[j - 1]);
            }
        }
    }
}

/// Any position that is preceded only by other characters, and is either the
/// end or an occurrence of `c`, is the one `find` returns.
pub proof fn lemma_find_unique(s: Seq<char>, c: char, i: int)
    requires
        0 <= i <= s.len(),
        forall|j: int| 0 <= j < i ==> s[j] != c,
        i == s.len() || s[i] == c,
    ensures
        find(s, c) == i,
{
    lemma_find(s, c);
}

/// There is at least one field, and no field holds the delimiter.
pub proof fn lemma_split_fields(s: Seq<char>, delim: char)
    ensures
        split(s, delim).len() >= 1,
        forall|k: int| 0 <= k < split(s, delim).len() ==> !(#[trigger] split(s, delim)[k]).contains(delim),
    decreases s.len(),
{
    lemma_find(s, delim);
    let i = find(s, delim) as int;
    if i < s.len() {
        lemma_split_fields(s.skip(i + 1), delim);
    }
}

/// A string has one field more than it has delimiters.
pub proof fn lemma_split_len(s: Seq<char>, delim: char)
    ensures
        split(s, delim).len() == occurrences(s, delim) + 1,
    decreases s.len(),
{
    if s.len() > 0 {
        let t = s.drop_first();
        lemma_split_len(t, delim);
        lemma_find(t, delim);
        let i = find(s, delim) as int;
        if s[0] != delim && i < s.len() {
            assert(s.skip(i + 1) =~= t.skip(i));
        }
    }
}

/// Joining the fields of a string with the delimiter gives the string back.
pub proof fn lemma_join_split(s: Seq<char>, delim: char)
    ensures
        join(split(s, delim), delim) == s,
    decreases s.len(),
{
    lemma_find(s, delim);
    let i = find(s, delim) as int;
    if i < s.len() {
        let tail = s.skip(i + 1);
        let fields = split(s, delim);
        lemma_join_split(tail, delim);
        lemma_split_fields(tail, delim);
        assert(fields.drop_first() =~= split(tail, delim));
        assert(s =~= s.take(i) + seq![delim] + tail);
    }
}

/// Cutting a join of delimiter-free fields returns exactly those fields, so
/// `split` is the only way to cut a string into such fields.
pub proof fn lemma_split_join(fields: Seq<Seq<char>>, delim: char)
    requires
        fields.len() >= 1,
        forall|k: int| 0 <= k < fields.len() ==> !(#[trigger] fields[k]).contains(delim),
    ensures
        split(join(fields, delim), delim) == fields,
    decreases fields.len(),
{
    let s = join(fields, delim);
    let head = fields[0];
    if fields.len() == 1 {
        lemma_find_unique(s, delim, s.len() as int);
    } else {
        let rest = fields.drop_first();
        lemma_split_join(rest, delim);
        let i = head.len() as int;
        assert(s == head + seq![delim] + join(rest, delim));
        lemma_find_unique(s, delim, i);
        assert(s.take(i) =~= head);
        assert(s.skip(i + 1) =~= join(rest, delim));
        assert(fields =~= seq![head] + rest);
    }
}

/// Decodes a string slice into its characters.
pub fn to_chars(s: &str) -> (chars: Vec<char>)
    ensures
        chars@ == s@,
{
    let mut chars: Vec<char> = Vec::new();
    for c in it: s.chars()
        invariant
            it.seq() == s@,
            chars@ == s@.take(it.index() as int),
    {
        chars.push(c);
    }
    chars
}

/// Whether two character slices hold the same characters in the same order.
fn chars_eq(a: &[char], b: &[char]) -> (same: bool)
    ensures
        same == (a@ == b@),
{
    if a.len() != b.len() {
        return false;
    }
    let mut i: usize = 0;
    while i < a.len()
        invariant
            i <= a.len(),
            a.len() == b.len(),
            forall|j: int| 0 <= j < i ==> a[j] == b[j],
        decreases a.len() - i,
    {
        if a[i] != b[i] {
            return false;
        }
        i = i + 1;
    }
    assert(a@ =~= b@);
    true
}

/// Whether `s[from..from + p.len()]` equals `p`, for a window that lies
/// inside `s`.
fn window_matches(s: &[char], from: usize, p: &[char]) -> (same: bool)
    requires
        from + p.len() <= s.len(),
    ensures
        same == (s@.subrange(from as int, from + p.len()) == p@),
{
    let mut i: usize = 0;
    while i < p.len()
        invariant
            i <= p.len(),
            from + p.len() <= s.len(),
            forall|j: int| 0 <= j < i ==> s[from + j] == p[j],
        decreases p.len() - i,
    {
        if s[from + i] != p[i] {
            return false;
        }
        i = i + 1;
    }
    assert(s@.subrange(from as int, from + p.len()) =~= p@);
    true
}

/// Exact, case-sensitive equality of two strings.
pub fn str_eq(a: &str, b: &str) -> (same: bool)
    ensures
        same == (a@ == b@),
{
    let a_chars = to_chars(a);
    let b_chars = to_chars(b);
    chars_eq(a_chars.as_slice(), b_chars.as_slice())
}

/// Whether `s` begins with `prefix`.
pub fn starts_with(s: &str, prefix: &str) -> (yes: bool)
    ensures
        yes == prefix@.is_prefix_of(s@),
{
    let s_chars = to_chars(s);
    let p_chars = to_chars(prefix);
    if p_chars.len() > s_chars.len() {
        return false;
    }
    window_matches(s_chars.as_slice(), 0, p_chars.as_slice())
}

/// Whether `s` ends with `suffix`.
pub fn ends_with(s: &str, suffix: &str) -> (yes: bool)
    ensures
        yes == suffix@.is_suffix_of(s@),
{
    let s_chars = to_chars(s);
    let x_chars = to_chars(suffix);
    if x_chars.len() > s_chars.len() {
        return false;
    }
    window_matches(s_chars.as_slice(), s_chars.len() - x_chars.len(), x_chars.as_slice())
}

/// Removes one trailing `suffix` from `s` if it is there.
pub fn strip_suffix<'a>(s: &'a str, suffix: &str) -> (rest: &'a str)
    ensures
        rest@ == without_suffix(s@, suffix@),
{
    let s_chars = to_chars(s);
    let x_chars = to_chars(suffix);
    if x_chars.len() <= s_chars.len() && window_matches(
        s_chars.as_slice(),
        s_chars.len() - x_chars.len(),
        x_chars.as_slice(),
    ) {
        s.substring_char(0, s_chars.len() - x_chars.len())
    } else {
        s
    }
}

/// Bounds `(from, to)` of field `k` of `s`, so that `s[from..to]` is that
/// field, or `None` if `s` has `k` fields or fewer.
fn field_bounds(s: &[char], delim: char, k: usize) -> (bounds: Option<(usize, usize)>)
    ensures
        match bounds {
            Some((from, to)) => {
                &&& k < split(s@, delim).len()
                &&& from <= to <= s@.len()
                &&& s@.subrange(from as int, to as int) == split(s@, delim)[k as int]
            },
            None => k >= split(s@, delim).len(),
        },
{
    let mut start: usize = 0;
    let mut passed: usize = 0;
    let mut i: usize = 0;
    assert(s@.skip(0) =~= s@);
    while i < s.len()
        invariant
            start <= i <= s.len(),
            passed <= k,
            forall|j: int| start <= j < i ==> s[j] != delim,
            split(s@, delim).len() == passed + split(s@.skip(start as int), delim).len(),
            forall|n: int|
                0 <= n < split(s@.skip(start as int), delim).len() ==> split(s@, delim)[passed + n]
                    == #[trigger] split(s@.skip(start as int), delim)[n],
        decreases s.len() - i,
    {
        if s[i] == delim {
            proof {
                let tail = s@.skip(start as int);
                lemma_find_unique(tail, delim, i - start);
                assert(tail.take(i - start) =~= s@.subrange(start as int, i as int));
                assert(tail.skip(i - start + 1) =~= s@.skip(i + 1));
                let rest = split(s@.skip(i + 1), delim);
                assert(split(tail, delim) == seq![tail.take(i - start)] + rest);
                assert forall|n: int| 0 <= n < rest.len() implies split(s@, delim)[passed + 1 + n]
                    == #[trigger] rest[n] by {
                    assert(split(tail, delim)[n + 1] == rest[n]);
                }
                assert(split(tail, delim)[0] == s@.subrange(start as int, i as int));
            }
            if passed == k {
                return Some((start, i));
            }
            passed = passed + 1;
            start = i + 1;
        }
        i = i + 1;
    }
    proof {
        let tail = s@.skip(start as int);
        lemma_find_unique(tail, delim, s@.len() - start);
        assert(split(tail, delim) == seq![tail]);
        assert(split(tail, delim)[0] == tail);
    }
    if passed == k {
        Some((start, s.len()))
    } else {
        None
    }
}

/// Field `k` (counting from zero) of `s` cut at every `delim`, or `None` if
/// there are not that many fields.
pub fn nth_field<'a>(s: &'a str, delim: char, k: usize) -> (field: Option<&'a str>)
    ensures
        match field {
            Some(f) => k < split(s@, delim).len() && f@ == split(s@, delim)[k as int],
            None => k >= split(s@, delim).len(),
        },
{
    let chars = to_chars(s);
    match field_bounds(chars.as_slice(), delim, k) {
        Some((from, to)) => Some(s.substring_char(from, to)),
        None => None,
    }
}

} // verus!
