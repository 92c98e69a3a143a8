//! Character-level helpers shared by the parsers: the `char` view of a
//! string, trimming, searching, splitting and literal comparison.

use vstd::prelude::*;

verus! {

/// Unicode `White_Space`, the set that `char::is_whitespace` and
/// `str::trim` use.
pub open spec fn is_whitespace(c: char) -> bool {
    ||| ('\t' <= c && c <= '\r')
    ||| c == ' '
    ||| c == '\u{85}'
    ||| c == '\u{a0}'
    ||| c == '\u{1680}'
    ||| ('\u{2000}' <= c && c <= '\u{200a}')
    ||| c == '\u{2028}'
    ||| c == '\u{2029}'
    ||| c == '\u{202f}'
    ||| c == '\u{205f}'
    ||| c == '\u{3000}'
}

/// `s` without its leading whitespace.
pub open spec fn trim_start(s: Seq<char>) -> Seq<char>
    decreases s.len(),
{
    if s.len() > 0 && is_whitespace(s[0]) {
        trim_start(s.drop_first())
    } else {
        s
    }
}

/// `s` without its trailing whitespace.
pub open spec fn trim_end(s: Seq<char>) -> Seq<char>
    decreases s.len(),
{
    if s.len() > 0 && is_whitespace(s.last()) {
        trim_end(s.drop_last())
    } else {
        s
    }
}

/// `s` without leading and trailing whitespace, as `str::trim` gives it.
pub open spec fn trim(s: Seq<char>) -> Seq<char> {
    trim_end(trim_start(s))
}

/// Position of the first `c` in `s`, or `s.len()` where there is none.
pub open spec fn index_of(s: Seq<char>, c: char) -> int
    decreases s.len(),
{
    if s.len() == 0 {
        0
    } else if s[0] == c {
        0
    } else {
        1 + index_of(s.drop_first(), c)
    }
}

/// The pieces of `s` between occurrences of `sep`, as `str::split` gives
/// them (empty pieces included).
pub open spec fn split(s: Seq<char>, sep: char) -> Seq<Seq<char>>
    decreases s.len(),
{
    let i = index_of(s, sep);
    if 0 <= i < s.len() {
        seq![s.take(i)] + split(s.skip(i + 1), sep)
    } else {
        seq![s]
    }
}

/// Whether `s` begins with `prefix`.
pub open spec fn starts_with(s: Seq<char>, prefix: Seq<char>) -> bool {
    s.len() >= prefix.len() && s.take(prefix.len() as int) == prefix
}

/// `index_of` is the least position holding `c`, or the length.
pub proof fn lemma_index_of(s: Seq<char>, c: char, i: int)
    requires
        0 <= i <= s.len(),
        forall|j: int| 0 <= j < i ==> s[j] != c,
        i == s.len() || s[i] == c,
    ensures
        index_of(s, c) == i,
    decreases s.len(),
{
    if s.len() > 0 && s[0] != c {
        lemma_index_of(s.drop_first(), c, i - 1);
    }
}

/// `index_of` stays within the sequence.
pub proof fn lemma_index_of_bounds(s: Seq<char>, c: char)
    ensures
        0 <= index_of(s, c) <= s.len(),
        index_of(s, c) < s.len() ==> s[index_of(s, c)] == c,
        forall|j: int| 0 <= j < index_of(s, c) ==> s[j] != c,
    decreases s.len(),
{
    if s.len() > 0 && s[0] != c {
        lemma_index_of_bounds(s.drop_first(), c);
        assert forall|j: int| 0 <= j < index_of(s, c) implies s[j] != c by {
            if j > 0 {
                assert(s[j] == s.drop_first()[j - 1]);
            }
        }
    }
}

/// Splitting at a separator that joins two texts splits each of them.
pub proof fn lemma_split_join(a: Seq<char>, b: Seq<char>, sep: char)
    ensures
        split(a + seq![sep] + b, sep) == split(a, sep) + split(b, sep),
    decreases a.len(),
{
    let full = a + seq![sep] + b;
    let i = index_of(a, sep);
    lemma_index_of_bounds(a, sep);
    if i < a.len() {
        assert forall|j: int| 0 <= j < i implies full[j] != sep by {
            assert(full[j] == a[j]);
        }
        assert(full[i] == a[i]);
        lemma_index_of(full, sep, i);
        let rest = a.skip(i + 1);
        lemma_split_join(rest, b, sep);
        assert(full.take(i) =~= a.take(i));
        assert(full.skip(i + 1) =~= rest + seq![sep] + b);
        assert(split(full, sep) =~= seq![a.take(i)] + (split(rest, sep) + split(b, sep)));
        assert(split(a, sep) =~= seq![a.take(i)] + split(rest, sep));
        assert(split(full, sep) =~= split(a, sep) + split(b, sep));
    } else {
        assert forall|j: int| 0 <= j < a.len() implies full[j] != sep by {
            assert(full[j] == a[j]);
        }
        assert(full[a.len() as int] == sep);
        lemma_index_of(full, sep, a.len() as int);
        assert(full.take(a.len() as int) =~= a);
        assert(full.skip(a.len() as int + 1) =~= b);
        assert(split(a, sep) =~= seq![a]);
        assert(split(full, sep) =~= split(a, sep) + split(b, sep));
    }
}

/// A text without the separator is a single piece.
pub proof fn lemma_split_without_sep(s: Seq<char>, sep: char)
    requires
        forall|i: int| 0 <= i < s.len() ==> s[i] != sep,
    ensures
        index_of(s, sep) == s.len(),
        split(s, sep) == seq![s],
{
    lemma_index_of(s, sep, s.len() as int);
}

/// A text that neither begins nor ends with whitespace is its own trim.
pub proof fn lemma_trim_unchanged(s: Seq<char>)
    requires
        s.len() > 0,
        !is_whitespace(s[0]),
        !is_whitespace(s.last()),
    ensures
        trim(s) == s,
{
}

/// The characters of `s`, in order.
pub fn chars_of(s: &str) -> (v: Vec<char>)
    ensures
        v@ == s@,
{
    let mut v: Vec<char> = Vec::new();
    for c in it: s.chars()
        invariant
            v@ == it.seq().take(it.index() as int),
            it.seq() == s@,
    {
        v.push(c);
    }
    v
}

/// Collects `chars` into a `String` (std's `FromIterator<&char>` for
/// `String`, which pushes each character in turn).
#[verifier::external_body]
pub(crate) fn string_from_chars(chars: &[char]) -> (s: String)
    ensures
        s@ == chars@,
{
    chars.iter().collect()
}

/// The `String` made of `v[start..end]`.
pub fn string_of_range(v: &Vec<char>, start: usize, end: usize) -> (s: String)
    requires
        start <= end <= v@.len(),
    ensures
        s@ == v@.subrange(start as int, end as int),
{
    let piece: &[char] = &v.as_slice()[start..end];
    string_from_chars(piece)
}

/// Whether `c` is whitespace in the sense of `char::is_whitespace`.
pub fn char_is_whitespace(c: char) -> (b: bool)
    ensures
        b == is_whitespace(c),
{
    ('\t' <= c && c <= '\r') || c == ' ' || c == '\u{85}' || c == '\u{a0}' || c == '\u{1680}'
        || ('\u{2000}' <= c && c <= '\u{200a}') || c == '\u{2028}' || c == '\u{2029}'
        || c == '\u{202f}' || c == '\u{205f}' || c == '\u{3000}'
}

/// Bounds of `v[start..end]` once trimmed.
pub fn trim_range(v: &Vec<char>, start: usize, end: usize) -> (r: (usize, usize))
    requires
        start <= end <= v@.len(),
    ensures
        start <= r.0 <= r.1 <= end,
        v@.subrange(r.0 as int, r.1 as int) == trim(v@.subrange(start as int, end as int)),
{
    let mut a: usize = start;
    while a < end && char_is_whitespace(v[a])
        invariant
            start <= a <= end <= v@.len(),
            trim_start(v@.subrange(start as int, end as int)) == trim_start(
                v@.subrange(a as int, end as int),
            ),
        decreases end - a,
    {
        assert(v@.subrange(a as int, end as int).drop_first() =~= v@.subrange(
            a + 1,
            end as int,
        ));
        a = a + 1;
    }
    assert(trim_start(v@.subrange(a as int, end as int)) == v@.subrange(a as int, end as int));
    let mut b: usize = end;
    while b > a && char_is_whitespace(v[b - 1])
        invariant
            start <= a <= b <= end <= v@.len(),
            trim(v@.subrange(start as int, end as int)) == trim_end(
                v@.subrange(a as int, b as int),
            ),
        decreases b - a,
    {
        assert(v@.subrange(a as int, b as int).drop_last() =~= v@.subrange(
            a as int,
            b - 1,
        ));
        b = b - 1;
    }
    (a, b)
}

/// Position of the first `c` in `v[start..end]`, counted from `start`
/// (the range's length where there is none).
pub fn find_char(v: &Vec<char>, start: usize, end: usize, c: char) -> (i: usize)
    requires
        start <= end <= v@.len(),
    ensures
        start <= i <= end,
        (i - start) as int == index_of(v@.subrange(start as int, end as int), c),
{
    let mut i: usize = start;
    while i < end && v[i] != c
        invariant
            start <= i <= end <= v@.len(),
            forall|j: int| start <= j < i ==> v@[j] != c,
        decreases end - i,
    {
        i = i + 1;
    }
    proof {
        let s = v@.subrange(start as int, end as int);
        assert forall|j: int| 0 <= j < i - start implies s[j] != c by {
            assert(s[j] == v@[start + j]);
        }
        lemma_index_of(s, c, i - start);
    }
    i
}

/// Whether `v[start..end]` is exactly the characters of `lit`.
pub fn eq_literal(v: &Vec<char>, start: usize, end: usize, lit: &str) -> (b: bool)
    requires
        start <= end <= v@.len(),
    ensures
        b == (v@.subrange(start as int, end as int) == lit@),
{
    let n: usize = lit.unicode_len();
    if end - start != n {
        return false;
    }
    let mut i: usize = 0;
    while i < n
        invariant
            start <= end <= v@.len(),
            end - start == n,
            n == lit@.len(),
            i <= n,
            forall|j: int| 0 <= j < i ==> v@[start + j] == lit@[j],
        decreases n - i,
    {
        if v[start + i] != lit.get_char(i) {
            assert(v@.subrange(start as int, end as int)[i as int] != lit@[i as int]);
            return false;
        }
        i += 1;
    }
    assert(v@.subrange(start as int, end as int) =~= lit@);
    true
}

/// Whether `a` and `b` hold the same characters.
pub fn str_equals(a: &str, b: &str) -> (r: bool)
    ensures
        r == (a@ == b@),
{
    let v = chars_of(a);
    assert(v@.subrange(0, v@.len() as int) =~= v@);
    eq_literal(&v, 0, v.len(), b)
}

/// Whether `v[start..end]` begins with the characters of `lit`.
pub fn starts_with_literal(v: &Vec<char>, start: usize, end: usize, lit: &str) -> (b: bool)
    requires
        start <= end <= v@.len(),
    ensures
        b == starts_with(v@.subrange(start as int, end as int), lit@),
        b ==> start + lit@.len() <= end,
{
    let n: usize = lit.unicode_len();
    if end - start < n {
        return false;
    }
    let b = eq_literal(v, start, start + n, lit);
    assert(v@.subrange(start as int, end as int).take(n as int) =~= v@.subrange(
        start as int,
        start + n,
    ));
    b
}

} // verus!
