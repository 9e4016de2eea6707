//! Character-level helpers shared by every document kind: digit tests,
//! digit-only normalization, and conversions between strings and
//! character vectors.

use vstd::prelude::*;
use vstd::string::StrSliceExecFns;

verus! {

/// A decimal digit character.
pub open spec fn is_digit(c: char) -> bool {
    48 <= c as u32 <= 57
}

/// Numeric value of a decimal digit character.
pub open spec fn digit_val(c: char) -> int {
    c as u32 - 48
}

/// The digit character with the given value.
pub open spec fn digit_char(v: int) -> char {
    ((48 + v) as u32) as char
}

/// Every character of `s` is a decimal digit.
pub open spec fn all_digits(s: Seq<char>) -> bool {
    forall|i: int| 0 <= i < s.len() ==> is_digit(#[trigger] s[i])
}

/// Every character of `s` in positions `[from, to)` is a decimal digit.
pub open spec fn digits_in(s: Seq<char>, from: int, to: int) -> bool {
    forall|i: int| from <= i < to ==> is_digit(#[trigger] s[i])
}

/// Every character of `s` equals its first character.
pub open spec fn all_same(s: Seq<char>) -> bool {
    forall|i: int| 0 <= i < s.len() ==> #[trigger] s[i] == s[0]
}

/// The sequence of `n` copies of one character.
pub open spec fn repeated(c: char, n: int) -> Seq<char> {
    Seq::new(n as nat, |i: int| c)
}

/// Digit-only normalization: keep the decimal digits of `s`, in order,
/// and drop every other character.
pub open spec fn digits_of(s: Seq<char>) -> Seq<char> {
    s.filter(|c: char| is_digit(c))
}

pub fn is_digit_char(c: char) -> (r: bool)
    ensures
        r == is_digit(c),
{
    let u = c as u32;
    48 <= u && u <= 57
}

pub fn digit_value(c: char) -> (r: u32)
    requires
        is_digit(c),
    ensures
        r == digit_val(c),
        r <= 9,
{
    c as u32 - 48
}

/// The characters of a string, in order.
pub fn chars_of(s: &str) -> (r: Vec<char>)
    ensures
        r@ == s@,
{
    let n = s.unicode_len();
    let mut r: Vec<char> = Vec::new();
    let mut i: usize = 0;
    while i < n
        invariant
            i <= n,
            r@ == s@.subrange(0, i as int),
        decreases n - i,
    {
        r.push(s.get_char(i));
        assert(s@.subrange(0, i as int).push(s@[i as int]) =~= s@.subrange(0, i + 1));
        i = i + 1;
    }
    assert(r@ =~= s@);
    r
}

/// Relies on String's FromIterator implementation: collecting characters
/// builds the string of exactly those characters, in order.
#[verifier::external_body]
pub fn string_of(v: &Vec<char>) -> (r: String)
    ensures
        r@ == v@,
{
    v.iter().collect()
}

/// Filtering a sequence extended by one element keeps the filtered prefix
/// and appends the new element exactly when it matches.
pub proof fn lemma_filter_push_char(s: Seq<char>, c: char, p: spec_fn(char) -> bool)
    ensures
        s.push(c).filter(p) == if p(c) {
            s.filter(p).push(c)
        } else {
            s.filter(p)
        },
{
    reveal(Seq::filter);
    assert(s.push(c).drop_last() =~= s);
    assert(s.push(c).last() == c);
}

pub fn filter_digits(v: &Vec<char>) -> (r: Vec<char>)
    ensures
        r@ == digits_of(v@),
{
    let mut r: Vec<char> = Vec::new();
    let mut i: usize = 0;
    while i < v.len()
        invariant
            i <= v@.len(),
            r@ == digits_of(v@.subrange(0, i as int)),
        decreases v@.len() - i,
    {
        let c = v[i];
        proof {
            lemma_filter_push_char(v@.subrange(0, i as int), c, |ch: char| is_digit(ch));
            assert(v@.subrange(0, i as int).push(c) =~= v@.subrange(0, i + 1));
        }
        if is_digit_char(c) {
            r.push(c);
        }
        i = i + 1;
    }
    assert(v@.subrange(0, v@.len() as int) =~= v@);
    r
}

/// Whether positions `[from, to)` of `v` all hold decimal digits.
pub fn digits_range(v: &Vec<char>, from: usize, to: usize) -> (r: bool)
    requires
        from <= to,
        to <= v@.len(),
    ensures
        r == digits_in(v@, from as int, to as int),
{
    let mut i: usize = from;
    while i < to
        invariant
            from <= i <= to,
            digits_in(v@, from as int, i as int),
        decreases to - i,
    {
        if !is_digit_char(v[i]) {
            return false;
        }
        i = i + 1;
    }
    true
}

/// Whether `v` holds only decimal digits.
pub fn all_digits_check(v: &Vec<char>) -> (r: bool)
    ensures
        r == all_digits(v@),
{
    digits_range(v, 0, v.len())
}

/// Whether every character of `v` equals its first.
pub fn all_same_chars(v: &Vec<char>) -> (r: bool)
    ensures
        r == all_same(v@),
{
    if v.len() == 0 {
        return true;
    }
    let first = v[0];
    let mut i: usize = 1;
    while i < v.len()
        invariant
            1 <= i <= v@.len(),
            forall|j: int| 0 <= j < i ==> #[trigger] v@[j] == v@[0],
        decreases v@.len() - i,
    {
        if v[i] != first {
            return false;
        }
        i = i + 1;
    }
    true
}

/// Appends positions `[from, to)` of `v` to `out`.
pub fn push_range(out: &mut Vec<char>, v: &Vec<char>, from: usize, to: usize)
    requires
        from <= to,
        to <= v@.len(),
    ensures
        final(out)@ == old(out)@ + v@.subrange(from as int, to as int),
{
    let mut i: usize = from;
    while i < to
        invariant
            from <= i <= to,
            out@ == old(out)@ + v@.subrange(from as int, i as int),
        decreases to - i,
    {
        out.push(v[i]);
        assert(old(out)@ + v@.subrange(from as int, i as int).push(v@[i as int]) =~= old(out)@
            + v@.subrange(from as int, i + 1));
        i = i + 1;
    }
    assert(out@ =~= old(out)@ + v@.subrange(from as int, to as int));
}

/// The digit-only normalization of a string.
pub fn normalize_digits(s: &str) -> (r: String)
    ensures
        r@ == digits_of(s@),
{
    let v = chars_of(s);
    let d = filter_digits(&v);
    string_of(&d)
}

/// Whether a character counts as whitespace for trimming.
/// Relies on char::is_whitespace: the result depends on the character
/// alone, by the Unicode White_Space property.
pub uninterp spec fn is_space(c: char) -> bool;

pub assume_specification[ char::is_whitespace ](c: char) -> (r: bool)
    ensures
        r == is_space(c),
;

/// The value with leading and trailing whitespace removed.
pub open spec fn trimmed(s: Seq<char>) -> Seq<char>
    decreases s.len(),
{
    if s.len() == 0 {
        s
    } else if is_space(s[0]) {
        trimmed(s.skip(1))
    } else if is_space(s[s.len() - 1]) {
        trimmed(s.take(s.len() - 1))
    } else {
        s
    }
}

/// Trimming takes the subrange that remains after dropping a fully
/// whitespace prefix and suffix around a core with non-space endpoints.
proof fn lemma_trimmed_subrange(s: Seq<char>, i: int, j: int)
    requires
        0 <= i <= j <= s.len(),
        forall|k: int| 0 <= k < i ==> is_space(#[trigger] s[k]),
        forall|k: int| j <= k < s.len() ==> is_space(#[trigger] s[k]),
        i < j ==> !is_space(s[i]) && !is_space(s[j - 1]),
    ensures
        trimmed(s) == s.subrange(i, j),
    decreases s.len(),
{
    if s.len() == 0 {
        assert(trimmed(s) =~= s.subrange(i, j));
    } else if is_space(s[0]) {
        let t = s.skip(1);
        if i == 0 {
            assert(i == j);
            lemma_trimmed_subrange(t, 0, 0);
            assert(trimmed(s) =~= s.subrange(i, j));
        } else {
            lemma_trimmed_subrange(t, i - 1, j - 1);
            assert(t.subrange(i - 1, j - 1) =~= s.subrange(i, j));
        }
    } else if is_space(s[s.len() - 1]) {
        let t = s.take(s.len() - 1);
        assert(j < s.len());
        lemma_trimmed_subrange(t, i, j);
        assert(t.subrange(i, j) =~= s.subrange(i, j));
    } else {
        assert(i == 0 && j == s.len());
        assert(trimmed(s) =~= s.subrange(i, j));
    }
}

/// The characters of `v` with leading and trailing whitespace removed.
pub fn trim_chars(v: &Vec<char>) -> (r: Vec<char>)
    ensures
        r@ == trimmed(v@),
{
    let n = v.len();
    let mut i: usize = 0;
    while i < n && v[i].is_whitespace()
        invariant
            i <= n,
            forall|k: int| 0 <= k < i ==> is_space(#[trigger] v@[k]),
        decreases n - i,
    {
        i = i + 1;
    }
    if i == n {
        proof {
            lemma_trimmed_subrange(v@, n as int, n as int);
            assert(v@.subrange(n as int, n as int) =~= Seq::<char>::empty());
        }
        let r: Vec<char> = Vec::new();
        return r;
    }
    let mut j: usize = n;
    while v[j - 1].is_whitespace()
        invariant
            i + 1 <= j <= n,
            !is_space(v@[i as int]),
            forall|k: int| j <= k < n ==> is_space(#[trigger] v@[k]),
        decreases j,
    {
        j = j - 1;
    }
    let mut out: Vec<char> = Vec::new();
    push_range(&mut out, v, i, j);
    proof {
        lemma_trimmed_subrange(v@, i as int, j as int);
    }
    out
}

/// The index of the first occurrence of `c` in `s`, or -1 when absent.
pub open spec fn find_first(s: Seq<char>, c: char) -> int
    decreases s.len(),
{
    if s.len() == 0 {
        -1
    } else if s[0] == c {
        0
    } else {
        let r = find_first(s.skip(1), c);
        if r == -1 {
            -1
        } else {
            r + 1
        }
    }
}

/// `find_first` returns the position of the first occurrence.
pub proof fn lemma_find_first_hit(s: Seq<char>, c: char, i: int)
    requires
        0 <= i < s.len(),
        s[i] == c,
        forall|k: int| 0 <= k < i ==> s[k] != c,
    ensures
        find_first(s, c) == i,
    decreases s.len(),
{
    if i > 0 {
        lemma_find_first_hit(s.skip(1), c, i - 1);
    }
}

/// `find_first` returns -1 exactly when the character is absent.
pub proof fn lemma_find_first_miss(s: Seq<char>, c: char)
    requires
        forall|k: int| 0 <= k < s.len() ==> s[k] != c,
    ensures
        find_first(s, c) == -1,
    decreases s.len(),
{
    if s.len() > 0 {
        lemma_find_first_miss(s.skip(1), c);
    }
}

/// A sequence whose characters all match `p` is unchanged by filtering with `p`.
pub proof fn lemma_filter_of_matching(s: Seq<char>, p: spec_fn(char) -> bool)
    requires
        forall|i: int| 0 <= i < s.len() ==> p(#[trigger] s[i]),
    ensures
        s.filter(p) == s,
    decreases s.len(),
{
    reveal(Seq::filter);
    if s.len() > 0 {
        lemma_filter_of_matching(s.drop_last(), p);
        assert(s.drop_last().push(s.last()) =~= s);
    } else {
        assert(s.filter(p) =~= s);
    }
}

/// A sequence none of whose characters match `p` filters to nothing.
pub proof fn lemma_filter_none_match(s: Seq<char>, p: spec_fn(char) -> bool)
    requires
        forall|i: int| 0 <= i < s.len() ==> !p(#[trigger] s[i]),
    ensures
        s.filter(p) == Seq::<char>::empty(),
    decreases s.len(),
{
    reveal(Seq::filter);
    if s.len() > 0 {
        lemma_filter_none_match(s.drop_last(), p);
    } else {
        assert(s.filter(p) =~= Seq::<char>::empty());
    }
}

/// Filtering is idempotent: a second pass over an already filtered
/// sequence changes nothing.
pub proof fn lemma_filter_idempotent_char(s: Seq<char>, p: spec_fn(char) -> bool)
    ensures
        s.filter(p).filter(p) == s.filter(p),
{
    assert forall|i: int| 0 <= i < s.filter(p).len() implies p(#[trigger] s.filter(p)[i]) by {
        s.lemma_filter_pred(p, i);
    }
    lemma_filter_of_matching(s.filter(p), p);
}

/// Normalization is idempotent: normalizing an already digit-only
/// normalized value changes nothing.
pub proof fn lemma_digits_of_idempotent(s: Seq<char>)
    ensures
        digits_of(digits_of(s)) == digits_of(s),
{
    lemma_filter_idempotent_char(s, |c: char| is_digit(c));
}

/// The digit-only normalization yields only digits.
pub proof fn lemma_digits_of_all_digits(s: Seq<char>)
    ensures
        all_digits(digits_of(s)),
{
    let p = |c: char| is_digit(c);
    assert forall|i: int| 0 <= i < s.filter(p).len() implies is_digit(#[trigger] s.filter(p)[i]) by {
        s.lemma_filter_pred(p, i);
    }
}

} // verus!

