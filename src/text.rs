//! Character-level helpers over `Seq<char>` models of strings.

use vstd::prelude::*;

verus! {

/// Relies on `String::push`: appends exactly one character.
pub assume_specification[ String::push ](s: &mut String, ch: char)
    ensures
        final(s)@ == old(s)@.push(ch),
;

/// Unicode `White_Space`, the set that `str::trim` removes.
pub open spec fn is_white(c: char) -> bool {
    ('\u{9}' <= c && c <= '\u{d}') || c == ' ' || c == '\u{85}' || c == '\u{a0}' || c == '\u{1680}'
        || ('\u{2000}' <= c && c <= '\u{200a}') || c == '\u{2028}' || c == '\u{2029}'
        || c == '\u{202f}' || c == '\u{205f}' || c == '\u{3000}'
}

pub fn char_is_white(c: char) -> (r: bool)
    ensures
        r == is_white(c),
{
    ('\u{9}' <= c && c <= '\u{d}') || c == ' ' || c == '\u{85}' || c == '\u{a0}' || c == '\u{1680}'
        || ('\u{2000}' <= c && c <= '\u{200a}') || c == '\u{2028}' || c == '\u{2029}'
        || c == '\u{202f}' || c == '\u{205f}' || c == '\u{3000}'
}

/// `s` without its leading white space.
pub open spec fn trim_start(s: Seq<char>) -> Seq<char>
    decreases s.len(),
{
    if s.len() > 0 && is_white(s[0]) {
        trim_start(s.drop_first())
    } else {
        s
    }
}

/// `s` without its trailing white space.
pub open spec fn trim_end(s: Seq<char>) -> Seq<char>
    decreases s.len(),
{
    if s.len() > 0 && is_white(s.last()) {
        trim_end(s.drop_last())
    } else {
        s
    }
}

/// `s` without white space at either end.
pub open spec fn trim(s: Seq<char>) -> Seq<char> {
    trim_end(trim_start(s))
}

pub open spec fn starts_with(s: Seq<char>, p: Seq<char>) -> bool {
    p.len() <= s.len() && s.subrange(0, p.len() as int) == p
}

/// `p` occurs somewhere in `s`.
pub open spec fn contains(s: Seq<char>, p: Seq<char>) -> bool {
    exists|i: int| 0 <= i <= s.len() - p.len() && #[trigger] s.subrange(i, i + p.len()) == p
}

/// `c` occurs in `s`.
pub open spec fn has_char(s: Seq<char>, c: char) -> bool {
    exists|i: int| 0 <= i < s.len() && s[i] == c
}

/// Decimal digits of `n`, most significant first, without leading zeros.
pub open spec fn decimal(n: nat) -> Seq<char>
    decreases n,
{
    if n < 10 {
        seq![digit_char(n)]
    } else {
        decimal(n / 10).push(digit_char(n % 10))
    }
}

pub open spec fn digit_char(d: nat) -> char {
    if d == 0 { '0' }
    else if d == 1 { '1' }
    else if d == 2 { '2' }
    else if d == 3 { '3' }
    else if d == 4 { '4' }
    else if d == 5 { '5' }
    else if d == 6 { '6' }
    else if d == 7 { '7' }
    else if d == 8 { '8' }
    else { '9' }
}

/// The characters of a string slice, in order.
pub fn chars_of(s: &str) -> (r: Vec<char>)
    ensures
        r@ == s@,
{
    let mut r: Vec<char> = Vec::new();
    for c in it: s.chars()
        invariant
            r@ == it.seq().subrange(0, it.index() as int),
    {
        r.push(c);
    }
    r
}

/// A string holding `v[lo..hi]`.
pub fn string_of(v: &Vec<char>, lo: usize, hi: usize) -> (r: String)
    requires
        lo <= hi <= v.len(),
    ensures
        r@ == v@.subrange(lo as int, hi as int),
{
    let mut r = String::new();
    let mut i = lo;
    while i < hi
        invariant
            lo <= i <= hi <= v.len(),
            r@ == v@.subrange(lo as int, i as int),
        decreases hi - i,
    {
        r.push(v[i]);
        assert(v@.subrange(lo as int, i + 1) == v@.subrange(lo as int, i as int).push(v@[i as int]));
        i = i + 1;
    }
    r
}

/// Appends the characters of `v` to `out`.
pub fn push_chars(out: &mut String, v: &Vec<char>)
    ensures
        final(out)@ == old(out)@ + v@,
{
    let mut i: usize = 0;
    while i < v.len()
        invariant
            0 <= i <= v.len(),
            out@ == old(out)@ + v@.subrange(0, i as int),
        decreases v.len() - i,
    {
        out.push(v[i]);
        assert(v@.subrange(0, i + 1) == v@.subrange(0, i as int).push(v@[i as int]));
        i = i + 1;
    }
    assert(v@.subrange(0, v.len() as int) == v@);
}

/// Appends `s` to `out`.
pub fn push_text(out: &mut String, s: &str)
    ensures
        final(out)@ == old(out)@ + s@,
{
    let v = chars_of(s);
    push_chars(out, &v);
}

proof fn lemma_trim_start_skip(s: Seq<char>, a: int, hi: int)
    requires
        0 <= a < hi <= s.len(),
        is_white(s[a]),
    ensures
        trim_start(s.subrange(a, hi)) == trim_start(s.subrange(a + 1, hi)),
{
    assert(s.subrange(a, hi).drop_first() == s.subrange(a + 1, hi));
}

proof fn lemma_trim_end_skip(s: Seq<char>, lo: int, b: int)
    requires
        0 <= lo < b <= s.len(),
        is_white(s[b - 1]),
    ensures
        trim_end(s.subrange(lo, b)) == trim_end(s.subrange(lo, b - 1)),
{
    assert(s.subrange(lo, b).drop_last() == s.subrange(lo, b - 1));
}

/// Bounds of `v[lo..hi]` with white space removed from both ends.
pub fn trim_bounds(v: &Vec<char>, lo: usize, hi: usize) -> (r: (usize, usize))
    requires
        lo <= hi <= v.len(),
    ensures
        lo <= r.0 <= r.1 <= hi,
        v@.subrange(r.0 as int, r.1 as int) == trim(v@.subrange(lo as int, hi as int)),
{
    let mut a = lo;
    while a < hi && char_is_white(v[a])
        invariant
            lo <= a <= hi <= v.len(),
            trim_start(v@.subrange(lo as int, hi as int)) == trim_start(v@.subrange(a as int, hi as int)),
        decreases hi - a,
    {
        proof { lemma_trim_start_skip(v@, a as int, hi as int); }
        a = a + 1;
    }
    assert(trim_start(v@.subrange(a as int, hi as int)) == v@.subrange(a as int, hi as int));
    let mut b = hi;
    while b > a && char_is_white(v[b - 1])
        invariant
            lo <= a <= b <= hi <= v.len(),
            trim_end(v@.subrange(a as int, hi as int)) == trim_end(v@.subrange(a as int, b as int)),
        decreases b - a,
    {
        proof { lemma_trim_end_skip(v@, a as int, b as int); }
        b = b - 1;
    }
    (a, b)
}

/// Whether `v[lo..hi]` begins with `p`.
pub fn range_starts_with(v: &Vec<char>, lo: usize, hi: usize, p: &Vec<char>) -> (r: bool)
    requires
        lo <= hi <= v.len(),
    ensures
        r == starts_with(v@.subrange(lo as int, hi as int), p@),
{
    if p.len() > hi - lo {
        return false;
    }
    let mut i: usize = 0;
    while i < p.len()
        invariant
            p.len() <= hi - lo,
            lo <= hi <= v.len(),
            0 <= i <= p.len(),
            forall|j: int| 0 <= j < i ==> v@[lo + j] == p@[j],
        decreases p.len() - i,
    {
        if v[lo + i] != p[i] {
            assert(v@.subrange(lo as int, hi as int).subrange(0, p.len() as int)[i as int] != p@[i as int]);
            return false;
        }
        i = i + 1;
    }
    assert(v@.subrange(lo as int, hi as int).subrange(0, p.len() as int) =~= p@);
    true
}

/// Whether `p` occurs in `v`.
pub fn vec_contains(v: &Vec<char>, p: &Vec<char>) -> (r: bool)
    ensures
        r == contains(v@, p@),
{
    if p.len() > v.len() {
        return false;
    }
    let mut i: usize = 0;
    while i <= v.len() - p.len()
        invariant
            p.len() <= v.len(),
            0 <= i <= v.len() - p.len(),
            forall|k: int| 0 <= k < i ==> #[trigger] v@.subrange(k, k + p.len()) != p@,
        decreases v.len() - p.len() + 1 - i,
    {
        if range_starts_with(v, i, v.len(), p) {
            assert(v@.subrange(i as int, v.len() as int).subrange(0, p.len() as int)
                == v@.subrange(i as int, i + p.len()));
            return true;
        }
        assert(v@.subrange(i as int, v.len() as int).subrange(0, p.len() as int)
            == v@.subrange(i as int, i + p.len()));
        if i == v.len() - p.len() {
            return false;
        }
        i = i + 1;
    }
    false
}

/// Whether `p` occurs in `s`.
pub fn str_contains(s: &str, p: &str) -> (r: bool)
    ensures
        r == contains(s@, p@),
{
    let v = chars_of(s);
    let w = chars_of(p);
    vec_contains(&v, &w)
}

/// Whether `c` occurs in `v`.
pub fn vec_has_char(v: &Vec<char>, c: char) -> (r: bool)
    ensures
        r == has_char(v@, c),
{
    let mut i: usize = 0;
    while i < v.len()
        invariant
            0 <= i <= v.len(),
            forall|k: int| 0 <= k < i ==> v@[k] != c,
        decreases v.len() - i,
    {
        if v[i] == c {
            return true;
        }
        i = i + 1;
    }
    false
}

pub fn digit(d: usize) -> (r: char)
    requires
        d < 10,
    ensures
        r == digit_char(d as nat),
{
    if d == 0 { '0' }
    else if d == 1 { '1' }
    else if d == 2 { '2' }
    else if d == 3 { '3' }
    else if d == 4 { '4' }
    else if d == 5 { '5' }
    else if d == 6 { '6' }
    else if d == 7 { '7' }
    else if d == 8 { '8' }
    else { '9' }
}

/// Appends the decimal digits of `n` to `out`.
pub fn push_decimal(out: &mut String, n: usize)
    ensures
        final(out)@ == old(out)@ + decimal(n as nat),
    decreases n,
{
    if n < 10 {
        out.push(digit(n));
        assert(old(out)@ + decimal(n as nat) == old(out)@.push(digit_char(n as nat)));
    } else {
        push_decimal(out, n / 10);
        out.push(digit(n % 10));
        assert(old(out)@ + decimal(n as nat) == (old(out)@ + decimal((n / 10) as nat)).push(digit_char((n % 10) as nat)));
    }
}

/// Length of the first line of `s`: the index of its first `'\n'`, or its length.
pub open spec fn first_line_len(s: Seq<char>) -> nat
    decreases s.len(),
{
    if s.len() == 0 {
        0
    } else if s[0] == '\n' {
        0
    } else {
        1 + first_line_len(s.drop_first())
    }
}

/// Folds `f` over the lines of `s`, split at `'\n'`; a final `'\n'` ends the last line
/// rather than starting an empty one.
pub open spec fn fold_lines<A>(s: Seq<char>, acc: A, f: spec_fn(A, Seq<char>) -> A) -> A
    decreases s.len(),
{
    if s.len() == 0 {
        acc
    } else {
        let e = first_line_len(s) as int;
        let next = f(acc, s.subrange(0, e));
        if e < s.len() {
            fold_lines(s.subrange(e + 1, s.len() as int), next, f)
        } else {
            next
        }
    }
}

pub proof fn lemma_first_line_len_bound(s: Seq<char>)
    ensures
        first_line_len(s) <= s.len(),
        first_line_len(s) < s.len() ==> s[first_line_len(s) as int] == '\n',
        forall|i: int| 0 <= i < first_line_len(s) ==> s[i] != '\n',
    decreases s.len(),
{
    if s.len() > 0 && s[0] != '\n' {
        lemma_first_line_len_bound(s.drop_first());
        assert forall|i: int| 0 <= i < first_line_len(s) implies s[i] != '\n' by {
            if i > 0 {
                assert(s[i] == s.drop_first()[i - 1]);
            }
        }
    }
}

/// End of the line that starts at `pos`: the index of the next `'\n'`, or `v.len()`.
pub fn line_end(v: &Vec<char>, pos: usize) -> (r: usize)
    requires
        pos <= v.len(),
    ensures
        pos <= r <= v.len(),
        r == pos + first_line_len(v@.subrange(pos as int, v.len() as int)),
{
    let mut i = pos;
    while i < v.len() && v[i] != '\n'
        invariant
            pos <= i <= v.len(),
            first_line_len(v@.subrange(pos as int, v.len() as int))
                == (i - pos) + first_line_len(v@.subrange(i as int, v.len() as int)),
        decreases v.len() - i,
    {
        assert(v@.subrange(i as int, v.len() as int).drop_first() == v@.subrange(i + 1, v.len() as int));
        i = i + 1;
    }
    i
}

/// Unfolds `fold_lines` by one line of `v[pos..]`, the line `v[pos..e]`.
pub proof fn lemma_fold_lines_step<A>(v: Seq<char>, pos: int, e: int, acc: A, f: spec_fn(A, Seq<char>) -> A)
    requires
        0 <= pos < v.len(),
        e == pos + first_line_len(v.subrange(pos, v.len() as int)),
    ensures
        e <= v.len(),
        e < v.len() ==> fold_lines(v.subrange(pos, v.len() as int), acc, f)
            == fold_lines(v.subrange(e + 1, v.len() as int), f(acc, v.subrange(pos, e)), f),
        e == v.len() ==> fold_lines(v.subrange(pos, v.len() as int), acc, f)
            == f(acc, v.subrange(pos, e)),
{
    let s = v.subrange(pos, v.len() as int);
    lemma_first_line_len_bound(s);
    assert(s.subrange(0, e - pos) == v.subrange(pos, e));
    if e < v.len() {
        assert(s.subrange(e - pos + 1, s.len() as int) == v.subrange(e + 1, v.len() as int));
    }
}

/// Index of the first `c` in `s`, or `s.len()` if there is none.
pub open spec fn first_index_of(s: Seq<char>, c: char) -> int
    decreases s.len(),
{
    if s.len() == 0 {
        0
    } else if s[0] == c {
        0
    } else {
        1 + first_index_of(s.drop_first(), c)
    }
}

/// Index of the last `c` in `s`, or `-1` if there is none.
pub open spec fn last_index_of(s: Seq<char>, c: char) -> int
    decreases s.len(),
{
    if s.len() == 0 {
        -1
    } else if s.last() == c {
        s.len() - 1
    } else {
        last_index_of(s.drop_last(), c)
    }
}

pub proof fn lemma_first_index_of_bound(s: Seq<char>, c: char)
    ensures
        0 <= first_index_of(s, c) <= s.len(),
    decreases s.len(),
{
    if s.len() > 0 && s[0] != c {
        lemma_first_index_of_bound(s.drop_first(), c);
    }
}

pub proof fn lemma_last_index_of_bound(s: Seq<char>, c: char)
    ensures
        -1 <= last_index_of(s, c) < s.len(),
    decreases s.len(),
{
    if s.len() > 0 && s.last() != c {
        lemma_last_index_of_bound(s.drop_last(), c);
    }
}

/// Position of the first `c` in `v`, or `v.len()`.
pub fn find_char(v: &Vec<char>, c: char) -> (r: usize)
    ensures
        r == first_index_of(v@, c),
{
    let mut i: usize = 0;
    assert(v@.subrange(0, v.len() as int) == v@);
    while i < v.len() && v[i] != c
        invariant
            0 <= i <= v.len(),
            first_index_of(v@, c) == i + first_index_of(v@.subrange(i as int, v.len() as int), c),
        decreases v.len() - i,
    {
        assert(v@.subrange(i as int, v.len() as int).drop_first() == v@.subrange(i + 1, v.len() as int));
        i = i + 1;
    }
    i
}

/// Position of the last `c` in `v`, if any.
pub fn rfind_char(v: &Vec<char>, c: char) -> (r: Option<usize>)
    ensures
        match r {
            Some(j) => j == last_index_of(v@, c),
            None => last_index_of(v@, c) == -1,
        },
{
    let mut j: usize = v.len();
    assert(v@.subrange(0, v.len() as int) == v@);
    while j > 0 && v[j - 1] != c
        invariant
            0 <= j <= v.len(),
            last_index_of(v@, c) == last_index_of(v@.subrange(0, j as int), c),
        decreases j,
    {
        assert(v@.subrange(0, j as int).drop_last() == v@.subrange(0, j - 1));
        j = j - 1;
    }
    if j == 0 {
        None
    } else {
        Some(j - 1)
    }
}

/// Whether two strings hold the same characters.
pub fn same_text(a: &str, b: &str) -> (r: bool)
    ensures
        r == (a@ == b@),
{
    let v = chars_of(a);
    let w = chars_of(b);
    if v.len() != w.len() {
        return false;
    }
    let mut i: usize = 0;
    while i < v.len()
        invariant
            v@ == a@,
            w@ == b@,
            v.len() == w.len(),
            0 <= i <= v.len(),
            forall|k: int| 0 <= k < i ==> v@[k] == w@[k],
        decreases v.len() - i,
    {
        if v[i] != w[i] {
            assert(a@[i as int] != b@[i as int]);
            return false;
        }
        i = i + 1;
    }
    assert(v@ =~= w@);
    true
}

/// Position of the first `c` in `v[pos..]`, or `v.len()`.
pub fn find_char_from(v: &Vec<char>, c: char, pos: usize) -> (r: usize)
    requires
        pos <= v.len(),
    ensures
        pos <= r <= v.len(),
        r == pos + first_index_of(v@.subrange(pos as int, v.len() as int), c),
{
    let mut i: usize = pos;
    while i < v.len() && v[i] != c
        invariant
            pos <= i <= v.len(),
            first_index_of(v@.subrange(pos as int, v.len() as int), c)
                == (i - pos) + first_index_of(v@.subrange(i as int, v.len() as int), c),
        decreases v.len() - i,
    {
        assert(v@.subrange(i as int, v.len() as int).drop_first() == v@.subrange(i + 1, v.len() as int));
        i = i + 1;
    }
    i
}

/// The pieces of `s` between occurrences of `c`.
pub open spec fn split_on(s: Seq<char>, c: char) -> Seq<Seq<char>>
    decreases s.len(),
{
    let i = first_index_of(s, c);
    if i < 0 || i >= s.len() {
        seq![s]
    } else {
        seq![s.subrange(0, i)] + split_on(s.subrange(i + 1, s.len() as int), c)
    }
}

/// The pieces joined with `c` between them.
pub open spec fn join_with(parts: Seq<Seq<char>>, c: char) -> Seq<char>
    decreases parts.len(),
{
    if parts.len() == 0 {
        Seq::empty()
    } else if parts.len() == 1 {
        parts[0]
    } else {
        join_with(parts.drop_last(), c).push(c) + parts.last()
    }
}

} // verus!
