//! Character-sequence utilities shared by the scanner, the annotator, the
//! configuration parser and the link-header parser: whitespace and digit
//! classification, substring search, substring replacement, and decimal
//! formatting and parsing.

use vstd::prelude::*;

verus! {

/// The characters the scanners treat as whitespace: the Unicode
/// `White_Space` set.
pub open spec fn is_space_char(c: char) -> bool {
    c == ' ' || c == '\t' || c == '\n' || c == '\u{0b}' || c == '\u{0c}' || c == '\r'
        || c == '\u{85}' || c == '\u{a0}' || c == '\u{1680}' || ('\u{2000}' <= c && c
        <= '\u{200a}') || c == '\u{2028}' || c == '\u{2029}' || c == '\u{202f}' || c == '\u{205f}'
        || c == '\u{3000}'
}

pub fn is_space(c: char) -> (r: bool)
    ensures
        r == is_space_char(c),
{
    c == ' ' || c == '\t' || c == '\n' || c == '\u{0b}' || c == '\u{0c}' || c == '\r'
        || c == '\u{85}' || c == '\u{a0}' || c == '\u{1680}' || ('\u{2000}' <= c && c
        <= '\u{200a}') || c == '\u{2028}' || c == '\u{2029}' || c == '\u{202f}' || c == '\u{205f}'
        || c == '\u{3000}'
}

pub open spec fn is_digit_char(c: char) -> bool {
    '0' <= c && c <= '9'
}

pub fn is_digit(c: char) -> (r: bool)
    ensures
        r == is_digit_char(c),
{
    '0' <= c && c <= '9'
}

/// The numeric value of a decimal digit character.
pub open spec fn digit_val(c: char) -> int {
    c as int - '0' as int
}

/// The index of the first non-whitespace character at or after `i`,
/// or `s.len()` if only whitespace remains.
pub open spec fn skip_spaces_spec(s: Seq<char>, i: int) -> int
    decreases s.len() - i,
{
    if 0 <= i && i < s.len() && is_space_char(s[i]) {
        skip_spaces_spec(s, i + 1)
    } else {
        i
    }
}

pub proof fn lemma_skip_spaces_bounds(s: Seq<char>, i: int)
    requires
        0 <= i <= s.len(),
    ensures
        i <= skip_spaces_spec(s, i) <= s.len(),
        forall|k: int| i <= k < skip_spaces_spec(s, i) ==> is_space_char(s[k]),
        skip_spaces_spec(s, i) < s.len() ==> !is_space_char(s[skip_spaces_spec(s, i)]),
    decreases s.len() - i,
{
    if i < s.len() && is_space_char(s[i]) {
        lemma_skip_spaces_bounds(s, i + 1);
    }
}

pub fn skip_spaces(s: &str, from: usize, n: usize) -> (r: usize)
    requires
        n == s@.len(),
        from <= n,
    ensures
        r == skip_spaces_spec(s@, from as int),
        from <= r <= n,
{
    let mut i: usize = from;
    while i < n && is_space(s.get_char(i))
        invariant
            from <= i <= n,
            n == s@.len(),
            skip_spaces_spec(s@, from as int) == skip_spaces_spec(s@, i as int),
        decreases n - i,
    {
        i = i + 1;
    }
    i
}

/// The index of the first non-digit character at or after `i`,
/// or `s.len()` if only digits remain.
pub open spec fn skip_digits_spec(s: Seq<char>, i: int) -> int
    decreases s.len() - i,
{
    if 0 <= i && i < s.len() && is_digit_char(s[i]) {
        skip_digits_spec(s, i + 1)
    } else {
        i
    }
}

pub proof fn lemma_skip_digits_bounds(s: Seq<char>, i: int)
    requires
        0 <= i <= s.len(),
    ensures
        i <= skip_digits_spec(s, i) <= s.len(),
        forall|k: int| i <= k < skip_digits_spec(s, i) ==> is_digit_char(s[k]),
        skip_digits_spec(s, i) < s.len() ==> !is_digit_char(s[skip_digits_spec(s, i)]),
    decreases s.len() - i,
{
    if i < s.len() && is_digit_char(s[i]) {
        lemma_skip_digits_bounds(s, i + 1);
    }
}

pub fn skip_digits(s: &str, from: usize, n: usize) -> (r: usize)
    requires
        n == s@.len(),
        from <= n,
    ensures
        r == skip_digits_spec(s@, from as int),
        from <= r <= n,
{
    let mut i: usize = from;
    while i < n && is_digit(s.get_char(i))
        invariant
            from <= i <= n,
            n == s@.len(),
            skip_digits_spec(s@, from as int) == skip_digits_spec(s@, i as int),
        decreases n - i,
    {
        i = i + 1;
    }
    i
}

/// The length of `s` without its trailing whitespace.
pub open spec fn rtrim_spec(s: Seq<char>) -> int
    decreases s.len(),
{
    if s.len() > 0 && is_space_char(s.last()) {
        rtrim_spec(s.drop_last())
    } else {
        s.len() as int
    }
}

pub proof fn lemma_rtrim_bounds(s: Seq<char>)
    ensures
        0 <= rtrim_spec(s) <= s.len(),
        forall|k: int| rtrim_spec(s) <= k < s.len() ==> is_space_char(s[k]),
        rtrim_spec(s) > 0 ==> !is_space_char(s[rtrim_spec(s) - 1]),
    decreases s.len(),
{
    if s.len() > 0 && is_space_char(s.last()) {
        lemma_rtrim_bounds(s.drop_last());
        assert forall|k: int| rtrim_spec(s) <= k < s.len() implies is_space_char(s[k]) by {
            if k < s.len() - 1 {
                assert(s.drop_last()[k] == s[k]);
            }
        }
    }
}

/// `s` without leading and trailing whitespace.
pub open spec fn trim_spec(s: Seq<char>) -> Seq<char> {
    let a = skip_spaces_spec(s, 0);
    let b = rtrim_spec(s);
    if a <= b {
        s.subrange(a, b)
    } else {
        Seq::empty()
    }
}

pub fn trim_str(s: &str) -> (r: String)
    ensures
        r@ == trim_spec(s@),
{
    let n: usize = s.unicode_len();
    let a: usize = skip_spaces(s, 0, n);
    let mut b: usize = n;
    proof {
        assert(s@.take(n as int) =~= s@);
    }
    while b > 0 && is_space(s.get_char(b - 1))
        invariant
            b <= n,
            n == s@.len(),
            rtrim_spec(s@) == rtrim_spec(s@.take(b as int)),
        decreases b,
    {
        proof {
            assert(s@.take(b as int).drop_last() =~= s@.take(b - 1));
        }
        b = b - 1;
    }
    proof {
        if b > 0 {
            assert(s@.take(b as int).last() == s@[b - 1]);
        }
        assert(rtrim_spec(s@) == b);
        lemma_skip_spaces_bounds(s@, 0);
    }
    if a <= b {
        let r = s.substring_char(a, b).to_owned();
        proof {
            assert(r@ =~= trim_spec(s@));
        }
        r
    } else {
        String::new()
    }
}

/// A bracket character, as stripped from an `[name]` section header.
pub open spec fn is_bracket_char(c: char) -> bool {
    c == '[' || c == ']'
}

pub fn is_bracket(c: char) -> (r: bool)
    ensures
        r == is_bracket_char(c),
{
    c == '[' || c == ']'
}

/// The index of the first non-bracket character at or after `i`.
pub open spec fn skip_brackets_spec(s: Seq<char>, i: int) -> int
    decreases s.len() - i,
{
    if 0 <= i && i < s.len() && is_bracket_char(s[i]) {
        skip_brackets_spec(s, i + 1)
    } else {
        i
    }
}

/// The length of `s` without its trailing bracket characters.
pub open spec fn rtrim_brackets_spec(s: Seq<char>) -> int
    decreases s.len(),
{
    if s.len() > 0 && is_bracket_char(s.last()) {
        rtrim_brackets_spec(s.drop_last())
    } else {
        s.len() as int
    }
}

/// `s` without leading and trailing bracket characters.
pub open spec fn trim_brackets_spec(s: Seq<char>) -> Seq<char> {
    let a = skip_brackets_spec(s, 0);
    let b = rtrim_brackets_spec(s);
    if a <= b {
        s.subrange(a, b)
    } else {
        Seq::empty()
    }
}

proof fn lemma_skip_brackets_bounds(s: Seq<char>, i: int)
    requires
        0 <= i <= s.len(),
    ensures
        i <= skip_brackets_spec(s, i) <= s.len(),
    decreases s.len() - i,
{
    if i < s.len() && is_bracket_char(s[i]) {
        lemma_skip_brackets_bounds(s, i + 1);
    }
}

pub fn trim_brackets_str(s: &str) -> (r: String)
    ensures
        r@ == trim_brackets_spec(s@),
{
    let n: usize = s.unicode_len();
    let mut a: usize = 0;
    while a < n && is_bracket(s.get_char(a))
        invariant
            a <= n,
            n == s@.len(),
            skip_brackets_spec(s@, 0) == skip_brackets_spec(s@, a as int),
        decreases n - a,
    {
        a = a + 1;
    }
    proof {
        lemma_skip_brackets_bounds(s@, 0);
        assert(skip_brackets_spec(s@, 0) == a);
    }
    let mut b: usize = n;
    proof {
        assert(s@.take(n as int) =~= s@);
    }
    while b > 0 && is_bracket(s.get_char(b - 1))
        invariant
            b <= n,
            n == s@.len(),
            rtrim_brackets_spec(s@) == rtrim_brackets_spec(s@.take(b as int)),
        decreases b,
    {
        proof {
            assert(s@.take(b as int).drop_last() =~= s@.take(b - 1));
        }
        b = b - 1;
    }
    proof {
        if b > 0 {
            assert(s@.take(b as int).last() == s@[b - 1]);
        }
        assert(rtrim_brackets_spec(s@) == b);
    }
    if a <= b {
        let r = s.substring_char(a, b).to_owned();
        proof {
            assert(r@ =~= trim_brackets_spec(s@));
        }
        r
    } else {
        String::new()
    }
}

/// The largest index holding the character `c`, if any.
pub open spec fn rfind_char(s: Seq<char>, c: char) -> Option<int>
    decreases s.len(),
{
    if s.len() == 0 {
        None
    } else if s.last() == c {
        Some(s.len() - 1)
    } else {
        rfind_char(s.drop_last(), c)
    }
}

pub proof fn lemma_rfind_char(s: Seq<char>, c: char)
    ensures
        match rfind_char(s, c) {
            Some(j) => 0 <= j < s.len() && s[j] == c && (forall|k: int|
                j < k < s.len() ==> s[k] != c),
            None => forall|k: int| 0 <= k < s.len() ==> s[k] != c,
        },
    decreases s.len(),
{
    if s.len() > 0 && s.last() != c {
        lemma_rfind_char(s.drop_last(), c);
        assert forall|k: int| 0 <= k < s.len() - 1 implies s.drop_last()[k] == s[k] by {}
    }
}

pub fn rfind_char_exec(s: &str, c: char, n: usize) -> (r: Option<usize>)
    requires
        n == s@.len(),
    ensures
        match r {
            Some(j) => Some(j as int) == rfind_char(s@, c),
            None => rfind_char(s@, c) is None,
        },
{
    let mut b: usize = n;
    proof {
        assert(s@.take(n as int) =~= s@);
    }
    while b > 0
        invariant
            b <= n,
            n == s@.len(),
            rfind_char(s@, c) == rfind_char(s@.take(b as int), c),
        decreases b,
    {
        proof {
            assert(s@.take(b as int).last() == s@[b - 1]);
            assert(s@.take(b as int).drop_last() =~= s@.take(b - 1));
        }
        if s.get_char(b - 1) == c {
            return Some(b - 1);
        }
        b = b - 1;
    }
    None
}

/// The first index at or after `i` holding the character `c`.
pub open spec fn find_char_from(s: Seq<char>, c: char, i: int) -> Option<int>
    decreases s.len() - i,
{
    if i < 0 || i >= s.len() {
        None
    } else if s[i] == c {
        Some(i)
    } else {
        find_char_from(s, c, i + 1)
    }
}

pub proof fn lemma_find_char_from(s: Seq<char>, c: char, i: int)
    requires
        0 <= i,
    ensures
        match find_char_from(s, c, i) {
            Some(j) => i <= j < s.len() && s[j] == c && (forall|k: int| i <= k < j ==> s[k] != c),
            None => forall|k: int| i <= k < s.len() ==> s[k] != c,
        },
    decreases s.len() - i,
{
    if i < s.len() && s[i] != c {
        lemma_find_char_from(s, c, i + 1);
    }
}

pub fn find_char(s: &str, c: char, from: usize, n: usize) -> (r: Option<usize>)
    requires
        n == s@.len(),
        from <= n,
    ensures
        match r {
            Some(j) => Some(j as int) == find_char_from(s@, c, from as int),
            None => find_char_from(s@, c, from as int) is None,
        },
{
    let mut i: usize = from;
    while i < n
        invariant
            from <= i <= n,
            n == s@.len(),
            find_char_from(s@, c, from as int) == find_char_from(s@, c, i as int),
        decreases n - i,
    {
        if s.get_char(i) == c {
            return Some(i);
        }
        i = i + 1;
    }
    None
}

/// The segments of `s` between occurrences of `c`: splitting the empty
/// sequence yields one empty segment, and every separator contributes a
/// boundary, so `a;;b` has three segments.
pub open spec fn split_char_spec(s: Seq<char>, c: char) -> Seq<Seq<char>>
    decreases s.len(),
    via split_char_spec_decreases
{
    match find_char_from(s, c, 0) {
        None => seq![s],
        Some(i) => seq![s.take(i)] + split_char_spec(s.skip(i + 1), c),
    }
}

#[via_fn]
proof fn split_char_spec_decreases(s: Seq<char>, c: char) {
    lemma_find_char_from(s, c, 0);
}

proof fn lemma_split_char_step(s: Seq<char>, c: char, a: int, i: int)
    requires
        0 <= a <= i < s.len(),
        s[i] == c,
        forall|k: int| a <= k < i ==> s[k] != c,
    ensures
        split_char_spec(s.skip(a), c) == seq![s.subrange(a, i)] + split_char_spec(
            s.skip(i + 1),
            c,
        ),
{
    let t = s.skip(a);
    assert(t[i - a] == c);
    lemma_find_char_from(t, c, 0);
    assert forall|k: int| 0 <= k < i - a implies t[k] != c by {
        assert(t[k] == s[a + k]);
    }
    assert(find_char_from(t, c, 0) == Some(i - a)) by {
        lemma_find_char_from(t, c, 0);
        if find_char_from(t, c, 0) is None {
            assert(t[i - a] != c);
        } else {
            let j = find_char_from(t, c, 0)->Some_0;
            if j < i - a {
                assert(t[j] != c);
            } else if j > i - a {
                assert(t[i - a] != c);
            }
        }
    }
    assert(t.take(i - a) =~= s.subrange(a, i));
    assert(t.skip(i - a + 1) =~= s.skip(i + 1));
}

proof fn lemma_split_char_last(s: Seq<char>, c: char, a: int)
    requires
        0 <= a <= s.len(),
        forall|k: int| a <= k < s.len() ==> s[k] != c,
    ensures
        split_char_spec(s.skip(a), c) == seq![s.subrange(a, s.len() as int)],
{
    let t = s.skip(a);
    assert forall|k: int| 0 <= k < t.len() implies t[k] != c by {
        assert(t[k] == s[a + k]);
    }
    lemma_find_char_from(t, c, 0);
    if find_char_from(t, c, 0) is Some {
        let j = find_char_from(t, c, 0)->Some_0;
        assert(t[j] != c);
    }
    assert(t =~= s.subrange(a, s.len() as int));
}

/// Splits `s` at every occurrence of `c`, keeping empty segments.
pub fn split_char(s: &str, c: char) -> (r: Vec<String>)
    ensures
        r.deep_view() == split_char_spec(s@, c),
{
    let n: usize = s.unicode_len();
    let mut out: Vec<String> = Vec::new();
    let mut start: usize = 0;
    proof {
        assert(s@.skip(0) =~= s@);
    }
    loop
        invariant
            start <= n,
            n == s@.len(),
            split_char_spec(s@, c) == out.deep_view() + split_char_spec(s@.skip(start as int), c),
        decreases n - start,
    {
        let found = find_char(s, c, start, n);
        proof {
            lemma_find_char_from(s@, c, start as int);
        }
        match found {
            Some(i) => {
                proof {
                    lemma_split_char_step(s@, c, start as int, i as int);
                }
                let ghost prev = out.deep_view();
                let seg = s.substring_char(start, i).to_owned();
                out.push(seg);
                proof {
                    assert(out.deep_view() =~= prev.push(s@.subrange(start as int, i as int)));
                    assert(out.deep_view() + split_char_spec(s@.skip(i + 1), c) =~= prev + (seq![
                        s@.subrange(start as int, i as int),
                    ] + split_char_spec(s@.skip(i + 1), c)));
                }
                start = i + 1;
            },
            None => {
                proof {
                    lemma_split_char_last(s@, c, start as int);
                }
                let ghost prev = out.deep_view();
                let seg = s.substring_char(start, n).to_owned();
                out.push(seg);
                proof {
                    assert(out.deep_view() =~= prev.push(
                        s@.subrange(start as int, s@.len() as int),
                    ));
                    assert(out.deep_view() =~= prev + seq![
                        s@.subrange(start as int, s@.len() as int),
                    ]);
                }
                return out;
            },
        }
    }
}

/// `pat` occurs in `s` starting at index `i`.
pub open spec fn match_at(s: Seq<char>, pat: Seq<char>, i: int) -> bool {
    0 <= i && i + pat.len() <= s.len() && (forall|j: int|
        0 <= j < pat.len() ==> s[i + j] == pat[j])
}

pub fn is_match_at(s: &str, pat: &str, i: usize, n: usize, m: usize) -> (r: bool)
    requires
        n == s@.len(),
        m == pat@.len(),
        i <= n,
    ensures
        r == match_at(s@, pat@, i as int),
{
    if m > n - i {
        return false;
    }
    let mut j: usize = 0;
    while j < m
        invariant
            0 <= j <= m,
            i + m <= n,
            n == s@.len(),
            m == pat@.len(),
            forall|k: int| 0 <= k < j ==> s@[i + k] == pat@[k],
        decreases m - j,
    {
        if s.get_char(i + j) != pat.get_char(j) {
            assert(!match_at(s@, pat@, i as int)) by {
                assert(s@[i + j] != pat@[j as int]);
            }
            return false;
        }
        j = j + 1;
    }
    true
}

/// The first index at or after `i` where `pat` occurs in `s`.
pub open spec fn find_from_spec(s: Seq<char>, pat: Seq<char>, i: int) -> Option<int>
    decreases s.len() - i,
{
    if i < 0 || i + pat.len() > s.len() {
        None
    } else if match_at(s, pat, i) {
        Some(i)
    } else {
        find_from_spec(s, pat, i + 1)
    }
}

pub proof fn lemma_find_from_spec(s: Seq<char>, pat: Seq<char>, i: int)
    requires
        0 <= i,
    ensures
        match find_from_spec(s, pat, i) {
            Some(j) => i <= j && j + pat.len() <= s.len() && match_at(s, pat, j) && (forall|k: int|
                i <= k < j ==> !match_at(s, pat, k)),
            None => forall|k: int| i <= k ==> !match_at(s, pat, k),
        },
    decreases s.len() - i,
{
    if i + pat.len() > s.len() {
        assert forall|k: int| i <= k implies !match_at(s, pat, k) by {
            assert(k + pat.len() > s.len());
        }
    } else if !match_at(s, pat, i) {
        lemma_find_from_spec(s, pat, i + 1);
    }
}

pub fn find_from(s: &str, pat: &str, from: usize) -> (r: Option<usize>)
    requires
        from <= s@.len(),
    ensures
        match r {
            Some(j) => Some(j as int) == find_from_spec(s@, pat@, from as int),
            None => find_from_spec(s@, pat@, from as int) is None,
        },
{
    let n: usize = s.unicode_len();
    let m: usize = pat.unicode_len();
    if m > n - from {
        return None;
    }
    if m == 0 {
        return Some(from);
    }
    let last: usize = n - m;
    let mut i: usize = from;
    while i <= last
        invariant
            from <= i,
            i <= last + 1,
            last == n - m,
            m >= 1,
            n == s@.len(),
            m == pat@.len(),
            find_from_spec(s@, pat@, from as int) == find_from_spec(s@, pat@, i as int),
        decreases last + 1 - i,
    {
        if is_match_at(s, pat, i, n, m) {
            return Some(i);
        }
        i = i + 1;
    }
    None
}

/// `pat` occurs somewhere in `s`.
pub open spec fn contains_seq(s: Seq<char>, pat: Seq<char>) -> bool {
    exists|i: int| match_at(s, pat, i)
}

pub fn str_eq(a: &str, b: &str) -> (r: bool)
    ensures
        r == (a@ == b@),
{
    let n: usize = a.unicode_len();
    if n != b.unicode_len() {
        return false;
    }
    let mut i: usize = 0;
    while i < n
        invariant
            0 <= i <= n,
            n == a@.len(),
            n == b@.len(),
            forall|k: int| 0 <= k < i ==> a@[k] == b@[k],
        decreases n - i,
    {
        if a.get_char(i) != b.get_char(i) {
            return false;
        }
        i = i + 1;
    }
    proof {
        assert(a@ =~= b@);
    }
    true
}

/// `s` with every non-overlapping occurrence of `pat`, scanned left to
/// right, replaced by `rep`; `s` itself when `pat` is empty.
pub open spec fn replace_all_spec(s: Seq<char>, pat: Seq<char>, rep: Seq<char>) -> Seq<char>
    decreases s.len(),
{
    if pat.len() == 0 || s.len() < pat.len() {
        s
    } else if match_at(s, pat, 0) {
        rep + replace_all_spec(s.skip(pat.len() as int), pat, rep)
    } else {
        seq![s[0]] + replace_all_spec(s.skip(1), pat, rep)
    }
}

pub proof fn lemma_match_at_skip(s: Seq<char>, pat: Seq<char>, a: int, j: int)
    requires
        0 <= a <= s.len(),
        0 <= j,
    ensures
        match_at(s.skip(a), pat, j) == match_at(s, pat, a + j),
{
    if match_at(s.skip(a), pat, j) {
        assert forall|k: int| 0 <= k < pat.len() implies s[a + j + k] == pat[k] by {
            assert(s.skip(a)[j + k] == pat[k]);
        }
    }
    if match_at(s, pat, a + j) {
        assert forall|k: int| 0 <= k < pat.len() implies s.skip(a)[j + k] == pat[k] by {
            assert(s[a + j + k] == pat[k]);
        }
    }
}

pub proof fn lemma_replace_advance(s: Seq<char>, pat: Seq<char>, rep: Seq<char>, a: int, i: int)
    requires
        1 <= pat.len(),
        0 <= a <= i,
        i + pat.len() <= s.len(),
        match_at(s, pat, i),
        forall|k: int| a <= k < i ==> !match_at(s, pat, k),
    ensures
        replace_all_spec(s.skip(a), pat, rep) == s.subrange(a, i) + rep + replace_all_spec(
            s.skip(i + pat.len()),
            pat,
            rep,
        ),
    decreases i - a,
{
    let plen = pat.len() as int;
    if a == i {
        lemma_match_at_skip(s, pat, a, 0);
        assert(s.skip(a).skip(plen) =~= s.skip(a + plen));
        assert(s.subrange(a, i) + rep + replace_all_spec(s.skip(i + plen), pat, rep) =~= rep
            + replace_all_spec(s.skip(i + plen), pat, rep));
    } else {
        lemma_match_at_skip(s, pat, a, 0);
        lemma_match_at_skip(s, pat, a, i - a);
        assert(s.skip(a).len() >= pat.len());
        lemma_replace_advance(s, pat, rep, a + 1, i);
        assert(s.skip(a).skip(1) =~= s.skip(a + 1));
        assert(seq![s.skip(a)[0]] + (s.subrange(a + 1, i) + rep + replace_all_spec(
            s.skip(i + plen),
            pat,
            rep,
        )) =~= s.subrange(a, i) + rep + replace_all_spec(s.skip(i + plen), pat, rep));
    }
}

pub proof fn lemma_replace_no_match(s: Seq<char>, pat: Seq<char>, rep: Seq<char>, a: int)
    requires
        1 <= pat.len(),
        0 <= a <= s.len(),
        forall|k: int| a <= k ==> !match_at(s, pat, k),
    ensures
        replace_all_spec(s.skip(a), pat, rep) == s.subrange(a, s.len() as int),
    decreases s.len() - a,
{
    if s.len() - a < pat.len() {
        assert(s.skip(a) =~= s.subrange(a, s.len() as int));
    } else {
        lemma_match_at_skip(s, pat, a, 0);
        lemma_replace_no_match(s, pat, rep, a + 1);
        assert(s.skip(a).skip(1) =~= s.skip(a + 1));
        assert(seq![s.skip(a)[0]] + s.subrange(a + 1, s.len() as int) =~= s.subrange(
            a,
            s.len() as int,
        ));
    }
}

pub fn replace_all(s: &str, pat: &str, rep: &str) -> (r: String)
    ensures
        r@ == replace_all_spec(s@, pat@, rep@),
{
    let n: usize = s.unicode_len();
    let m: usize = pat.unicode_len();
    if m == 0 {
        return s.to_owned();
    }
    let mut out = String::new();
    let mut pos: usize = 0;
    proof {
        assert(s@.skip(0) =~= s@);
    }
    loop
        invariant
            pos <= n,
            n == s@.len(),
            m == pat@.len(),
            m >= 1,
            replace_all_spec(s@, pat@, rep@) == out@ + replace_all_spec(
                s@.skip(pos as int),
                pat@,
                rep@,
            ),
        decreases n - pos,
    {
        let found = find_from(s, pat, pos);
        proof {
            lemma_find_from_spec(s@, pat@, pos as int);
        }
        match found {
            Some(i) => {
                proof {
                    lemma_replace_advance(s@, pat@, rep@, pos as int, i as int);
                }
                out.append(s.substring_char(pos, i));
                out.append(rep);
                proof {
                    assert((out@ + replace_all_spec(s@.skip(i + m), pat@, rep@)) =~= replace_all_spec(
                        s@,
                        pat@,
                        rep@,
                    ));
                }
                pos = i + m;
            },
            None => {
                proof {
                    lemma_replace_no_match(s@, pat@, rep@, pos as int);
                }
                out.append(s.substring_char(pos, n));
                proof {
                    assert(out@ =~= replace_all_spec(s@, pat@, rep@));
                }
                return out;
            },
        }
    }
}

/// After a replacement that found at least one occurrence, the result
/// contains the replacement text as a substring.
pub proof fn lemma_replace_contains(s: Seq<char>, pat: Seq<char>, rep: Seq<char>)
    requires
        1 <= pat.len(),
        find_from_spec(s, pat, 0) is Some,
    ensures
        contains_seq(replace_all_spec(s, pat, rep), rep),
{
    let i = find_from_spec(s, pat, 0)->Some_0;
    lemma_find_from_spec(s, pat, 0);
    lemma_replace_advance(s, pat, rep, 0, i);
    assert(s.skip(0) =~= s);
    let prefix = s.subrange(0, i);
    let r = replace_all_spec(s, pat, rep);
    assert forall|j: int| 0 <= j < rep.len() implies r[i + j] == rep[j] by {
        assert(r == prefix + rep + replace_all_spec(s.skip(i + pat.len()), pat, rep));
    }
    assert(match_at(r, rep, i));
}

/// The decimal digit character for a value between 0 and 9.
pub open spec fn dec_digit(d: int) -> char {
    if d == 0 {
        '0'
    } else if d == 1 {
        '1'
    } else if d == 2 {
        '2'
    } else if d == 3 {
        '3'
    } else if d == 4 {
        '4'
    } else if d == 5 {
        '5'
    } else if d == 6 {
        '6'
    } else if d == 7 {
        '7'
    } else if d == 8 {
        '8'
    } else {
        '9'
    }
}

/// The decimal digit string of a non-negative number, most significant
/// digit first, without leading zeros (except for the number zero).
pub open spec fn dec_str(n: int) -> Seq<char>
    decreases n,
{
    if n < 10 {
        seq![dec_digit(n)]
    } else {
        dec_str(n / 10).push(dec_digit(n % 10))
    }
}

fn digit_to_str(d: u64) -> (r: &'static str)
    requires
        d < 10,
    ensures
        r@ == seq![dec_digit(d as int)],
{
    proof {
        reveal_strlit("0");
        reveal_strlit("1");
        reveal_strlit("2");
        reveal_strlit("3");
        reveal_strlit("4");
        reveal_strlit("5");
        reveal_strlit("6");
        reveal_strlit("7");
        reveal_strlit("8");
        reveal_strlit("9");
    }
    let r: &'static str = if d == 0 {
        "0"
    } else if d == 1 {
        "1"
    } else if d == 2 {
        "2"
    } else if d == 3 {
        "3"
    } else if d == 4 {
        "4"
    } else if d == 5 {
        "5"
    } else if d == 6 {
        "6"
    } else if d == 7 {
        "7"
    } else if d == 8 {
        "8"
    } else {
        "9"
    };
    proof {
        assert(r@ =~= seq![dec_digit(d as int)]);
    }
    r
}

pub fn u64_to_string(n: u64) -> (r: String)
    ensures
        r@ == dec_str(n as int),
    decreases n,
{
    if n < 10 {
        digit_to_str(n).to_owned()
    } else {
        let mut r = u64_to_string(n / 10);
        r.append(digit_to_str(n % 10));
        proof {
            assert(r@ =~= dec_str((n / 10) as int).push(dec_digit((n % 10) as int)));
        }
        r
    }
}

/// The value of a string of decimal digits, most significant first.
pub open spec fn digits_val(s: Seq<char>) -> int
    decreases s.len(),
{
    if s.len() == 0 {
        0
    } else {
        digits_val(s.drop_last()) * 10 + digit_val(s.last())
    }
}

pub proof fn lemma_digits_val_nonneg(s: Seq<char>)
    requires
        forall|k: int| 0 <= k < s.len() ==> is_digit_char(s[k]),
    ensures
        digits_val(s) >= 0,
    decreases s.len(),
{
    if s.len() > 0 {
        lemma_digits_val_nonneg(s.drop_last());
    }
}

pub proof fn lemma_digits_val_take(s: Seq<char>, i: int)
    requires
        forall|k: int| 0 <= k < s.len() ==> is_digit_char(s[k]),
        0 <= i <= s.len(),
    ensures
        digits_val(s.take(i)) <= digits_val(s),
    decreases s.len() - i,
{
    if i == s.len() {
        assert(s.take(i) =~= s);
    } else {
        lemma_digits_val_take(s, i + 1);
        assert(s.take(i + 1).drop_last() =~= s.take(i));
        assert(forall|k: int| 0 <= k < s.take(i).len() ==> is_digit_char(s.take(i)[k]));
        lemma_digits_val_nonneg(s.take(i));
        assert(digits_val(s.take(i + 1)) == digits_val(s.take(i)) * 10 + digit_val(s[i]));
    }
}

/// Reads the decimal digits of `s` between `from` and `to` as a number,
/// or `None` when that number does not fit in a `u16`.
pub fn digits_value_u16(s: &str, from: usize, to: usize) -> (r: Option<u16>)
    requires
        from <= to <= s@.len(),
        forall|k: int| from <= k < to ==> is_digit_char(s@[k]),
    ensures
        (r is Some) <==> digits_val(s@.subrange(from as int, to as int)) <= u16::MAX,
        r is Some ==> r.unwrap() == digits_val(s@.subrange(from as int, to as int)),
{
    let ghost full = s@.subrange(from as int, to as int);
    let mut acc: u32 = 0;
    let mut i: usize = from;
    proof {
        assert(full.take(0) =~= Seq::<char>::empty());
    }
    while i < to
        invariant
            from <= i <= to,
            to <= s@.len(),
            forall|k: int| from <= k < to ==> is_digit_char(s@[k]),
            full == s@.subrange(from as int, to as int),
            acc <= u16::MAX,
            acc == digits_val(full.take(i - from)),
        decreases to - i,
    {
        let c = s.get_char(i);
        let d: u32 = c as u32 - 48;
        proof {
            assert(is_digit_char(s@[i as int]));
            assert(full[i - from] == s@[i as int]);
            assert(full.take(i - from + 1).drop_last() =~= full.take(i - from));
            assert(digit_val(c) == d);
        }
        let next: u32 = acc * 10 + d;
        if next > 65535 {
            proof {
                assert(forall|k: int| 0 <= k < full.len() ==> is_digit_char(full[k]));
                lemma_digits_val_take(full, i - from + 1);
            }
            return None;
        }
        acc = next;
        i = i + 1;
    }
    proof {
        assert(full.take(to - from) =~= full);
    }
    Some(acc as u16)
}

} // verus!
