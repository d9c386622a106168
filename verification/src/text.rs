//! Character-level helpers over `&str`: whitespace trimming, equality,
//! prefix stripping and splitting at the first occurrence of a character.
//! Every function is stated over the character sequence `s@`.
use vstd::prelude::*;
use vstd::string::*;

verus! {

/// The Unicode `White_Space` property, as `char::is_whitespace` decides it.
pub open spec fn is_space(c: char) -> bool {
    ||| ('\u{9}' <= c && c <= '\u{d}')
    ||| c == ' '
    ||| c == '\u{85}'
    ||| c == '\u{a0}'
    ||| c == '\u{1680}'
    ||| ('\u{2000}' <= c && c <= '\u{200a}')
    ||| c == '\u{2028}'
    ||| c == '\u{2029}'
    ||| c == '\u{202f}'
    ||| c == '\u{205f}'
    ||| c == '\u{3000}'
}

/// Number of whitespace characters at the start of `s`.
pub open spec fn leading_spaces(s: Seq<char>) -> nat
    decreases s.len(),
{
    if s.len() > 0 && is_space(s[0]) {
        1 + leading_spaces(s.drop_first())
    } else {
        0
    }
}

/// Number of whitespace characters at the end of `s`.
pub open spec fn trailing_spaces(s: Seq<char>) -> nat
    decreases s.len(),
{
    if s.len() > 0 && is_space(s.last()) {
        1 + trailing_spaces(s.drop_last())
    } else {
        0
    }
}

/// `s` without leading and trailing whitespace (what `str::trim` returns).
pub open spec fn trimmed(s: Seq<char>) -> Seq<char> {
    let t = s.skip(leading_spaces(s) as int);
    t.take(t.len() - trailing_spaces(t))
}

/// The text after the first occurrence of `c` in `s`, if `c` occurs.
pub open spec fn after_first(s: Seq<char>, c: char) -> Option<Seq<char>>
    decreases s.len(),
{
    if s.len() == 0 {
        None
    } else if s[0] == c {
        Some(s.drop_first())
    } else {
        after_first(s.drop_first(), c)
    }
}

/// `s` with `prefix` removed, if `s` starts with `prefix`.
pub open spec fn without_prefix(s: Seq<char>, prefix: Seq<char>) -> Option<Seq<char>> {
    if prefix.len() <= s.len() && s.take(prefix.len() as int) == prefix {
        Some(s.skip(prefix.len() as int))
    } else {
        None
    }
}

pub proof fn lemma_leading_spaces(s: Seq<char>, i: int)
    requires
        0 <= i <= s.len(),
        forall|k: int| 0 <= k < i ==> is_space(#[trigger] s[k]),
        i == s.len() || !is_space(s[i]),
    ensures
        leading_spaces(s) == i,
    decreases i,
{
    if i > 0 {
        let t = s.drop_first();
        assert forall|k: int| 0 <= k < i - 1 implies is_space(#[trigger] t[k]) by {
            assert(t[k] == s[k + 1]);
        }
        if i < s.len() {
            assert(t[i - 1] == s[i]);
        }
        lemma_leading_spaces(t, i - 1);
    }
}

pub proof fn lemma_trailing_spaces(s: Seq<char>, m: int)
    requires
        0 <= m <= s.len(),
        forall|k: int| s.len() - m <= k < s.len() ==> is_space(#[trigger] s[k]),
        m == s.len() || !is_space(s[s.len() - 1 - m]),
    ensures
        trailing_spaces(s) == m,
    decreases m,
{
    if m > 0 {
        let t = s.drop_last();
        assert(is_space(s[s.len() - 1]));
        assert forall|k: int| t.len() - (m - 1) <= k < t.len() implies is_space(#[trigger] t[k]) by {
            assert(t[k] == s[k]);
        }
        if m < s.len() {
            assert(t[t.len() - 1 - (m - 1)] == s[s.len() - 1 - m]);
        }
        lemma_trailing_spaces(t, m - 1);
    }
}

/// The whitespace counted by `leading_spaces` is a run at the start of `s`,
/// ended by the end of `s` or by a character that is not whitespace.
pub proof fn lemma_leading_spaces_run(s: Seq<char>)
    ensures
        leading_spaces(s) <= s.len(),
        forall|k: int| 0 <= k < leading_spaces(s) ==> is_space(#[trigger] s[k]),
        leading_spaces(s) < s.len() ==> !is_space(s[leading_spaces(s) as int]),
    decreases s.len(),
{
    if s.len() > 0 && is_space(s[0]) {
        let t = s.drop_first();
        lemma_leading_spaces_run(t);
        assert forall|k: int| 0 <= k < leading_spaces(s) implies is_space(#[trigger] s[k]) by {
            if k > 0 {
                assert(s[k] == t[k - 1]);
            }
        }
        if leading_spaces(s) < s.len() {
            assert(s[leading_spaces(s) as int] == t[leading_spaces(t) as int]);
        }
    }
}

/// The whitespace counted by `trailing_spaces` is a run at the end of `s`,
/// preceded by the start of `s` or by a character that is not whitespace.
pub proof fn lemma_trailing_spaces_run(s: Seq<char>)
    ensures
        trailing_spaces(s) <= s.len(),
        forall|k: int| s.len() - trailing_spaces(s) <= k < s.len() ==> is_space(#[trigger] s[k]),
        trailing_spaces(s) < s.len() ==> !is_space(s[s.len() - 1 - trailing_spaces(s)]),
    decreases s.len(),
{
    if s.len() > 0 && is_space(s.last()) {
        let t = s.drop_last();
        lemma_trailing_spaces_run(t);
        assert forall|k: int| s.len() - trailing_spaces(s) <= k < s.len() implies is_space(
            #[trigger] s[k],
        ) by {
            if k < s.len() - 1 {
                assert(s[k] == t[k]);
            }
        }
        if trailing_spaces(s) < s.len() {
            assert(s[s.len() - 1 - trailing_spaces(s)] == t[t.len() - 1 - trailing_spaces(t)]);
        }
    }
}

/// A trimmed text neither starts nor ends with whitespace.
pub proof fn lemma_trimmed_ends(s: Seq<char>)
    ensures
        trimmed(s).len() > 0 ==> !is_space(trimmed(s)[0]) && !is_space(trimmed(s).last()),
        trimmed(s).len() <= s.len(),
{
    let u = s.skip(leading_spaces(s) as int);
    lemma_leading_spaces_run(s);
    lemma_trailing_spaces_run(u);
    let t = trimmed(s);
    if t.len() > 0 {
        assert(t[0] == u[0]);
        assert(u[0] == s[leading_spaces(s) as int]);
        assert(t.last() == u[u.len() - 1 - trailing_spaces(u)]);
    }
}

/// Trimming a trimmed text changes nothing.
pub proof fn lemma_trimmed_idempotent(s: Seq<char>)
    ensures
        trimmed(trimmed(s)) == trimmed(s),
{
    let t = trimmed(s);
    lemma_trimmed_ends(s);
    if t.len() > 0 {
        lemma_leading_spaces(t, 0);
        lemma_trailing_spaces(t, 0);
    }
    assert(t.skip(0) =~= t);
    assert(t.take(t.len() as int) =~= t);
}

pub proof fn lemma_after_first(s: Seq<char>, c: char, i: int)
    requires
        0 <= i <= s.len(),
        forall|k: int| 0 <= k < i ==> #[trigger] s[k] != c,
    ensures
        after_first(s, c) == after_first(s.skip(i), c),
    decreases i,
{
    if i > 0 {
        let t = s.drop_first();
        assert forall|k: int| 0 <= k < i - 1 implies #[trigger] t[k] != c by {
            assert(t[k] == s[k + 1]);
        }
        assert(s[0] != c);
        lemma_after_first(t, c, i - 1);
        assert(t.skip(i - 1) =~= s.skip(i));
    } else {
        assert(s.skip(0) =~= s);
    }
}

/// Whether `c` is whitespace.
pub fn is_space_char(c: char) -> (res: bool)
    ensures
        res == is_space(c),
{
    ('\u{9}' <= c && c <= '\u{d}') || c == ' ' || c == '\u{85}' || c == '\u{a0}' || c
        == '\u{1680}' || ('\u{2000}' <= c && c <= '\u{200a}') || c == '\u{2028}' || c
        == '\u{2029}' || c == '\u{202f}' || c == '\u{205f}' || c == '\u{3000}'
}

/// `s` without leading and trailing whitespace.
pub fn trim(s: &str) -> (res: &str)
    ensures
        res@ == trimmed(s@),
{
    let n = s.unicode_len();
    let mut i: usize = 0;
    while i < n && is_space_char(s.get_char(i))
        invariant
            n == s@.len(),
            i <= n,
            forall|k: int| 0 <= k < i ==> is_space(#[trigger] s@[k]),
        decreases n - i,
    {
        i = i + 1;
    }
    proof {
        lemma_leading_spaces(s@, i as int);
    }
    let mut j: usize = n;
    while j > i && is_space_char(s.get_char(j - 1))
        invariant
            n == s@.len(),
            i <= j <= n,
            forall|k: int| j <= k < n ==> is_space(#[trigger] s@[k]),
        decreases j - i,
    {
        j = j - 1;
    }
    proof {
        let t = s@.skip(i as int);
        assert forall|k: int| t.len() - (n - j) <= k < t.len() implies is_space(#[trigger] t[k]) by {
            assert(t[k] == s@[k + i]);
        }
        if j > i {
            assert(t[t.len() - 1 - (n - j)] == s@[j - 1]);
        }
        lemma_trailing_spaces(t, (n - j) as int);
        assert(t.take(t.len() - (n - j)) =~= s@.subrange(i as int, j as int));
    }
    s.substring_char(i, j)
}

/// Whether `a` and `b` hold the same characters.
pub fn same_text(a: &str, b: &str) -> (res: bool)
    ensures
        res == (a@ == b@),
{
    let n = a.unicode_len();
    if n != b.unicode_len() {
        return false;
    }
    let mut i: usize = 0;
    while i < n
        invariant
            n == a@.len(),
            n == b@.len(),
            i <= n,
            forall|k: int| 0 <= k < i ==> a@[k] == b@[k],
        decreases n - i,
    {
        if a.get_char(i) != b.get_char(i) {
            return false;
        }
        i = i + 1;
    }
    assert(a@ =~= b@);
    true
}

/// `s` with `prefix` removed, if `s` starts with `prefix` (as `str::strip_prefix`).
pub fn strip_prefix<'a>(s: &'a str, prefix: &str) -> (res: Option<&'a str>)
    ensures
        match res {
            Some(rest) => without_prefix(s@, prefix@) == Some(rest@),
            None => without_prefix(s@, prefix@) is None,
        },
{
    let n = s.unicode_len();
    let m = prefix.unicode_len();
    if m > n {
        return None;
    }
    let mut i: usize = 0;
    while i < m
        invariant
            n == s@.len(),
            m == prefix@.len(),
            m <= n,
            i <= m,
            forall|k: int| 0 <= k < i ==> s@[k] == prefix@[k],
        decreases m - i,
    {
        if s.get_char(i) != prefix.get_char(i) {
            assert(s@.take(m as int)[i as int] != prefix@[i as int]);
            return None;
        }
        i = i + 1;
    }
    assert(s@.take(m as int) =~= prefix@);
    Some(s.substring_char(m, n))
}

/// The text after the first occurrence of `c` in `s`, if any
/// (the second half of `str::split_once`).
pub fn after_first_char(s: &str, c: char) -> (res: Option<&str>)
    ensures
        match res {
            Some(rest) => after_first(s@, c) == Some(rest@),
            None => after_first(s@, c) is None,
        },
{
    let n = s.unicode_len();
    let mut i: usize = 0;
    while i < n
        invariant
            n == s@.len(),
            i <= n,
            forall|k: int| 0 <= k < i ==> #[trigger] s@[k] != c,
        decreases n - i,
    {
        if s.get_char(i) == c {
            proof {
                lemma_after_first(s@, c, i as int);
                let t = s@.skip(i as int);
                assert(t[0] == c);
                assert(t.drop_first() =~= s@.subrange(i + 1, n as int));
            }
            return Some(s.substring_char(i + 1, n));
        }
        i = i + 1;
    }
    proof {
        lemma_after_first(s@, c, n as int);
        assert(s@.skip(n as int).len() == 0);
    }
    None
}

} // verus!
