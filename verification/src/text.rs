//! Character-sequence helpers shared by the catalog search, the platform
//! filter, the installation index and the native-library extractor: substring
//! containment, file-name stem/extension splitting, and case-insensitive
//! comparison of ASCII letters.

use vstd::prelude::*;

verus! {

/// `sub` occurs somewhere in `s` as a contiguous run.
pub open spec fn contains_sub(s: Seq<char>, sub: Seq<char>) -> bool {
    exists|i: int| 0 <= i && i + sub.len() <= s.len() && #[trigger] s.subrange(i, i + sub.len())
        == sub
}

/// Compare two string slices character by character.
pub fn str_eq(a: &str, b: &str) -> (r: bool)
    ensures
        r == (a@ == b@),
{
    let a_len = a.unicode_len();
    let b_len = b.unicode_len();
    if a_len != b_len {
        assert(a@ != b@);
        return false;
    }
    let mut i: usize = 0;
    while i < a_len
        invariant
            a_len == a@.len(),
            b_len == b@.len(),
            a_len == b_len,
            0 <= i <= a_len,
            forall|j: int| 0 <= j < i ==> a@[j] == b@[j],
        decreases a_len - i,
    {
        if a.get_char(i) != b.get_char(i) {
            assert(a@ != b@);
            return false;
        }
        i = i + 1;
    }
    assert(a@ =~= b@);
    true
}

/// Substring search: does `sub` occur in `s`?
pub fn contains(s: &str, sub: &str) -> (r: bool)
    ensures
        r == contains_sub(s@, sub@),
{
    let s_len = s.unicode_len();
    let sub_len = sub.unicode_len();
    if sub_len > s_len {
        return false;
    }
    if sub_len == 0 {
        assert(s@.subrange(0int, 0int + sub@.len()) =~= sub@);
        return true;
    }
    let mut i: usize = 0;
    while i <= s_len - sub_len
        invariant
            s_len == s@.len(),
            sub_len == sub@.len(),
            1 <= sub_len <= s_len,
            0 <= i <= s_len - sub_len + 1,
            forall|j: int| 0 <= j < i ==> #[trigger] s@.subrange(j, j + sub@.len()) != sub@,
        decreases s_len - i,
    {
        if match_at(s, sub, i) {
            return true;
        }
        i = i + 1;
    }
    assert(forall|j: int| 0 <= j && j + sub@.len() <= s@.len() ==> #[trigger] s@.subrange(
        j,
        j + sub@.len(),
    ) != sub@);
    false
}

/// Does `sub` occur in `s` starting exactly at index `at`?
fn match_at(s: &str, sub: &str, at: usize) -> (r: bool)
    requires
        at + sub@.len() <= s@.len(),
    ensures
        r == (s@.subrange(at as int, at + sub@.len()) == sub@),
{
    let s_len = s.unicode_len();
    let sub_len = sub.unicode_len();
    let mut k: usize = 0;
    while k < sub_len
        invariant
            s_len == s@.len(),
            sub_len == sub@.len(),
            at + sub_len <= s_len,
            0 <= k <= sub_len,
            forall|j: int| 0 <= j < k ==> s@[at + j] == sub@[j],
        decreases sub_len - k,
    {
        if s.get_char(at + k) != sub.get_char(k) {
            assert(s@.subrange(at as int, at + sub@.len())[k as int] != sub@[k as int]);
            return false;
        }
        k = k + 1;
    }
    assert(s@.subrange(at as int, at + sub@.len()) =~= sub@);
    true
}

/// `c` occurs somewhere in `s`.
pub open spec fn contains_char(s: Seq<char>, c: char) -> bool {
    exists|i: int| 0 <= i < s.len() && s[i] == c
}

/// The suffix of `s` that follows the last occurrence of `c`; all of `s`
/// when `c` does not occur.
pub open spec fn suffix_after_last(s: Seq<char>, c: char) -> Seq<char>
    decreases s.len(),
{
    if s.len() == 0 {
        Seq::empty()
    } else if s.last() == c {
        Seq::empty()
    } else {
        suffix_after_last(s.drop_last(), c).push(s.last())
    }
}

/// The file name that a slash-separated path ends in.
pub open spec fn basename_of(s: Seq<char>) -> Seq<char> {
    suffix_after_last(s, '/')
}

proof fn lemma_suffix_no_occurrence(s: Seq<char>, c: char)
    requires
        !contains_char(s, c),
    ensures
        suffix_after_last(s, c) == s,
    decreases s.len(),
{
    if s.len() > 0 {
        assert(s[s.len() - 1] != c);
        assert(!contains_char(s.drop_last(), c)) by {
            assert(forall|i: int|
                0 <= i < s.drop_last().len() ==> s.drop_last()[i] == s[i]);
        }
        lemma_suffix_no_occurrence(s.drop_last(), c);
        assert(suffix_after_last(s, c) =~= s);
    } else {
        assert(suffix_after_last(s, c) =~= s);
    }
}

proof fn lemma_suffix_split(s: Seq<char>, c: char, j: int)
    requires
        0 <= j < s.len(),
        s[j] == c,
        forall|k: int| j < k < s.len() ==> s[k] != c,
    ensures
        suffix_after_last(s, c) == s.subrange(j + 1, s.len() as int),
    decreases s.len(),
{
    if j == s.len() - 1 {
        assert(suffix_after_last(s, c) =~= s.subrange(j + 1, s.len() as int));
    } else {
        assert(s.last() != c);
        lemma_suffix_split(s.drop_last(), c, j);
        assert(suffix_after_last(s, c) =~= s.subrange(j + 1, s.len() as int));
    }
}

/// The suffix after the last occurrence of a character never holds that
/// character.
pub proof fn lemma_suffix_free_of_char(s: Seq<char>, c: char)
    ensures
        !contains_char(suffix_after_last(s, c), c),
    decreases s.len(),
{
    if s.len() > 0 && s.last() != c {
        lemma_suffix_free_of_char(s.drop_last(), c);
        let suf = suffix_after_last(s, c);
        let pre = suffix_after_last(s.drop_last(), c);
        assert forall|i: int| 0 <= i < suf.len() implies suf[i] != c by {
            if i < pre.len() {
                assert(suf[i] == pre[i]);
            }
        }
    }
}

/// The suffix after the last occurrence of a character is a suffix of the
/// whole sequence.
pub proof fn lemma_suffix_is_suffix(s: Seq<char>, c: char)
    ensures
        suffix_after_last(s, c).len() <= s.len(),
        suffix_after_last(s, c) == s.subrange(
            s.len() - suffix_after_last(s, c).len(),
            s.len() as int,
        ),
    decreases s.len(),
{
    let suf = suffix_after_last(s, c);
    if s.len() == 0 || s.last() == c {
        assert(suf =~= s.subrange(s.len() - suf.len(), s.len() as int));
    } else {
        lemma_suffix_is_suffix(s.drop_last(), c);
        assert(suf =~= s.subrange(s.len() - suf.len(), s.len() as int));
    }
}

/// Whatever a contiguous part of `s` holds, `s` holds too.
pub proof fn lemma_contains_in_subrange(s: Seq<char>, a: int, b: int, sub: Seq<char>)
    requires
        0 <= a <= b <= s.len(),
        contains_sub(s.subrange(a, b), sub),
    ensures
        contains_sub(s, sub),
{
    let part = s.subrange(a, b);
    let i = choose|i: int|
        0 <= i && i + sub.len() <= part.len() && #[trigger] part.subrange(i, i + sub.len())
            == sub;
    assert(s.subrange(a + i, a + i + sub.len()) =~= part.subrange(i, i + sub.len()));
}

/// Index of the last occurrence of `c` in `s`, if any.
fn find_last(s: &str, c: char) -> (r: Option<usize>)
    ensures
        match r {
            Option::None => !contains_char(s@, c),
            Option::Some(j) => j < s@.len() && s@[j as int] == c && forall|k: int|
                j < k < s@.len() ==> s@[k] != c,
        },
{
    let len = s.unicode_len();
    let mut j: usize = len;
    while j > 0
        invariant
            len == s@.len(),
            0 <= j <= len,
            forall|k: int| j <= k < len ==> s@[k] != c,
        decreases j,
    {
        if s.get_char(j - 1) == c {
            return Option::Some(j - 1);
        }
        j = j - 1;
    }
    Option::None
}

/// The part of `s` after its last `/`; `s` itself when it has none.
pub fn base_name<'a>(s: &'a str) -> (r: &'a str)
    ensures
        r@ == basename_of(s@),
{
    let len = s.unicode_len();
    match find_last(s, '/') {
        Option::None => {
            proof {
                lemma_suffix_no_occurrence(s@, '/');
            }
            s
        },
        Option::Some(j) => {
            proof {
                lemma_suffix_split(s@, '/', j as int);
            }
            s.substring_char(j + 1, len)
        },
    }
}

/// The extension of a file name, as a path component is split: the part
/// after the last dot, unless the name has no dot or only a leading one.
pub open spec fn ext_of(name: Seq<char>) -> Option<Seq<char>> {
    if !contains_char(name, '.') {
        Option::None
    } else if name.len() == suffix_after_last(name, '.').len() + 1 {
        // the only text before the last dot is nothing: a leading-dot name
        Option::None
    } else {
        Option::Some(suffix_after_last(name, '.'))
    }
}

/// The stem of a file name: what precedes the extension, or the whole name
/// when there is none.
pub open spec fn stem_of(name: Seq<char>) -> Seq<char> {
    match ext_of(name) {
        Option::None => name,
        Option::Some(e) => name.subrange(0, name.len() - e.len() - 1),
    }
}

/// Split a file name at its last dot, as `ext_of` and `stem_of` describe.
pub fn split_name<'a>(name: &'a str) -> (r: (&'a str, Option<&'a str>))
    ensures
        r.0@ == stem_of(name@),
        (r.1 is Some) == (ext_of(name@) is Some),
        r.1 matches Option::Some(e) ==> ext_of(name@) == Option::Some(e@),
{
    let len = name.unicode_len();
    match find_last(name, '.') {
        Option::None => (name, Option::None),
        Option::Some(j) => {
            proof {
                lemma_suffix_split(name@, '.', j as int);
            }
            if j == 0 {
                (name, Option::None)
            } else {
                let stem = name.substring_char(0, j);
                let ext = name.substring_char(j + 1, len);
                (stem, Option::Some(ext))
            }
        },
    }
}

/// An ASCII capital letter.
pub open spec fn is_ascii_upper(c: char) -> bool {
    65 <= c as u32 && c as u32 <= 90
}

/// An ASCII small letter.
pub open spec fn is_ascii_lower(c: char) -> bool {
    97 <= c as u32 && c as u32 <= 122
}

/// Two characters are the same letter up to ASCII case.
pub open spec fn char_eq_ci(a: char, b: char) -> bool {
    a == b || (is_ascii_upper(a) && is_ascii_lower(b) && a as u32 + 32 == b as u32) || (
    is_ascii_lower(a) && is_ascii_upper(b) && a as u32 == b as u32 + 32)
}

/// Two texts are equal up to ASCII case.
pub open spec fn str_eq_ci(a: Seq<char>, b: Seq<char>) -> bool {
    a.len() == b.len() && forall|i: int| 0 <= i < a.len() ==> char_eq_ci(a[i], b[i])
}

/// Compare two string slices, treating ASCII capitals as their small forms.
pub fn eq_ignore_ascii_case(a: &str, b: &str) -> (r: bool)
    ensures
        r == str_eq_ci(a@, b@),
{
    let a_len = a.unicode_len();
    let b_len = b.unicode_len();
    if a_len != b_len {
        return false;
    }
    let mut i: usize = 0;
    while i < a_len
        invariant
            a_len == a@.len(),
            b_len == b@.len(),
            a_len == b_len,
            0 <= i <= a_len,
            forall|j: int| 0 <= j < i ==> char_eq_ci(a@[j], b@[j]),
        decreases a_len - i,
    {
        let ac = a.get_char(i);
        let bc = b.get_char(i);
        let au = ac as u32;
        let bu = bc as u32;
        let same = ac == bc || (65 <= au && au <= 90 && 97 <= bu && bu <= 122 && au + 32 == bu)
            || (97 <= au && au <= 122 && 65 <= bu && bu <= 90 && au == bu + 32);
        if !same {
            assert(!char_eq_ci(a@[i as int], b@[i as int]));
            return false;
        }
        i = i + 1;
    }
    true
}

} // verus!
